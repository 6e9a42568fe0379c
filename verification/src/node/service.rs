//! The start of a node: its configuration, and the steps of its start-up in order.

use vstd::prelude::*;
use vstd::string::StringExecFns;

use crate::crypto::keys::{ed25519_key_of_text, ed25519_parse};
use crate::hexadecimal::{encode_hex, hex_digits};
use crate::node::announcement::{
    publication_of, publish_config, publish_hint, publish_keys, node_key, DocKeyView, Publication,
    Tag,
};

verus! {

/// The socket on which another node is reached.
#[derive(Debug, PartialEq, Eq, Clone, Copy)]
pub enum PeerSocket {
    V4 { ip: [u8; 4], port: u16 },
    V6 { ip: [u8; 16], port: u16, flowinfo: u32, scope_id: u32 },
}

/// The address of another node: its identity and its socket.
#[derive(Debug)]
pub struct PeerAddr {
    pub id: [u8; 32],
    pub socket: PeerSocket,
}

/// How a node is started.
#[derive(Debug)]
pub struct ServiceConfig {
    /// The port for connections of other nodes.
    pub bind_port: u16,
    /// The port for remote calls.
    pub rpc_port: u16,
    /// The position of the node in the committee.
    pub index: usize,
    /// Whether the node founds the network.
    pub is_bootstrap: bool,
    /// The ticket of the shared document; one that founds the network makes its own.
    pub ticket: Option<String>,
    /// Nodes that are known from the start.
    pub bootstrap_peers: Option<Vec<PeerAddr>>,
    /// The contract that holds the intents.
    pub predicate_registry_contract_addr: String,
    /// The contract that holds the requests.
    pub request_pool_contract_addr: String,
}

/// Why a node does not start.
#[derive(Debug, PartialEq, Eq, Structural, Clone, Copy)]
pub enum ServiceError {
    /// The identity of a peer cannot be read.
    InvalidPeer,
    /// The socket of a peer cannot be read.
    InvalidSocket,
    /// There is no ticket to join with.
    TicketRequired,
    /// The node has no public key to announce.
    NoPublicKey,
}

impl ServiceError {
    /// What is told.
    pub open spec fn told(self) -> Seq<char> {
        match self {
            ServiceError::InvalidPeer => "Invalid public key of a bootstrap peer"@,
            ServiceError::InvalidSocket => "Invalid socket of a bootstrap peer"@,
            ServiceError::TicketRequired => "Ticket required for non-bootstrap nodes"@,
            ServiceError::NoPublicKey => "Failed to compute public key"@,
        }
    }

    /// What is told.
    pub fn text(&self) -> (text: &'static str)
        ensures
            text@ == self.told(),
    {
        match self {
            ServiceError::InvalidPeer => "Invalid public key of a bootstrap peer",
            ServiceError::InvalidSocket => "Invalid socket of a bootstrap peer",
            ServiceError::TicketRequired => "Ticket required for non-bootstrap nodes",
            ServiceError::NoPublicKey => "Failed to compute public key",
        }
    }
}

/// Whether these are the peers to start from: one, where both its identity and its socket are
/// given, and none otherwise.
pub open spec fn are_peers(
    peers: Option<Vec<PeerAddr>>,
    pubkey: Option<String>,
    socket: Option<PeerSocket>,
) -> bool {
    match (pubkey, socket) {
        (Some(key), Some(socket)) => {
            &&& peers matches Some(list)
            &&& list@.len() == 1
            &&& ed25519_key_of_text(key@) == Some(list@[0].id@)
            &&& list@[0].socket == socket
        },
        _ => peers is None,
    }
}

/// Whether this is what becomes of a peer whose identity and socket are given as texts, where
/// the socket was read as `socket`: the identity is read first, and each has to be readable.
pub open spec fn reads_peer(
    peers: Result<Option<Vec<PeerAddr>>, ServiceError>,
    key: String,
    socket: Option<PeerSocket>,
) -> bool {
    match peers {
        Ok(found) => socket is Some && are_peers(found, Some(key), socket),
        Err(e) => if ed25519_key_of_text(key@) is None {
            e == ServiceError::InvalidPeer
        } else {
            socket is None && e == ServiceError::InvalidSocket
        },
    }
}

/// Where the node finds its contracts.
#[derive(Debug)]
pub struct ContractAddresses {
    /// The contract from which the intents are read.
    pub intents: String,
    /// The contract in which requests are read and work is reported.
    pub requests: String,
}

impl ServiceConfig {
    /// The peers to start from, where each identity can be read:
    /// [`ServiceConfig::read_bootstrap_peers`] tells.
    pub fn build_bootstrap_peers(pubkey: Option<String>, socket: Option<PeerSocket>) -> (peers:
        Option<Vec<PeerAddr>>)
        requires
            pubkey matches Some(key) ==> socket is Some ==> ed25519_key_of_text(key@) is Some,
        ensures
            are_peers(peers, pubkey, socket),
    {
        match (pubkey, socket) {
            (Some(key), Some(socket)) => match ed25519_parse(key.as_str()) {
                Some(id) => {
                    let mut list: Vec<PeerAddr> = Vec::new();
                    list.push(PeerAddr { id, socket });
                    Some(list)
                },
                None => None,
            },
            _ => None,
        }
    }

    /// The peers to start from, given as texts; `read` reads a socket. Where one of the texts is
    /// missing there is none, and the other is not read; where one cannot be read, that is told.
    pub fn read_bootstrap_peers<F: Fn(&str) -> Option<PeerSocket>>(
        pubkey: Option<String>,
        ip: Option<String>,
        read: F,
    ) -> (peers: Result<Option<Vec<PeerAddr>>, ServiceError>)
        requires
            forall|text: &str| call_requires(read, (text,)),
        ensures
            match (pubkey, ip) {
                (Some(key), Some(ip)) => if ed25519_key_of_text(key@) is None {
                    peers == Err::<Option<Vec<PeerAddr>>, ServiceError>(ServiceError::InvalidPeer)
                } else {
                    exists|text: &str, socket: Option<PeerSocket>|
                        text@ == ip@ && #[trigger] call_ensures(read, (text,), socket)
                            && reads_peer(peers, key, socket)
                },
                _ => peers == Ok::<Option<Vec<PeerAddr>>, ServiceError>(None),
            },
    {
        match (pubkey, ip) {
            (Some(key), Some(ip)) => {
                if ed25519_parse(key.as_str()).is_none() {
                    return Err(ServiceError::InvalidPeer);
                }
                let text = ip.as_str();
                let socket = read(text);
                assert(call_ensures(read, (text,), socket));
                match socket {
                    Some(_) => Ok(Self::build_bootstrap_peers(Some(key), socket)),
                    None => Err(ServiceError::InvalidSocket),
                }
            },
            _ => Ok(None),
        }
    }

    /// Where the node finds its contracts: the intents in the predicate registry, the requests in
    /// the request pool.
    pub fn contract_addresses(&self) -> (addresses: ContractAddresses)
        ensures
            addresses.intents@ == self.predicate_registry_contract_addr@,
            addresses.requests@ == self.request_pool_contract_addr@,
    {
        ContractAddresses {
            intents: self.predicate_registry_contract_addr.clone(),
            requests: self.request_pool_contract_addr.clone(),
        }
    }
}

/// How often the pool is asked for requests, in milliseconds.
pub const POLL_MILLIS: u64 = 100;

/// Where the shared document comes from.
#[derive(Debug)]
pub enum DocumentSource {
    /// The node creates it.
    Create,
    /// The node joins it with a ticket.
    Join { ticket: String },
}

/// Where the shared document comes from: a node that founds the network creates it, and any
/// other needs a ticket.
pub fn document_source(is_bootstrap: bool, ticket: Option<String>) -> (source: Result<
    DocumentSource,
    ServiceError,
>)
    ensures
        source == (if is_bootstrap {
            Ok(DocumentSource::Create)
        } else {
            match ticket {
                Some(ticket) => Ok(DocumentSource::Join { ticket }),
                None => Err(ServiceError::TicketRequired),
            }
        }),
{
    if is_bootstrap {
        Ok(DocumentSource::Create)
    } else {
        match ticket {
            Some(ticket) => Ok(DocumentSource::Join { ticket }),
            None => Err(ServiceError::TicketRequired),
        }
    }
}

/// What a node does with the document that it created.
#[derive(Debug)]
pub struct CreatedDocument {
    /// What is written to the file that holds the ticket.
    pub ticket_file: String,
    /// The network's parameters, announced.
    pub publication: Publication,
}

/// What a node does with the document that it created, to which `ticket` gives access: the
/// ticket is written down on a line of its own, and the network's parameters are announced.
pub fn created_document(config: &[u8], ticket: &str) -> (created: CreatedDocument)
    ensures
        created.ticket_file@ == ticket@ + "\n"@,
        created.publication@ == publication_of(Tag::Config, config@, DocKeyView::Config),
{
    let mut ticket_file = ticket.to_owned();
    ticket_file.append("\n");
    CreatedDocument { ticket_file, publication: publish_config(config) }
}

/// The text in which the network's parameters are saved.
pub fn config_dump(config: &[u8]) -> (text: String)
    ensures
        text@ == hex_digits(config@).map_values(|c: u8| c as char),
{
    encode_hex(config)
}

/// Announces the public key of the node at `index`, if it has one.
pub fn node_hint(public_key: Option<Vec<u8>>, index: usize) -> (hint: Result<
    Publication,
    ServiceError,
>)
    ensures
        match public_key {
            Some(key) => hint matches Ok(p) && p@ == publication_of(
                Tag::Hint,
                key@,
                node_key(index as nat),
            ),
            None => hint == Err::<Publication, ServiceError>(ServiceError::NoPublicKey),
        },
{
    match public_key {
        Some(key) => Ok(publish_hint(key.as_slice(), index)),
        None => Err(ServiceError::NoPublicKey),
    }
}

/// What a node does with the committee's keys that it made.
#[derive(Debug)]
pub struct MadeKeys {
    /// The directory of the file that holds the keys.
    pub directory: &'static str,
    /// The file that holds the keys.
    pub path: &'static str,
    /// The keys, announced; the file holds the announced bytes.
    pub publication: Publication,
}

/// What a node does with the committee's keys that it made: they are written to a file and
/// announced.
pub fn made_system_keys(keys: &[u8]) -> (made: MadeKeys)
    ensures
        made.directory@ == "tmp/sys"@,
        made.path@ == "tmp/sys/key"@,
        made.publication@ == publication_of(Tag::SystemKeys, keys@, DocKeyView::SystemKeys),
{
    MadeKeys { directory: "tmp/sys", path: "tmp/sys/key", publication: publish_keys(keys) }
}

/// A step of a node's start-up.
#[derive(Debug, PartialEq, Eq, Structural, Clone, Copy)]
pub enum StartupStep {
    /// Open the endpoint on a port, as the node at `index`.
    BuildNode { bind_port: u16, index: usize },
    /// Dial the known peers.
    ConnectPeers,
    /// Create or join the shared document.
    SetUpDocument,
    /// Connect to the chain, and open the gadgets and stores that need it, at the addresses of
    /// their contracts.
    OpenBackend,
    /// Start to keep the state in step with the document.
    SpawnStateSync,
    /// Wait some seconds for what was started.
    Wait { seconds: u64 },
    /// Load the network's parameters from the document.
    LoadConfig,
    /// Load the hints of the nodes before this one.
    LoadPreviousHints { index: usize },
    /// Announce the node's own hint.
    PublishHint { index: usize },
    /// Make the committee's keys and announce them.
    PublishSystemKeys,
    /// Start to renew the committee's keys when a node joins.
    SpawnKeysUpdater,
    /// Start to work on the requests of the pool.
    SpawnPoolWatcher { index: usize },
}

/// The steps up to the point where the network's parameters are known.
pub open spec fn opening_steps(bind_port: u16, index: usize) -> Seq<StartupStep> {
    seq![
        StartupStep::BuildNode { bind_port, index },
        StartupStep::ConnectPeers,
        StartupStep::SetUpDocument,
        StartupStep::OpenBackend,
        StartupStep::SpawnStateSync,
        StartupStep::Wait { seconds: 3 },
        StartupStep::LoadConfig,
    ]
}

/// The steps that make a node known to the committee.
pub open spec fn joining_steps(is_bootstrap: bool, index: usize) -> Seq<StartupStep> {
    if is_bootstrap {
        seq![
            StartupStep::Wait { seconds: 1 },
            StartupStep::PublishHint { index },
            StartupStep::Wait { seconds: 1 },
            StartupStep::PublishSystemKeys,
            StartupStep::SpawnKeysUpdater,
        ]
    } else {
        seq![
            StartupStep::LoadPreviousHints { index },
            StartupStep::Wait { seconds: 1 },
            StartupStep::PublishHint { index },
        ]
    }
}

/// All steps of a node's start-up, in order.
pub open spec fn startup_steps(config: ServiceConfig) -> Seq<StartupStep> {
    opening_steps(config.bind_port, config.index) + joining_steps(
        config.is_bootstrap,
        config.index,
    ) + seq![StartupStep::SpawnPoolWatcher { index: config.index }]
}

/// The steps of a node's start-up, in order. The first that fails ends the start-up.
pub fn build_full_service(config: &ServiceConfig) -> (steps: Vec<StartupStep>)
    ensures
        steps@ == startup_steps(*config),
{
    let index: usize = config.index;
    let mut steps: Vec<StartupStep> = Vec::new();
    steps.push(StartupStep::BuildNode { bind_port: config.bind_port, index });
    steps.push(StartupStep::ConnectPeers);
    steps.push(StartupStep::SetUpDocument);
    steps.push(StartupStep::OpenBackend);
    steps.push(StartupStep::SpawnStateSync);
    steps.push(StartupStep::Wait { seconds: 3 });
    steps.push(StartupStep::LoadConfig);
    if !config.is_bootstrap {
        steps.push(StartupStep::LoadPreviousHints { index });
    }
    steps.push(StartupStep::Wait { seconds: 1 });
    steps.push(StartupStep::PublishHint { index });
    if config.is_bootstrap {
        steps.push(StartupStep::Wait { seconds: 1 });
        steps.push(StartupStep::PublishSystemKeys);
        steps.push(StartupStep::SpawnKeysUpdater);
    }
    steps.push(StartupStep::SpawnPoolWatcher { index });
    assert(steps@ =~= startup_steps(*config));
    steps
}

/// Only a node that founds the network makes the committee's keys, and only such a node does
/// not load the hints of others.
pub proof fn law_roles_differ(config: ServiceConfig)
    ensures
        startup_steps(config).contains(StartupStep::PublishSystemKeys) == config.is_bootstrap,
        startup_steps(config).contains(StartupStep::SpawnKeysUpdater) == config.is_bootstrap,
        startup_steps(config).contains(StartupStep::LoadPreviousHints { index: config.index })
            == !config.is_bootstrap,
{
    let steps = startup_steps(config);
    if config.is_bootstrap {
        assert(steps[10] == StartupStep::PublishSystemKeys);
        assert(steps[11] == StartupStep::SpawnKeysUpdater);
    } else {
        assert(steps[7] == StartupStep::LoadPreviousHints { index: config.index });
    }
}

/// A node announces its hint only after it has loaded the network's parameters, and works on
/// requests only after it has announced its hint.
pub proof fn law_start_up_is_ordered(config: ServiceConfig, i: int, j: int)
    requires
        0 <= i < startup_steps(config).len(),
        0 <= j < startup_steps(config).len(),
    ensures
        startup_steps(config)[i] is LoadConfig && startup_steps(config)[j] is PublishHint ==> i < j,
        startup_steps(config)[i] is PublishHint && startup_steps(config)[j] is SpawnPoolWatcher
            ==> i < j,
        startup_steps(config)[i] is PublishHint && startup_steps(config)[j] is PublishSystemKeys
            ==> i < j,
        startup_steps(config).last() == (StartupStep::SpawnPoolWatcher { index: config.index }),
{
    let steps = startup_steps(config);
    if config.is_bootstrap {
        assert(steps[8] is PublishHint);
        assert(steps.len() == 13);
    } else {
        assert(steps[9] is PublishHint);
        assert(steps.len() == 11);
    }
}

/// Every node, whether it founds the network or joins it, opens its endpoint on its own port and
/// at its own place, dials the known peers, sets up the document, connects to the chain, starts to
/// follow the document, waits three seconds and loads the network's parameters, in this order. A
/// joining node then loads the hints before its own; each announces its own hint after a second.
/// The founder makes the committee's keys a second later and watches over them. The last thing
/// is to work on requests.
pub proof fn law_what_every_node_starts(config: ServiceConfig, steps: Vec<StartupStep>)
    requires
        steps@ == startup_steps(config),
    ensures
        steps@.len() == (if config.is_bootstrap {
            13nat
        } else {
            11
        }),
        steps@[0] == (StartupStep::BuildNode { bind_port: config.bind_port, index: config.index }),
        steps@[1] == StartupStep::ConnectPeers,
        steps@[2] == StartupStep::SetUpDocument,
        steps@[3] == StartupStep::OpenBackend,
        steps@[4] == StartupStep::SpawnStateSync,
        steps@[5] == (StartupStep::Wait { seconds: 3 }),
        steps@[6] == StartupStep::LoadConfig,
        !config.is_bootstrap ==> {
            &&& steps@[7] == (StartupStep::LoadPreviousHints { index: config.index })
            &&& steps@[8] == (StartupStep::Wait { seconds: 1 })
            &&& steps@[9] == (StartupStep::PublishHint { index: config.index })
            &&& steps@[10] == (StartupStep::SpawnPoolWatcher { index: config.index })
        },
        config.is_bootstrap ==> {
            &&& steps@[7] == (StartupStep::Wait { seconds: 1 })
            &&& steps@[8] == (StartupStep::PublishHint { index: config.index })
            &&& steps@[9] == (StartupStep::Wait { seconds: 1 })
            &&& steps@[10] == StartupStep::PublishSystemKeys
            &&& steps@[11] == StartupStep::SpawnKeysUpdater
            &&& steps@[12] == (StartupStep::SpawnPoolWatcher { index: config.index })
        },
{
}

/// No step but a wait is taken twice, and a step that every node takes is among those of each.
pub proof fn law_no_step_is_taken_twice(config: ServiceConfig, step: StartupStep)
    requires
        step !is Wait,
    ensures
        forall|i: int, j: int|
            0 <= i < startup_steps(config).len() && 0 <= j < startup_steps(config).len()
                && #[trigger] startup_steps(config)[i] == step && #[trigger] startup_steps(
                config,
            )[j] == step ==> i == j,
        step is ConnectPeers || step is SetUpDocument || step is OpenBackend || step is SpawnStateSync
            || step is LoadConfig ==> startup_steps(config).contains(step),
        step is BuildNode ==> (startup_steps(config).contains(step) <==> step == (
        StartupStep::BuildNode { bind_port: config.bind_port, index: config.index })),
        step is PublishHint ==> (startup_steps(config).contains(step) <==> step == (
        StartupStep::PublishHint { index: config.index })),
        step is SpawnPoolWatcher ==> (startup_steps(config).contains(step) <==> step == (
        StartupStep::SpawnPoolWatcher { index: config.index })),
{
    let steps = startup_steps(config);
    assert(steps[0] is BuildNode);
    assert(steps[1] is ConnectPeers);
    assert(steps[2] is SetUpDocument);
    assert(steps[3] is OpenBackend);
    assert(steps[4] is SpawnStateSync);
    assert(steps[6] is LoadConfig);
    if config.is_bootstrap {
        assert(steps.len() == 13);
        assert(steps[8] is PublishHint);
        assert(steps[12] is SpawnPoolWatcher);
    } else {
        assert(steps.len() == 11);
        assert(steps[9] is PublishHint);
        assert(steps[10] is SpawnPoolWatcher);
    }
}

/// A node's own place and port are all that two start-ups of the same kind may differ in: what
/// the contracts, the ticket, the peers and the port for remote calls are changes no step.
pub proof fn law_steps_depend_on_role_and_place(config: ServiceConfig, other: ServiceConfig)
    requires
        config.is_bootstrap == other.is_bootstrap,
        config.index == other.index,
        config.bind_port == other.bind_port,
    ensures
        startup_steps(config) == startup_steps(other),
{
}

/// There is one peer to start from, with the identity that the text spells and the socket that
/// was given, exactly where both are given.
pub proof fn law_a_peer_has_its_identity_and_socket(
    pubkey: Option<String>,
    socket: Option<PeerSocket>,
    peers: Option<Vec<PeerAddr>>,
)
    requires
        are_peers(peers, pubkey, socket),
    ensures
        peers is Some <==> pubkey is Some && socket is Some,
        peers is Some ==> {
            &&& peers->Some_0@.len() == 1
            &&& Some(peers->Some_0@[0].id@) == ed25519_key_of_text(pubkey->Some_0@)
            &&& peers->Some_0@[0].socket == socket->Some_0
        },
{
}

/// A peer that is given as two texts is found exactly where both can be read; an identity that
/// cannot be read is told before a socket that cannot.
pub proof fn law_what_is_told_of_a_peer(
    key: String,
    socket: Option<PeerSocket>,
    peers: Result<Option<Vec<PeerAddr>>, ServiceError>,
)
    requires
        reads_peer(peers, key, socket),
    ensures
        peers is Ok <==> ed25519_key_of_text(key@) is Some && socket is Some,
        peers is Ok ==> {
            &&& peers->Ok_0 is Some
            &&& peers->Ok_0->Some_0@.len() == 1
            &&& Some(peers->Ok_0->Some_0@[0].id@) == ed25519_key_of_text(key@)
            &&& Some(peers->Ok_0->Some_0@[0].socket) == socket
        },
        ed25519_key_of_text(key@) is None ==> peers == Err::<Option<Vec<PeerAddr>>, ServiceError>(
            ServiceError::InvalidPeer,
        ),
        ed25519_key_of_text(key@) is Some && socket is None ==> peers == Err::<
            Option<Vec<PeerAddr>>,
            ServiceError,
        >(ServiceError::InvalidSocket),
{
}

/// Each reason not to start has a text of its own.
pub proof fn law_reasons_are_told_apart(a: ServiceError, b: ServiceError)
    ensures
        a.told() == b.told() ==> a == b,
        ServiceError::TicketRequired.told() == "Ticket required for non-bootstrap nodes"@,
        ServiceError::NoPublicKey.told() == "Failed to compute public key"@,
{
    reveal_strlit("Invalid public key of a bootstrap peer");
    reveal_strlit("Invalid socket of a bootstrap peer");
    reveal_strlit("Ticket required for non-bootstrap nodes");
    reveal_strlit("Failed to compute public key");
    assert("Invalid public key of a bootstrap peer"@.len() == 38);
    assert("Invalid socket of a bootstrap peer"@.len() == 34);
    assert("Ticket required for non-bootstrap nodes"@.len() == 39);
    assert("Failed to compute public key"@.len() == 28);
}

/// The pool is asked ten times a second.
pub proof fn law_polls_in_a_second()
    ensures
        10 * POLL_MILLIS == 1000,
{
}

} // verus!
