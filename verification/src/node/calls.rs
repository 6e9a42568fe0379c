//! What calls of a node's parts give, in terms of what goes into them.

use vstd::prelude::*;

use crate::contract::ink_pool::DecryptionRequest;
use crate::crypto::keys::{ed25519_key_of_text, ed25519_public_key};
use crate::hexadecimal::{hex_bytes, hex_digits};
use crate::node::announcement::{
    config_query, hint_queries, key_of_node, law_entry_of_a_node, publish_config, publish_hint,
    publish_keys, DocKey, EntryQuery, Publication, Tag,
};
use crate::node::client::{
    law_a_delivery_is_handed_on_and_echoed, law_peers_are_dialled_in_order, Accepted, Dial, Node,
    PartialDecryptionHandler, Protocol,
};
use crate::node::service::{
    build_full_service, config_dump, created_document, document_source, law_what_every_node_starts,
    made_system_keys, node_hint, ContractAddresses, CreatedDocument, DocumentSource, MadeKeys,
    PeerAddr, PeerSocket, ServiceConfig, ServiceError, StartupStep,
};
use crate::node::sync::{
    on_doc_event, plan_system_keys, DocAction, DocEvent, EntryFetch, FetchAction, KeysError,
    KeysPlan, KeysUpdater,
};
use crate::node::worker::{DecryptionWork, WorkAction, WorkEvent};
use crate::scale::{le_bytes, scale_bytes};
use crate::text::number;

verus! {

/// Work on a request begins exactly where its witness is hexadecimal text, and for its own file.
pub proof fn law_where_work_begins(
    request: DecryptionRequest,
    id: Vec<u8>,
    index: usize,
    begun: Option<DecryptionWork>,
    work: &DecryptionWork,
    filename: Vec<u8>,
)
    requires
        call_ensures(DecryptionWork::begin, (request, id, index), begun),
        call_ensures(DecryptionWork::filename, (work,), filename),
    ensures
        call_requires(DecryptionWork::begin, (request, id, index)),
        begun is Some <==> hex_bytes(request.witness_hex.0@) is Some,
        begun == Some(*work) ==> filename@ == request.filename.0@,
{
}

/// A request that is worked on to its end: the decoded witness is verified, the content that was
/// found is fetched, the whole ciphertext is decrypted, and the file's name, the node's index and
/// the whole partial decryption are delivered to the location of the request. An echo of the very
/// delivery makes the node attest to the request, and the connection is closed.
#[verifier::rlimit(40)]
pub proof fn law_a_request_is_served(
    request: DecryptionRequest,
    id: Vec<u8>,
    index: u32,
    begun: Option<DecryptionWork>,
    w1: &mut DecryptionWork,
    cid: Vec<u8>,
    verify: WorkAction,
    w2: &mut DecryptionWork,
    fetch: WorkAction,
    w3: &mut DecryptionWork,
    ciphertext: Vec<u8>,
    decrypt: WorkAction,
    w4: &mut DecryptionWork,
    partial_decryption: Vec<u8>,
    deliver: WorkAction,
    w5: &mut DecryptionWork,
    response: Vec<u8>,
    attest: WorkAction,
    w6: &mut DecryptionWork,
    close: WorkAction,
)
    requires
        call_ensures(DecryptionWork::begin, (request, id, index as usize), begun),
        begun == Some(*old(w1)),
        call_ensures(DecryptionWork::step, (w1, WorkEvent::IntentFound { cid }), verify),
        *old(w2) == *final(w1),
        call_ensures(DecryptionWork::step, (w2, WorkEvent::Verified { verdict: Ok(true) }), fetch),
        *old(w3) == *final(w2),
        call_ensures(
            DecryptionWork::step,
            (w3, WorkEvent::Fetched { ciphertext: Some(ciphertext) }),
            decrypt,
        ),
        *old(w4) == *final(w3),
        call_ensures(
            DecryptionWork::step,
            (w4, WorkEvent::Decrypted { partial_decryption }),
            deliver,
        ),
        *old(w5) == *final(w4),
        call_ensures(DecryptionWork::step, (w5, WorkEvent::Echoed { response }), attest),
        *old(w6) == *final(w5),
        call_ensures(DecryptionWork::step, (w6, WorkEvent::Attested), close),
    ensures
        ({
            let message = scale_bytes(request.filename.0@) + le_bytes(index as nat, 4)
                + scale_bytes(partial_decryption@);
            &&& verify is Verify && Some(verify->witness@) == hex_bytes(request.witness_hex.0@)
            &&& fetch is Fetch && fetch->cid@ == cid@
            &&& decrypt is Decrypt && decrypt->ciphertext@ == ciphertext@
            &&& deliver is Deliver && deliver->location@ == request.location.0@
            &&& deliver->message@ == message
            &&& response@ == message ==> attest is Attest && attest->id@ == id@
                && attest->attestation@.len() == 0
            &&& response@ != message ==> attest is Close
            &&& close is Close
        }),
{
}

/// Each step may be taken after the one before it, whatever the outside brought: any content,
/// any ciphertext, any partial decryption whose length fits in four bytes, and any echo of up to
/// a thousand bytes, or none.
#[verifier::rlimit(40)]
pub proof fn law_a_request_can_be_served(
    request: DecryptionRequest,
    id: Vec<u8>,
    index: u32,
    begun: Option<DecryptionWork>,
    w1: &mut DecryptionWork,
    cid: Vec<u8>,
    verify: WorkAction,
    w2: &mut DecryptionWork,
    verdict: Result<bool, String>,
    fetch: WorkAction,
    w3: &mut DecryptionWork,
    ciphertext: Vec<u8>,
    decrypt: WorkAction,
    w4: &mut DecryptionWork,
    partial_decryption: Vec<u8>,
    deliver: WorkAction,
    w5: &mut DecryptionWork,
    response: Vec<u8>,
    attest: WorkAction,
    w6: &mut DecryptionWork,
)
    requires
        request.filename.0@.len() <= u32::MAX,
        partial_decryption@.len() <= u32::MAX,
        response@.len() <= 1000,
        call_ensures(DecryptionWork::begin, (request, id, index as usize), begun),
        begun == Some(*old(w1)),
        call_ensures(DecryptionWork::step, (w1, WorkEvent::IntentFound { cid }), verify),
        *old(w2) == *final(w1),
        call_ensures(DecryptionWork::step, (w2, WorkEvent::Verified { verdict: Ok(true) }), fetch),
        *old(w3) == *final(w2),
        call_ensures(
            DecryptionWork::step,
            (w3, WorkEvent::Fetched { ciphertext: Some(ciphertext) }),
            decrypt,
        ),
        *old(w4) == *final(w3),
        call_ensures(
            DecryptionWork::step,
            (w4, WorkEvent::Decrypted { partial_decryption }),
            deliver,
        ),
        *old(w5) == *final(w4),
        call_ensures(DecryptionWork::step, (w5, WorkEvent::Echoed { response }), attest),
        *old(w6) == *final(w5),
    ensures
        call_requires(DecryptionWork::step, (w1, WorkEvent::IntentFound { cid })),
        call_requires(DecryptionWork::step, (w2, WorkEvent::Verified { verdict })),
        call_requires(
            DecryptionWork::step,
            (w3, WorkEvent::Fetched { ciphertext: Some(ciphertext) }),
        ),
        call_requires(DecryptionWork::step, (w3, WorkEvent::Fetched { ciphertext: None })),
        call_requires(DecryptionWork::step, (w4, WorkEvent::Decrypted { partial_decryption })),
        call_requires(DecryptionWork::step, (w5, WorkEvent::Echoed { response })),
        call_requires(DecryptionWork::step, (w5, WorkEvent::Unreachable)),
        attest is Attest ==> call_requires(DecryptionWork::step, (w6, WorkEvent::Attested)),
{
}

/// Steps that go wrong end the work, each in its own way.
pub proof fn law_what_ends_the_work(
    w2: &mut DecryptionWork,
    text: String,
    refuse: WorkAction,
    w3: &mut DecryptionWork,
    fail: WorkAction,
    w4: &mut DecryptionWork,
    unavailable: WorkAction,
    w5: &mut DecryptionWork,
    give_up: WorkAction,
)
    requires
        call_ensures(
            DecryptionWork::step,
            (w2, WorkEvent::Verified { verdict: Ok(false) }),
            refuse,
        ),
        call_ensures(DecryptionWork::step, (w3, WorkEvent::Verified { verdict: Err(text) }), fail),
        call_ensures(
            DecryptionWork::step,
            (w4, WorkEvent::Fetched { ciphertext: None }),
            unavailable,
        ),
        call_ensures(DecryptionWork::step, (w5, WorkEvent::Unreachable), give_up),
    ensures
        refuse is Refuse,
        fail is Fail && fail->text@ == text@,
        unavailable is Unavailable,
        give_up is GiveUp,
{
}

/// The steps of a node's start-up are those of every node, in their order, with its own port and
/// place; a node that joins loads the hints before its own, and the founder makes the keys.
pub proof fn law_how_a_node_starts(config: &ServiceConfig, steps: Vec<StartupStep>)
    requires
        call_ensures(build_full_service, (config,), steps),
    ensures
        call_requires(build_full_service, (config,)),
        steps@.len() == (if config.is_bootstrap {
            13nat
        } else {
            11
        }),
        steps@[0] == (StartupStep::BuildNode { bind_port: config.bind_port, index: config.index }),
        steps@[1] == StartupStep::ConnectPeers,
        steps@[2] == StartupStep::SetUpDocument,
        steps@[3] == StartupStep::OpenBackend,
        steps@[4] == StartupStep::SpawnStateSync,
        steps@[5] == (StartupStep::Wait { seconds: 3 }),
        steps@[6] == StartupStep::LoadConfig,
        !config.is_bootstrap ==> {
            &&& steps@[7] == (StartupStep::LoadPreviousHints { index: config.index })
            &&& steps@[8] == (StartupStep::Wait { seconds: 1 })
            &&& steps@[9] == (StartupStep::PublishHint { index: config.index })
        },
        config.is_bootstrap ==> {
            &&& steps@[7] == (StartupStep::Wait { seconds: 1 })
            &&& steps@[8] == (StartupStep::PublishHint { index: config.index })
            &&& steps@[9] == (StartupStep::Wait { seconds: 1 })
            &&& steps@[10] == StartupStep::PublishSystemKeys
            &&& steps@[11] == StartupStep::SpawnKeysUpdater
        },
        steps@.last() == (StartupStep::SpawnPoolWatcher { index: config.index }),
{
    law_what_every_node_starts(*config, steps);
}

/// A founder creates the document whatever ticket it is given; any other node joins with its very
/// ticket, and without one it does not start.
pub proof fn law_where_the_document_comes_from(
    ticket: Option<String>,
    founder: Result<DocumentSource, ServiceError>,
    joiner: Result<DocumentSource, ServiceError>,
)
    requires
        call_ensures(document_source, (true, ticket), founder),
        call_ensures(document_source, (false, ticket), joiner),
    ensures
        founder == Ok::<DocumentSource, ServiceError>(DocumentSource::Create),
        joiner is Ok <==> ticket is Some,
        joiner is Ok ==> joiner->Ok_0 is Join && joiner->Ok_0->ticket@ == ticket->Some_0@,
        joiner is Err ==> joiner->Err_0 is TicketRequired,
{
}

/// The ticket of a created document is written down whole on one line, and the network's
/// parameters are announced whole.
pub proof fn law_what_a_founder_writes_down(
    config: &[u8],
    ticket: &str,
    created: CreatedDocument,
    dump: String,
)
    requires
        call_ensures(created_document, (config, ticket), created),
        call_ensures(config_dump, (config,), dump),
    ensures
        created.ticket_file@ == ticket@.push('\n'),
        created.publication.announcement.tag == Tag::Config,
        created.publication.announcement.data@ == config@,
        created.publication.key is Config,
        dump@.len() == 2 * config@.len(),
        dump@ == hex_digits(config@).map_values(|c: u8| c as char),
{
    reveal_strlit("\n");
    assert(ticket@ + "\n"@ =~= ticket@.push('\n'));
}

/// A node's key is announced whole, under the node's own index; a node without a key announces
/// nothing.
pub proof fn law_what_a_node_announces(
    key: Option<Vec<u8>>,
    index: usize,
    hint: Result<Publication, ServiceError>,
)
    requires
        call_ensures(node_hint, (key, index), hint),
    ensures
        hint is Ok <==> key is Some,
        hint is Ok ==> {
            &&& hint->Ok_0.announcement.tag == Tag::Hint
            &&& hint->Ok_0.announcement.data@ == key->Some_0@
            &&& hint->Ok_0.key is Node
            &&& number(hint->Ok_0.key->Node_index@) == Some(index as nat)
        },
        hint is Err ==> hint->Err_0 is NoPublicKey,
{
    if hint is Ok {
        law_entry_of_a_node(index, hint->Ok_0.key);
    }
}

/// Made keys are written where they are read from, and announced whole.
pub proof fn law_what_becomes_of_made_keys(keys: &[u8], made: MadeKeys)
    requires
        call_ensures(made_system_keys, (keys,), made),
    ensures
        made.directory@ == "tmp/sys"@,
        made.path@ == "tmp/sys/key"@,
        made.publication.announcement.tag == Tag::SystemKeys,
        made.publication.announcement.data@ == keys@,
        made.publication.key is SystemKeys,
{
}

/// The intents are read in the predicate registry and the requests in the request pool.
pub proof fn law_where_the_contracts_are(config: &ServiceConfig, addresses: ContractAddresses)
    requires
        call_ensures(ServiceConfig::contract_addresses, (config,), addresses),
    ensures
        addresses.intents@ == config.predicate_registry_contract_addr@,
        addresses.requests@ == config.request_pool_contract_addr@,
{
}

/// A peer whose identity and socket are given is the one peer to start from; where either is
/// missing there is none.
pub proof fn law_which_peer_is_known(
    pubkey: Option<String>,
    socket: Option<PeerSocket>,
    peers: Option<Vec<PeerAddr>>,
)
    requires
        call_ensures(ServiceConfig::build_bootstrap_peers, (pubkey, socket), peers),
    ensures
        (pubkey is Some && socket is Some ==> ed25519_key_of_text(pubkey->Some_0@) is Some)
            ==> call_requires(ServiceConfig::build_bootstrap_peers, (pubkey, socket)),
        peers is Some <==> pubkey is Some && socket is Some,
        peers is Some ==> {
            &&& peers->Some_0@.len() == 1
            &&& Some(peers->Some_0@[0].id@) == ed25519_key_of_text(pubkey->Some_0@)
            &&& peers->Some_0@[0].socket == socket->Some_0
        },
{
}

/// What is published is what was given, whole and in its own entry.
pub proof fn law_what_is_published(
    data: &[u8],
    index: usize,
    config: Publication,
    hint: Publication,
    keys: Publication,
    key: DocKey,
)
    requires
        call_ensures(publish_config, (data,), config),
        call_ensures(publish_hint, (data, index), hint),
        call_ensures(publish_keys, (data,), keys),
        call_ensures(key_of_node, (index,), key),
    ensures
        config.announcement.tag == Tag::Config && config.announcement.data@ == data@,
        config.key is Config,
        hint.announcement.tag == Tag::Hint && hint.announcement.data@ == data@,
        hint.key is Node && number(hint.key->Node_index@) == Some(index as nat),
        keys.announcement.tag == Tag::SystemKeys && keys.announcement.data@ == data@,
        keys.key is SystemKeys,
        key is Node && key->Node_index@ == hint.key->Node_index@,
{
    law_entry_of_a_node(index, hint.key);
}

/// A node asks for the network's parameters once, and for each earlier node's hint once, in the
/// order of their places, from the first.
pub proof fn law_what_a_node_asks_for(index: u32, config: EntryQuery, hints: Vec<EntryQuery>, i: int)
    requires
        call_ensures(config_query, (), config),
        call_ensures(hint_queries, (index as usize,), hints),
    ensures
        config.key is Config && config.limit == 1,
        hints@.len() == (if index == 0 {
            0int
        } else {
            index - 1
        }),
        0 <= i < hints@.len() ==> {
            &&& hints@[i].limit == 1
            &&& hints@[i].key is Node
            &&& number(hints@[i].key->Node_index@) == Some((i + 1) as nat)
        },
{
    if 0 <= i < hints@.len() {
        law_entry_of_a_node((i + 1) as usize, hints@[i].key);
    }
}

/// An entry of another node is fetched, a failed stream ends the work, and anything else is
/// passed over.
pub proof fn law_what_the_document_tells(event: DocEvent, action: DocAction)
    requires
        call_ensures(on_doc_event, (event,), action),
    ensures
        event == DocEvent::InsertRemote ==> action == DocAction::Fetch,
        event == DocEvent::Other ==> action == DocAction::Listen,
        event == DocEvent::Failed ==> action == DocAction::Stop,
{
}

/// A blob is fetched up to four times. What the first attempt brings is handed on; what a later
/// one brings is handed on unless it is a document.
pub proof fn law_a_blob_is_fetched_four_times(
    tag: Tag,
    fresh: EntryFetch,
    f1: &mut EntryFetch,
    f2: &mut EntryFetch,
    f3: &mut EntryFetch,
    f4: &mut EntryFetch,
    a1: FetchAction,
    a2: FetchAction,
    a3: FetchAction,
    a4: FetchAction,
    at_once: &mut EntryFetch,
    first: FetchAction,
    later: &mut EntryFetch,
    late: FetchAction,
)
    requires
        call_ensures(EntryFetch::new, (), fresh),
        *old(f1) == fresh,
        call_ensures(EntryFetch::fetched, (f1, None), a1),
        *old(f2) == *final(f1),
        call_ensures(EntryFetch::fetched, (f2, None), a2),
        *old(f3) == *final(f2),
        call_ensures(EntryFetch::fetched, (f3, None), a3),
        *old(f4) == *final(f3),
        call_ensures(EntryFetch::fetched, (f4, None), a4),
        *old(at_once) == fresh,
        call_ensures(EntryFetch::fetched, (at_once, Some(tag)), first),
        *old(later) == *final(f1) || *old(later) == *final(f2) || *old(later) == *final(f3),
        call_ensures(EntryFetch::fetched, (later, Some(tag)), late),
    ensures
        a1 == FetchAction::Retry,
        a2 == FetchAction::Retry,
        a3 == FetchAction::Retry,
        a4 == FetchAction::GiveUp,
        first == FetchAction::Forward,
        late == (if tag == Tag::Doc {
            FetchAction::Ignore
        } else {
            FetchAction::Forward
        }),
{
}

/// Keys are due for the first hint, and then whenever there are more hints than they were last
/// made for; an attempt that fails leaves them due.
pub proof fn law_when_keys_are_due(
    fresh: KeysUpdater,
    u: &mut KeysUpdater,
    hints: usize,
    succeeded: bool,
    done: (),
    after: &KeysUpdater,
    later: usize,
    due_first: bool,
    due_later: bool,
    due_without: bool,
)
    requires
        call_ensures(KeysUpdater::new, (), fresh),
        *old(u) == fresh,
        call_ensures(KeysUpdater::is_due, (&fresh, Some(hints)), due_first),
        call_ensures(KeysUpdater::published, (u, hints, succeeded), done),
        *after == *final(u),
        call_ensures(KeysUpdater::is_due, (after, Some(later)), due_later),
        call_ensures(KeysUpdater::is_due, (after, None), due_without),
    ensures
        due_first <==> hints > 0,
        succeeded ==> (due_later <==> later > hints),
        !succeeded ==> (due_later <==> later > 0),
        !due_without,
{
}

/// Keys are made for two hints and more, for a threshold of one; what is missing before that is
/// told, the parameters first.
pub proof fn law_which_keys_are_made(
    has_config: bool,
    hints: Option<usize>,
    plan: Result<KeysPlan, KeysError>,
)
    requires
        call_ensures(plan_system_keys, (has_config, hints), plan),
    ensures
        !has_config ==> plan == Err::<KeysPlan, KeysError>(KeysError::ConfigNotAvailable),
        has_config && hints is None ==> plan == Err::<KeysPlan, KeysError>(
            KeysError::HintsNotAvailable,
        ),
        has_config ==> (hints matches Some(n) ==> plan == Ok::<KeysPlan, KeysError>(
            if n >= 2 {
                KeysPlan::Generate { threshold: 1 }
            } else {
                KeysPlan::Nothing
            },
        )),
{
}

/// A node has the identity of its secret key, and the port that it was given; it takes deliveries
/// and speaks the three protocols of documents.
pub proof fn law_what_a_node_is(
    secret: [u8; 32],
    bind_port: u16,
    node: Node,
    kept: [u8; 32],
    id: [u8; 32],
    port: u16,
    protocols: Vec<Protocol>,
)
    requires
        call_ensures(Node::with_secret, (secret, bind_port), node),
        call_ensures(Node::secret, (&node,), kept),
        call_ensures(Node::id, (&node,), id),
        call_ensures(Node::port, (&node,), port),
        call_ensures(Node::accepted_protocols, (&node,), protocols),
    ensures
        kept@ == secret@,
        id@ == ed25519_public_key(secret@),
        port == bind_port,
        protocols@.len() == 4,
        protocols@[0] == Protocol::PartialDecryption,
        protocols@[1] == Protocol::Gossip,
        protocols@[2] == Protocol::Blobs,
        protocols@[3] == Protocol::Docs,
{
}

/// A new node has an identity that belongs to its secret key, and its own port.
pub proof fn law_what_a_new_node_is(
    bind_port: u16,
    node: Node,
    secret: [u8; 32],
    id: [u8; 32],
    port: u16,
)
    requires
        call_ensures(Node::build, (bind_port,), node),
        call_ensures(Node::secret, (&node,), secret),
        call_ensures(Node::id, (&node,), id),
        call_ensures(Node::port, (&node,), port),
    ensures
        id@ == ed25519_public_key(secret@),
        port == bind_port,
{
}

/// Every known peer is dialled for blobs, documents and gossip, one after the other; where none
/// is known nobody is dialled.
pub proof fn law_who_is_dialled(
    node: &Node,
    peers: &Vec<PeerAddr>,
    connections: Vec<Dial>,
    none: Vec<Dial>,
    peer: usize,
)
    requires
        call_ensures(Node::try_connect_peers, (node, Some(peers)), connections),
        call_ensures(Node::try_connect_peers, (node, None), none),
    ensures
        none@.len() == 0,
        connections@.len() == 3 * peers@.len(),
        peer < peers@.len() ==> {
            &&& connections@[3 * peer] == (Dial { peer, protocol: Protocol::Blobs })
            &&& connections@[3 * peer + 1] == (Dial { peer, protocol: Protocol::Docs })
            &&& connections@[3 * peer + 2] == (Dial { peer, protocol: Protocol::Gossip })
        },
{
    if peer < peers@.len() {
        law_peers_are_dialled_in_order(peers@.len(), peer, connections);
    }
}

/// A delivery of up to a mebibyte that starts with a message is accepted: the three fields are
/// handed on and all bytes are echoed.
pub proof fn law_what_is_accepted(
    handler: &PartialDecryptionHandler,
    filename: Seq<u8>,
    index: u32,
    partial_decryption: Seq<u8>,
    tail: Seq<u8>,
    bytes: &[u8],
    accepted: Option<Accepted>,
)
    requires
        filename.len() <= u32::MAX,
        partial_decryption.len() <= u32::MAX,
        bytes@ == scale_bytes(filename) + le_bytes(index as nat, 4) + scale_bytes(
            partial_decryption,
        ) + tail,
        call_ensures(PartialDecryptionHandler::accept, (handler, bytes), accepted),
    ensures
        bytes@.len() <= 1024 * 1024 ==> call_requires(
            PartialDecryptionHandler::accept,
            (handler, bytes),
        ),
        accepted is Some,
        accepted->Some_0.message.filename@ == filename,
        accepted->Some_0.message.index == index,
        accepted->Some_0.message.partial_decryption_bytes@ == partial_decryption,
        accepted->Some_0.echo@ == bytes@,
{
    let message = crate::message::MessageView {
        filename,
        index,
        partial_decryption_bytes: partial_decryption,
    };
    law_a_delivery_is_handed_on_and_echoed(message, tail, accepted);
}

/// Each reason not to start, and each thing that is missing, is told in its own words.
pub proof fn law_what_is_told(
    e: &ServiceError,
    told: &'static str,
    missing: &KeysError,
    missing_told: &'static str,
)
    requires
        call_ensures(ServiceError::text, (e,), told),
        call_ensures(KeysError::text, (missing,), missing_told),
    ensures
        told@ == match *e {
            ServiceError::InvalidPeer => "Invalid public key of a bootstrap peer"@,
            ServiceError::InvalidSocket => "Invalid socket of a bootstrap peer"@,
            ServiceError::TicketRequired => "Ticket required for non-bootstrap nodes"@,
            ServiceError::NoPublicKey => "Failed to compute public key"@,
        },
        missing_told@ == match *missing {
            KeysError::ConfigNotAvailable => "Config not available"@,
            KeysError::HintsNotAvailable => "Hints not available"@,
        },
{
}

/// A peer that is given as two texts is read from both: where a text is missing there is none,
/// where the identity or the socket cannot be read that is told, and otherwise it is the one peer.
pub proof fn law_how_a_peer_is_read<F: Fn(&str) -> Option<PeerSocket>>(
    pubkey: Option<String>,
    ip: Option<String>,
    read: F,
    peers: Result<Option<Vec<PeerAddr>>, ServiceError>,
)
    requires
        call_ensures(ServiceConfig::read_bootstrap_peers::<F>, (pubkey, ip, read), peers),
    ensures
        pubkey is None || ip is None ==> peers is Ok && peers->Ok_0 is None,
        pubkey is Some && ip is Some && ed25519_key_of_text(pubkey->Some_0@) is None ==> peers is Err
            && peers->Err_0 is InvalidPeer,
        pubkey is Some && ip is Some && ed25519_key_of_text(pubkey->Some_0@) is Some ==> exists|
            text: &str,
            socket: Option<PeerSocket>,
        |
            {
                &&& text@ == ip->Some_0@
                &&& #[trigger] call_ensures(read, (text,), socket)
                &&& socket is None ==> peers is Err && peers->Err_0 is InvalidSocket
                &&& socket is Some ==> {
                    &&& peers is Ok
                    &&& peers->Ok_0 is Some
                    &&& peers->Ok_0->Some_0@.len() == 1
                    &&& Some(peers->Ok_0->Some_0@[0].id@) == ed25519_key_of_text(pubkey->Some_0@)
                    &&& peers->Ok_0->Some_0@[0].socket == socket->Some_0
                }
            },
{
}

} // verus!
