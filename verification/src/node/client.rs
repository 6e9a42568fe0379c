//! The node of a client: it stores ciphertexts, and collects partial decryptions.

use vstd::prelude::*;

use crate::bytes::to_vec;
use crate::crypto::keys::{ed25519_generate, ed25519_public, ed25519_public_key};
use crate::message::{message_fits, message_scale, MessageView, PartialDecryptionMessage};
use crate::node::service::PeerAddr;
use crate::node::worker::{ActionView, EventView, WorkView};
use crate::scale::{le_bytes, scale_bytes};

verus! {

/// The name of the protocol under which partial decryptions are delivered.
pub const PD_ALPN: &'static str = "fangorn/partial-decryption/0";

/// The most bytes that are read of a delivery.
pub const DELIVERY_LIMIT: usize = 0x10_0000;

/// The most bytes that are read of the echo of a delivery.
pub const ECHO_LIMIT: usize = 1000;

/// A protocol that nodes speak.
#[derive(Debug, PartialEq, Eq, Structural, Clone, Copy)]
pub enum Protocol {
    /// The delivery of partial decryptions.
    PartialDecryption,
    /// Gossip about changes of documents.
    Gossip,
    /// The exchange of blobs.
    Blobs,
    /// The exchange of documents.
    Docs,
}

/// A connection to make: to the peer at this place of the list, for a protocol.
#[derive(Debug, PartialEq, Eq, Structural, Clone, Copy)]
pub struct Dial {
    pub peer: usize,
    pub protocol: Protocol,
}

/// The protocols for which a peer is dialled, in order.
pub open spec fn dialled(i: int) -> Protocol {
    if i == 0 {
        Protocol::Blobs
    } else if i == 1 {
        Protocol::Docs
    } else {
        Protocol::Gossip
    }
}

/// The connections to make to this number of peers: one after the other, each for all
/// protocols.
pub open spec fn dials(peers: nat) -> Seq<Dial> {
    Seq::new(3 * peers, |i: int| Dial { peer: (i / 3) as usize, protocol: dialled(i % 3) })
}

/// A node of a client, before its endpoint is opened.
#[derive(Debug)]
pub struct Node {
    secret: [u8; 32],
    public: [u8; 32],
    bind_port: u16,
}

impl Node {
    /// The secret key of the node's endpoint.
    pub closed spec fn endpoint_secret(self) -> Seq<u8> {
        self.secret@
    }

    /// The node's identity.
    pub closed spec fn endpoint_id(self) -> Seq<u8> {
        self.public@
    }

    /// The port of the node's endpoint.
    pub closed spec fn endpoint_port(self) -> u16 {
        self.bind_port
    }

    /// A node with an identity that nobody has used before, on a port of all addresses.
    pub fn build(bind_port: u16) -> (node: Self)
        ensures
            node.endpoint_port() == bind_port,
            node.endpoint_id() == ed25519_public_key(node.endpoint_secret()),
    {
        Self::with_secret(ed25519_generate(), bind_port)
    }

    /// The node whose endpoint has this secret key.
    pub fn with_secret(secret: [u8; 32], bind_port: u16) -> (node: Self)
        ensures
            node.endpoint_port() == bind_port,
            node.endpoint_secret() == secret@,
            node.endpoint_id() == ed25519_public_key(secret@),
    {
        Node { secret, public: ed25519_public(&secret), bind_port }
    }

    /// The secret key of the node's endpoint.
    pub fn secret(&self) -> (secret: [u8; 32])
        ensures
            secret@ == self.endpoint_secret(),
    {
        self.secret
    }

    /// The node's identity.
    pub fn id(&self) -> (id: [u8; 32])
        ensures
            id@ == self.endpoint_id(),
    {
        self.public
    }

    /// The port of the node's endpoint.
    pub fn port(&self) -> (port: u16)
        ensures
            port == self.endpoint_port(),
    {
        self.bind_port
    }

    /// The protocols that the node accepts, in the order in which they are offered.
    pub fn accepted_protocols(&self) -> (protocols: Vec<Protocol>)
        ensures
            protocols@ == seq![
                Protocol::PartialDecryption,
                Protocol::Gossip,
                Protocol::Blobs,
                Protocol::Docs,
            ],
    {
        let mut protocols: Vec<Protocol> = Vec::new();
        protocols.push(Protocol::PartialDecryption);
        protocols.push(Protocol::Gossip);
        protocols.push(Protocol::Blobs);
        protocols.push(Protocol::Docs);
        assert(protocols@ =~= seq![
            Protocol::PartialDecryption,
            Protocol::Gossip,
            Protocol::Blobs,
            Protocol::Docs,
        ]);
        protocols
    }

    /// The connections to make to the known peers, if any are known.
    pub fn try_connect_peers(&self, peers: Option<&Vec<PeerAddr>>) -> (connections: Vec<Dial>)
        ensures
            connections@ == dials(
                match peers {
                    Some(list) => list@.len(),
                    None => 0,
                },
            ),
    {
        let mut connections: Vec<Dial> = Vec::new();
        assert(connections@ =~= dials(0));
        if let Some(list) = peers {
            let mut i: usize = 0;
            while i < list.len()
                invariant
                    i <= list@.len(),
                    connections@ == dials(i as nat),
                decreases list@.len() - i,
            {
                connect_to_peer_for_multiple_protocols(&mut connections, i);
                i = i + 1;
            }
        }
        connections
    }
}

fn connect_to_peer_for_multiple_protocols(connections: &mut Vec<Dial>, peer: usize)
    requires
        old(connections)@ == dials(peer as nat),
    ensures
        final(connections)@ == dials((peer + 1) as nat),
{
    connections.push(Dial { peer, protocol: Protocol::Blobs });
    connections.push(Dial { peer, protocol: Protocol::Docs });
    connections.push(Dial { peer, protocol: Protocol::Gossip });
    proof {
        assert((3 * peer) / 3 == peer && (3 * peer) % 3 == 0);
        assert((3 * peer + 1) / 3 == peer && (3 * peer + 1) % 3 == 1);
        assert((3 * peer + 2) / 3 == peer && (3 * peer + 2) % 3 == 2);
        assert(connections@ =~= dials((peer + 1) as nat));
    }
}

/// Every known peer is dialled once for each of blobs, documents and gossip, and nobody else
/// is.
pub proof fn law_every_peer_is_dialled(peers: nat, peer: usize, protocol: Protocol)
    requires
        peers <= usize::MAX,
    ensures
        dials(peers).contains(Dial { peer, protocol }) == (peer < peers && protocol
            != Protocol::PartialDecryption),
        dials(peers).no_duplicates(),
{
    let all = dials(peers);
    if peer < peers && protocol != Protocol::PartialDecryption {
        let k: int = if protocol == Protocol::Blobs {
            0
        } else if protocol == Protocol::Docs {
            1
        } else {
            2
        };
        assert((3 * peer + k) / 3 == peer && (3 * peer + k) % 3 == k);
        assert(all[3 * peer + k] == (Dial { peer, protocol }));
    }
    if all.contains(Dial { peer, protocol }) {
        let i = all.index_of(Dial { peer, protocol });
        assert(all[i].peer == (i / 3) as usize);
    }
    assert forall|i: int, j: int|
        0 <= i < all.len() && 0 <= j < all.len() && i != j implies all[i] != all[j] by {
        assert(i == 3 * (i / 3) + i % 3 && j == 3 * (j / 3) + j % 3);
    }
}

/// A delivery that was accepted.
#[derive(Debug)]
pub struct Accepted {
    /// The message, which is handed on.
    pub message: PartialDecryptionMessage,
    /// What is sent back.
    pub echo: Vec<u8>,
}

/// Whether this is what becomes of a delivery: the message that starts it is handed on and all
/// bytes are echoed, or no message starts it.
pub open spec fn received(accepted: Option<Accepted>, bytes: Seq<u8>) -> bool {
    &&& accepted matches Some(a) ==> a.echo@ == bytes && message_fits(a.message@) && exists|
        tail: Seq<u8>,
    |
        bytes == #[trigger] (message_scale(a.message@) + tail)
    &&& forall|m: MessageView, tail: Seq<u8>|
        message_fits(m) && bytes == #[trigger] (message_scale(m) + tail) ==> (
        accepted matches Some(a) && a.message@ == m)
}

/// A delivery reaches its receiver: what a worker delivers is accepted, with the file, the index
/// and the partial decryption that the worker put in. If it is no longer than what is read of an
/// echo, the worker expects its echo, which makes it attest.
pub proof fn law_delivery_is_accepted_and_attested(
    work: WorkView,
    partial_decryption: Seq<u8>,
    accepted: Option<Accepted>,
)
    requires
        work.phase is PartialDecryption,
        work.expects(EventView::Decrypted { partial_decryption }),
        received(accepted, message_scale(work.message(partial_decryption))),
    ensures
        accepted is Some,
        accepted.unwrap().message@ == (MessageView {
            filename: work.request.filename,
            index: work.index as u32,
            partial_decryption_bytes: partial_decryption,
        }),
        message_scale(work.message(partial_decryption)).len() <= ECHO_LIMIT ==> work.next(
            EventView::Decrypted { partial_decryption },
        ).0.expects(EventView::Echoed { response: accepted.unwrap().echo@ }) && work.next(
            EventView::Decrypted { partial_decryption },
        ).0.next(EventView::Echoed { response: accepted.unwrap().echo@ }).1 == (
        ActionView::Attest { id: work.id, attestation: Seq::empty() }),
{
    let m = work.message(partial_decryption);
    assert(message_scale(m) =~= message_scale(m) + Seq::<u8>::empty());
}

/// The receiver of partial decryptions.
#[derive(Debug)]
pub struct PartialDecryptionHandler {

}

impl PartialDecryptionHandler {
    /// Accepts a delivery: the message that starts it is handed on, and all of its bytes are
    /// echoed. The result is `None` exactly where no message starts the delivery. A delivery over
    /// the limit is not read.
    pub fn accept(&self, bytes: &[u8]) -> (accepted: Option<Accepted>)
        requires
            bytes@.len() <= DELIVERY_LIMIT,
        ensures
            received(accepted, bytes@),
    {
        match PartialDecryptionMessage::decode(bytes) {
            Some(message) => Some(Accepted { message, echo: to_vec(bytes) }),
            None => None,
        }
    }
}

/// The peers are dialled one after the other, each for blobs, then for documents, then for
/// gossip.
pub proof fn law_peers_are_dialled_in_order(peers: nat, peer: usize, connections: Vec<Dial>)
    requires
        peer < peers,
        connections@ == dials(peers),
    ensures
        connections@.len() == 3 * peers,
        connections@[3 * peer] == (Dial { peer, protocol: Protocol::Blobs }),
        connections@[3 * peer + 1] == (Dial { peer, protocol: Protocol::Docs }),
        connections@[3 * peer + 2] == (Dial { peer, protocol: Protocol::Gossip }),
{
    assert((3 * peer) / 3 == peer && (3 * peer) % 3 == 0);
    assert((3 * peer + 1) / 3 == peer && (3 * peer + 1) % 3 == 1);
    assert((3 * peer + 2) / 3 == peer && (3 * peer + 2) % 3 == 2);
}

/// A delivery that starts with a message is accepted, whatever follows the message: its three
/// fields are handed on, and all of the bytes are echoed.
pub proof fn law_a_delivery_is_handed_on_and_echoed(
    message: MessageView,
    tail: Seq<u8>,
    accepted: Option<Accepted>,
)
    requires
        message.filename.len() <= u32::MAX,
        message.partial_decryption_bytes.len() <= u32::MAX,
        received(
            accepted,
            scale_bytes(message.filename) + le_bytes(message.index as nat, 4) + scale_bytes(
                message.partial_decryption_bytes,
            ) + tail,
        ),
    ensures
        accepted is Some,
        accepted->Some_0.message.filename@ == message.filename,
        accepted->Some_0.message.index == message.index,
        accepted->Some_0.message.partial_decryption_bytes@ == message.partial_decryption_bytes,
        accepted->Some_0.echo@ == scale_bytes(message.filename) + le_bytes(message.index as nat, 4)
            + scale_bytes(message.partial_decryption_bytes) + tail,
{
    let bytes = scale_bytes(message.filename) + le_bytes(message.index as nat, 4) + scale_bytes(
        message.partial_decryption_bytes,
    ) + tail;
    assert(bytes =~= message_scale(message) + tail);
}

/// A delivery that starts with no message is not accepted.
pub proof fn law_no_message_no_echo(bytes: Seq<u8>, accepted: Option<Accepted>)
    requires
        received(accepted, bytes),
        forall|message: MessageView, tail: Seq<u8>|
            message.filename.len() <= u32::MAX && message.partial_decryption_bytes.len() <= u32::MAX
                ==> bytes != #[trigger] (message_scale(message) + tail),
    ensures
        accepted is None,
{
    if accepted is Some {
        let a = accepted->Some_0;
        let tail = choose|tail: Seq<u8>| bytes == #[trigger] (message_scale(a.message@) + tail);
        assert(bytes != message_scale(a.message@) + tail);
    }
}

/// What is read of a delivery and of its echo, and the protocol under which it comes.
pub proof fn law_limits_of_a_delivery()
    ensures
        DELIVERY_LIMIT == 1024 * 1024,
        ECHO_LIMIT == 1000,
        PD_ALPN@ == "fangorn/partial-decryption/0"@,
{
}

} // verus!
