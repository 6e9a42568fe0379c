//! What nodes announce to each other through the shared document.

use vstd::prelude::*;

use crate::bytes::to_vec;
use crate::text::{
    decimal, decimal_text, law_decimal_has_no_leading_zero, law_decimal_is_unambiguous,
    law_decimal_spells_the_number, number,
};

verus! {

/// What an announcement is about.
#[derive(Debug, PartialEq, Eq, Structural, Clone, Copy)]
pub enum Tag {
    /// The parameters of the network.
    Config,
    /// The public key and hint of one node.
    Hint,
    /// The keys of the whole committee.
    SystemKeys,
    /// A stored document.
    Doc,
}

/// An announcement.
#[derive(Debug)]
pub struct Announcement {
    pub tag: Tag,
    pub data: Vec<u8>,
}

/// What an announcement says.
#[verifier::ext_equal]
pub struct AnnouncementView {
    pub tag: Tag,
    pub data: Seq<u8>,
}

impl View for Announcement {
    type V = AnnouncementView;

    open spec fn view(&self) -> AnnouncementView {
        AnnouncementView { tag: self.tag, data: self.data@ }
    }
}

/// The key of an entry of the shared document.
#[derive(Debug)]
pub enum DocKey {
    /// The entry of the network's parameters.
    Config,
    /// The entry of one node, under its index in decimal.
    Node { index: String },
    /// The entry of the committee's keys.
    SystemKeys,
}

/// The key of an entry of the shared document.
pub enum DocKeyView {
    Config,
    Node { index: Seq<char> },
    SystemKeys,
}

impl View for DocKey {
    type V = DocKeyView;

    open spec fn view(&self) -> DocKeyView {
        match self {
            DocKey::Config => DocKeyView::Config,
            DocKey::Node { index } => DocKeyView::Node { index: index@ },
            DocKey::SystemKeys => DocKeyView::SystemKeys,
        }
    }
}

/// The key of a node's entry.
pub open spec fn node_key(index: nat) -> DocKeyView {
    DocKeyView::Node { index: decimal(index) }
}

/// No two nodes write the same entry.
pub proof fn law_nodes_write_different_entries(i: nat, j: nat)
    ensures
        node_key(i) == node_key(j) ==> i == j,
{
    law_decimal_is_unambiguous(i, j);
}

/// The key of a node's entry.
pub fn key_of_node(index: usize) -> (key: DocKey)
    ensures
        key@ == node_key(index as nat),
{
    DocKey::Node { index: decimal_text(index as u64) }
}

/// Something to announce: it goes to the node's own state first, then into the document.
#[derive(Debug)]
pub struct Publication {
    pub announcement: Announcement,
    pub key: DocKey,
}

/// Something to announce.
pub struct PublicationView {
    pub announcement: AnnouncementView,
    pub key: DocKeyView,
}

impl View for Publication {
    type V = PublicationView;

    open spec fn view(&self) -> PublicationView {
        PublicationView { announcement: self.announcement@, key: self.key@ }
    }
}

/// What is announced about `tag`, under a key.
pub open spec fn publication_of(tag: Tag, data: Seq<u8>, key: DocKeyView) -> PublicationView {
    PublicationView { announcement: AnnouncementView { tag, data }, key }
}

/// Announces the network's parameters.
pub fn publish_config(config: &[u8]) -> (publication: Publication)
    ensures
        publication@ == publication_of(Tag::Config, config@, DocKeyView::Config),
{
    Publication {
        announcement: Announcement { tag: Tag::Config, data: to_vec(config) },
        key: DocKey::Config,
    }
}

/// Announces the public key and hint of the node at `index`.
pub fn publish_hint(public_key: &[u8], index: usize) -> (publication: Publication)
    ensures
        publication@ == publication_of(Tag::Hint, public_key@, node_key(index as nat)),
{
    Publication {
        announcement: Announcement { tag: Tag::Hint, data: to_vec(public_key) },
        key: key_of_node(index),
    }
}

/// Announces the committee's keys.
pub fn publish_keys(system_keys: &[u8]) -> (publication: Publication)
    ensures
        publication@ == publication_of(Tag::SystemKeys, system_keys@, DocKeyView::SystemKeys),
{
    Publication {
        announcement: Announcement { tag: Tag::SystemKeys, data: to_vec(system_keys) },
        key: DocKey::SystemKeys,
    }
}

/// A question for one entry of the document.
#[derive(Debug)]
pub struct EntryQuery {
    pub key: DocKey,
    pub limit: u64,
}

/// The question for the network's parameters.
pub fn config_query() -> (query: EntryQuery)
    ensures
        query.key@ == DocKeyView::Config,
        query.limit == 1,
{
    EntryQuery { key: DocKey::Config, limit: 1 }
}

/// How many nodes came before the node at `index`, counted in 32 bits from one.
pub open spec fn previous_nodes(index: nat) -> nat {
    let low = index % 0x1_0000_0000;
    if low == 0 {
        0
    } else {
        (low - 1) as nat
    }
}

/// A node asks for the hint of each node that came before it, counted from one, and of no other.
pub proof fn law_every_earlier_node_is_asked(index: nat, other: nat)
    requires
        index <= u32::MAX,
    ensures
        (1 <= other <= previous_nodes(index)) == (1 <= other < index),
{
}

/// The questions for the hints of the nodes before the node at `our_index`, in order.
pub fn hint_queries(our_index: usize) -> (queries: Vec<EntryQuery>)
    ensures
        queries@.len() == previous_nodes(our_index as nat),
        forall|i: int|
            0 <= i < queries@.len() ==> (#[trigger] queries@[i]).key@ == node_key((i + 1) as nat)
                && queries@[i].limit == 1,
{
    let wide: u64 = our_index as u64;
    assert(wide as u32 == wide % 0x1_0000_0000) by (bit_vector);
    let end: u32 = wide as u32;
    let mut queries: Vec<EntryQuery> = Vec::new();
    let mut i: u32 = 1;
    while i < end
        invariant
            1 <= i,
            i <= end || end == 0,
            end == our_index as nat % 0x1_0000_0000,
            end == 0 ==> i == 1,
            queries@.len() == i - 1,
            forall|j: int|
                0 <= j < queries@.len() ==> (#[trigger] queries@[j]).key@ == node_key(
                    (j + 1) as nat,
                ) && queries@[j].limit == 1,
        decreases end - i,
    {
        queries.push(
            EntryQuery { key: DocKey::Node { index: decimal_text(i as u64) }, limit: 1 },
        );
        i = i + 1;
    }
    queries
}

/// What is announced is what was given: under its own tag, with all of its bytes, and in the
/// entry that was asked for.
pub proof fn law_what_is_announced(
    tag: Tag,
    data: Seq<u8>,
    key: DocKeyView,
    publication: Publication,
)
    requires
        publication@ == publication_of(tag, data, key),
    ensures
        publication.announcement.tag == tag,
        publication.announcement.data@ == data,
        key is Config <==> publication.key is Config,
        key is SystemKeys <==> publication.key is SystemKeys,
        key matches DocKeyView::Node { index } ==> publication.key is Node
            && publication.key->Node_index@ == index,
{
}

/// The entry of a node is found under its index in decimal.
pub proof fn law_entry_of_a_node(index: usize, key: DocKey)
    requires
        key@ == node_key(index as nat),
    ensures
        key is Node,
        number(key->Node_index@) == Some(index as nat),
        index > 0 ==> key->Node_index@[0] != '0',
{
    law_decimal_spells_the_number(index as nat);
    law_decimal_has_no_leading_zero(index as nat);
}

/// The first node and the second ask nobody, and each further one asks one node more, up to where
/// 32 bits end.
pub proof fn law_each_node_asks_one_more(index: nat)
    ensures
        previous_nodes(0) == 0,
        previous_nodes(1) == 0,
        1 <= index < u32::MAX ==> previous_nodes(index + 1) == previous_nodes(index) + 1,
        previous_nodes(index + 0x1_0000_0000) == previous_nodes(index),
{
}

} // verus!
