//! What each call of the registry does, and what it leaves alone.

use vstd::prelude::*;
use vstd::utf8::encode_utf8;

use super::registry::{
    blob, decode_entry, encode_entry, entry_bytes, PredicateRegistry, RegistryState,
};
use super::registry_laws::{
    law_empty_registry_is_well_formed, law_entry_parts_are_packed_back, law_entry_round_trip,
    law_other_filenames_are_untouched, law_read_is_empty_unless_registered,
    law_register_keeps_well_formed, law_register_then_read, law_remove_keeps_well_formed,
    law_remove_takes_one_filename_out,
};
use crate::bytes::{lemma_u32_be_round_trip, listing, low_u32, prefixed, u32_be, u32_of_be};
use crate::hashing::keccak256_digest;
use crate::uint256::U256;

verus! {

/// A new filename is listed last, whole, behind all others, which are listed as before.
pub proof fn law_registered_filename_is_listed_last(
    s: RegistryState,
    filename: Seq<u8>,
    cid: Seq<u8>,
    predicate: Seq<u8>,
)
    requires
        s.well_formed(),
        !s.registered(keccak256_digest(filename)),
    ensures
        s.after_register(filename, cid, predicate).filenames() == s.filenames().push(filename),
        s.after_register(filename, cid, predicate).filename_hashes.len() == s.filename_hashes.len()
            + 1,
{
    let after = s.after_register(filename, cid, predicate);
    let hash = keccak256_digest(filename);
    assert forall|i: int| 0 <= i < s.filename_hashes.len() implies after.filenames()[i]
        == s.filenames()[i] by {
        assert(s.filename_hashes.contains(s.filename_hashes[i]));
        assert(s.filename_hashes[i] != hash);
        assert(after.filename_hashes[i] == s.filename_hashes[i]);
    }
    assert(after.filename_hashes[s.filename_hashes.len() as int] == hash);
    assert(after.filenames() =~= s.filenames().push(filename));
}

/// The last filename of the list takes the place of one that is removed; all others stay where
/// they are.
pub proof fn law_the_last_filename_fills_the_gap(s: RegistryState, filename: Seq<u8>, at: int)
    requires
        s.well_formed(),
        0 <= at < s.filename_hashes.len(),
        s.filename_hashes[at] == keccak256_digest(filename),
    ensures
        s.after_remove(filename).filenames().len() == s.filenames().len() - 1,
        forall|i: int|
            0 <= i < s.filenames().len() - 1 ==> #[trigger] s.after_remove(filename).filenames()[i]
                == (if i == at {
                s.filenames().last()
            } else {
                s.filenames()[i]
            }),
{
    let hash = keccak256_digest(filename);
    let after = s.after_remove(filename);
    let list = s.filename_hashes;
    list.index_of_first_ensures(hash);
    let first = list.index_of_first(hash).unwrap();
    assert(list.contains(hash));
    assert(first == at);
    let end = list.len() - 1;
    assert forall|i: int| 0 <= i < end implies #[trigger] after.filenames()[i] == (if i == at {
        s.filenames().last()
    } else {
        s.filenames()[i]
    }) by {
        let from = if i == at {
            end
        } else {
            i
        };
        assert(after.filename_hashes[i] == list[from]);
        assert(list[from] != hash);
    }
}

/// Reading a registered filename gives the bytes that are kept for it, all of them; reading any
/// other gives nothing. A filename is registered where its flag is set.
pub proof fn law_what_is_read(s: RegistryState, filename: Seq<u8>)
    ensures
        ({
            let hash = keccak256_digest(filename);
            &&& s.exists.contains_key(hash) ==> s.registered(hash) == s.exists[hash]
            &&& !s.exists.contains_key(hash) ==> !s.registered(hash)
            &&& s.registered(hash) && s.entries.contains_key(hash) ==> s.lookup(filename)
                == s.entries[hash]
            &&& !s.registered(hash) ==> s.lookup(filename) == Seq::<u8>::empty()
        }),
{
}

/// An entry is the content identifier behind its length in four bytes, then the predicate.
pub proof fn law_layout_of_an_entry(cid: Seq<u8>, predicate: Seq<u8>)
    requires
        cid.len() <= u32::MAX,
    ensures
        ({
            let data = entry_bytes(cid, predicate);
            let end = 4 + cid.len() as int;
            &&& data.len() == end + predicate.len()
            &&& u32_of_be(data.subrange(0, 4)) == cid.len()
            &&& data.subrange(4, end) == cid
            &&& data.skip(end) == predicate
        }),
{
    let data = entry_bytes(cid, predicate);
    let end = 4 + cid.len() as int;
    lemma_u32_be_round_trip(low_u32(cid.len()));
    assert(data.subrange(0, 4) =~= u32_be(low_u32(cid.len())));
    assert(data.subrange(4, end) =~= cid);
    assert(data.skip(end) =~= predicate);
}

/// Registering stores the filename and the entry under the hash of the filename and sets its
/// flag; removing clears all three. What is kept under another hash stays.
pub proof fn law_calls_touch_one_hash(
    s: RegistryState,
    filename: Seq<u8>,
    cid: Seq<u8>,
    predicate: Seq<u8>,
    other: Seq<u8>,
)
    requires
        other != keccak256_digest(filename),
    ensures
        ({
            let hash = keccak256_digest(filename);
            let more = s.after_register(filename, cid, predicate);
            let less = s.after_remove(filename);
            &&& more.registered(hash) && !less.registered(hash)
            &&& blob(more.raw_filenames, hash) == filename
            &&& blob(less.raw_filenames, hash) == Seq::<u8>::empty()
            &&& blob(less.entries, hash) == Seq::<u8>::empty()
            &&& more.filename_hashes == s.filename_hashes.push(hash)
            &&& more.registered(other) == s.registered(other)
            &&& less.registered(other) == s.registered(other)
            &&& blob(more.entries, other) == blob(s.entries, other)
            &&& blob(less.entries, other) == blob(s.entries, other)
            &&& blob(more.raw_filenames, other) == blob(s.raw_filenames, other)
            &&& blob(less.raw_filenames, other) == blob(s.raw_filenames, other)
        }),
{
}

/// A table gives what it holds under a key, and nothing where it holds nothing.
pub proof fn law_what_a_table_gives(table: Map<Seq<u8>, Seq<u8>>, key: Seq<u8>)
    ensures
        table.contains_key(key) ==> blob(table, key) == table[key],
        !table.contains_key(key) ==> blob(table, key) == Seq::<u8>::empty(),
{
}

/// What is read of a state is what the contract holds: all its fields, in order and whole.
pub proof fn law_the_state_is_what_is_held(registry: PredicateRegistry, i: int)
    ensures
        registry@.entries == registry.entries@,
        registry@.exists == registry.exists@,
        registry@.raw_filenames == registry.raw_filenames@,
        registry@.filename_hashes.len() == registry.filename_hashes@.len(),
        0 <= i < registry.filename_hashes@.len() ==> registry@.filename_hashes[i]
            == registry.filename_hashes@[i]@,
{
}

/// A filename is registered exactly if none with its hash is. It then reads back as what it was
/// registered with, whole, and is listed last; one that is refused changes nothing.
#[verifier::rlimit(40)]
pub proof fn law_a_filename_is_registered(
    registry: &mut PredicateRegistry,
    filename: Vec<u8>,
    cid: Vec<u8>,
    predicate: Vec<u8>,
    r: Result<(), Vec<u8>>,
    before: &PredicateRegistry,
    known: bool,
    count_before: U256,
    after: &PredicateRegistry,
    known_after: bool,
    count_after: U256,
    data: Vec<u8>,
    read_cid: Vec<u8>,
    read_predicate: Vec<u8>,
)
    requires
        cid@.len() <= u32::MAX,
        *before == *old(registry),
        call_ensures(
            PredicateRegistry::register_predicate,
            (registry, filename, cid, predicate),
            r,
        ),
        *after == *final(registry),
        call_ensures(PredicateRegistry::has_filename, (before, filename), known),
        call_ensures(PredicateRegistry::count, (before,), count_before),
        call_ensures(PredicateRegistry::has_filename, (after, filename), known_after),
        call_ensures(PredicateRegistry::count, (after,), count_after),
        call_ensures(PredicateRegistry::read, (after, filename), data),
        call_ensures(PredicateRegistry::read_cid, (after, filename), read_cid),
        call_ensures(PredicateRegistry::read_predicate, (after, filename), read_predicate),
    ensures
        call_requires(
            PredicateRegistry::register_predicate,
            (registry, filename, cid, predicate),
        ),
        r is Ok <==> !known,
        r is Err ==> r->Err_0@ == encode_utf8("FilenameAlreadyExists"@) && *after == *before,
        r is Ok ==> {
            &&& known_after
            &&& data@ == prefixed(cid@) + predicate@
            &&& read_cid@ == cid@
            &&& read_predicate@ == predicate@
            &&& count_after@ == count_before@ + 1
            &&& before@.well_formed() ==> after@.well_formed() && after@.filenames()
                == before@.filenames().push(filename@)
        },
{
    if r is Ok {
        law_register_then_read(before@, filename@, cid@, predicate@);
        if before@.well_formed() {
            law_register_keeps_well_formed(before@, filename@, cid@, predicate@);
            law_registered_filename_is_listed_last(before@, filename@, cid@, predicate@);
        }
    }
}

/// A filename is removed exactly if it is registered, and what was read of it is handed out. It
/// then reads as nothing and is no longer counted; where none is removed nothing changes.
#[verifier::rlimit(40)]
pub proof fn law_a_filename_is_removed(
    registry: &mut PredicateRegistry,
    filename: Vec<u8>,
    r: Result<Vec<u8>, Vec<u8>>,
    before: &PredicateRegistry,
    known: bool,
    count_before: U256,
    data: Vec<u8>,
    after: &PredicateRegistry,
    known_after: bool,
    count_after: U256,
    gone: Vec<u8>,
    gone_cid: Vec<u8>,
    gone_predicate: Vec<u8>,
)
    requires
        *before == *old(registry),
        before@.well_formed(),
        call_ensures(PredicateRegistry::remove_predicate, (registry, filename), r),
        *after == *final(registry),
        call_ensures(PredicateRegistry::has_filename, (before, filename), known),
        call_ensures(PredicateRegistry::count, (before,), count_before),
        call_ensures(PredicateRegistry::read, (before, filename), data),
        call_ensures(PredicateRegistry::has_filename, (after, filename), known_after),
        call_ensures(PredicateRegistry::count, (after,), count_after),
        call_ensures(PredicateRegistry::read, (after, filename), gone),
        call_ensures(PredicateRegistry::read_cid, (after, filename), gone_cid),
        call_ensures(PredicateRegistry::read_predicate, (after, filename), gone_predicate),
    ensures
        call_requires(PredicateRegistry::remove_predicate, (registry, filename)),
        r is Ok <==> known,
        r is Err ==> r->Err_0@ == encode_utf8("FilenameNotFound"@) && *after == *before,
        r is Ok ==> {
            &&& r->Ok_0@ == data@
            &&& data@.len() >= 4
            &&& !known_after
            &&& gone@.len() == 0
            &&& count_after@ == count_before@ - 1
            &&& after@.well_formed()
        },
        gone_cid@.len() == 0 && gone_predicate@.len() == 0,
{
    if r is Ok {
        law_remove_keeps_well_formed(before@, filename@);
        law_remove_takes_one_filename_out(before@, filename@, keccak256_digest(filename@));
        law_read_is_empty_unless_registered(before@, filename@);
    }
    law_read_is_empty_unless_registered(after@, filename@);
}

/// Registering or removing a filename leaves all that is told of another, as long as their hashes
/// differ.
pub proof fn law_another_filename_stays(
    registry: &mut PredicateRegistry,
    filename: Vec<u8>,
    cid: Vec<u8>,
    predicate: Vec<u8>,
    r: Result<(), Vec<u8>>,
    removal: &mut PredicateRegistry,
    removed: Result<Vec<u8>, Vec<u8>>,
    before: &PredicateRegistry,
    after: &PredicateRegistry,
    later: &PredicateRegistry,
    other: Vec<u8>,
    known: bool,
    known_after: bool,
    known_later: bool,
    data: Vec<u8>,
    data_after: Vec<u8>,
    data_later: Vec<u8>,
)
    requires
        keccak256_digest(other@) != keccak256_digest(filename@),
        *before == *old(registry),
        *before == *old(removal),
        call_ensures(
            PredicateRegistry::register_predicate,
            (registry, filename, cid, predicate),
            r,
        ),
        call_ensures(PredicateRegistry::remove_predicate, (removal, filename), removed),
        *after == *final(registry),
        *later == *final(removal),
        call_ensures(PredicateRegistry::has_filename, (before, other), known),
        call_ensures(PredicateRegistry::has_filename, (after, other), known_after),
        call_ensures(PredicateRegistry::has_filename, (later, other), known_later),
        call_ensures(PredicateRegistry::read, (before, other), data),
        call_ensures(PredicateRegistry::read, (after, other), data_after),
        call_ensures(PredicateRegistry::read, (later, other), data_later),
    ensures
        known_after == known,
        known_later == known,
        data_after@ == data@,
        data_later@ == data@,
{
    law_other_filenames_are_untouched(before@, filename@, cid@, predicate@, other@);
}

/// The parts of an entry are those that its bytes hold; an entry that is not there has empty
/// parts. A new registry is empty.
pub proof fn law_parts_of_an_entry(
    registry: &PredicateRegistry,
    filename: Vec<u8>,
    data: Vec<u8>,
    cid: Vec<u8>,
    predicate: Vec<u8>,
    fresh: PredicateRegistry,
    none: bool,
    list: Vec<u8>,
    count: U256,
)
    requires
        registry@.well_formed(),
        call_ensures(PredicateRegistry::read, (registry, filename), data),
        call_ensures(PredicateRegistry::read_cid, (registry, filename), cid),
        call_ensures(PredicateRegistry::read_predicate, (registry, filename), predicate),
        call_ensures(PredicateRegistry::new, (), fresh),
        call_ensures(PredicateRegistry::has_filename, (&fresh, filename), none),
        call_ensures(PredicateRegistry::read_all, (&fresh,), list),
        call_ensures(PredicateRegistry::count, (&fresh,), count),
    ensures
        data@.len() > 0 ==> data@ == prefixed(cid@) + predicate@,
        data@.len() == 0 ==> cid@.len() == 0 && predicate@.len() == 0,
        fresh@.well_formed(),
        !none,
        list@ == seq![0u8, 0u8, 0u8, 0u8],
        count@ == 0,
{
    law_read_is_empty_unless_registered(registry@, filename@);
    if data@.len() > 0 {
        law_entry_parts_are_packed_back(data@);
    }
    law_empty_registry_is_well_formed(fresh@);
    assert(fresh@.filenames().len() == 0);
    assert(list@ =~= seq![0u8, 0u8, 0u8, 0u8]);
}

/// All filenames are read as a list of each, in the order in which they stand.
pub proof fn law_what_the_registry_lists(
    registry: &PredicateRegistry,
    list: Vec<u8>,
    names: Seq<Seq<u8>>,
)
    requires
        call_ensures(PredicateRegistry::read_all, (registry,), list),
        names.len() == registry.filename_hashes@.len(),
        forall|i: int|
            0 <= i < names.len() ==> registry.raw_filenames@.contains_key(
                (#[trigger] registry.filename_hashes@[i])@,
            ) && registry.raw_filenames@[registry.filename_hashes@[i]@] == names[i],
    ensures
        list@ == listing(names),
{
    let stored = registry@.filenames();
    assert forall|i: int| 0 <= i < names.len() implies stored[i] == names[i] by {
        assert(registry@.filename_hashes[i] == registry.filename_hashes@[i]@);
        assert(registry.raw_filenames@[registry.filename_hashes@[i]@] == names[i]);
    }
    assert(stored =~= names);
}

/// What was packed into an entry is unpacked; bytes that are too short for what they announce are
/// no entry.
pub proof fn law_an_entry_comes_back(
    cid: &[u8],
    predicate: &[u8],
    data: Vec<u8>,
    given: &[u8],
    parts: Option<(Vec<u8>, Vec<u8>)>,
    short: &[u8],
    none: Option<(Vec<u8>, Vec<u8>)>,
)
    requires
        cid@.len() <= u32::MAX,
        call_ensures(encode_entry, (cid, predicate), data),
        given@ == data@,
        call_ensures(decode_entry, (given,), parts),
        short@.len() < 4 || short@.len() < 4 + u32_of_be(short@.take(4)),
        call_ensures(decode_entry, (short,), none),
    ensures
        data@ == prefixed(cid@) + predicate@,
        parts is Some,
        parts->Some_0.0@ == cid@,
        parts->Some_0.1@ == predicate@,
        none is None,
{
    law_entry_round_trip(cid@, predicate@);
    if short@.len() >= 4 {
        assert(short@.take(4) =~= short@.subrange(0, 4));
    }
}

} // verus!
