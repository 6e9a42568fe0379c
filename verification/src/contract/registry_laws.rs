//! What holds of the registry over several calls.

use vstd::prelude::*;

use super::registry::{blob, entry_bytes, entry_parts, swap_removed, RegistryState};
use crate::bytes::{
    lemma_u32_be_packs_back, lemma_u32_be_round_trip, listing, low_u32, prefixed, u32_be, u32_of_be,
};
use crate::hashing::keccak256_digest;

verus! {

impl RegistryState {
    /// The list holds the hash of every registered filename once and no other, and beside
    /// each hash stands a filename that has it and an entry; nothing stands beside a hash that is
    /// not registered.
    pub open spec fn well_formed(self) -> bool {
        &&& self.filename_hashes.no_duplicates()
        &&& forall|hash: Seq<u8>| #[trigger]
            self.filename_hashes.contains(hash) <==> self.registered(hash)
        &&& forall|hash: Seq<u8>| #[trigger]
            self.registered(hash) ==> keccak256_digest(blob(self.raw_filenames, hash)) == hash
        &&& forall|hash: Seq<u8>| #[trigger]
            self.registered(hash) ==> entry_parts(blob(self.entries, hash)) is Some
        &&& forall|hash: Seq<u8>|
            !self.registered(hash) ==> (#[trigger] blob(self.entries, hash)).len() == 0
        &&& forall|hash: Seq<u8>|
            !self.registered(hash) ==> (#[trigger] blob(self.raw_filenames, hash)).len() == 0
    }
}

/// A registry without filenames is well formed.
pub proof fn law_empty_registry_is_well_formed(s: RegistryState)
    requires
        s.entries == Map::<Seq<u8>, Seq<u8>>::empty(),
        s.exists == Map::<Seq<u8>, bool>::empty(),
        s.filename_hashes == Seq::<Seq<u8>>::empty(),
        s.raw_filenames == Map::<Seq<u8>, Seq<u8>>::empty(),
    ensures
        s.well_formed(),
{
}

/// Registering a new filename keeps the registry well formed.
pub proof fn law_register_keeps_well_formed(
    s: RegistryState,
    filename: Seq<u8>,
    cid: Seq<u8>,
    predicate: Seq<u8>,
)
    requires
        s.well_formed(),
        !s.registered(keccak256_digest(filename)),
    ensures
        s.after_register(filename, cid, predicate).well_formed(),
{
    let after = s.after_register(filename, cid, predicate);
    let new = keccak256_digest(filename);
    assert forall|hash: Seq<u8>| #[trigger]
        after.filename_hashes.contains(hash) <==> after.registered(hash) by {
        if after.filename_hashes.contains(hash) && hash != new {
            let i = choose|i: int|
                0 <= i < after.filename_hashes.len() && after.filename_hashes[i] == hash;
            assert(s.filename_hashes[i] == hash);
            assert(s.filename_hashes.contains(hash));
        }
        if after.registered(hash) {
            if hash == new {
                assert(after.filename_hashes[s.filename_hashes.len() as int] == new);
            } else {
                assert(s.registered(hash));
                assert(s.filename_hashes.contains(hash));
                let i = choose|i: int|
                    0 <= i < s.filename_hashes.len() && s.filename_hashes[i] == hash;
                assert(after.filename_hashes[i] == hash);
            }
        }
    }
    assert forall|i: int, j: int|
        0 <= i < after.filename_hashes.len() && 0 <= j < after.filename_hashes.len() && i
            != j implies after.filename_hashes[i] != after.filename_hashes[j] by {
        if i == s.filename_hashes.len() {
            assert(s.filename_hashes.contains(s.filename_hashes[j]));
        }
        if j == s.filename_hashes.len() {
            assert(s.filename_hashes.contains(s.filename_hashes[i]));
        }
    }
    assert forall|hash: Seq<u8>| #[trigger] after.registered(hash) implies keccak256_digest(
        blob(after.raw_filenames, hash),
    ) == hash by {
        if hash != new {
            assert(s.registered(hash));
        }
    }
    assert forall|hash: Seq<u8>| #[trigger] after.registered(hash) implies entry_parts(
        blob(after.entries, hash),
    ) is Some by {
        if hash == new {
            lemma_entry_has_parts(cid, predicate);
        } else {
            assert(s.registered(hash));
        }
    }
    assert forall|hash: Seq<u8>| !after.registered(hash) implies (#[trigger] blob(
        after.entries,
        hash,
    )).len() == 0 by {
        assert(blob(s.entries, hash).len() == 0);
    }
    assert forall|hash: Seq<u8>| !after.registered(hash) implies (#[trigger] blob(
        after.raw_filenames,
        hash,
    )).len() == 0 by {
        assert(blob(s.raw_filenames, hash).len() == 0);
    }
}

proof fn lemma_entry_has_parts(cid: Seq<u8>, predicate: Seq<u8>)
    ensures
        entry_parts(entry_bytes(cid, predicate)) is Some,
{
    let data = entry_bytes(cid, predicate);
    assert(data.subrange(0, 4) =~= u32_be(low_u32(cid.len())));
    lemma_u32_be_round_trip(low_u32(cid.len()));
}

/// What swapping out an element leaves of a list without duplicates.
proof fn lemma_swap_removed(list: Seq<Seq<u8>>, item: Seq<u8>)
    requires
        list.no_duplicates(),
        list.contains(item),
    ensures
        swap_removed(list, item).len() == list.len() - 1,
        swap_removed(list, item).no_duplicates(),
        forall|x: Seq<u8>| #[trigger]
            swap_removed(list, item).contains(x) <==> list.contains(x) && x != item,
{
    list.index_of_first_ensures(item);
    let at = list.index_of_first(item).unwrap();
    let rest = swap_removed(list, item);
    let end = list.len() - 1;
    assert forall|x: Seq<u8>| #[trigger] rest.contains(x) <==> list.contains(x) && x != item by {
        if rest.contains(x) {
            let i = choose|i: int| 0 <= i < rest.len() && rest[i] == x;
            if i == at {
                assert(list[end] == x);
            } else {
                assert(list[i] == x);
            }
        }
        if list.contains(x) && x != item {
            let i = choose|i: int| 0 <= i < list.len() && list[i] == x;
            if i == end {
                assert(rest[at] == x);
            } else {
                assert(rest[i] == x);
            }
        }
    }
}

/// Removing a registered filename keeps the registry well formed.
pub proof fn law_remove_keeps_well_formed(s: RegistryState, filename: Seq<u8>)
    requires
        s.well_formed(),
        s.registered(keccak256_digest(filename)),
    ensures
        s.after_remove(filename).well_formed(),
{
    let after = s.after_remove(filename);
    let gone = keccak256_digest(filename);
    assert(s.filename_hashes.contains(gone));
    lemma_swap_removed(s.filename_hashes, gone);
    assert forall|hash: Seq<u8>| #[trigger]
        after.filename_hashes.contains(hash) <==> after.registered(hash) by {
        assert(s.filename_hashes.contains(hash) <==> s.registered(hash));
    }
    assert forall|hash: Seq<u8>| #[trigger] after.registered(hash) implies keccak256_digest(
        blob(after.raw_filenames, hash),
    ) == hash by {
        assert(s.registered(hash));
    }
    assert forall|hash: Seq<u8>| #[trigger] after.registered(hash) implies entry_parts(
        blob(after.entries, hash),
    ) is Some by {
        assert(s.registered(hash));
    }
    assert forall|hash: Seq<u8>| !after.registered(hash) implies (#[trigger] blob(
        after.entries,
        hash,
    )).len() == 0 by {
        if hash != gone {
            assert(blob(s.entries, hash).len() == 0);
        }
    }
    assert forall|hash: Seq<u8>| !after.registered(hash) implies (#[trigger] blob(
        after.raw_filenames,
        hash,
    )).len() == 0 by {
        if hash != gone {
            assert(blob(s.raw_filenames, hash).len() == 0);
        }
    }
}

/// A read is empty exactly where the filename is not registered; where it is, the bytes hold a
/// content identifier and a predicate.
pub proof fn law_read_is_empty_unless_registered(s: RegistryState, filename: Seq<u8>)
    requires
        s.well_formed(),
    ensures
        s.lookup(filename).len() == 0 <==> !s.registered(keccak256_digest(filename)),
        entry_parts(s.lookup(filename)) is Some <==> s.registered(keccak256_digest(filename)),
{
    if s.registered(keccak256_digest(filename)) {
        assert(entry_parts(blob(s.entries, keccak256_digest(filename))) is Some);
    }
}

/// The listed filenames are the registered ones: every listed filename is registered, no two of
/// them have one hash, and a filename is registered exactly where one with its hash is listed.
pub proof fn law_listed_filenames_are_the_registered_ones(s: RegistryState, filename: Seq<u8>)
    requires
        s.well_formed(),
    ensures
        s.filenames().contains(filename) ==> s.registered(keccak256_digest(filename)),
        s.registered(keccak256_digest(filename)) <==> exists|i: int|
            0 <= i < s.filenames().len() && keccak256_digest(#[trigger] s.filenames()[i])
                == keccak256_digest(filename),
        forall|i: int, j: int|
            0 <= i < j < s.filenames().len() ==> keccak256_digest(#[trigger] s.filenames()[i])
                != keccak256_digest(#[trigger] s.filenames()[j]),
{
    let hash = keccak256_digest(filename);
    let names = s.filenames();
    assert forall|i: int| 0 <= i < names.len() implies keccak256_digest(#[trigger] names[i])
        == s.filename_hashes[i] && s.registered(s.filename_hashes[i]) by {
        assert(s.filename_hashes.contains(s.filename_hashes[i]));
    }
    if s.registered(hash) {
        assert(s.filename_hashes.contains(hash));
        let i = choose|i: int| 0 <= i < s.filename_hashes.len() && s.filename_hashes[i] == hash;
        assert(keccak256_digest(names[i]) == hash);
    }
    if exists|i: int| 0 <= i < names.len() && keccak256_digest(#[trigger] names[i]) == hash {
        let i = choose|i: int|
            0 <= i < names.len() && keccak256_digest(#[trigger] names[i]) == hash;
        assert(s.registered(s.filename_hashes[i]));
    }
    if names.contains(filename) {
        let i = names.index_of(filename);
        assert(keccak256_digest(names[i]) == hash);
    }
}

/// Removing takes exactly the removed filename out of the list.
pub proof fn law_remove_takes_one_filename_out(s: RegistryState, filename: Seq<u8>, hash: Seq<u8>)
    requires
        s.well_formed(),
        s.registered(keccak256_digest(filename)),
    ensures
        s.after_remove(filename).filename_hashes.len() == s.filename_hashes.len() - 1,
        s.after_remove(filename).filename_hashes.contains(hash) <==> s.filename_hashes.contains(
            hash,
        ) && hash != keccak256_digest(filename),
        s.after_remove(filename).lookup(filename) == Seq::<u8>::empty(),
{
    assert(s.filename_hashes.contains(keccak256_digest(filename)));
    lemma_swap_removed(s.filename_hashes, keccak256_digest(filename));
}

/// The bytes of an entry give back its parts, for content identifiers whose length fits in
/// the four bytes of the prefix.
pub proof fn law_entry_round_trip(cid: Seq<u8>, predicate: Seq<u8>)
    requires
        cid.len() < 0x1_0000_0000,
    ensures
        entry_parts(entry_bytes(cid, predicate)) == Some((cid, predicate)),
{
    let data = entry_bytes(cid, predicate);
    assert(data.subrange(0, 4) =~= u32_be(low_u32(cid.len())));
    lemma_u32_be_round_trip(low_u32(cid.len()));
    let cid_end = 4 + cid.len() as int;
    assert(data.subrange(4, cid_end) =~= cid);
    assert(data.subrange(cid_end, data.len() as int) =~= predicate);
}

/// Bytes that hold an entry are the bytes of that entry.
pub proof fn law_entry_parts_are_packed_back(data: Seq<u8>)
    requires
        entry_parts(data) is Some,
    ensures
        entry_bytes(entry_parts(data).unwrap().0, entry_parts(data).unwrap().1) == data,
{
    let (cid, predicate) = entry_parts(data).unwrap();
    let head = data.subrange(0, 4);
    let n = u32_of_be(head);
    assert(cid.len() == n);
    assert(low_u32(cid.len()) == n);
    lemma_u32_be_packs_back(head);
    assert(prefixed(cid) =~= head + cid);
    assert(entry_bytes(cid, predicate) =~= data);
}

/// A registered filename reads back as what it was registered with.
pub proof fn law_register_then_read(
    s: RegistryState,
    filename: Seq<u8>,
    cid: Seq<u8>,
    predicate: Seq<u8>,
)
    ensures
        s.after_register(filename, cid, predicate).registered(keccak256_digest(filename)),
        s.after_register(filename, cid, predicate).lookup(filename) == entry_bytes(cid, predicate),
        cid.len() < 0x1_0000_0000 ==> entry_parts(
            s.after_register(filename, cid, predicate).lookup(filename),
        ) == Some((cid, predicate)),
{
    if cid.len() < 0x1_0000_0000 {
        law_entry_round_trip(cid, predicate);
    }
}

/// Registering and removing a filename leave the entries of filenames with another hash alone.
pub proof fn law_other_filenames_are_untouched(
    s: RegistryState,
    filename: Seq<u8>,
    cid: Seq<u8>,
    predicate: Seq<u8>,
    other: Seq<u8>,
)
    requires
        keccak256_digest(other) != keccak256_digest(filename),
    ensures
        s.after_register(filename, cid, predicate).lookup(other) == s.lookup(other),
        s.after_register(filename, cid, predicate).registered(keccak256_digest(other))
            == s.registered(keccak256_digest(other)),
        s.after_remove(filename).lookup(other) == s.lookup(other),
        s.after_remove(filename).registered(keccak256_digest(other)) == s.registered(
            keccak256_digest(other),
        ),
{
}

/// Removing a filename that was registered last undoes its registration: every filename
/// reads as before, and the list is the same.
pub proof fn law_remove_undoes_register(
    s: RegistryState,
    filename: Seq<u8>,
    cid: Seq<u8>,
    predicate: Seq<u8>,
    any: Seq<u8>,
)
    requires
        s.well_formed(),
        !s.registered(keccak256_digest(filename)),
    ensures
        ({
            let undone = s.after_register(filename, cid, predicate).after_remove(filename);
            &&& undone.filename_hashes == s.filename_hashes
            &&& listing(undone.filenames()) == listing(s.filenames())
            &&& undone.lookup(any) == s.lookup(any)
            &&& undone.registered(keccak256_digest(any)) == s.registered(keccak256_digest(any))
        }),
{
    let hash = keccak256_digest(filename);
    let after = s.after_register(filename, cid, predicate);
    let undone = after.after_remove(filename);
    let hashes = after.filename_hashes;
    let end = s.filename_hashes.len() as int;
    assert(hashes[end] == hash);
    hashes.index_of_first_ensures(hash);
    assert forall|j: int| 0 <= j < end implies hashes[j] != hash by {
        assert(s.filename_hashes.contains(s.filename_hashes[j]));
    }
    assert(hashes.index_of_first(hash) == Some(end));
    assert(undone.filename_hashes =~= s.filename_hashes);
    assert forall|i: int| 0 <= i < s.filename_hashes.len() implies undone.filenames()[i]
        == s.filenames()[i] by {
        assert(s.filename_hashes.contains(s.filename_hashes[i]));
    }
    assert(undone.filenames() =~= s.filenames());
}

} // verus!
