//! A map from byte strings to values, as a contract's storage keeps one.

use vstd::prelude::*;

use crate::bytes::{bytes_equal, to_vec};

verus! {

/// What a list of entries stores: of two entries with one key, the later counts.
pub open spec fn stored<V: View>(entries: Seq<(Vec<u8>, V)>) -> Map<Seq<u8>, V::V>
    decreases entries.len(),
{
    if entries.len() == 0 {
        Map::empty()
    } else {
        stored(entries.drop_last()).insert(entries.last().0@, entries.last().1@)
    }
}

proof fn lemma_stored_finite<V: View>(entries: Seq<(Vec<u8>, V)>)
    ensures
        stored(entries).dom().finite(),
    decreases entries.len(),
{
    if entries.len() > 0 {
        lemma_stored_finite(entries.drop_last());
    }
}

proof fn lemma_stored_value<V: View>(entries: Seq<(Vec<u8>, V)>, key: Seq<u8>)
    requires
        stored(entries).contains_key(key),
    ensures
        exists|v: V| #[trigger] v@ == stored(entries)[key],
    decreases entries.len(),
{
    if entries.last().0@ == key {
        assert(entries.last().1@ == stored(entries)[key]);
    } else {
        lemma_stored_value(entries.drop_last(), key);
    }
}

/// A key is stored exactly if an entry has it.
proof fn lemma_stored_key<V: View>(entries: Seq<(Vec<u8>, V)>, key: Seq<u8>)
    ensures
        stored(entries).contains_key(key) <==> exists|i: int|
            0 <= i < entries.len() && (#[trigger] entries[i]).0@ == key,
    decreases entries.len(),
{
    if entries.len() > 0 {
        let front = entries.drop_last();
        lemma_stored_key(front, key);
        if stored(front).contains_key(key) {
            let i = choose|i: int| 0 <= i < front.len() && (#[trigger] front[i]).0@ == key;
            assert(entries[i].0@ == key);
        }
        if entries.last().0@ == key {
            assert(entries[entries.len() - 1].0@ == key);
        }
        if exists|i: int| 0 <= i < entries.len() && (#[trigger] entries[i]).0@ == key {
            let i = choose|i: int| 0 <= i < entries.len() && (#[trigger] entries[i]).0@ == key;
            if i < entries.len() - 1 {
                assert(front[i].0@ == key);
            }
        }
    }
}

/// The last entry with a key gives the value that is stored under it.
proof fn lemma_stored_last<V: View>(entries: Seq<(Vec<u8>, V)>, at: int)
    requires
        0 <= at < entries.len(),
        forall|j: int| at < j < entries.len() ==> (#[trigger] entries[j]).0@ != entries[at].0@,
    ensures
        stored(entries).contains_key(entries[at].0@),
        stored(entries)[entries[at].0@] == entries[at].1@,
    decreases entries.len(),
{
    if at < entries.len() - 1 {
        let front = entries.drop_last();
        assert(entries[entries.len() - 1].0@ != entries[at].0@);
        assert forall|j: int| at < j < front.len() implies (#[trigger] front[j]).0@
            != front[at].0@ by {
            assert(entries[j].0@ != entries[at].0@);
        }
        lemma_stored_last(front, at);
    }
}

/// Replacing the last entry with a key replaces the value stored under it.
proof fn lemma_stored_update<V: View>(entries: Seq<(Vec<u8>, V)>, at: int, entry: (Vec<u8>, V))
    requires
        0 <= at < entries.len(),
        entry.0@ == entries[at].0@,
        forall|j: int| at < j < entries.len() ==> (#[trigger] entries[j]).0@ != entries[at].0@,
    ensures
        stored(entries.update(at, entry)) == stored(entries).insert(entry.0@, entry.1@),
    decreases entries.len(),
{
    let changed = entries.update(at, entry);
    let front = entries.drop_last();
    if at == entries.len() - 1 {
        assert(changed.drop_last() =~= front);
    } else {
        assert(changed.drop_last() =~= front.update(at, entry));
        assert(changed.last() == entries.last());
        assert(entries[entries.len() - 1].0@ != entries[at].0@);
        assert forall|j: int| at < j < front.len() implies (#[trigger] front[j]).0@
            != front[at].0@ by {
            assert(entries[j].0@ != entries[at].0@);
        }
        lemma_stored_update(front, at, entry);
    }
    assert(stored(changed) =~= stored(entries).insert(entry.0@, entry.1@));
}

/// A map from byte strings to values of type `V`.
pub struct ByteMap<V> {
    entries: Vec<(Vec<u8>, V)>,
}

impl<V: View> View for ByteMap<V> {
    type V = Map<Seq<u8>, V::V>;

    closed spec fn view(&self) -> Map<Seq<u8>, V::V> {
        stored(self.entries@)
    }
}

impl<V: View> ByteMap<V> {
    /// The map without entries.
    pub fn new() -> (map: Self)
        ensures
            map@ == Map::<Seq<u8>, V::V>::empty(),
    {
        ByteMap { entries: Vec::new() }
    }

    /// The map holds finitely many keys.
    pub proof fn lemma_finite(&self)
        ensures
            self@.dom().finite(),
    {
        lemma_stored_finite(self.entries@);
    }

    /// What is stored under a key is the view of some value.
    pub proof fn lemma_value(&self, key: Seq<u8>)
        requires
            self@.contains_key(key),
        ensures
            exists|v: V| #[trigger] v@ == self@[key],
    {
        lemma_stored_value(self.entries@, key);
    }

    /// The index of the last entry with key `key`.
    fn position(&self, key: &[u8]) -> (found: Option<usize>)
        ensures
            match found {
                Some(at) => {
                    &&& at < self.entries@.len()
                    &&& self.entries@[at as int].0@ == key@
                    &&& forall|j: int|
                        at < j < self.entries@.len() ==> (#[trigger] self.entries@[j]).0@ != key@
                },
                None => !self@.contains_key(key@),
            },
    {
        let mut i: usize = self.entries.len();
        while i > 0
            invariant
                i <= self.entries@.len(),
                forall|j: int|
                    i <= j < self.entries@.len() ==> (#[trigger] self.entries@[j]).0@ != key@,
            decreases i,
        {
            i = i - 1;
            if bytes_equal(self.entries[i].0.as_slice(), key) {
                return Some(i);
            }
        }
        proof {
            lemma_stored_key(self.entries@, key@);
        }
        None
    }

    /// Whether a value is stored under `key`.
    pub fn contains(&self, key: &[u8]) -> (found: bool)
        ensures
            found == self@.contains_key(key@),
    {
        match self.position(key) {
            Some(at) => {
                proof {
                    lemma_stored_last(self.entries@, at as int);
                }
                true
            },
            None => false,
        }
    }

    /// The value that is stored under `key`.
    pub fn get(&self, key: &[u8]) -> (value: Option<&V>)
        ensures
            match value {
                Some(v) => self@.contains_key(key@) && self@[key@] == v@,
                None => !self@.contains_key(key@),
            },
    {
        match self.position(key) {
            Some(at) => {
                proof {
                    lemma_stored_last(self.entries@, at as int);
                }
                Some(&self.entries[at].1)
            },
            None => None,
        }
    }

    /// Stores `value` under `key`, in place of what was stored there.
    pub fn insert(&mut self, key: &[u8], value: V)
        ensures
            final(self)@ == old(self)@.insert(key@, value@),
    {
        let entry = (to_vec(key), value);
        match self.position(key) {
            Some(at) => {
                proof {
                    lemma_stored_update(self.entries@, at as int, entry);
                }
                self.entries[at] = entry;
            },
            None => {
                self.entries.push(entry);
                assert(self.entries@.drop_last() =~= old(self).entries@);
            },
        }
    }
}

/// A stored value is found under its key, in place of what was stored there, and what is stored
/// under any other key is found as before. A new map holds nothing.
pub proof fn law_what_is_stored_is_found<V: View>(
    map: &mut ByteMap<V>,
    key: &[u8],
    value: V,
    done: (),
    before: &ByteMap<V>,
    after: &ByteMap<V>,
    found: Option<&V>,
    there: bool,
    other: &[u8],
    other_before: Option<&V>,
    other_after: Option<&V>,
    fresh: ByteMap<V>,
    nothing: Option<&V>,
)
    requires
        *before == *old(map),
        call_ensures(ByteMap::<V>::insert, (map, key, value), done),
        *after == *final(map),
        call_ensures(ByteMap::<V>::get, (after, key), found),
        call_ensures(ByteMap::<V>::contains, (after, key), there),
        other@ != key@,
        call_ensures(ByteMap::<V>::get, (before, other), other_before),
        call_ensures(ByteMap::<V>::get, (after, other), other_after),
        call_ensures(ByteMap::<V>::new, (), fresh),
        call_ensures(ByteMap::<V>::get, (&fresh, key), nothing),
    ensures
        there,
        found is Some && found->Some_0@ == value@,
        other_before is Some <==> other_after is Some,
        other_before is Some ==> other_after->Some_0@ == other_before->Some_0@,
        nothing is None,
{
}

} // verus!
