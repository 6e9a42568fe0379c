//! A registry of predicates: each filename has a content identifier and a predicate.
//!
//! Filenames are hashed with Keccak-256 into keys of fixed size; the raw filenames are kept
//! beside the entries so that they can be listed.

use vstd::prelude::*;

use crate::bytes::{
    append, append_prefixed, append_u32_be, bytes_equal, copy_range, listing, low_u32, prefixed,
    prefixed_all, read_u32_be, text_bytes, to_vec, u32_be, u32_of_be,
};
use crate::hashing::{keccak, keccak256_digest};
use crate::table::ByteMap;
use crate::uint256::U256;

verus! {

/// The bytes of an entry: the length of the content identifier in four big-endian bytes, the
/// content identifier, the predicate.
pub open spec fn entry_bytes(cid: Seq<u8>, predicate: Seq<u8>) -> Seq<u8> {
    prefixed(cid) + predicate
}

/// The content identifier and the predicate that the bytes of an entry hold, if they are long
/// enough for what they announce.
pub open spec fn entry_parts(data: Seq<u8>) -> Option<(Seq<u8>, Seq<u8>)> {
    let cid_end = 4 + u32_of_be(data.subrange(0, 4));
    if data.len() < 4 || data.len() < cid_end {
        None
    } else {
        Some((data.subrange(4, cid_end), data.subrange(cid_end, data.len() as int)))
    }
}

/// `list` without the first `item`, whose place the last element takes.
pub open spec fn swap_removed(list: Seq<Seq<u8>>, item: Seq<u8>) -> Seq<Seq<u8>> {
    match list.index_of_first(item) {
        Some(at) => list.update(at, list.last()).drop_last(),
        None => list,
    }
}

/// What a table holds under a key, nothing where there is no entry.
pub open spec fn blob(table: Map<Seq<u8>, Seq<u8>>, key: Seq<u8>) -> Seq<u8> {
    if table.contains_key(key) {
        table[key]
    } else {
        Seq::empty()
    }
}

/// The state of the registry, keyed by the hashes of filenames.
#[verifier::ext_equal]
pub struct RegistryState {
    pub entries: Map<Seq<u8>, Seq<u8>>,
    pub exists: Map<Seq<u8>, bool>,
    pub filename_hashes: Seq<Seq<u8>>,
    pub raw_filenames: Map<Seq<u8>, Seq<u8>>,
}

impl RegistryState {
    /// Whether a filename with this hash is registered.
    pub open spec fn registered(self, hash: Seq<u8>) -> bool {
        self.exists.contains_key(hash) && self.exists[hash]
    }

    /// What reading a filename gives: the bytes of its entry, or nothing.
    pub open spec fn lookup(self, filename: Seq<u8>) -> Seq<u8> {
        if self.registered(keccak256_digest(filename)) {
            blob(self.entries, keccak256_digest(filename))
        } else {
            Seq::empty()
        }
    }

    /// The registered filenames in the order of the list.
    pub open spec fn filenames(self) -> Seq<Seq<u8>> {
        self.filename_hashes.map_values(|hash: Seq<u8>| blob(self.raw_filenames, hash))
    }

    /// The state after `filename` was registered.
    pub open spec fn after_register(
        self,
        filename: Seq<u8>,
        cid: Seq<u8>,
        predicate: Seq<u8>,
    ) -> RegistryState {
        let hash = keccak256_digest(filename);
        RegistryState {
            entries: self.entries.insert(hash, entry_bytes(cid, predicate)),
            exists: self.exists.insert(hash, true),
            filename_hashes: self.filename_hashes.push(hash),
            raw_filenames: self.raw_filenames.insert(hash, filename),
        }
    }

    /// The state after `filename` was removed.
    pub open spec fn after_remove(self, filename: Seq<u8>) -> RegistryState {
        let hash = keccak256_digest(filename);
        RegistryState {
            entries: self.entries.insert(hash, Seq::empty()),
            exists: self.exists.insert(hash, false),
            filename_hashes: swap_removed(self.filename_hashes, hash),
            raw_filenames: self.raw_filenames.insert(hash, Seq::empty()),
        }
    }
}

/// Packs a content identifier and a predicate into the bytes of an entry.
pub fn encode_entry(cid: &[u8], predicate: &[u8]) -> (data: Vec<u8>)
    ensures
        data@ == entry_bytes(cid@, predicate@),
{
    let mut data: Vec<u8> = Vec::new();
    append_prefixed(&mut data, cid);
    append(&mut data, predicate);
    assert(data@ =~= entry_bytes(cid@, predicate@));
    data
}

/// Unpacks the bytes of an entry into the content identifier and the predicate.
pub fn decode_entry(data: &[u8]) -> (parts: Option<(Vec<u8>, Vec<u8>)>)
    ensures
        match parts {
            Some((cid, predicate)) => entry_parts(data@) == Some((cid@, predicate@)),
            None => entry_parts(data@) is None,
        },
{
    if data.len() < 4 {
        return None;
    }
    let cid_len: u32 = read_u32_be(data, 0);
    if (data.len() - 4) as u64 >= cid_len as u64 {
        let cid_end: usize = 4 + cid_len as usize;
        Some((copy_range(data, 4, cid_end), copy_range(data, cid_end, data.len())))
    } else {
        None
    }
}

/// The registry contract.
pub struct PredicateRegistry {
    /// The bytes of the entry of each filename.
    pub entries: ByteMap<Vec<u8>>,
    /// Whether a filename is registered.
    pub exists: ByteMap<bool>,
    /// The hashes of the registered filenames.
    pub filename_hashes: Vec<Vec<u8>>,
    /// The filename that has a hash.
    pub raw_filenames: ByteMap<Vec<u8>>,
}

impl View for PredicateRegistry {
    type V = RegistryState;

    open spec fn view(&self) -> RegistryState {
        RegistryState {
            entries: self.entries@,
            exists: self.exists@,
            filename_hashes: self.filename_hashes@.map_values(|hash: Vec<u8>| hash@),
            raw_filenames: self.raw_filenames@,
        }
    }
}

/// What a table holds under a key, nothing where there is no entry.
pub(crate) fn blob_at(table: &ByteMap<Vec<u8>>, key: &[u8]) -> (data: Vec<u8>)
    ensures
        data@ == blob(table@, key@),
{
    match table.get(key) {
        Some(data) => to_vec(data.as_slice()),
        None => Vec::new(),
    }
}

/// What a table of flags holds under a key, `false` where there is no entry.
pub(crate) fn flag_at(table: &ByteMap<bool>, key: &[u8]) -> (flag: bool)
    ensures
        flag == (table@.contains_key(key@) && table@[key@]),
{
    match table.get(key) {
        Some(flag) => *flag,
        None => false,
    }
}

impl PredicateRegistry {
    /// A registry without filenames.
    pub fn new() -> (registry: Self)
        ensures
            registry@ == (RegistryState {
                entries: Map::empty(),
                exists: Map::empty(),
                filename_hashes: Seq::empty(),
                raw_filenames: Map::empty(),
            }),
    {
        let registry = PredicateRegistry {
            entries: ByteMap::new(),
            exists: ByteMap::new(),
            filename_hashes: Vec::new(),
            raw_filenames: ByteMap::new(),
        };
        assert(registry@.filename_hashes =~= Seq::empty());
        registry
    }

    /// Registers a predicate and a content identifier under a new filename.
    /// Refused if the filename is registered already.
    pub fn register_predicate(
        &mut self,
        filename: Vec<u8>,
        cid: Vec<u8>,
        predicate: Vec<u8>,
    ) -> (r: Result<(), Vec<u8>>)
        ensures
            if old(self)@.registered(keccak256_digest(filename@)) {
                &&& r matches Err(e) && e@ == vstd::utf8::encode_utf8("FilenameAlreadyExists"@)
                &&& *final(self) == *old(self)
            } else {
                &&& r is Ok
                &&& final(self)@ == old(self)@.after_register(filename@, cid@, predicate@)
            },
    {
        let hash = keccak(filename.as_slice());
        if flag_at(&self.exists, hash.as_slice()) {
            return Err(text_bytes("FilenameAlreadyExists"));
        }
        let encoded = encode_entry(cid.as_slice(), predicate.as_slice());
        self.entries.insert(hash.as_slice(), encoded);
        self.exists.insert(hash.as_slice(), true);
        self.filename_hashes.push(to_vec(hash.as_slice()));
        self.raw_filenames.insert(hash.as_slice(), filename);
        assert(self@.filename_hashes =~= old(self)@.filename_hashes.push(hash@));
        Ok(())
    }

    /// Reads the bytes of an entry by filename; empty if the filename is not registered.
    pub fn read(&self, filename: Vec<u8>) -> (data: Vec<u8>)
        ensures
            data@ == self@.lookup(filename@),
    {
        let hash = keccak(filename.as_slice());
        if !flag_at(&self.exists, hash.as_slice()) {
            return Vec::new();
        }
        blob_at(&self.entries, hash.as_slice())
    }

    /// Reads the content identifier of an entry by filename; empty if there is none.
    pub fn read_cid(&self, filename: Vec<u8>) -> (cid: Vec<u8>)
        ensures
            cid@ == (match entry_parts(self@.lookup(filename@)) {
                Some((cid, predicate)) => cid,
                None => Seq::empty(),
            }),
    {
        let hash = keccak(filename.as_slice());
        if !flag_at(&self.exists, hash.as_slice()) {
            return Vec::new();
        }
        let data = blob_at(&self.entries, hash.as_slice());
        match decode_entry(data.as_slice()) {
            Some((cid, _)) => cid,
            None => Vec::new(),
        }
    }

    /// Reads the predicate of an entry by filename; empty if there is none.
    pub fn read_predicate(&self, filename: Vec<u8>) -> (predicate: Vec<u8>)
        ensures
            predicate@ == (match entry_parts(self@.lookup(filename@)) {
                Some((cid, predicate)) => predicate,
                None => Seq::empty(),
            }),
    {
        let hash = keccak(filename.as_slice());
        if !flag_at(&self.exists, hash.as_slice()) {
            return Vec::new();
        }
        let data = blob_at(&self.entries, hash.as_slice());
        match decode_entry(data.as_slice()) {
            Some((_, predicate)) => predicate,
            None => Vec::new(),
        }
    }

    /// Lists all registered filenames: their number, then each behind its length.
    pub fn read_all(&self) -> (list: Vec<u8>)
        ensures
            list@ == listing(self@.filenames()),
    {
        let len: usize = self.filename_hashes.len();
        let mut list: Vec<u8> = Vec::new();
        let ghost names = self@.filenames();
        let count: u64 = len as u64;
        assert(count as u32 == count % 0x1_0000_0000) by (bit_vector);
        append_u32_be(&mut list, count as u32);
        assert(list@ =~= u32_be(low_u32(names.len())));
        assert(names.take(0) =~= Seq::<Seq<u8>>::empty());
        let mut i: usize = 0;
        while i < len
            invariant
                len == self.filename_hashes@.len(),
                i <= len,
                names == self@.filenames(),
                list@ == u32_be(low_u32(names.len())) + prefixed_all(names.take(i as int)),
            decreases len - i,
        {
            let name = blob_at(&self.raw_filenames, self.filename_hashes[i].as_slice());
            append_prefixed(&mut list, name.as_slice());
            assert(names.take(i + 1).drop_last() =~= names.take(i as int));
            assert(names.take(i + 1).last() == name@);
            assert(list@ =~= u32_be(low_u32(names.len())) + prefixed_all(names.take(i + 1)));
            i = i + 1;
        }
        assert(names.take(len as int) =~= names);
        list
    }

    /// The number of registered filenames.
    pub fn count(&self) -> (n: U256)
        ensures
            n@ == self@.filename_hashes.len(),
    {
        U256::from_u128(self.filename_hashes.len() as u128)
    }

    /// Removes an entry by filename and returns its bytes. The last filename of the list takes
    /// the place of the removed one.
    pub fn remove_predicate(&mut self, filename: Vec<u8>) -> (r: Result<Vec<u8>, Vec<u8>>)
        ensures
            if old(self)@.registered(keccak256_digest(filename@)) {
                &&& r matches Ok(data) && data@ == old(self)@.lookup(filename@)
                &&& final(self)@ == old(self)@.after_remove(filename@)
            } else {
                &&& r matches Err(e) && e@ == vstd::utf8::encode_utf8("FilenameNotFound"@)
                &&& *final(self) == *old(self)
            },
    {
        let hash = keccak(filename.as_slice());
        if !flag_at(&self.exists, hash.as_slice()) {
            return Err(text_bytes("FilenameNotFound"));
        }
        let data = blob_at(&self.entries, hash.as_slice());
        self.entries.insert(hash.as_slice(), Vec::new());
        self.exists.insert(hash.as_slice(), false);
        self.raw_filenames.insert(hash.as_slice(), Vec::new());
        let ghost hashes = self@.filename_hashes;
        let found = self.hash_position(hash.as_slice());
        if let Some(at) = found {
            self.filename_hashes.swap_remove(at);
            assert(self@.filename_hashes =~= swap_removed(hashes, hash@));
        }
        Ok(data)
    }

    /// The index of the first filename with this hash.
    fn hash_position(&self, hash: &[u8]) -> (found: Option<usize>)
        ensures
            match found {
                Some(at) => self@.filename_hashes.index_of_first(hash@) == Some(at as int) && at
                    < self.filename_hashes@.len(),
                None => self@.filename_hashes.index_of_first(hash@) is None,
            },
    {
        let ghost hashes = self@.filename_hashes;
        let mut i: usize = 0;
        while i < self.filename_hashes.len()
            invariant
                i <= self.filename_hashes@.len(),
                hashes == self@.filename_hashes,
                forall|j: int| 0 <= j < i ==> hashes[j] != hash@,
            decreases self.filename_hashes@.len() - i,
        {
            if bytes_equal(self.filename_hashes[i].as_slice(), hash) {
                assert(hashes[i as int] == hash@);
                proof {
                    hashes.index_of_first_ensures(hash@);
                }
                return Some(i);
            }
            i = i + 1;
        }
        proof {
            hashes.index_of_first_ensures(hash@);
        }
        None
    }

    /// Whether a filename is registered.
    pub fn has_filename(&self, filename: Vec<u8>) -> (found: bool)
        ensures
            found == self@.registered(keccak256_digest(filename@)),
    {
        let hash = keccak(filename.as_slice());
        flag_at(&self.exists, hash.as_slice())
    }
}

} // verus!
