//! A pool of decryption requests whose workers attest that they served a request.
//!
//! Requests are stored as bytes under the Keccak-256 hash of their fields. When enough workers
//! have attested, their attestations are joined and the request is fulfilled.

use vstd::prelude::*;

use super::erc20::Address;
use super::registry::{blob, blob_at, flag_at};
use crate::bytes::{
    append, append_prefixed, append_u32_be, bytes_equal, copy_range, listing, low_u32, prefixed,
    prefixed_all, read_u32_be, text_bytes, u32_be, u32_of_be,
};
use crate::hashing::{keccak, keccak256_digest};
use crate::table::ByteMap;

verus! {

/// How many workers have to attest before a request is fulfilled.
pub const THRESHOLD: u32 = 1;

/// How many workers the pool has.
pub const TOTAL_WORKERS: usize = 2;

/// The identifier of a request.
pub type RequestId = [u8; 32];

/// The bytes of a request: each field behind its length in four big-endian bytes.
pub open spec fn request_bytes(
    filename: Seq<u8>,
    witness_hex: Seq<u8>,
    location: Seq<u8>,
) -> Seq<u8> {
    prefixed(filename) + prefixed(witness_hex) + prefixed(location)
}

/// The field that starts at `at`, if `data` is long enough for what it announces.
pub open spec fn field_at(data: Seq<u8>, at: int) -> Option<Seq<u8>> {
    let end = at + 4 + u32_of_be(data.subrange(at, at + 4));
    if at + 4 > data.len() || end > data.len() {
        None
    } else {
        Some(data.subrange(at + 4, end))
    }
}

/// The three fields that `data` starts with, if it holds them.
pub open spec fn request_parts(data: Seq<u8>) -> Option<(Seq<u8>, Seq<u8>, Seq<u8>)> {
    match field_at(data, 0) {
        None => None,
        Some(filename) => match field_at(data, 4 + filename.len() as int) {
            None => None,
            Some(witness_hex) => match field_at(
                data,
                8 + filename.len() as int + witness_hex.len() as int,
            ) {
                None => None,
                Some(location) => Some((filename, witness_hex, location)),
            },
        },
    }
}

/// The identifier of a request: the hash of its fields one after the other.
pub open spec fn request_id(filename: Seq<u8>, witness_hex: Seq<u8>, location: Seq<u8>) -> Seq<u8> {
    keccak256_digest(filename + witness_hex + location)
}

/// The key under which a worker's attestation for a request is stored.
pub open spec fn worker_key(id: Seq<u8>, worker: Seq<u8>) -> Seq<u8> {
    keccak256_digest(id + worker)
}

/// The attestations that `workers` stored for a request, one after the other.
pub open spec fn joined(partials: Map<Seq<u8>, Seq<u8>>, id: Seq<u8>, workers: Seq<Seq<u8>>) -> Seq<
    u8,
>
    decreases workers.len(),
{
    if workers.len() == 0 {
        Seq::empty()
    } else {
        joined(partials, id, workers.drop_last()) + blob(partials, worker_key(id, workers.last()))
    }
}

/// What the pool emits.
#[derive(Clone, Copy, Debug)]
pub enum PoolEvent {
    RequestAdded { id: RequestId, timestamp: u64 },
    RequestFulfilled { id: RequestId, attestation_hash: [u8; 32] },
    PartialAttestationSubmitted { request_id: RequestId, worker: Address, count: u32 },
}

/// What an event says.
pub enum PoolEventView {
    RequestAdded { id: Seq<u8>, timestamp: u64 },
    RequestFulfilled { id: Seq<u8>, attestation_hash: Seq<u8> },
    PartialAttestationSubmitted { request_id: Seq<u8>, worker: Seq<u8>, count: u32 },
}

impl View for PoolEvent {
    type V = PoolEventView;

    open spec fn view(&self) -> PoolEventView {
        match self {
            PoolEvent::RequestAdded { id, timestamp } => PoolEventView::RequestAdded {
                id: id@,
                timestamp: *timestamp,
            },
            PoolEvent::RequestFulfilled { id, attestation_hash } => PoolEventView::RequestFulfilled {
                id: id@,
                attestation_hash: attestation_hash@,
            },
            PoolEvent::PartialAttestationSubmitted { request_id, worker, count } =>
                PoolEventView::PartialAttestationSubmitted {
                request_id: request_id@,
                worker: worker@,
                count: *count,
            },
        }
    }
}

/// The state of the pool.
#[verifier::ext_equal]
pub struct PoolState {
    /// The bytes of each request.
    pub requests: Map<Seq<u8>, Seq<u8>>,
    /// The identifiers of the requests, oldest first.
    pub request_ids: Seq<Seq<u8>>,
    /// The attestation of each worker for each request.
    pub partial_attestations: Map<Seq<u8>, Seq<u8>>,
    /// How many attestations were submitted for a request.
    pub attestation_counts: Map<Seq<u8>, u32>,
    /// The joined attestations of each fulfilled request.
    pub fulfilled_attestations: Map<Seq<u8>, Seq<u8>>,
    pub request_exists: Map<Seq<u8>, bool>,
    pub fulfilled_exists: Map<Seq<u8>, bool>,
    pub authorized_workers: Seq<Seq<u8>>,
    pub count: u64,
    /// What was emitted, oldest first.
    pub log: Seq<PoolEventView>,
}

impl PoolState {
    pub open spec fn has(self, id: Seq<u8>) -> bool {
        self.request_exists.contains_key(id) && self.request_exists[id]
    }

    pub open spec fn fulfilled(self, id: Seq<u8>) -> bool {
        self.fulfilled_exists.contains_key(id) && self.fulfilled_exists[id]
    }

    pub open spec fn attestations(self, id: Seq<u8>) -> u32 {
        if self.attestation_counts.contains_key(id) {
            self.attestation_counts[id]
        } else {
            0
        }
    }

    /// The bytes of all requests, oldest first.
    pub open spec fn stored_requests(self) -> Seq<Seq<u8>> {
        self.request_ids.map_values(|id: Seq<u8>| blob(self.requests, id))
    }

    /// Why these workers are refused, if they are.
    pub open spec fn init_refusal(self, workers: Seq<Seq<u8>>) -> Option<Seq<char>> {
        if self.authorized_workers.len() > 0 {
            Some("already initialized"@)
        } else if workers.len() != TOTAL_WORKERS {
            Some("wrong worker count"@)
        } else {
            None
        }
    }

    /// The state after the workers were set.
    pub open spec fn after_init(self, workers: Seq<Seq<u8>>) -> PoolState {
        PoolState { authorized_workers: workers, ..self }
    }

    /// The state after a request was added.
    pub open spec fn after_add(
        self,
        filename: Seq<u8>,
        witness_hex: Seq<u8>,
        location: Seq<u8>,
        timestamp: u64,
    ) -> PoolState {
        let id = request_id(filename, witness_hex, location);
        PoolState {
            requests: self.requests.insert(id, request_bytes(filename, witness_hex, location)),
            request_ids: self.request_ids.push(id),
            request_exists: self.request_exists.insert(id, true),
            count: ((self.count + 1) % 0x1_0000_0000_0000_0000) as u64,
            log: self.log.push(PoolEventView::RequestAdded { id, timestamp }),
            ..self
        }
    }

    /// Why an attestation is refused, if it is.
    pub open spec fn submit_refusal(self, caller: Seq<u8>, id: Seq<u8>) -> Option<Seq<char>> {
        if !self.authorized_workers.contains(caller) {
            Some("Unauthorized"@)
        } else if !self.has(id) {
            Some("RequestNotFound"@)
        } else if self.fulfilled(id) {
            Some("AlreadyFulfilled"@)
        } else if blob(self.partial_attestations, worker_key(id, caller)).len() > 0 {
            Some("AlreadyAttested"@)
        } else {
            None
        }
    }

    /// The state after a worker's attestation was recorded, before the request is fulfilled.
    pub open spec fn recorded(
        self,
        caller: Seq<u8>,
        id: Seq<u8>,
        attestation: Seq<u8>,
    ) -> PoolState {
        let count = ((self.attestations(id) + 1) % 0x1_0000_0000) as u32;
        PoolState {
            partial_attestations: self.partial_attestations.insert(
                worker_key(id, caller),
                attestation,
            ),
            attestation_counts: self.attestation_counts.insert(id, count),
            log: self.log.push(
                PoolEventView::PartialAttestationSubmitted {
                    request_id: id,
                    worker: caller,
                    count,
                },
            ),
            ..self
        }
    }

    /// The state after a request was fulfilled with all attestations that are stored for it.
    pub open spec fn finalized(self, id: Seq<u8>) -> PoolState {
        let combined = joined(self.partial_attestations, id, self.authorized_workers);
        PoolState {
            fulfilled_attestations: self.fulfilled_attestations.insert(id, combined),
            fulfilled_exists: self.fulfilled_exists.insert(id, true),
            log: self.log.push(
                PoolEventView::RequestFulfilled { id, attestation_hash: keccak256_digest(combined) },
            ),
            ..self
        }
    }

    /// The state after a worker's attestation was accepted.
    pub open spec fn after_submit(
        self,
        caller: Seq<u8>,
        id: Seq<u8>,
        attestation: Seq<u8>,
    ) -> PoolState {
        let recorded = self.recorded(caller, id, attestation);
        if recorded.attestations(id) >= THRESHOLD {
            recorded.finalized(id)
        } else {
            recorded
        }
    }
}

/// Packs a request into bytes.
pub fn encode_request(filename: &[u8], witness_hex: &[u8], location: &[u8]) -> (data: Vec<u8>)
    ensures
        data@ == request_bytes(filename@, witness_hex@, location@),
{
    let mut data: Vec<u8> = Vec::new();
    append_prefixed(&mut data, filename);
    append_prefixed(&mut data, witness_hex);
    append_prefixed(&mut data, location);
    assert(data@ =~= request_bytes(filename@, witness_hex@, location@));
    data
}

/// Reads the field that starts at `at`.
fn decode_field(data: &[u8], at: usize) -> (field: Option<Vec<u8>>)
    requires
        at <= data@.len(),
    ensures
        match field {
            Some(field) => field_at(data@, at as int) == Some(field@) && at + 4 + field@.len()
                <= data@.len(),
            None => field_at(data@, at as int) is None,
        },
{
    if data.len() - at < 4 {
        return None;
    }
    let len: u32 = read_u32_be(data, at);
    let start: usize = at + 4;
    if ((data.len() - start) as u64) < len as u64 {
        return None;
    }
    Some(copy_range(data, start, start + len as usize))
}

/// Unpacks a request from bytes; bytes behind it are ignored.
pub fn decode_request(data: &[u8]) -> (parts: Option<(Vec<u8>, Vec<u8>, Vec<u8>)>)
    ensures
        match parts {
            Some((filename, witness_hex, location)) => request_parts(data@) == Some(
                (filename@, witness_hex@, location@),
            ),
            None => request_parts(data@) is None,
        },
{
    assert(data@.len() == data.len());
    let filename = match decode_field(data, 0) {
        Some(field) => field,
        None => {
            return None;
        },
    };
    let cursor: usize = 4 + filename.len();
    let witness_hex = match decode_field(data, cursor) {
        Some(field) => field,
        None => {
            return None;
        },
    };
    let cursor: usize = cursor + 4 + witness_hex.len();
    match decode_field(data, cursor) {
        Some(location) => Some((filename, witness_hex, location)),
        None => None,
    }
}

/// The key under which a worker's attestation for a request is stored.
pub fn attestation_key(request_id: RequestId, worker: Address) -> (key: [u8; 32])
    ensures
        key@ == worker_key(request_id@, worker@),
{
    let mut preimage: Vec<u8> = Vec::new();
    append(&mut preimage, request_id.as_slice());
    append(&mut preimage, worker.as_slice());
    assert(preimage@ =~= request_id@ + worker@);
    keccak(preimage.as_slice())
}

/// The request pool contract.
pub struct RequestPool {
    pub requests: ByteMap<Vec<u8>>,
    pub request_ids: Vec<RequestId>,
    pub partial_attestations: ByteMap<Vec<u8>>,
    pub attestation_counts: ByteMap<u32>,
    pub fulfilled_attestations: ByteMap<Vec<u8>>,
    pub request_exists: ByteMap<bool>,
    pub fulfilled_exists: ByteMap<bool>,
    pub authorized_workers: Vec<Address>,
    pub count: u64,
    pub log: Vec<PoolEvent>,
}

impl View for RequestPool {
    type V = PoolState;

    open spec fn view(&self) -> PoolState {
        PoolState {
            requests: self.requests@,
            request_ids: self.request_ids@.map_values(|id: RequestId| id@),
            partial_attestations: self.partial_attestations@,
            attestation_counts: self.attestation_counts@,
            fulfilled_attestations: self.fulfilled_attestations@,
            request_exists: self.request_exists@,
            fulfilled_exists: self.fulfilled_exists@,
            authorized_workers: self.authorized_workers@.map_values(|worker: Address| worker@),
            count: self.count,
            log: self.log@.map_values(|e: PoolEvent| e@),
        }
    }
}

impl RequestPool {
    /// A pool without workers and requests.
    pub fn new() -> (pool: Self)
        ensures
            pool@ == (PoolState {
                requests: Map::empty(),
                request_ids: Seq::empty(),
                partial_attestations: Map::empty(),
                attestation_counts: Map::empty(),
                fulfilled_attestations: Map::empty(),
                request_exists: Map::empty(),
                fulfilled_exists: Map::empty(),
                authorized_workers: Seq::empty(),
                count: 0,
                log: Seq::empty(),
            }),
    {
        let pool = RequestPool {
            requests: ByteMap::new(),
            request_ids: Vec::new(),
            partial_attestations: ByteMap::new(),
            attestation_counts: ByteMap::new(),
            fulfilled_attestations: ByteMap::new(),
            request_exists: ByteMap::new(),
            fulfilled_exists: ByteMap::new(),
            authorized_workers: Vec::new(),
            count: 0,
            log: Vec::new(),
        };
        assert(pool@.request_ids =~= Seq::empty());
        assert(pool@.authorized_workers =~= Seq::empty());
        assert(pool@.log =~= Seq::empty());
        pool
    }

    /// Sets the authorized workers. Must be called once after deployment.
    pub fn init(&mut self, workers: Vec<Address>) -> (r: Result<(), Vec<u8>>)
        ensures
            ({
                let given = workers@.map_values(|worker: Address| worker@);
                match old(self)@.init_refusal(given) {
                    Some(why) => {
                        &&& r matches Err(e) && e@ == vstd::utf8::encode_utf8(why)
                        &&& *final(self) == *old(self)
                    },
                    None => {
                        &&& r is Ok
                        &&& final(self)@ == old(self)@.after_init(given)
                    },
                }
            }),
    {
        // only allow init once
        if self.authorized_workers.len() > 0 {
            return Err(text_bytes("already initialized"));
        }
        if workers.len() != TOTAL_WORKERS {
            return Err(text_bytes("wrong worker count"));
        }
        self.authorized_workers = workers;
        Ok(())
    }

    /// Adds a decryption request, whose identifier is the hash of its fields. `timestamp` is
    /// the time of the block.
    pub fn add(
        &mut self,
        filename: Vec<u8>,
        witness_hex: Vec<u8>,
        location: Vec<u8>,
        timestamp: u64,
    ) -> (r: Result<(), Vec<u8>>)
        ensures
            if old(self)@.has(request_id(filename@, witness_hex@, location@)) {
                &&& r matches Err(e) && e@ == vstd::utf8::encode_utf8("RequestAlreadyExists"@)
                &&& *final(self) == *old(self)
            } else {
                &&& r is Ok
                &&& final(self)@ == old(self)@.after_add(
                    filename@,
                    witness_hex@,
                    location@,
                    timestamp,
                )
            },
    {
        let mut input: Vec<u8> = Vec::new();
        append(&mut input, filename.as_slice());
        append(&mut input, witness_hex.as_slice());
        append(&mut input, location.as_slice());
        assert(input@ =~= filename@ + witness_hex@ + location@);
        let id = keccak(input.as_slice());

        if flag_at(&self.request_exists, id.as_slice()) {
            return Err(text_bytes("RequestAlreadyExists"));
        }
        let encoded = encode_request(
            filename.as_slice(),
            witness_hex.as_slice(),
            location.as_slice(),
        );
        self.requests.insert(id.as_slice(), encoded);
        self.request_ids.push(id);
        self.request_exists.insert(id.as_slice(), true);
        self.count = self.count.wrapping_add(1);
        self.log.push(PoolEvent::RequestAdded { id, timestamp });
        assert(self@.request_ids =~= old(self)@.request_ids.push(id@));
        assert(self@.log =~= old(self)@.log.push(
            PoolEventView::RequestAdded { id: id@, timestamp },
        ));
        Ok(())
    }

    /// Reads all stored requests: their number, then the bytes of each behind its length.
    pub fn read_all(&self) -> (list: Vec<u8>)
        ensures
            list@ == listing(self@.stored_requests()),
    {
        let len: usize = self.request_ids.len();
        let mut list: Vec<u8> = Vec::new();
        let ghost requests = self@.stored_requests();
        let count: u64 = len as u64;
        assert(count as u32 == count % 0x1_0000_0000) by (bit_vector);
        append_u32_be(&mut list, count as u32);
        assert(list@ =~= u32_be(low_u32(requests.len())));
        assert(requests.take(0) =~= Seq::<Seq<u8>>::empty());
        let mut i: usize = 0;
        while i < len
            invariant
                len == self.request_ids@.len(),
                i <= len,
                requests == self@.stored_requests(),
                list@ == u32_be(low_u32(requests.len())) + prefixed_all(requests.take(i as int)),
            decreases len - i,
        {
            let data = blob_at(&self.requests, self.request_ids[i].as_slice());
            append_prefixed(&mut list, data.as_slice());
            assert(requests.take(i + 1).drop_last() =~= requests.take(i as int));
            assert(requests.take(i + 1).last() == data@);
            assert(list@ =~= u32_be(low_u32(requests.len())) + prefixed_all(requests.take(i + 1)));
            i = i + 1;
        }
        assert(requests.take(len as int) =~= requests);
        list
    }

    /// The number of requests that were added.
    pub fn count(&self) -> (n: u64)
        ensures
            n == self@.count,
    {
        self.count
    }

    /// A worker submits an attestation for a request. With the attestation that meets the
    /// threshold the request is fulfilled.
    pub fn submit_partial_attestation(
        &mut self,
        caller: Address,
        request_id: RequestId,
        attestation: Vec<u8>,
    ) -> (r: Result<(), Vec<u8>>)
        ensures
            match old(self)@.submit_refusal(caller@, request_id@) {
                Some(why) => {
                    &&& r matches Err(e) && e@ == vstd::utf8::encode_utf8(why)
                    &&& *final(self) == *old(self)
                },
                None => {
                    &&& r is Ok
                    &&& final(self)@ == old(self)@.after_submit(
                        caller@,
                        request_id@,
                        attestation@,
                    )
                },
            },
    {
        if !self.is_authorized(caller) {
            return Err(text_bytes("Unauthorized"));
        }
        if !flag_at(&self.request_exists, request_id.as_slice()) {
            return Err(text_bytes("RequestNotFound"));
        }
        if flag_at(&self.fulfilled_exists, request_id.as_slice()) {
            return Err(text_bytes("AlreadyFulfilled"));
        }
        let key = attestation_key(request_id, caller);
        let existing = blob_at(&self.partial_attestations, key.as_slice());
        if existing.len() > 0 {
            return Err(text_bytes("AlreadyAttested"));
        }
        self.partial_attestations.insert(key.as_slice(), attestation);

        let count: u32 = self.get_attestation_count(request_id).wrapping_add(1);
        self.attestation_counts.insert(request_id.as_slice(), count);
        self.log.push(PoolEvent::PartialAttestationSubmitted { request_id, worker: caller, count });
        proof {
            let recorded = old(self)@.recorded(caller@, request_id@, attestation@);
            assert(self@.log =~= recorded.log);
            assert(self@ == recorded);
        }
        if count >= THRESHOLD {
            self.finalize_request(request_id);
        }
        Ok(())
    }

    /// The joined attestations of a request; empty before it is fulfilled.
    pub fn get_attestation(&self, id: RequestId) -> (attestation: Vec<u8>)
        ensures
            attestation@ == blob(self@.fulfilled_attestations, id@),
    {
        blob_at(&self.fulfilled_attestations, id.as_slice())
    }

    /// How many attestations were submitted for a request.
    pub fn get_attestation_count(&self, id: RequestId) -> (n: u32)
        ensures
            n == self@.attestations(id@),
    {
        match self.attestation_counts.get(id.as_slice()) {
            Some(n) => *n,
            None => 0,
        }
    }

    /// Whether a request exists.
    pub fn has_request(&self, id: RequestId) -> (found: bool)
        ensures
            found == self@.has(id@),
    {
        flag_at(&self.request_exists, id.as_slice())
    }

    /// Whether a request has been fulfilled.
    pub fn is_fulfilled(&self, id: RequestId) -> (fulfilled: bool)
        ensures
            fulfilled == self@.fulfilled(id@),
    {
        flag_at(&self.fulfilled_exists, id.as_slice())
    }

    /// Hashes arbitrary data with Keccak-256.
    pub fn hash_request(&self, data: Vec<u8>) -> (digest: [u8; 32])
        ensures
            digest@ == keccak256_digest(data@),
    {
        keccak(data.as_slice())
    }

    /// Whether an address is in the list of authorized workers.
    fn is_authorized(&self, addr: Address) -> (authorized: bool)
        ensures
            authorized == self@.authorized_workers.contains(addr@),
    {
        let ghost workers = self@.authorized_workers;
        let mut i: usize = 0;
        while i < self.authorized_workers.len()
            invariant
                i <= self.authorized_workers@.len(),
                workers == self@.authorized_workers,
                forall|j: int| 0 <= j < i ==> workers[j] != addr@,
            decreases self.authorized_workers@.len() - i,
        {
            if bytes_equal(self.authorized_workers[i].as_slice(), addr.as_slice()) {
                assert(workers[i as int] == addr@);
                return true;
            }
            i = i + 1;
        }
        false
    }

    /// Fulfills a request with the attestations of all workers, one after the other.
    fn finalize_request(&mut self, request_id: RequestId)
        ensures
            final(self)@ == old(self)@.finalized(request_id@),
    {
        let mut combined: Vec<u8> = Vec::new();
        let ghost workers = self@.authorized_workers;
        let ghost partials = self@.partial_attestations;
        assert(workers.take(0) =~= Seq::<Seq<u8>>::empty());
        let mut i: usize = 0;
        while i < self.authorized_workers.len()
            invariant
                i <= self.authorized_workers@.len(),
                workers == self@.authorized_workers,
                partials == self@.partial_attestations,
                *self == *old(self),
                combined@ == joined(partials, request_id@, workers.take(i as int)),
            decreases self.authorized_workers@.len() - i,
        {
            let key = attestation_key(request_id, self.authorized_workers[i]);
            let partial = blob_at(&self.partial_attestations, key.as_slice());
            append(&mut combined, partial.as_slice());
            assert(workers.take(i + 1).drop_last() =~= workers.take(i as int));
            i = i + 1;
        }
        assert(workers.take(workers.len() as int) =~= workers);
        let attestation_hash = keccak(combined.as_slice());
        self.fulfilled_attestations.insert(request_id.as_slice(), combined);
        self.fulfilled_exists.insert(request_id.as_slice(), true);
        self.log.push(PoolEvent::RequestFulfilled { id: request_id, attestation_hash });
        assert(self@.log =~= old(self)@.finalized(request_id@).log);
    }
}

} // verus!
