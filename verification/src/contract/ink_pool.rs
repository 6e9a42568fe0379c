//! The request pool of a chain that runs ink! contracts.
//!
//! Requests are stored under the BLAKE2 hash of their fields. When enough workers have
//! attested, their attestations are joined and the request is fulfilled.

use vstd::prelude::*;

use crate::bytes::{append, bytes_equal, to_vec};
use crate::hashing::{blake2x256, blake2x256_digest};
use crate::table::ByteMap;

verus! {

/// How many workers have to attest before a request is fulfilled.
pub const THRESHOLD: u32 = 1;

/// How many workers the pool has.
pub const TOTAL_WORKERS: u32 = 2;

/// The identifier of an account.
pub type AccountId = [u8; 32];

/// An attestation, which its reader decodes.
pub type Attestation = Vec<u8>;

/// Bytes without a meaning to the contract.
#[derive(Debug, PartialEq, Eq)]
pub struct GenericData(pub Vec<u8>);

impl View for GenericData {
    type V = Seq<u8>;

    open spec fn view(&self) -> Seq<u8> {
        self.0@
    }
}

/// A request to decrypt a file.
#[derive(Debug, PartialEq, Eq)]
pub struct DecryptionRequest {
    pub filename: GenericData,
    pub witness_hex: GenericData,
    pub location: GenericData,
}

/// The fields of a request.
#[verifier::ext_equal]
pub struct RequestView {
    pub filename: Seq<u8>,
    pub witness_hex: Seq<u8>,
    pub location: Seq<u8>,
}

impl View for DecryptionRequest {
    type V = RequestView;

    open spec fn view(&self) -> RequestView {
        RequestView {
            filename: self.filename@,
            witness_hex: self.witness_hex@,
            location: self.location@,
        }
    }
}

impl Clone for GenericData {
    fn clone(&self) -> (copy: GenericData)
        ensures
            copy@ == self@,
    {
        GenericData(to_vec(self.0.as_slice()))
    }
}

impl Clone for DecryptionRequest {
    fn clone(&self) -> (copy: DecryptionRequest)
        ensures
            copy@ == self@,
    {
        DecryptionRequest {
            filename: self.filename.clone(),
            witness_hex: self.witness_hex.clone(),
            location: self.location.clone(),
        }
    }
}

/// Why the pool refuses a call.
#[derive(Debug, PartialEq, Eq, Structural, Clone, Copy)]
pub enum Error {
    RequestAlreadyExists,
    RequestNotFound,
    AlreadyFulfilled,
    Unauthorized,
    AlreadyAttested,
}

/// A request was added.
#[derive(Debug)]
pub struct RequestAdded {
    pub id: Vec<u8>,
    pub timestamp: u64,
}

/// A request was fulfilled.
#[derive(Debug)]
pub struct RequestFulfilled {
    pub id: Vec<u8>,
    pub attestation_hash: [u8; 32],
}

/// A worker attested.
#[derive(Debug)]
pub struct PartialAttestationSubmitted {
    pub request_id: Vec<u8>,
    pub worker: AccountId,
    pub count: u32,
}

/// What the pool emits.
#[derive(Debug)]
pub enum PoolEvent {
    Added(RequestAdded),
    Fulfilled(RequestFulfilled),
    Submitted(PartialAttestationSubmitted),
}

/// What an event says.
pub enum PoolEventView {
    Added { id: Seq<u8>, timestamp: u64 },
    Fulfilled { id: Seq<u8>, attestation_hash: Seq<u8> },
    Submitted { request_id: Seq<u8>, worker: Seq<u8>, count: u32 },
}

impl View for PoolEvent {
    type V = PoolEventView;

    open spec fn view(&self) -> PoolEventView {
        match self {
            PoolEvent::Added(e) => PoolEventView::Added { id: e.id@, timestamp: e.timestamp },
            PoolEvent::Fulfilled(e) => PoolEventView::Fulfilled {
                id: e.id@,
                attestation_hash: e.attestation_hash@,
            },
            PoolEvent::Submitted(e) => PoolEventView::Submitted {
                request_id: e.request_id@,
                worker: e.worker@,
                count: e.count,
            },
        }
    }
}

/// The identifier of a request: the hash of its fields one after the other.
pub open spec fn request_id(request: RequestView) -> Seq<u8> {
    blake2x256_digest(request.filename + request.witness_hex + request.location)
}

/// The requests that are stored under `ids`, in that order.
pub open spec fn listed(ids: Seq<Seq<u8>>, requests: Map<Seq<u8>, RequestView>) -> Seq<RequestView>
    decreases ids.len(),
{
    if ids.len() == 0 {
        Seq::empty()
    } else if requests.contains_key(ids.last()) {
        listed(ids.drop_last(), requests).push(requests[ids.last()])
    } else {
        listed(ids.drop_last(), requests)
    }
}

/// The attestations that `workers` stored for a request, one after the other.
pub open spec fn joined(partials: Map<Seq<u8>, Seq<u8>>, id: Seq<u8>, workers: Seq<Seq<u8>>) -> Seq<
    u8,
>
    decreases workers.len(),
{
    if workers.len() == 0 {
        Seq::empty()
    } else {
        joined(partials, id, workers.drop_last()) + (if partials.contains_key(
            id + workers.last(),
        ) {
            partials[id + workers.last()]
        } else {
            Seq::empty()
        })
    }
}

/// The state of the pool.
#[verifier::ext_equal]
pub struct PoolState {
    pub requests: Map<Seq<u8>, RequestView>,
    /// The identifiers of the requests, oldest first.
    pub request_ids: Seq<Seq<u8>>,
    /// The attestation of each worker, keyed by the request and then the worker.
    pub partial_attestations: Map<Seq<u8>, Seq<u8>>,
    /// How many attestations were submitted for a request.
    pub attestation_counts: Map<Seq<u8>, u32>,
    /// The joined attestations of each fulfilled request.
    pub fulfilled_attestations: Map<Seq<u8>, Seq<u8>>,
    pub authorized_workers: Seq<Seq<u8>>,
    pub count: u64,
    /// What was emitted, oldest first.
    pub log: Seq<PoolEventView>,
}

impl PoolState {
    /// How many attestations were submitted for a request.
    pub open spec fn attestations(self, id: Seq<u8>) -> u32 {
        if self.attestation_counts.contains_key(id) {
            self.attestation_counts[id]
        } else {
            0
        }
    }

    /// The state after a request was added.
    pub open spec fn after_add(self, request: RequestView, timestamp: u64) -> PoolState {
        let id = request_id(request);
        PoolState {
            requests: self.requests.insert(id, request),
            request_ids: self.request_ids.push(id),
            count: if self.count == u64::MAX {
                u64::MAX
            } else {
                (self.count + 1) as u64
            },
            log: self.log.push(PoolEventView::Added { id, timestamp }),
            ..self
        }
    }

    /// Why an attestation is refused, if it is.
    pub open spec fn submit_refusal(self, caller: Seq<u8>, id: Seq<u8>) -> Option<Error> {
        if !self.authorized_workers.contains(caller) {
            Some(Error::Unauthorized)
        } else if !self.requests.contains_key(id) {
            Some(Error::RequestNotFound)
        } else if self.fulfilled_attestations.contains_key(id) {
            Some(Error::AlreadyFulfilled)
        } else if self.partial_attestations.contains_key(id + caller) {
            Some(Error::AlreadyAttested)
        } else {
            None
        }
    }

    /// The state after a worker's attestation was recorded, before the request is fulfilled.
    pub open spec fn recorded(
        self,
        caller: Seq<u8>,
        id: Seq<u8>,
        attestation: Seq<u8>,
    ) -> PoolState {
        let count = if self.attestations(id) == u32::MAX {
            u32::MAX
        } else {
            (self.attestations(id) + 1) as u32
        };
        PoolState {
            partial_attestations: self.partial_attestations.insert(id + caller, attestation),
            attestation_counts: self.attestation_counts.insert(id, count),
            log: self.log.push(PoolEventView::Submitted { request_id: id, worker: caller, count }),
            ..self
        }
    }

    /// The state after a request was fulfilled with all attestations that are stored for it.
    pub open spec fn finalized(self, id: Seq<u8>) -> PoolState {
        let combined = joined(self.partial_attestations, id, self.authorized_workers);
        PoolState {
            fulfilled_attestations: self.fulfilled_attestations.insert(id, combined),
            log: self.log.push(
                PoolEventView::Fulfilled { id, attestation_hash: blake2x256_digest(combined) },
            ),
            ..self
        }
    }

    /// The state after a worker's attestation was accepted.
    pub open spec fn after_submit(
        self,
        caller: Seq<u8>,
        id: Seq<u8>,
        attestation: Seq<u8>,
    ) -> PoolState {
        let recorded = self.recorded(caller, id, attestation);
        if recorded.attestations(id) >= THRESHOLD {
            recorded.finalized(id)
        } else {
            recorded
        }
    }
}

/// The request pool contract.
pub struct RequestPool {
    pub requests: ByteMap<DecryptionRequest>,
    pub request_ids: Vec<Vec<u8>>,
    pub partial_attestations: ByteMap<Attestation>,
    pub attestation_counts: ByteMap<u32>,
    pub fulfilled_attestations: ByteMap<Attestation>,
    pub authorized_workers: Vec<AccountId>,
    pub count: u64,
    pub log: Vec<PoolEvent>,
}

impl View for RequestPool {
    type V = PoolState;

    open spec fn view(&self) -> PoolState {
        PoolState {
            requests: self.requests@,
            request_ids: self.request_ids@.map_values(|id: Vec<u8>| id@),
            partial_attestations: self.partial_attestations@,
            attestation_counts: self.attestation_counts@,
            fulfilled_attestations: self.fulfilled_attestations@,
            authorized_workers: self.authorized_workers@.map_values(|worker: AccountId| worker@),
            count: self.count,
            log: self.log@.map_values(|e: PoolEvent| e@),
        }
    }
}

/// The key under which a worker's attestation for a request is stored.
fn worker_key(id: &[u8], worker: &AccountId) -> (key: Vec<u8>)
    ensures
        key@ == id@ + worker@,
{
    let mut key = to_vec(id);
    append(&mut key, worker.as_slice());
    key
}

impl RequestPool {
    /// A pool with these workers and without requests.
    pub fn new(workers: Vec<AccountId>) -> (pool: Self)
        requires
            workers@.len() == TOTAL_WORKERS,
        ensures
            pool@ == (PoolState {
                requests: Map::empty(),
                request_ids: Seq::empty(),
                partial_attestations: Map::empty(),
                attestation_counts: Map::empty(),
                fulfilled_attestations: Map::empty(),
                authorized_workers: workers@.map_values(|worker: AccountId| worker@),
                count: 0,
                log: Seq::empty(),
            }),
    {
        let pool = RequestPool {
            requests: ByteMap::new(),
            request_ids: Vec::new(),
            partial_attestations: ByteMap::new(),
            attestation_counts: ByteMap::new(),
            fulfilled_attestations: ByteMap::new(),
            authorized_workers: workers,
            count: 0,
            log: Vec::new(),
        };
        assert(pool@.request_ids =~= Seq::empty());
        assert(pool@.log =~= Seq::empty());
        pool
    }

    /// Adds a request, whose identifier is the hash of its fields. `timestamp` is the time of
    /// the block.
    pub fn add(
        &mut self,
        filename: GenericData,
        witness_hex: GenericData,
        location: GenericData,
        timestamp: u64,
    ) -> (r: Result<(), Error>)
        ensures
            ({
                let request = RequestView {
                    filename: filename@,
                    witness_hex: witness_hex@,
                    location: location@,
                };
                if old(self)@.requests.contains_key(request_id(request)) {
                    &&& r == Err::<(), Error>(Error::RequestAlreadyExists)
                    &&& *final(self) == *old(self)
                } else {
                    &&& r is Ok
                    &&& final(self)@ == old(self)@.after_add(request, timestamp)
                }
            }),
    {
        let mut input: Vec<u8> = Vec::new();
        append(&mut input, filename.0.as_slice());
        append(&mut input, witness_hex.0.as_slice());
        append(&mut input, location.0.as_slice());
        assert(input@ =~= filename@ + witness_hex@ + location@);
        let id = self.hash_request(input.as_slice());

        if self.requests.contains(id.as_slice()) {
            return Err(Error::RequestAlreadyExists);
        }
        let request = DecryptionRequest { filename, witness_hex, location };
        self.requests.insert(id.as_slice(), request);
        self.request_ids.push(to_vec(id.as_slice()));
        self.count = self.count.saturating_add(1);
        let ghost new = id@;
        self.log.push(PoolEvent::Added(RequestAdded { id, timestamp }));
        assert(self@.request_ids =~= old(self)@.request_ids.push(new));
        assert(self@.log =~= old(self)@.log.push(PoolEventView::Added { id: new, timestamp }));
        Ok(())
    }

    /// Reads all requests.
    pub fn read_all(&self) -> (requests: Vec<DecryptionRequest>)
        ensures
            requests@.map_values(|r: DecryptionRequest| r@) == listed(
                self@.request_ids,
                self@.requests,
            ),
    {
        let mut requests: Vec<DecryptionRequest> = Vec::new();
        let ghost ids = self@.request_ids;
        let ghost view = |r: DecryptionRequest| r@;
        assert(ids.take(0) =~= Seq::<Seq<u8>>::empty());
        assert(requests@.map_values(view) =~= Seq::<RequestView>::empty());
        let mut i: usize = 0;
        while i < self.request_ids.len()
            invariant
                i <= self.request_ids@.len(),
                ids == self@.request_ids,
                view == |r: DecryptionRequest| r@,
                requests@.map_values(view) == listed(ids.take(i as int), self@.requests),
            decreases self.request_ids@.len() - i,
        {
            let ghost before = requests@;
            assert(ids.take(i + 1).drop_last() =~= ids.take(i as int));
            assert(ids.take(i + 1).last() == ids[i as int]);
            if let Some(request) = self.requests.get(self.request_ids[i].as_slice()) {
                requests.push(request.clone());
                assert(requests@.map_values(view) =~= before.map_values(view).push(request@));
            }
            i = i + 1;
        }
        assert(ids.take(ids.len() as int) =~= ids);
        requests
    }

    /// The number of requests that were added.
    pub fn count(&self) -> (n: u64)
        ensures
            n == self@.count,
    {
        self.count
    }

    /// A worker submits an attestation for a request. With the attestation that meets the
    /// threshold the request is fulfilled.
    pub fn submit_partial_attestation(
        &mut self,
        caller: AccountId,
        request_id: Vec<u8>,
        attestation: Attestation,
    ) -> (r: Result<(), Error>)
        ensures
            match old(self)@.submit_refusal(caller@, request_id@) {
                Some(why) => {
                    &&& r == Err::<(), Error>(why)
                    &&& *final(self) == *old(self)
                },
                None => {
                    &&& r is Ok
                    &&& final(self)@ == old(self)@.after_submit(
                        caller@,
                        request_id@,
                        attestation@,
                    )
                },
            },
    {
        if !self.is_authorized(&caller) {
            return Err(Error::Unauthorized);
        }
        if !self.requests.contains(request_id.as_slice()) {
            return Err(Error::RequestNotFound);
        }
        if self.fulfilled_attestations.contains(request_id.as_slice()) {
            return Err(Error::AlreadyFulfilled);
        }
        let key = worker_key(request_id.as_slice(), &caller);
        if self.partial_attestations.contains(key.as_slice()) {
            return Err(Error::AlreadyAttested);
        }
        self.partial_attestations.insert(key.as_slice(), attestation);

        let count: u32 = self.attestations_for(request_id.as_slice()).saturating_add(1);
        self.attestation_counts.insert(request_id.as_slice(), count);
        self.log.push(
            PoolEvent::Submitted(
                PartialAttestationSubmitted {
                    request_id: to_vec(request_id.as_slice()),
                    worker: caller,
                    count,
                },
            ),
        );
        proof {
            let recorded = old(self)@.recorded(caller@, request_id@, attestation@);
            assert(self@.log =~= recorded.log);
            assert(self@ == recorded);
        }
        if count >= THRESHOLD {
            self.finalize_request(request_id);
        }
        Ok(())
    }

    /// Fulfills a request with the attestations of all workers, one after the other.
    fn finalize_request(&mut self, request_id: Vec<u8>)
        ensures
            final(self)@ == old(self)@.finalized(request_id@),
    {
        let mut combined: Vec<u8> = Vec::new();
        let ghost workers = self@.authorized_workers;
        let ghost partials = self@.partial_attestations;
        assert(workers.take(0) =~= Seq::<Seq<u8>>::empty());
        let mut i: usize = 0;
        while i < self.authorized_workers.len()
            invariant
                i <= self.authorized_workers@.len(),
                workers == self@.authorized_workers,
                partials == self@.partial_attestations,
                *self == *old(self),
                combined@ == joined(partials, request_id@, workers.take(i as int)),
            decreases self.authorized_workers@.len() - i,
        {
            assert(workers.take(i + 1).drop_last() =~= workers.take(i as int));
            assert(workers.take(i + 1).last() == workers[i as int]);
            let key = worker_key(request_id.as_slice(), &self.authorized_workers[i]);
            if let Some(partial) = self.partial_attestations.get(key.as_slice()) {
                append(&mut combined, partial.as_slice());
            } else {
                assert(combined@ + Seq::<u8>::empty() =~= combined@);
            }
            i = i + 1;
        }
        assert(workers.take(workers.len() as int) =~= workers);
        let attestation_hash = self.hash_attestation(&combined);
        self.fulfilled_attestations.insert(request_id.as_slice(), combined);
        let ghost id = request_id@;
        self.log.push(PoolEvent::Fulfilled(RequestFulfilled { id: request_id, attestation_hash }));
        assert(self@.log =~= old(self)@.finalized(id).log);
    }

    /// The joined attestations of a request, once it is fulfilled.
    pub fn get_attestation(&self, id: Vec<u8>) -> (attestation: Option<Attestation>)
        ensures
            match attestation {
                Some(a) => self@.fulfilled_attestations.contains_key(id@)
                    && self@.fulfilled_attestations[id@] == a@,
                None => !self@.fulfilled_attestations.contains_key(id@),
            },
    {
        match self.fulfilled_attestations.get(id.as_slice()) {
            Some(a) => Some(to_vec(a.as_slice())),
            None => None,
        }
    }

    /// How many attestations were submitted for a request.
    pub fn get_attestation_count(&self, id: Vec<u8>) -> (n: u32)
        ensures
            n == self@.attestations(id@),
    {
        self.attestations_for(id.as_slice())
    }

    fn attestations_for(&self, id: &[u8]) -> (n: u32)
        ensures
            n == self@.attestations(id@),
    {
        match self.attestation_counts.get(id) {
            Some(n) => *n,
            None => 0,
        }
    }

    fn is_authorized(&self, account: &AccountId) -> (authorized: bool)
        ensures
            authorized == self@.authorized_workers.contains(account@),
    {
        let ghost workers = self@.authorized_workers;
        let mut i: usize = 0;
        while i < self.authorized_workers.len()
            invariant
                i <= self.authorized_workers@.len(),
                workers == self@.authorized_workers,
                forall|j: int| 0 <= j < i ==> workers[j] != account@,
            decreases self.authorized_workers@.len() - i,
        {
            if bytes_equal(self.authorized_workers[i].as_slice(), account.as_slice()) {
                assert(workers[i as int] == account@);
                return true;
            }
            i = i + 1;
        }
        false
    }

    /// Hashes the fields of a request to its identifier.
    pub fn hash_request(&self, data: &[u8]) -> (id: Vec<u8>)
        ensures
            id@ == blake2x256_digest(data@),
    {
        to_vec(blake2x256(data).as_slice())
    }

    fn hash_attestation(&self, attestation: &Attestation) -> (digest: [u8; 32])
        ensures
            digest@ == blake2x256_digest(attestation@),
    {
        blake2x256(attestation.as_slice())
    }
}

} // verus!
