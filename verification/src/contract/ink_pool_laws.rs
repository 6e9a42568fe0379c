//! What holds of the ink! request pool over several calls.

use vstd::prelude::*;

use super::ink_pool::{
    joined, listed, request_id, DecryptionRequest, Error, PoolEvent, PoolEventView, PoolState,
    RequestPool, RequestView, THRESHOLD, TOTAL_WORKERS,
};
use crate::hashing::blake2x256_digest;

verus! {

impl PoolState {
    /// The list names every request once and no other, and each request stands under the hash
    /// of its fields; workers have 32 bytes; only requests of the pool are fulfilled, each by
    /// one attestation, and nobody attested to a request that is not fulfilled.
    pub open spec fn well_formed(self) -> bool {
        &&& self.request_ids.no_duplicates()
        &&& forall|id: Seq<u8>| #[trigger]
            self.request_ids.contains(id) <==> self.requests.contains_key(id)
        &&& self.count as nat == if self.request_ids.len() <= u64::MAX {
            self.request_ids.len()
        } else {
            u64::MAX as nat
        }
        &&& forall|id: Seq<u8>| #[trigger]
            self.requests.contains_key(id) ==> request_id(self.requests[id]) == id
        &&& forall|i: int|
            0 <= i < self.authorized_workers.len() ==> (
            #[trigger] self.authorized_workers[i]).len() == 32
        &&& forall|id: Seq<u8>| #[trigger]
            self.fulfilled_attestations.contains_key(id) ==> self.requests.contains_key(id)
        &&& forall|id: Seq<u8>| #[trigger]
            self.attestations(id) == (if self.fulfilled_attestations.contains_key(id) {
                1u32
            } else {
                0u32
            })
        &&& forall|id: Seq<u8>, worker: Seq<u8>|
            worker.len() == 32 && #[trigger] self.partial_attestations.contains_key(id + worker)
                ==> self.fulfilled_attestations.contains_key(id)
    }
}

/// A pool without requests is well formed.
pub proof fn law_empty_pool_is_well_formed(s: PoolState)
    requires
        s.requests == Map::<Seq<u8>, RequestView>::empty(),
        s.request_ids == Seq::<Seq<u8>>::empty(),
        s.partial_attestations == Map::<Seq<u8>, Seq<u8>>::empty(),
        s.attestation_counts == Map::<Seq<u8>, u32>::empty(),
        s.fulfilled_attestations == Map::<Seq<u8>, Seq<u8>>::empty(),
        s.count == 0,
        forall|i: int|
            0 <= i < s.authorized_workers.len() ==> (#[trigger] s.authorized_workers[i]).len()
                == 32,
    ensures
        s.well_formed(),
{
}

/// Adding a request keeps the pool well formed.
pub proof fn law_add_keeps_well_formed(s: PoolState, request: RequestView, timestamp: u64)
    requires
        s.well_formed(),
        !s.requests.contains_key(request_id(request)),
    ensures
        s.after_add(request, timestamp).well_formed(),
{
    let after = s.after_add(request, timestamp);
    let new = request_id(request);
    assert forall|id: Seq<u8>| #[trigger]
        after.request_ids.contains(id) <==> after.requests.contains_key(id) by {
        assert(s.request_ids.contains(id) <==> s.requests.contains_key(id));
        if after.request_ids.contains(id) && id != new {
            let i = choose|i: int| 0 <= i < after.request_ids.len() && after.request_ids[i] == id;
            assert(s.request_ids[i] == id);
        }
        if after.requests.contains_key(id) {
            if id == new {
                assert(after.request_ids[s.request_ids.len() as int] == new);
            } else {
                let i = choose|i: int| 0 <= i < s.request_ids.len() && s.request_ids[i] == id;
                assert(after.request_ids[i] == id);
            }
        }
    }
    assert forall|i: int, j: int|
        0 <= i < after.request_ids.len() && 0 <= j < after.request_ids.len() && i != j implies
        after.request_ids[i] != after.request_ids[j] by {
        if i == s.request_ids.len() {
            assert(s.request_ids.contains(s.request_ids[j]));
        }
        if j == s.request_ids.len() {
            assert(s.request_ids.contains(s.request_ids[i]));
        }
    }
    assert forall|id: Seq<u8>| #[trigger]
        after.attestations(id) == (if after.fulfilled_attestations.contains_key(id) {
            1u32
        } else {
            0u32
        }) by {
        assert(s.attestations(id) == after.attestations(id));
    }
}

proof fn lemma_worker_keys_differ(a: Seq<u8>, v: Seq<u8>, b: Seq<u8>, w: Seq<u8>)
    requires
        v.len() == 32,
        w.len() == 32,
        a + v == b + w,
    ensures
        a == b,
        v == w,
{
    let n = a.len() as int;
    assert((a + v).len() == n + 32);
    assert((b + w).len() == b.len() + 32);
    assert((a + v).subrange(0, n) =~= a);
    assert((b + w).subrange(0, n) =~= b);
    assert((a + v).subrange(n, n + 32) =~= v);
    assert((b + w).subrange(n, n + 32) =~= w);
}

/// Accepting an attestation keeps the pool well formed.
pub proof fn law_submit_keeps_well_formed(
    s: PoolState,
    caller: Seq<u8>,
    id: Seq<u8>,
    attestation: Seq<u8>,
)
    requires
        s.well_formed(),
        s.submit_refusal(caller, id) is None,
    ensures
        s.after_submit(caller, id, attestation).well_formed(),
{
    let after = s.after_submit(caller, id, attestation);
    assert(s.attestations(id) == 0);
    assert(s.recorded(caller, id, attestation).attestations(id) == 1);
    assert(caller.len() == 32) by {
        let i = choose|i: int|
            0 <= i < s.authorized_workers.len() && s.authorized_workers[i] == caller;
        assert(s.authorized_workers[i].len() == 32);
    }
    assert forall|k: Seq<u8>| #[trigger]
        after.request_ids.contains(k) <==> after.requests.contains_key(k) by {
        assert(s.request_ids.contains(k) <==> s.requests.contains_key(k));
    }
    assert forall|k: Seq<u8>| #[trigger]
        after.attestations(k) == (if after.fulfilled_attestations.contains_key(k) {
            1u32
        } else {
            0u32
        }) by {
        if k != id {
            assert(s.attestations(k) == after.attestations(k));
        }
    }
    assert forall|k: Seq<u8>, worker: Seq<u8>|
        worker.len() == 32 && #[trigger] after.partial_attestations.contains_key(
            k + worker,
        ) implies after.fulfilled_attestations.contains_key(k) by {
        if k + worker == id + caller {
            lemma_worker_keys_differ(k, worker, id, caller);
        } else {
            assert(s.partial_attestations.contains_key(k + worker));
        }
    }
}

/// In a well-formed pool the first accepted attestation fulfills a request, and no later one
/// is accepted for it, whoever the caller is.
pub proof fn law_one_attestation_fulfills(
    s: PoolState,
    caller: Seq<u8>,
    id: Seq<u8>,
    attestation: Seq<u8>,
    later: Seq<u8>,
)
    requires
        s.well_formed(),
        s.submit_refusal(caller, id) is None,
    ensures
        s.after_submit(caller, id, attestation).fulfilled_attestations.contains_key(id),
        s.after_submit(caller, id, attestation).attestations(id) == 1,
        s.after_submit(caller, id, attestation).submit_refusal(later, id) is Some,
{
    assert(s.attestations(id) == 0);
}

proof fn lemma_joined_nothing(partials: Map<Seq<u8>, Seq<u8>>, id: Seq<u8>, workers: Seq<Seq<u8>>)
    requires
        forall|i: int|
            0 <= i < workers.len() ==> !partials.contains_key(id + #[trigger] workers[i]),
    ensures
        joined(partials, id, workers) == Seq::<u8>::empty(),
    decreases workers.len(),
{
    if workers.len() > 0 {
        let front = workers.drop_last();
        assert forall|i: int| 0 <= i < front.len() implies !partials.contains_key(
            id + #[trigger] front[i],
        ) by {
            assert(front[i] == workers[i]);
        }
        lemma_joined_nothing(partials, id, front);
        assert(workers[workers.len() - 1] == workers.last());
    }
}

proof fn lemma_joined_one(
    partials: Map<Seq<u8>, Seq<u8>>,
    id: Seq<u8>,
    workers: Seq<Seq<u8>>,
    at: int,
)
    requires
        0 <= at < workers.len(),
        partials.contains_key(id + workers[at]),
        forall|i: int|
            0 <= i < workers.len() && i != at ==> !partials.contains_key(
                id + #[trigger] workers[i],
            ),
    ensures
        joined(partials, id, workers) == partials[id + workers[at]],
    decreases workers.len(),
{
    let front = workers.drop_last();
    assert forall|i: int| 0 <= i < front.len() && i != at implies !partials.contains_key(
        id + #[trigger] front[i],
    ) by {
        assert(front[i] == workers[i]);
    }
    if at == workers.len() - 1 {
        lemma_joined_nothing(partials, id, front);
    } else {
        lemma_joined_one(partials, id, front, at);
        assert(workers[workers.len() - 1] == workers.last());
    }
    assert(joined(partials, id, workers) =~= partials[id + workers[at]]);
}

/// In a well-formed pool with different workers, a request is answered with the attestation
/// that fulfilled it.
pub proof fn law_attestation_reads_back(
    s: PoolState,
    caller: Seq<u8>,
    id: Seq<u8>,
    attestation: Seq<u8>,
)
    requires
        s.well_formed(),
        s.authorized_workers.no_duplicates(),
        s.submit_refusal(caller, id) is None,
    ensures
        s.after_submit(caller, id, attestation).fulfilled_attestations[id] == attestation,
{
    let workers = s.authorized_workers;
    let partials = s.partial_attestations.insert(id + caller, attestation);
    assert(s.attestations(id) == 0);
    let at = choose|i: int| 0 <= i < workers.len() && workers[i] == caller;
    assert forall|i: int| 0 <= i < workers.len() && i != at implies !partials.contains_key(
        id + #[trigger] workers[i],
    ) by {
        assert(workers[i].len() == 32 && workers[at].len() == 32);
        if id + workers[i] == id + caller {
            lemma_worker_keys_differ(id, workers[i], id, caller);
        }
        if s.partial_attestations.contains_key(id + workers[i]) {
            assert(s.fulfilled_attestations.contains_key(id));
        }
    }
    lemma_joined_one(partials, id, workers, at);
}

/// What a fulfilled request is answered with never changes: neither an added request nor an
/// accepted attestation touches it.
pub proof fn law_fulfilled_answer_is_final(
    s: PoolState,
    id: Seq<u8>,
    request: RequestView,
    timestamp: u64,
    caller: Seq<u8>,
    other: Seq<u8>,
    attestation: Seq<u8>,
)
    requires
        s.fulfilled_attestations.contains_key(id),
        s.submit_refusal(caller, other) is None,
    ensures
        s.after_add(request, timestamp).fulfilled_attestations.contains_key(id),
        s.after_add(request, timestamp).fulfilled_attestations[id] == s.fulfilled_attestations[id],
        s.after_submit(caller, other, attestation).fulfilled_attestations.contains_key(id),
        s.after_submit(caller, other, attestation).fulfilled_attestations[id]
            == s.fulfilled_attestations[id],
{
}

proof fn lemma_listed_same(
    ids: Seq<Seq<u8>>,
    requests: Map<Seq<u8>, RequestView>,
    more: Map<Seq<u8>, RequestView>,
)
    requires
        forall|i: int|
            0 <= i < ids.len() ==> requests.contains_key(#[trigger] ids[i]) && more.contains_key(
                ids[i],
            ) && more[ids[i]] == requests[ids[i]],
    ensures
        listed(ids, more) == listed(ids, requests),
        listed(ids, requests).len() == ids.len(),
    decreases ids.len(),
{
    if ids.len() > 0 {
        let front = ids.drop_last();
        assert forall|i: int| 0 <= i < front.len() implies requests.contains_key(
            #[trigger] front[i],
        ) && more.contains_key(front[i]) && more[front[i]] == requests[front[i]] by {
            assert(front[i] == ids[i]);
        }
        lemma_listed_same(front, requests, more);
        assert(ids[ids.len() - 1] == ids.last());
    }
}

/// An added request is read behind all that were there before.
pub proof fn law_add_appends_to_what_is_read(s: PoolState, request: RequestView, timestamp: u64)
    requires
        s.well_formed(),
        !s.requests.contains_key(request_id(request)),
    ensures
        listed(
            s.after_add(request, timestamp).request_ids,
            s.after_add(request, timestamp).requests,
        ) == listed(s.request_ids, s.requests).push(request),
        listed(s.request_ids, s.requests).len() == s.request_ids.len(),
{
    let after = s.after_add(request, timestamp);
    assert forall|i: int| 0 <= i < s.request_ids.len() implies s.requests.contains_key(
        #[trigger] s.request_ids[i],
    ) && after.requests.contains_key(s.request_ids[i]) && after.requests[s.request_ids[i]]
        == s.requests[s.request_ids[i]] by {
        assert(s.request_ids.contains(s.request_ids[i]));
    }
    lemma_listed_same(s.request_ids, s.requests, after.requests);
    assert(after.request_ids.drop_last() =~= s.request_ids);
}

/// Why an attestation is refused, over every state: a caller who is no worker is told first, then
/// a request that is not stored, then one that is fulfilled, then a second attestation of the
/// same worker. Nothing else is refused, however much the pool holds.
pub proof fn law_what_is_refused(s: PoolState, caller: Seq<u8>, id: Seq<u8>)
    ensures
        s.submit_refusal(caller, id) is None <==> s.authorized_workers.contains(caller)
            && s.requests.contains_key(id) && !s.fulfilled_attestations.contains_key(id)
            && !s.partial_attestations.contains_key(id + caller),
        s.submit_refusal(caller, id) == Some(Error::Unauthorized)
            <==> !s.authorized_workers.contains(caller),
        s.submit_refusal(caller, id) == Some(Error::RequestNotFound)
            <==> s.authorized_workers.contains(caller) && !s.requests.contains_key(id),
        s.submit_refusal(caller, id) == Some(Error::AlreadyFulfilled)
            <==> s.authorized_workers.contains(caller) && s.requests.contains_key(id)
            && s.fulfilled_attestations.contains_key(id),
        s.submit_refusal(caller, id) == Some(Error::AlreadyAttested)
            <==> s.authorized_workers.contains(caller) && s.requests.contains_key(id)
            && !s.fulfilled_attestations.contains_key(id) && s.partial_attestations.contains_key(
            id + caller,
        ),
        s.submit_refusal(caller, id) != Some(Error::RequestAlreadyExists),
{
}

/// In a well-formed pool the attestation of an authorized worker is accepted for every request
/// that is stored and not fulfilled, however many requests the pool holds.
pub proof fn law_a_worker_may_attest_to_any_open_request(
    pool: RequestPool,
    worker: int,
    id: Seq<u8>,
)
    requires
        pool@.well_formed(),
        0 <= worker < pool.authorized_workers@.len(),
        pool.requests@.contains_key(id),
        !pool.fulfilled_attestations@.contains_key(id),
    ensures
        pool@.submit_refusal(pool.authorized_workers@[worker]@, id) is None,
{
    let caller = pool.authorized_workers@[worker]@;
    assert(pool@.authorized_workers[worker] == caller);
    assert(pool@.authorized_workers.contains(caller));
    if pool@.partial_attestations.contains_key(id + caller) {
        assert(pool@.fulfilled_attestations.contains_key(id));
    }
}

/// What a caller is answered does not depend on any other request: whichever of them are added
/// or fulfilled in between, an attestation is accepted or refused as before.
pub proof fn law_other_requests_do_not_matter(
    s: PoolState,
    caller: Seq<u8>,
    id: Seq<u8>,
    request: RequestView,
    timestamp: u64,
    other_worker: Seq<u8>,
    other: Seq<u8>,
    attestation: Seq<u8>,
)
    requires
        id != request_id(request),
        id != other,
        caller.len() == 32,
        other_worker.len() == 32,
    ensures
        s.after_add(request, timestamp).submit_refusal(caller, id) == s.submit_refusal(caller, id),
        s.after_submit(other_worker, other, attestation).submit_refusal(caller, id)
            == s.submit_refusal(caller, id),
{
    if id + caller == other + other_worker {
        lemma_worker_keys_differ(id, caller, other, other_worker);
    }
}

/// Adding a request stores its three fields under the hash of all of them, counts it, names it
/// last and emits that it was added, and touches nothing else.
pub proof fn law_add_stores_one_request(
    s: PoolState,
    request: RequestView,
    timestamp: u64,
    other: Seq<u8>,
)
    ensures
        ({
            let id = blake2x256_digest(request.filename + request.witness_hex + request.location);
            let after = s.after_add(request, timestamp);
            &&& request_id(request) == id
            &&& after.requests.contains_key(id)
            &&& after.requests[id].filename == request.filename
            &&& after.requests[id].witness_hex == request.witness_hex
            &&& after.requests[id].location == request.location
            &&& other != id ==> after.requests.contains_key(other) == s.requests.contains_key(other)
            &&& other != id && s.requests.contains_key(other) ==> after.requests[other]
                == s.requests[other]
            &&& after.request_ids.len() == s.request_ids.len() + 1
            &&& after.request_ids.last() == id
            &&& after.request_ids.drop_last() == s.request_ids
            &&& s.count < u64::MAX ==> after.count == s.count + 1
            &&& s.count == u64::MAX ==> after.count == u64::MAX
            &&& after.log.len() == s.log.len() + 1
            &&& after.log.drop_last() == s.log
            &&& after.log.last() == (PoolEventView::Added { id, timestamp })
            &&& after.partial_attestations == s.partial_attestations
            &&& after.attestation_counts == s.attestation_counts
            &&& after.fulfilled_attestations == s.fulfilled_attestations
            &&& after.authorized_workers == s.authorized_workers
        }),
{
    let after = s.after_add(request, timestamp);
    assert(after.request_ids.drop_last() =~= s.request_ids);
    assert(after.log.drop_last() =~= s.log);
}

/// An accepted attestation is stored for its worker and counted once, the request is fulfilled
/// with what all workers stored for it, and both are emitted. No other request, worker or
/// attestation is touched.
pub proof fn law_submit_touches_one_request(
    s: PoolState,
    caller: Seq<u8>,
    id: Seq<u8>,
    attestation: Seq<u8>,
    other: Seq<u8>,
    key: Seq<u8>,
)
    requires
        s.attestations(id) < u32::MAX,
        other != id,
        key != id + caller,
    ensures
        ({
            let after = s.after_submit(caller, id, attestation);
            let combined = joined(after.partial_attestations, id, s.authorized_workers);
            &&& after.requests == s.requests
            &&& after.request_ids == s.request_ids
            &&& after.count == s.count
            &&& after.authorized_workers == s.authorized_workers
            &&& after.partial_attestations.contains_key(id + caller)
            &&& after.partial_attestations[id + caller] == attestation
            &&& after.partial_attestations.contains_key(key)
                == s.partial_attestations.contains_key(key)
            &&& s.partial_attestations.contains_key(key) ==> after.partial_attestations[key]
                == s.partial_attestations[key]
            &&& after.attestations(id) == s.attestations(id) + 1
            &&& after.attestations(other) == s.attestations(other)
            &&& after.fulfilled_attestations.contains_key(id)
            &&& after.fulfilled_attestations[id] == combined
            &&& after.fulfilled_attestations.contains_key(other)
                == s.fulfilled_attestations.contains_key(other)
            &&& s.fulfilled_attestations.contains_key(other) ==> after.fulfilled_attestations[other]
                == s.fulfilled_attestations[other]
            &&& after.log == s.log.push(
                PoolEventView::Submitted {
                    request_id: id,
                    worker: caller,
                    count: (s.attestations(id) + 1) as u32,
                },
            ).push(
                PoolEventView::Fulfilled { id, attestation_hash: blake2x256_digest(combined) },
            )
        }),
{
}

/// The joined attestations are those of the workers in their order: each worker adds what it
/// stored for the request, or nothing.
pub proof fn law_attestations_are_joined_in_order(
    partials: Map<Seq<u8>, Seq<u8>>,
    id: Seq<u8>,
    workers: Seq<Seq<u8>>,
    worker: Seq<u8>,
)
    ensures
        joined(partials, id, Seq::empty()) == Seq::<u8>::empty(),
        partials.contains_key(id + worker) ==> joined(partials, id, workers.push(worker)) == joined(
            partials,
            id,
            workers,
        ) + partials[id + worker],
        !partials.contains_key(id + worker) ==> joined(partials, id, workers.push(worker))
            == joined(partials, id, workers),
{
    assert(workers.push(worker).drop_last() =~= workers);
    assert(joined(partials, id, workers) + Seq::<u8>::empty() =~= joined(partials, id, workers));
}

/// In a well-formed pool each request is read once, at the place of its identifier.
pub proof fn law_requests_are_read_in_order(s: PoolState, i: int)
    requires
        s.well_formed(),
        0 <= i < s.request_ids.len(),
    ensures
        listed(s.request_ids, s.requests).len() == s.request_ids.len(),
        listed(s.request_ids, s.requests)[i] == s.requests[s.request_ids[i]],
{
    assert forall|j: int| 0 <= j < s.request_ids.len() implies s.requests.contains_key(
        #[trigger] s.request_ids[j],
    ) by {
        assert(s.request_ids.contains(s.request_ids[j]));
    }
    lemma_listed_at(s.request_ids, s.requests, i);
}

proof fn lemma_listed_at(ids: Seq<Seq<u8>>, requests: Map<Seq<u8>, RequestView>, i: int)
    requires
        0 <= i < ids.len(),
        forall|j: int| 0 <= j < ids.len() ==> requests.contains_key(#[trigger] ids[j]),
    ensures
        listed(ids, requests).len() == ids.len(),
        listed(ids, requests)[i] == requests[ids[i]],
    decreases ids.len(),
{
    let front = ids.drop_last();
    assert forall|j: int| 0 <= j < front.len() implies requests.contains_key(
        #[trigger] front[j],
    ) by {
        assert(front[j] == ids[j]);
    }
    assert(ids[ids.len() - 1] == ids.last());
    if i < front.len() {
        lemma_listed_at(front, requests, i);
    } else if front.len() > 0 {
        lemma_listed_at(front, requests, 0);
    } else {
        reveal_with_fuel(listed, 2);
    }
}

/// What is read of a state is what the contract holds: all its fields, in order and whole.
pub proof fn law_the_state_is_what_is_held(
    pool: RequestPool,
    request: DecryptionRequest,
    i: int,
)
    ensures
        pool@.requests == pool.requests@,
        pool@.partial_attestations == pool.partial_attestations@,
        pool@.attestation_counts == pool.attestation_counts@,
        pool@.fulfilled_attestations == pool.fulfilled_attestations@,
        pool@.count == pool.count,
        pool@.request_ids.len() == pool.request_ids@.len(),
        0 <= i < pool.request_ids@.len() ==> pool@.request_ids[i] == pool.request_ids@[i]@,
        pool@.authorized_workers.len() == pool.authorized_workers@.len(),
        0 <= i < pool.authorized_workers@.len() ==> pool@.authorized_workers[i]
            == pool.authorized_workers@[i]@,
        pool@.log.len() == pool.log@.len(),
        0 <= i < pool.log@.len() ==> pool@.log[i] == match pool.log@[i] {
            PoolEvent::Added(e) => PoolEventView::Added { id: e.id@, timestamp: e.timestamp },
            PoolEvent::Fulfilled(e) => PoolEventView::Fulfilled {
                id: e.id@,
                attestation_hash: e.attestation_hash@,
            },
            PoolEvent::Submitted(e) => PoolEventView::Submitted {
                request_id: e.request_id@,
                worker: e.worker@,
                count: e.count,
            },
        },
        request@.filename == request.filename.0@,
        request@.witness_hex == request.witness_hex.0@,
        request@.location == request.location.0@,
{
}

/// A pool has two workers, of whom one is enough.
pub proof fn law_one_of_two_workers_is_enough()
    ensures
        TOTAL_WORKERS == 2,
        THRESHOLD == 1,
{
}

/// A request has as many attestations as its count tells; where nothing is kept, nothing is
/// counted.
pub proof fn law_what_is_told_of_a_request(s: PoolState, id: Seq<u8>)
    ensures
        s.attestation_counts.contains_key(id) ==> s.attestations(id) == s.attestation_counts[id],
        !s.attestation_counts.contains_key(id) ==> s.attestations(id) == 0,
{
}

} // verus!
