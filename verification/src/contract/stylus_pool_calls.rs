//! What each call of the request pool does, and what it leaves alone.

use vstd::prelude::*;
use vstd::utf8::encode_utf8;

use super::erc20::Address;
use super::registry::blob;
use super::stylus_pool::{
    attestation_key, decode_request, encode_request, joined, request_bytes, request_id, worker_key,
    PoolEvent, PoolEventView, PoolState, RequestId, RequestPool, THRESHOLD, TOTAL_WORKERS,
};
use super::stylus_pool_laws::{
    law_attestation_reads_back, law_empty_pool_is_well_formed, law_one_attestation_fulfills,
    law_request_round_trip,
};
use crate::bytes::{lemma_u32_be_round_trip, listing, low_u32, prefixed, u32_be, u32_of_be};
use crate::hashing::keccak256_digest;

verus! {

/// Why an attestation is refused, over every state: a caller who is no worker is told first, then
/// a request that does not exist, then one that is fulfilled, then a second attestation of the
/// same worker. Nothing else is refused, however much the pool holds.
pub proof fn law_what_is_refused(s: PoolState, caller: Seq<u8>, id: Seq<u8>)
    ensures
        s.submit_refusal(caller, id) is None <==> {
            &&& s.authorized_workers.contains(caller)
            &&& s.request_exists.contains_key(id) && s.request_exists[id]
            &&& !(s.fulfilled_exists.contains_key(id) && s.fulfilled_exists[id])
            &&& !(s.partial_attestations.contains_key(keccak256_digest(id + caller))
                && s.partial_attestations[keccak256_digest(id + caller)].len() > 0)
        },
        !s.authorized_workers.contains(caller) ==> s.submit_refusal(caller, id) == Some(
            "Unauthorized"@,
        ),
        s.authorized_workers.contains(caller) && !s.has(id) ==> s.submit_refusal(caller, id)
            == Some("RequestNotFound"@),
        s.authorized_workers.contains(caller) && s.has(id) && s.fulfilled(id) ==> s.submit_refusal(
            caller,
            id,
        ) == Some("AlreadyFulfilled"@),
        s.authorized_workers.contains(caller) && s.has(id) && !s.fulfilled(id) ==> s.submit_refusal(
            caller,
            id,
        ) is None || s.submit_refusal(caller, id) == Some("AlreadyAttested"@),
{
}

/// In a well-formed pool the attestation of an authorized worker is accepted for every request
/// that exists and is not fulfilled, however many requests the pool holds, as long as the key of
/// the attestation is not that of one for a fulfilled request.
pub proof fn law_a_worker_may_attest_to_any_open_request(
    pool: RequestPool,
    worker: int,
    id: Seq<u8>,
)
    requires
        pool@.well_formed(),
        0 <= worker < pool.authorized_workers@.len(),
        pool.request_exists@.contains_key(id) && pool.request_exists@[id],
        !(pool.fulfilled_exists@.contains_key(id) && pool.fulfilled_exists@[id]),
        !pool@.belongs_to_fulfilled(worker_key(id, pool.authorized_workers@[worker]@)),
    ensures
        pool@.submit_refusal(pool.authorized_workers@[worker]@, id) is None,
{
    let caller = pool.authorized_workers@[worker]@;
    assert(pool@.authorized_workers[worker] == caller);
    assert(pool@.authorized_workers.contains(caller));
    assert(blob(pool@.partial_attestations, worker_key(id, caller)).len() == 0);
}

/// What a caller is answered does not depend on any other request: whichever of them are added
/// or fulfilled in between, an attestation is accepted or refused as before.
pub proof fn law_other_requests_do_not_matter(
    s: PoolState,
    caller: Seq<u8>,
    id: Seq<u8>,
    filename: Seq<u8>,
    witness_hex: Seq<u8>,
    location: Seq<u8>,
    timestamp: u64,
    other_worker: Seq<u8>,
    other: Seq<u8>,
    attestation: Seq<u8>,
)
    requires
        id != request_id(filename, witness_hex, location),
        id != other,
        worker_key(id, caller) != worker_key(other, other_worker),
    ensures
        s.after_add(filename, witness_hex, location, timestamp).submit_refusal(caller, id)
            == s.submit_refusal(caller, id),
        s.after_submit(other_worker, other, attestation).submit_refusal(caller, id)
            == s.submit_refusal(caller, id),
{
}

/// Workers are set exactly where none are and two are given; that there are some is told first.
pub proof fn law_which_workers_are_set(s: PoolState, workers: Seq<Seq<u8>>)
    ensures
        s.init_refusal(workers) is None <==> s.authorized_workers.len() == 0 && workers.len() == 2,
        s.authorized_workers.len() > 0 ==> s.init_refusal(workers) == Some("already initialized"@),
        s.authorized_workers.len() == 0 && workers.len() != 2 ==> s.init_refusal(workers) == Some(
            "wrong worker count"@,
        ),
        s.after_init(workers).authorized_workers == workers,
        s.after_init(workers).requests == s.requests,
        s.after_init(workers).request_ids == s.request_ids,
        s.after_init(workers).partial_attestations == s.partial_attestations,
        s.after_init(workers).attestation_counts == s.attestation_counts,
        s.after_init(workers).fulfilled_attestations == s.fulfilled_attestations,
        s.after_init(workers).request_exists == s.request_exists,
        s.after_init(workers).fulfilled_exists == s.fulfilled_exists,
        s.after_init(workers).count == s.count,
        s.after_init(workers).log == s.log,
{
}

/// Adding a request stores its three fields under the hash of all of them, counts it, names it
/// last and emits that it was added, and touches nothing else.
pub proof fn law_add_stores_one_request(
    s: PoolState,
    filename: Seq<u8>,
    witness_hex: Seq<u8>,
    location: Seq<u8>,
    timestamp: u64,
    other: Seq<u8>,
)
    ensures
        ({
            let id = keccak256_digest(filename + witness_hex + location);
            let after = s.after_add(filename, witness_hex, location, timestamp);
            &&& request_id(filename, witness_hex, location) == id
            &&& after.requests.contains_key(id)
            &&& after.requests[id] == prefixed(filename) + prefixed(witness_hex) + prefixed(
                location,
            )
            &&& after.has(id)
            &&& other != id ==> after.has(other) == s.has(other)
            &&& other != id ==> after.requests.contains_key(other) == s.requests.contains_key(other)
            &&& other != id && s.requests.contains_key(other) ==> after.requests[other]
                == s.requests[other]
            &&& after.request_ids.len() == s.request_ids.len() + 1
            &&& after.request_ids.last() == id
            &&& after.request_ids.drop_last() == s.request_ids
            &&& s.count < u64::MAX ==> after.count == s.count + 1
            &&& s.count == u64::MAX ==> after.count == 0
            &&& after.log.len() == s.log.len() + 1
            &&& after.log.drop_last() == s.log
            &&& after.log.last() == (PoolEventView::RequestAdded { id, timestamp })
            &&& after.partial_attestations == s.partial_attestations
            &&& after.attestation_counts == s.attestation_counts
            &&& after.fulfilled_attestations == s.fulfilled_attestations
            &&& after.fulfilled_exists == s.fulfilled_exists
            &&& after.authorized_workers == s.authorized_workers
        }),
{
    let after = s.after_add(filename, witness_hex, location, timestamp);
    assert(after.request_ids.drop_last() =~= s.request_ids);
    assert(after.log.drop_last() =~= s.log);
}

/// An accepted attestation is stored for its worker and counted once, the request is fulfilled
/// with what all workers stored for it, and both are emitted. No other request, worker or
/// attestation is touched.
pub proof fn law_submit_touches_one_request(
    s: PoolState,
    caller: Seq<u8>,
    id: Seq<u8>,
    attestation: Seq<u8>,
    other: Seq<u8>,
    key: Seq<u8>,
)
    requires
        s.attestations(id) < u32::MAX,
        other != id,
        key != keccak256_digest(id + caller),
    ensures
        ({
            let after = s.after_submit(caller, id, attestation);
            let combined = joined(after.partial_attestations, id, s.authorized_workers);
            let own = keccak256_digest(id + caller);
            &&& after.requests == s.requests
            &&& after.request_ids == s.request_ids
            &&& after.request_exists == s.request_exists
            &&& after.count == s.count
            &&& after.authorized_workers == s.authorized_workers
            &&& after.partial_attestations.contains_key(own)
            &&& after.partial_attestations[own] == attestation
            &&& after.partial_attestations.contains_key(key)
                == s.partial_attestations.contains_key(key)
            &&& s.partial_attestations.contains_key(key) ==> after.partial_attestations[key]
                == s.partial_attestations[key]
            &&& after.attestations(id) == s.attestations(id) + 1
            &&& after.attestations(other) == s.attestations(other)
            &&& after.fulfilled(id)
            &&& after.fulfilled_attestations.contains_key(id)
            &&& after.fulfilled_attestations[id] == combined
            &&& after.fulfilled(other) == s.fulfilled(other)
            &&& blob(after.fulfilled_attestations, other) == blob(s.fulfilled_attestations, other)
            &&& after.log == s.log.push(
                PoolEventView::PartialAttestationSubmitted {
                    request_id: id,
                    worker: caller,
                    count: (s.attestations(id) + 1) as u32,
                },
            ).push(
                PoolEventView::RequestFulfilled { id, attestation_hash: keccak256_digest(combined) },
            )
        }),
{
}

/// The joined attestations are those of the workers in their order: each worker adds what it
/// stored for the request, or nothing.
pub proof fn law_attestations_are_joined_in_order(
    partials: Map<Seq<u8>, Seq<u8>>,
    id: Seq<u8>,
    workers: Seq<Seq<u8>>,
    worker: Seq<u8>,
)
    ensures
        joined(partials, id, Seq::empty()) == Seq::<u8>::empty(),
        partials.contains_key(keccak256_digest(id + worker)) ==> joined(
            partials,
            id,
            workers.push(worker),
        ) == joined(partials, id, workers) + partials[keccak256_digest(id + worker)],
        !partials.contains_key(keccak256_digest(id + worker)) ==> joined(
            partials,
            id,
            workers.push(worker),
        ) == joined(partials, id, workers),
{
    assert(workers.push(worker).drop_last() =~= workers);
    assert(joined(partials, id, workers) + Seq::<u8>::empty() =~= joined(partials, id, workers));
}

/// Each request is read at the place of its identifier, with all of its bytes.
pub proof fn law_requests_are_read_in_order(s: PoolState, i: int)
    requires
        0 <= i < s.request_ids.len(),
        s.requests.contains_key(s.request_ids[i]),
    ensures
        s.stored_requests().len() == s.request_ids.len(),
        s.stored_requests()[i] == s.requests[s.request_ids[i]],
{
}

proof fn lemma_field_in(before: Seq<u8>, field: Seq<u8>, behind: Seq<u8>)
    requires
        field.len() <= u32::MAX,
    ensures
        ({
            let data = before + prefixed(field) + behind;
            let at = before.len() as int;
            &&& prefixed(field).len() == 4 + field.len()
            &&& u32_of_be(data.subrange(at, at + 4)) == field.len()
            &&& data.subrange(at + 4, at + 4 + field.len()) == field
        }),
{
    let head = u32_be(low_u32(field.len()));
    let data = before + prefixed(field) + behind;
    let at = before.len() as int;
    lemma_u32_be_round_trip(low_u32(field.len()));
    assert(prefixed(field) == head + field);
    assert(head.len() == 4);
    assert(data.subrange(at, at + 4) =~= head);
    assert(data.subrange(at + 4, at + 4 + field.len()) =~= field);
}

/// A request is its three fields in this order, each behind its length in four bytes.
pub proof fn law_layout_of_a_request(filename: Seq<u8>, witness_hex: Seq<u8>, location: Seq<u8>)
    requires
        filename.len() <= u32::MAX,
        witness_hex.len() <= u32::MAX,
        location.len() <= u32::MAX,
    ensures
        ({
            let data = request_bytes(filename, witness_hex, location);
            let second = 4 + filename.len() as int;
            let third = second + 4 + witness_hex.len() as int;
            &&& data.len() == third + 4 + location.len()
            &&& u32_of_be(data.subrange(0, 4)) == filename.len()
            &&& data.subrange(4, second) == filename
            &&& u32_of_be(data.subrange(second, second + 4)) == witness_hex.len()
            &&& data.subrange(second + 4, third) == witness_hex
            &&& u32_of_be(data.subrange(third, third + 4)) == location.len()
            &&& data.subrange(third + 4, data.len() as int) == location
        }),
{
    let data = request_bytes(filename, witness_hex, location);
    let (f, w, l) = (prefixed(filename), prefixed(witness_hex), prefixed(location));
    let none = Seq::<u8>::empty();
    lemma_field_in(none, filename, w + l);
    lemma_field_in(f, witness_hex, l);
    lemma_field_in(f + w, location, none);
    assert(none + f + (w + l) =~= data);
    assert(f + w + l + none =~= data);
}

/// What is read of a state is what the contract holds: all its fields, in order and whole.
pub proof fn law_the_state_is_what_is_held(pool: RequestPool, i: int)
    ensures
        pool@.requests == pool.requests@,
        pool@.partial_attestations == pool.partial_attestations@,
        pool@.attestation_counts == pool.attestation_counts@,
        pool@.fulfilled_attestations == pool.fulfilled_attestations@,
        pool@.request_exists == pool.request_exists@,
        pool@.fulfilled_exists == pool.fulfilled_exists@,
        pool@.count == pool.count,
        pool@.request_ids.len() == pool.request_ids@.len(),
        0 <= i < pool.request_ids@.len() ==> pool@.request_ids[i] == pool.request_ids@[i]@,
        pool@.authorized_workers.len() == pool.authorized_workers@.len(),
        0 <= i < pool.authorized_workers@.len() ==> pool@.authorized_workers[i]
            == pool.authorized_workers@[i]@,
        pool@.log.len() == pool.log@.len(),
        0 <= i < pool.log@.len() ==> pool@.log[i] == match pool.log@[i] {
            PoolEvent::RequestAdded { id, timestamp } => PoolEventView::RequestAdded {
                id: id@,
                timestamp,
            },
            PoolEvent::RequestFulfilled { id, attestation_hash } => PoolEventView::RequestFulfilled {
                id: id@,
                attestation_hash: attestation_hash@,
            },
            PoolEvent::PartialAttestationSubmitted {
                request_id,
                worker,
                count,
            } => PoolEventView::PartialAttestationSubmitted {
                request_id: request_id@,
                worker: worker@,
                count,
            },
        },
{
}

/// A pool has two workers, of whom one is enough.
pub proof fn law_one_of_two_workers_is_enough()
    ensures
        TOTAL_WORKERS == 2,
        THRESHOLD == 1,
{
}

/// A request exists or is fulfilled where its flag is set, and has as many attestations as its
/// count tells; where nothing is kept, neither flag is set and nothing is counted.
pub proof fn law_what_is_told_of_a_request(s: PoolState, id: Seq<u8>)
    ensures
        s.request_exists.contains_key(id) ==> s.has(id) == s.request_exists[id],
        !s.request_exists.contains_key(id) ==> !s.has(id),
        s.fulfilled_exists.contains_key(id) ==> s.fulfilled(id) == s.fulfilled_exists[id],
        !s.fulfilled_exists.contains_key(id) ==> !s.fulfilled(id),
        s.attestation_counts.contains_key(id) ==> s.attestations(id) == s.attestation_counts[id],
        !s.attestation_counts.contains_key(id) ==> s.attestations(id) == 0,
{
}

/// A new pool has no workers, no requests and nothing else; workers are set once, and exactly two
/// of them. Why they are not set is told, and then nothing changes.
#[verifier::rlimit(40)]
pub proof fn law_how_workers_are_set(
    fresh: RequestPool,
    list: Vec<u8>,
    count: u64,
    pool: &mut RequestPool,
    workers: Vec<Address>,
    r: Result<(), Vec<u8>>,
    i: int,
)
    requires
        call_ensures(RequestPool::new, (), fresh),
        call_ensures(RequestPool::read_all, (&fresh,), list),
        call_ensures(RequestPool::count, (&fresh,), count),
        call_ensures(RequestPool::init, (pool, workers), r),
    ensures
        call_requires(RequestPool::init, (pool, workers)),
        fresh.authorized_workers@.len() == 0,
        fresh@.well_formed(),
        fresh.log@.len() == 0,
        list@ == seq![0u8, 0u8, 0u8, 0u8],
        count == 0,
        r is Ok <==> old(pool).authorized_workers@.len() == 0 && workers@.len() == 2,
        r is Err ==> *final(pool) == *old(pool) && r->Err_0@ == encode_utf8(
            if old(pool).authorized_workers@.len() > 0 {
                "already initialized"@
            } else {
                "wrong worker count"@
            },
        ),
        r is Ok ==> {
            &&& final(pool).authorized_workers@.len() == 2
            &&& 0 <= i < 2 ==> final(pool).authorized_workers@[i]@ == workers@[i]@
            &&& final(pool).requests@ == old(pool).requests@
            &&& final(pool).count == old(pool).count
            &&& final(pool)@.request_ids == old(pool)@.request_ids
            &&& final(pool)@.log == old(pool)@.log
        },
{
    law_empty_pool_is_well_formed(fresh@);
    assert(fresh@.authorized_workers.len() == fresh.authorized_workers@.len());
    assert(fresh@.log.len() == fresh.log@.len());
    assert(fresh@.stored_requests().len() == 0);
    assert(list@ =~= seq![0u8, 0u8, 0u8, 0u8]);
    assert(old(pool)@.authorized_workers.len() == old(pool).authorized_workers@.len());
    if r is Ok {
        let views = final(pool)@.authorized_workers;
        assert(views.len() == final(pool).authorized_workers@.len());
        if 0 <= i < 2 {
            assert(views[i] == workers@[i]@);
            assert(views[i] == final(pool).authorized_workers@[i]@);
        }
    }
}

/// Who may attest, and to what: an attestation is accepted exactly if the caller is one of the
/// workers, the request exists and is not fulfilled, and the caller has stored no attestation for
/// it. Otherwise nothing changes, and the first of these that fails is told.
#[verifier::rlimit(40)]
pub proof fn law_who_may_attest(
    pool: &mut RequestPool,
    caller: Address,
    id: RequestId,
    attestation: Vec<u8>,
    r: Result<(), Vec<u8>>,
    before: &RequestPool,
    known: bool,
    fulfilled: bool,
)
    requires
        *before == *old(pool),
        call_ensures(RequestPool::has_request, (before, id), known),
        call_ensures(RequestPool::is_fulfilled, (before, id), fulfilled),
        call_ensures(
            RequestPool::submit_partial_attestation,
            (pool, caller, id, attestation),
            r,
        ),
    ensures
        call_requires(
            RequestPool::submit_partial_attestation,
            (pool, caller, id, attestation),
        ),
        ({
            let worker = exists|i: int|
                0 <= i < before.authorized_workers@.len() && (
                #[trigger] before.authorized_workers@[i])@ == caller@;
            let key = keccak256_digest(id@ + caller@);
            let attested = before.partial_attestations@.contains_key(key)
                && before.partial_attestations@[key].len() > 0;
            &&& r is Ok <==> worker && known && !fulfilled && !attested
            &&& r is Err ==> *final(pool) == *before
            &&& r is Err ==> r->Err_0@ == encode_utf8(
                if !worker {
                    "Unauthorized"@
                } else if !known {
                    "RequestNotFound"@
                } else if fulfilled {
                    "AlreadyFulfilled"@
                } else {
                    "AlreadyAttested"@
                },
            )
        }),
{
    let views = before@.authorized_workers;
    assert forall|i: int| 0 <= i < views.len() implies views[i]
        == (#[trigger] before.authorized_workers@[i])@ by {}
    if exists|i: int|
        0 <= i < before.authorized_workers@.len() && (#[trigger] before.authorized_workers@[i])@
            == caller@ {
        let i = choose|i: int|
            0 <= i < before.authorized_workers@.len() && (#[trigger] before.authorized_workers@[i])@
                == caller@;
        assert(views[i] == caller@);
    } else if views.contains(caller@) {
        let i = choose|i: int| 0 <= i < views.len() && views[i] == caller@;
        assert(before.authorized_workers@[i]@ == caller@);
    }
}

/// In a well-formed pool an attestation that is accepted is the answer to its request, as long as
/// the keys under which attestations are stored do not collide, and fulfills it.
#[verifier::rlimit(40)]
pub proof fn law_an_attestation_is_answered(
    pool: &mut RequestPool,
    at: int,
    caller: Address,
    id: RequestId,
    attestation: Vec<u8>,
    r: Result<(), Vec<u8>>,
    after: &RequestPool,
    answer: Vec<u8>,
    count: u32,
    fulfilled: bool,
)
    requires
        old(pool)@.well_formed(),
        0 <= at < old(pool)@.authorized_workers.len(),
        old(pool)@.authorized_workers[at] == caller@,
        forall|i: int|
            0 <= i < old(pool)@.authorized_workers.len() && i != at ==> worker_key(
                id@,
                #[trigger] old(pool)@.authorized_workers[i],
            ) != worker_key(id@, caller@),
        forall|i: int, other: Seq<u8>, j: int|
            0 <= i < old(pool)@.authorized_workers.len() && 0 <= j
                < old(pool)@.authorized_workers.len() && old(pool)@.fulfilled(other)
                ==> worker_key(id@, #[trigger] old(pool)@.authorized_workers[i])
                != #[trigger] worker_key(other, old(pool)@.authorized_workers[j]),
        call_ensures(
            RequestPool::submit_partial_attestation,
            (pool, caller, id, attestation),
            r,
        ),
        r is Ok,
        *after == *final(pool),
        call_ensures(RequestPool::get_attestation, (after, id), answer),
        call_ensures(RequestPool::get_attestation_count, (after, id), count),
        call_ensures(RequestPool::is_fulfilled, (after, id), fulfilled),
    ensures
        answer@ == attestation@,
        count == 1,
        fulfilled,
{
    let s = old(pool)@;
    law_one_attestation_fulfills(s, caller@, id@, attestation@, caller@);
    law_attestation_reads_back(s, at, id@, attestation@);
}

/// An accepted attestation touches its own request alone: it is emitted with its worker, the
/// request is emitted as fulfilled, and what is told of any other request stays.
#[verifier::rlimit(40)]
pub proof fn law_an_attestation_touches_its_request(
    pool: &mut RequestPool,
    caller: Address,
    id: RequestId,
    attestation: Vec<u8>,
    r: Result<(), Vec<u8>>,
    before: &RequestPool,
    after: &RequestPool,
    other: RequestId,
    answer_before: Vec<u8>,
    answer_after: Vec<u8>,
    count_before: u32,
    count_after: u32,
    fulfilled_before: bool,
    fulfilled_after: bool,
    list_before: Vec<u8>,
    list_after: Vec<u8>,
    answer: Vec<u8>,
)
    requires
        *before == *old(pool),
        before@.well_formed(),
        call_ensures(
            RequestPool::submit_partial_attestation,
            (pool, caller, id, attestation),
            r,
        ),
        r is Ok,
        *after == *final(pool),
        other@ != id@,
        call_ensures(RequestPool::get_attestation, (before, other), answer_before),
        call_ensures(RequestPool::get_attestation, (after, other), answer_after),
        call_ensures(RequestPool::get_attestation_count, (before, other), count_before),
        call_ensures(RequestPool::get_attestation_count, (after, other), count_after),
        call_ensures(RequestPool::is_fulfilled, (before, other), fulfilled_before),
        call_ensures(RequestPool::is_fulfilled, (after, other), fulfilled_after),
        call_ensures(RequestPool::read_all, (before,), list_before),
        call_ensures(RequestPool::read_all, (after,), list_after),
        call_ensures(RequestPool::get_attestation, (after, id), answer),
    ensures
        answer_after@ == answer_before@,
        count_after == count_before,
        fulfilled_after == fulfilled_before,
        list_after@ == list_before@,
        after.count == before.count,
        after@.authorized_workers == before@.authorized_workers,
        after.log@.len() == before.log@.len() + 2,
        after.log@[before.log@.len() as int] matches PoolEvent::PartialAttestationSubmitted {
            request_id,
            worker,
            count,
        } && request_id@ == id@ && worker@ == caller@ && count == 1,
        after.log@[before.log@.len() as int + 1] matches PoolEvent::RequestFulfilled {
            id: named,
            attestation_hash,
        } && named@ == id@ && attestation_hash@ == keccak256_digest(answer@),
{
    let s = before@;
    let n = before.log@.len() as int;
    assert(s.attestations(id@) == 0);
    assert(after@.stored_requests() =~= s.stored_requests());
    assert(after@.log.len() == after.log@.len());
    assert(s.log.len() == n);
    assert(after@.log[n] == after.log@[n]@);
    assert(after@.log[n + 1] == after.log@[n + 1]@);
}

/// A request is added exactly if none exists under the hash of its three fields. It then exists
/// under that hash, with its bytes, is counted and emitted; a refused one changes nothing. What is
/// told of any other request stays.
#[verifier::rlimit(40)]
pub proof fn law_a_request_is_added(
    pool: &mut RequestPool,
    filename: Vec<u8>,
    witness_hex: Vec<u8>,
    location: Vec<u8>,
    timestamp: u64,
    r: Result<(), Vec<u8>>,
    before: &RequestPool,
    after: &RequestPool,
    id: RequestId,
    has_before: bool,
    has_after: bool,
    other: RequestId,
    other_before: bool,
    other_after: bool,
    count_before: u64,
    count_after: u64,
)
    requires
        *before == *old(pool),
        call_ensures(RequestPool::add, (pool, filename, witness_hex, location, timestamp), r),
        *after == *final(pool),
        id@ == keccak256_digest(filename@ + witness_hex@ + location@),
        other@ != id@,
        call_ensures(RequestPool::has_request, (before, id), has_before),
        call_ensures(RequestPool::has_request, (after, id), has_after),
        call_ensures(RequestPool::has_request, (before, other), other_before),
        call_ensures(RequestPool::has_request, (after, other), other_after),
        call_ensures(RequestPool::count, (before,), count_before),
        call_ensures(RequestPool::count, (after,), count_after),
    ensures
        call_requires(RequestPool::add, (pool, filename, witness_hex, location, timestamp)),
        r is Ok <==> !has_before,
        r is Err ==> r->Err_0@ == encode_utf8("RequestAlreadyExists"@) && *after == *before,
        r is Ok ==> {
            &&& has_after
            &&& other_after == other_before
            &&& after.requests@.contains_key(id@)
            &&& after.requests@[id@] == prefixed(filename@) + prefixed(witness_hex@) + prefixed(
                location@,
            )
            &&& count_before < u64::MAX ==> count_after == count_before + 1
            &&& after.request_ids@.len() == before.request_ids@.len() + 1
            &&& after.request_ids@.last()@ == id@
            &&& after.log@.len() == before.log@.len() + 1
            &&& after.log@.last() matches PoolEvent::RequestAdded { id: named, timestamp: time }
                && named@ == id@ && time == timestamp
            &&& after.fulfilled_attestations@ == before.fulfilled_attestations@
            &&& after.fulfilled_exists@ == before.fulfilled_exists@
            &&& after.attestation_counts@ == before.attestation_counts@
            &&& after.partial_attestations@ == before.partial_attestations@
            &&& after@.authorized_workers == before@.authorized_workers
        },
{
    if r is Ok {
        let n = before.log@.len() as int;
        let m = before.request_ids@.len() as int;
        assert(before@.log.len() == n && after@.log.len() == after.log@.len());
        assert(after@.log[n] == after.log@[n]@);
        assert(before@.request_ids.len() == m && after@.request_ids.len()
            == after.request_ids@.len());
        assert(after@.request_ids[m] == after.request_ids@[m]@);
    }
}

/// All requests are read as a list of the bytes of each, in the order of their identifiers.
pub proof fn law_what_the_pool_holds(pool: &RequestPool, list: Vec<u8>, requests: Seq<Seq<u8>>)
    requires
        call_ensures(RequestPool::read_all, (pool,), list),
        requests.len() == pool.request_ids@.len(),
        forall|i: int|
            0 <= i < requests.len() ==> pool.requests@.contains_key(
                (#[trigger] pool.request_ids@[i])@,
            ) && pool.requests@[pool.request_ids@[i]@] == requests[i],
    ensures
        list@ == listing(requests),
{
    let stored = pool@.stored_requests();
    assert forall|i: int| 0 <= i < requests.len() implies stored[i] == requests[i] by {
        assert(pool@.request_ids[i] == pool.request_ids@[i]@);
        assert(pool.requests@[pool.request_ids@[i]@] == requests[i]);
    }
    assert(stored =~= requests);
}

/// Keys of attestations, hashes, and the bytes of a request, which read back as its fields.
pub proof fn law_keys_and_bytes(
    pool: &RequestPool,
    id: RequestId,
    worker: Address,
    key: [u8; 32],
    data: Vec<u8>,
    digest: [u8; 32],
    filename: &[u8],
    witness_hex: &[u8],
    location: &[u8],
    encoded: Vec<u8>,
)
    requires
        call_ensures(attestation_key, (id, worker), key),
        call_ensures(RequestPool::hash_request, (pool, data), digest),
        call_ensures(encode_request, (filename, witness_hex, location), encoded),
    ensures
        key@ == keccak256_digest(id@ + worker@),
        digest@ == keccak256_digest(data@),
        encoded@ == prefixed(filename@) + prefixed(witness_hex@) + prefixed(location@),
{
}

/// What was packed is unpacked, whatever follows it.
pub proof fn law_a_request_comes_back(
    filename: &[u8],
    witness_hex: &[u8],
    location: &[u8],
    encoded: Vec<u8>,
    tail: Seq<u8>,
    data: &[u8],
    parts: Option<(Vec<u8>, Vec<u8>, Vec<u8>)>,
)
    requires
        filename@.len() <= u32::MAX,
        witness_hex@.len() <= u32::MAX,
        location@.len() <= u32::MAX,
        call_ensures(encode_request, (filename, witness_hex, location), encoded),
        data@ == encoded@ + tail,
        call_ensures(decode_request, (data,), parts),
    ensures
        parts is Some,
        parts->Some_0.0@ == filename@,
        parts->Some_0.1@ == witness_hex@,
        parts->Some_0.2@ == location@,
{
    law_request_round_trip(filename@, witness_hex@, location@, tail);
}

} // verus!
