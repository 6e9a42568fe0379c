//! What calls of the ink! request pool give, in terms of what goes into them.

use vstd::prelude::*;

use super::ink_pool::{
    listed, AccountId, DecryptionRequest, Error, GenericData, PoolEvent, RequestPool, RequestView,
};
use super::ink_pool_laws::{
    law_a_worker_may_attest_to_any_open_request, law_add_appends_to_what_is_read,
    law_add_keeps_well_formed, law_attestation_reads_back, law_one_attestation_fulfills,
    law_requests_are_read_in_order, law_submit_keeps_well_formed,
};
use crate::hashing::blake2x256_digest;

verus! {

/// A new pool has the workers that it was given, and nothing else.
pub proof fn law_a_new_pool(
    workers: Vec<AccountId>,
    pool: RequestPool,
    requests: Vec<DecryptionRequest>,
    count: u64,
    id: Vec<u8>,
    attestation: Option<Vec<u8>>,
    attestations: u32,
)
    requires
        workers@.len() == 2,
        call_ensures(RequestPool::new, (workers,), pool),
        call_ensures(RequestPool::read_all, (&pool,), requests),
        call_ensures(RequestPool::count, (&pool,), count),
        call_ensures(RequestPool::get_attestation, (&pool, id), attestation),
        call_ensures(RequestPool::get_attestation_count, (&pool, id), attestations),
    ensures
        call_requires(RequestPool::new, (workers,)),
        pool@.well_formed(),
        pool.authorized_workers@.len() == 2,
        pool.authorized_workers@[0]@ == workers@[0]@,
        pool.authorized_workers@[1]@ == workers@[1]@,
        pool.log@.len() == 0,
        requests@.len() == 0,
        count == 0,
        attestation is None,
        attestations == 0,
{
    let views = pool@.authorized_workers;
    assert(views.len() == 2);
    assert(views[0] == workers@[0]@ && views[1] == workers@[1]@);
    assert(views[0] == pool.authorized_workers@[0]@ && views[1] == pool.authorized_workers@[1]@);
    assert(pool@.log.len() == pool.log@.len());
    assert(listed(pool@.request_ids, pool@.requests).len() == 0);
    assert forall|i: int| 0 <= i < views.len() implies (#[trigger] views[i]).len() == 32 by {
        assert(views[i] == pool.authorized_workers@[i]@);
    }
}

/// Who may attest, and to what: in a well-formed pool an attestation is accepted exactly if the
/// caller is one of the workers and the request is stored and not fulfilled, however many
/// requests there are. Otherwise nothing changes, and the first of these that fails is told.
#[verifier::rlimit(40)]
pub proof fn law_who_may_attest(
    pool: &mut RequestPool,
    caller: AccountId,
    id: Vec<u8>,
    attestation: Vec<u8>,
    r: Result<(), Error>,
)
    requires
        old(pool)@.well_formed(),
        call_ensures(
            RequestPool::submit_partial_attestation,
            (pool, caller, id, attestation),
            r,
        ),
    ensures
        call_requires(
            RequestPool::submit_partial_attestation,
            (pool, caller, id, attestation),
        ),
        ({
            let worker = exists|i: int|
                0 <= i < old(pool).authorized_workers@.len() && (
                #[trigger] old(pool).authorized_workers@[i])@ == caller@;
            let stored = old(pool).requests@.contains_key(id@);
            let fulfilled = old(pool).fulfilled_attestations@.contains_key(id@);
            &&& r is Ok <==> worker && stored && !fulfilled
            &&& r == Err::<(), Error>(Error::Unauthorized) <==> !worker
            &&& r == Err::<(), Error>(Error::RequestNotFound) <==> worker && !stored
            &&& r == Err::<(), Error>(Error::AlreadyFulfilled) <==> worker && stored && fulfilled
            &&& r is Err ==> *final(pool) == *old(pool)
        }),
{
    let before = *old(pool);
    let views = before@.authorized_workers;
    assert forall|i: int| 0 <= i < views.len() implies views[i]
        == (#[trigger] before.authorized_workers@[i])@ by {}
    if exists|i: int|
        0 <= i < before.authorized_workers@.len() && (#[trigger] before.authorized_workers@[i])@
            == caller@ {
        let i = choose|i: int|
            0 <= i < before.authorized_workers@.len() && (#[trigger] before.authorized_workers@[i])@
                == caller@;
        assert(views[i] == caller@);
        assert(views.contains(caller@));
        if before@.requests.contains_key(id@) && !before@.fulfilled_attestations.contains_key(
            id@,
        ) {
            law_a_worker_may_attest_to_any_open_request(before, i, id@);
        }
    } else if views.contains(caller@) {
        let i = choose|i: int| 0 <= i < views.len() && views[i] == caller@;
        assert(before.authorized_workers@[i]@ == caller@);
    }
}

/// An accepted attestation is the answer to its request, and to no other, is counted once, and is
/// emitted with its worker; then the request is emitted as fulfilled. A second one is refused.
#[verifier::rlimit(40)]
pub proof fn law_an_attestation_is_answered(
    pool: &mut RequestPool,
    caller: AccountId,
    id: Vec<u8>,
    attestation: Vec<u8>,
    r: Result<(), Error>,
    after: &RequestPool,
    answer: Option<Vec<u8>>,
    count: u32,
    before: &RequestPool,
    other: Vec<u8>,
    other_before: Option<Vec<u8>>,
    other_after: Option<Vec<u8>>,
    other_count_before: u32,
    other_count_after: u32,
    again: &mut RequestPool,
    later_caller: AccountId,
    later: Vec<u8>,
    later_r: Result<(), Error>,
)
    requires
        *before == *old(pool),
        before@.well_formed(),
        before@.authorized_workers.no_duplicates(),
        call_ensures(
            RequestPool::submit_partial_attestation,
            (pool, caller, id, attestation),
            r,
        ),
        r is Ok,
        *after == *final(pool),
        call_ensures(RequestPool::get_attestation, (after, id), answer),
        call_ensures(RequestPool::get_attestation_count, (after, id), count),
        other@ != id@,
        call_ensures(RequestPool::get_attestation, (before, other), other_before),
        call_ensures(RequestPool::get_attestation, (after, other), other_after),
        call_ensures(RequestPool::get_attestation_count, (before, other), other_count_before),
        call_ensures(RequestPool::get_attestation_count, (after, other), other_count_after),
        *old(again) == *after,
        call_ensures(
            RequestPool::submit_partial_attestation,
            (again, later_caller, id, later),
            later_r,
        ),
    ensures
        answer is Some && answer->Some_0@ == attestation@,
        count == 1,
        other_before is Some <==> other_after is Some,
        other_after is Some ==> other_after->Some_0@ == other_before->Some_0@,
        other_count_after == other_count_before,
        after.requests@ == before.requests@,
        after.count == before.count,
        after@.request_ids == before@.request_ids,
        after@.authorized_workers == before@.authorized_workers,
        after.log@.len() == before.log@.len() + 2,
        after.log@[before.log@.len() as int] matches PoolEvent::Submitted(e) && e.request_id@ == id@
            && e.worker@ == caller@ && e.count == 1,
        after.log@[before.log@.len() as int + 1] matches PoolEvent::Fulfilled(e) && e.id@ == id@
            && e.attestation_hash@ == blake2x256_digest(attestation@),
        later_r is Err,
        after@.well_formed(),
{
    let s = before@;
    law_submit_keeps_well_formed(s, caller@, id@, attestation@);
    law_attestation_reads_back(s, caller@, id@, attestation@);
    law_one_attestation_fulfills(s, caller@, id@, attestation@, later_caller@);
    let n = before.log@.len() as int;
    assert(s.attestations(id@) == 0);
    assert(after@.log.len() == after.log@.len());
    assert(s.log.len() == n);
    assert(after@.log[n] == after.log@[n]@);
    assert(after@.log[n + 1] == after.log@[n + 1]@);
}

/// A request is added exactly if none is stored under the hash of its three fields. It is then
/// stored under that hash, read last, counted and emitted, and nobody has attested to it that had
/// not before; a refused one changes nothing.
#[verifier::rlimit(40)]
pub proof fn law_a_request_is_added(
    pool: &mut RequestPool,
    filename: GenericData,
    witness_hex: GenericData,
    location: GenericData,
    timestamp: u64,
    r: Result<(), Error>,
    before: &RequestPool,
    list_before: Vec<DecryptionRequest>,
    count_before: u64,
    after: &RequestPool,
    list_after: Vec<DecryptionRequest>,
    count_after: u64,
    i: int,
)
    requires
        *before == *old(pool),
        before@.well_formed(),
        call_ensures(RequestPool::add, (pool, filename, witness_hex, location, timestamp), r),
        *after == *final(pool),
        call_ensures(RequestPool::read_all, (before,), list_before),
        call_ensures(RequestPool::count, (before,), count_before),
        call_ensures(RequestPool::read_all, (after,), list_after),
        call_ensures(RequestPool::count, (after,), count_after),
    ensures
        call_requires(RequestPool::add, (pool, filename, witness_hex, location, timestamp)),
        ({
            let id = blake2x256_digest(filename.0@ + witness_hex.0@ + location.0@);
            &&& r is Ok <==> !before.requests@.contains_key(id)
            &&& r is Err ==> r == Err::<(), Error>(Error::RequestAlreadyExists) && *after == *before
            &&& r is Ok ==> {
                &&& after.requests@.contains_key(id)
                &&& list_after@.len() == list_before@.len() + 1
                &&& 0 <= i < list_before@.len() ==> list_after@[i]@ == list_before@[i]@
                &&& list_after@.last().filename.0@ == filename.0@
                &&& list_after@.last().witness_hex.0@ == witness_hex.0@
                &&& list_after@.last().location.0@ == location.0@
                &&& count_before < u64::MAX ==> count_after == count_before + 1
                &&& after.log@.len() == before.log@.len() + 1
                &&& after.log@.last() matches PoolEvent::Added(e) && e.id@ == id && e.timestamp
                    == timestamp
                &&& after.fulfilled_attestations@ == before.fulfilled_attestations@
                &&& after.attestation_counts@ == before.attestation_counts@
                &&& after.partial_attestations@ == before.partial_attestations@
                &&& after@.authorized_workers == before@.authorized_workers
                &&& after@.well_formed()
            }
        }),
{
    let request = RequestView {
        filename: filename.0@,
        witness_hex: witness_hex.0@,
        location: location.0@,
    };
    if r is Ok {
        law_add_keeps_well_formed(before@, request, timestamp);
        law_add_appends_to_what_is_read(before@, request, timestamp);
        let old_list = listed(before@.request_ids, before@.requests);
        let new_list = listed(after@.request_ids, after@.requests);
        assert(old_list.len() == list_before@.len());
        assert(new_list.len() == list_after@.len());
        if 0 <= i < old_list.len() {
            assert(old_list[i] == list_before@[i]@);
            assert(new_list[i] == list_after@[i]@);
        }
        assert(new_list.last() == list_after@.last()@);
        let n = before.log@.len() as int;
        assert(after@.log.len() == after.log@.len());
        assert(before@.log.len() == n);
        assert(after@.log[n] == after.log@[n]@);
    }
}

/// In a well-formed pool every stored request is read once, whole, at the place of its identifier.
pub proof fn law_what_the_pool_holds(
    pool: &RequestPool,
    requests: Vec<DecryptionRequest>,
    i: int,
)
    requires
        pool@.well_formed(),
        call_ensures(RequestPool::read_all, (pool,), requests),
    ensures
        requests@.len() == pool.request_ids@.len(),
        0 <= i < pool.request_ids@.len() ==> requests@[i]@
            == pool.requests@[pool.request_ids@[i]@],
{
    let ids = pool@.request_ids;
    let list = listed(ids, pool@.requests);
    assert(list.len() == requests@.len());
    assert(ids.len() == pool.request_ids@.len());
    if 0 <= i < ids.len() {
        law_requests_are_read_in_order(pool@, i);
        assert(ids[i] == pool.request_ids@[i]@);
        assert(list[i] == requests@[i]@);
    } else if ids.len() > 0 {
        law_requests_are_read_in_order(pool@, 0);
    }
}

/// The hash of a request's bytes, and copies of what is stored, are exact.
pub proof fn law_hashes_and_copies(
    pool: &RequestPool,
    data: &[u8],
    id: Vec<u8>,
    request: &DecryptionRequest,
    copy: DecryptionRequest,
)
    requires
        call_ensures(RequestPool::hash_request, (pool, data), id),
        call_ensures(<DecryptionRequest as Clone>::clone, (request,), copy),
    ensures
        id@ == blake2x256_digest(data@),
        copy.filename.0@ == request.filename.0@,
        copy.witness_hex.0@ == request.witness_hex.0@,
        copy.location.0@ == request.location.0@,
{
}

} // verus!
