//! What holds of the request pool over several calls.

use vstd::prelude::*;

use super::registry::blob;
use super::stylus_pool::{
    field_at, joined, request_bytes, request_id, request_parts, worker_key, PoolState,
};
use crate::bytes::{
    lemma_u32_be_packs_back, lemma_u32_be_round_trip, low_u32, prefixed, u32_be, u32_of_be,
};

verus! {

/// A stored request has three fields, and its identifier is their hash.
pub open spec fn identifies(id: Seq<u8>, data: Seq<u8>) -> bool {
    exists|filename: Seq<u8>, witness_hex: Seq<u8>, location: Seq<u8>|
        data == #[trigger] request_bytes(filename, witness_hex, location) && id == request_id(
            filename,
            witness_hex,
            location,
        )
}

impl PoolState {
    /// Whether a key belongs to a worker and a fulfilled request.
    pub open spec fn belongs_to_fulfilled(self, key: Seq<u8>) -> bool {
        exists|id: Seq<u8>, j: int|
            0 <= j < self.authorized_workers.len() && self.fulfilled(id) && key
                == #[trigger] worker_key(id, self.authorized_workers[j])
    }

    /// The list names every request once and no other; each request is stored under the hash
    /// of its fields; only requests of the pool are fulfilled, each by one attestation; only
    /// fulfilled requests have an answer, and only for them attestations are stored.
    pub open spec fn well_formed(self) -> bool {
        &&& self.request_ids.no_duplicates()
        &&& forall|id: Seq<u8>| #[trigger] self.request_ids.contains(id) <==> self.has(id)
        &&& self.count as nat == self.request_ids.len() % 0x1_0000_0000_0000_0000
        &&& forall|id: Seq<u8>| #[trigger]
            self.has(id) ==> identifies(id, blob(self.requests, id))
        &&& forall|id: Seq<u8>| #[trigger] self.fulfilled(id) ==> self.has(id)
        &&& forall|id: Seq<u8>| #[trigger]
            self.attestations(id) == (if self.fulfilled(id) {
                1u32
            } else {
                0u32
            })
        &&& forall|id: Seq<u8>|
            !self.fulfilled(id) ==> (#[trigger] blob(self.fulfilled_attestations, id)).len() == 0
        &&& forall|key: Seq<u8>|
            (#[trigger] blob(self.partial_attestations, key)).len() > 0
                ==> self.belongs_to_fulfilled(key)
    }
}

/// A pool without requests is well formed.
pub proof fn law_empty_pool_is_well_formed(s: PoolState)
    requires
        s.request_ids == Seq::<Seq<u8>>::empty(),
        s.request_exists == Map::<Seq<u8>, bool>::empty(),
        s.fulfilled_exists == Map::<Seq<u8>, bool>::empty(),
        s.attestation_counts == Map::<Seq<u8>, u32>::empty(),
        s.partial_attestations == Map::<Seq<u8>, Seq<u8>>::empty(),
        s.fulfilled_attestations == Map::<Seq<u8>, Seq<u8>>::empty(),
        s.count == 0,
    ensures
        s.well_formed(),
{
}

/// Setting the workers keeps the pool well formed.
pub proof fn law_init_keeps_well_formed(s: PoolState, workers: Seq<Seq<u8>>)
    requires
        s.well_formed(),
        s.init_refusal(workers) is None,
    ensures
        s.after_init(workers).well_formed(),
{
    let after = s.after_init(workers);
    assert forall|id: Seq<u8>| #[trigger] after.request_ids.contains(id) <==> after.has(id) by {
        assert(s.request_ids.contains(id) <==> s.has(id));
    }
    assert forall|id: Seq<u8>| #[trigger] after.has(id) implies identifies(
        id,
        blob(after.requests, id),
    ) by {
        assert(s.has(id));
    }
    assert forall|id: Seq<u8>| #[trigger] after.fulfilled(id) implies after.has(id) by {
        assert(s.fulfilled(id));
    }
    assert forall|id: Seq<u8>| #[trigger]
        after.attestations(id) == (if after.fulfilled(id) {
            1u32
        } else {
            0u32
        }) by {
        assert(s.attestations(id) == after.attestations(id));
    }
    assert forall|id: Seq<u8>| !after.fulfilled(id) implies (#[trigger] blob(
        after.fulfilled_attestations,
        id,
    )).len() == 0 by {
        assert(!s.fulfilled(id));
    }
    assert forall|key: Seq<u8>|
        (#[trigger] blob(after.partial_attestations, key)).len()
            > 0 implies after.belongs_to_fulfilled(key) by {
        assert(s.belongs_to_fulfilled(key));
    }
}

/// The workers are set once: whoever is set, nobody can be set again.
pub proof fn law_workers_are_set_once(
    s: PoolState,
    workers: Seq<Seq<u8>>,
    again: Seq<Seq<u8>>,
)
    requires
        s.init_refusal(workers) is None,
    ensures
        s.after_init(workers).init_refusal(again) == Some("already initialized"@),
{
}

/// A request has no answer before it is fulfilled.
pub proof fn law_no_answer_before_fulfilment(s: PoolState, id: Seq<u8>)
    requires
        s.well_formed(),
        !s.fulfilled(id),
    ensures
        blob(s.fulfilled_attestations, id) == Seq::<u8>::empty(),
{
    assert(blob(s.fulfilled_attestations, id) =~= Seq::<u8>::empty());
}

proof fn lemma_one_more(ids: Seq<Seq<u8>>, new: Seq<u8>)
    requires
        ids.no_duplicates(),
        !ids.contains(new),
    ensures
        ids.push(new).no_duplicates(),
        forall|id: Seq<u8>| #[trigger] ids.push(new).contains(id) <==> ids.contains(id) || id == new,
{
    let more = ids.push(new);
    assert(more[ids.len() as int] == new);
    assert forall|id: Seq<u8>| #[trigger] more.contains(id) <==> ids.contains(id) || id == new by {
        if more.contains(id) && id != new {
            let i = choose|i: int| 0 <= i < more.len() && more[i] == id;
            assert(ids[i] == id);
        }
        if ids.contains(id) {
            let i = choose|i: int| 0 <= i < ids.len() && ids[i] == id;
            assert(more[i] == id);
        }
    }
    assert forall|i: int, j: int|
        0 <= i < more.len() && 0 <= j < more.len() && i != j implies more[i] != more[j] by {
        if i == ids.len() {
            assert(ids.contains(ids[j]));
        }
        if j == ids.len() {
            assert(ids.contains(ids[i]));
        }
    }
}

proof fn lemma_identifies(filename: Seq<u8>, witness_hex: Seq<u8>, location: Seq<u8>)
    ensures
        identifies(
            request_id(filename, witness_hex, location),
            request_bytes(filename, witness_hex, location),
        ),
{
}

/// Adding a request keeps the pool well formed.
#[verifier::rlimit(60)]
pub proof fn law_add_keeps_well_formed(
    s: PoolState,
    filename: Seq<u8>,
    witness_hex: Seq<u8>,
    location: Seq<u8>,
    timestamp: u64,
)
    requires
        s.well_formed(),
        !s.has(request_id(filename, witness_hex, location)),
    ensures
        s.after_add(filename, witness_hex, location, timestamp).well_formed(),
{
    let after = s.after_add(filename, witness_hex, location, timestamp);
    let new = request_id(filename, witness_hex, location);
    assert(s.request_ids.contains(new) <==> s.has(new));
    lemma_one_more(s.request_ids, new);
    assert forall|id: Seq<u8>| #[trigger] after.request_ids.contains(id) <==> after.has(id) by {
        assert(s.request_ids.contains(id) <==> s.has(id));
    }
    assert forall|id: Seq<u8>| #[trigger] after.has(id) implies identifies(
        id,
        blob(after.requests, id),
    ) by {
        if id == new {
            lemma_identifies(filename, witness_hex, location);
        } else {
            assert(s.has(id));
        }
    }
    assert forall|id: Seq<u8>| #[trigger] after.fulfilled(id) implies after.has(id) by {
        assert(s.fulfilled(id));
    }
    assert forall|id: Seq<u8>| #[trigger]
        after.attestations(id) == (if after.fulfilled(id) {
            1u32
        } else {
            0u32
        }) by {
        assert(s.attestations(id) == after.attestations(id));
    }
    assert forall|id: Seq<u8>| !after.fulfilled(id) implies (#[trigger] blob(
        after.fulfilled_attestations,
        id,
    )).len() == 0 by {
        assert(!s.fulfilled(id));
    }
    assert forall|key: Seq<u8>|
        (#[trigger] blob(after.partial_attestations, key)).len()
            > 0 implies after.belongs_to_fulfilled(key) by {
        lemma_belongs_still(s, after, key);
    }
}

proof fn lemma_belongs_still(s: PoolState, after: PoolState, key: Seq<u8>)
    requires
        s.belongs_to_fulfilled(key),
        after.authorized_workers == s.authorized_workers,
        forall|id: Seq<u8>| #[trigger] s.fulfilled(id) ==> after.fulfilled(id),
    ensures
        after.belongs_to_fulfilled(key),
{
    let (id, j) = choose|id: Seq<u8>, j: int|
        0 <= j < s.authorized_workers.len() && s.fulfilled(id) && key == #[trigger] worker_key(
            id,
            s.authorized_workers[j],
        );
    assert(after.fulfilled(id));
    assert(key == worker_key(id, after.authorized_workers[j]));
}

/// Accepting an attestation keeps the pool well formed.
pub proof fn law_submit_keeps_well_formed(
    s: PoolState,
    caller: Seq<u8>,
    id: Seq<u8>,
    attestation: Seq<u8>,
)
    requires
        s.well_formed(),
        s.submit_refusal(caller, id) is None,
    ensures
        s.after_submit(caller, id, attestation).well_formed(),
{
    let after = s.after_submit(caller, id, attestation);
    assert(s.attestations(id) == 0);
    assert(s.recorded(caller, id, attestation).attestations(id) == 1);
    assert forall|k: Seq<u8>| #[trigger] after.request_ids.contains(k) <==> after.has(k) by {
        assert(s.request_ids.contains(k) <==> s.has(k));
    }
    assert forall|k: Seq<u8>| #[trigger] after.has(k) implies identifies(
        k,
        blob(after.requests, k),
    ) by {
        assert(s.has(k));
    }
    assert forall|k: Seq<u8>| #[trigger] after.fulfilled(k) implies after.has(k) by {
        if k != id {
            assert(s.fulfilled(k));
        }
    }
    assert forall|k: Seq<u8>| #[trigger]
        after.attestations(k) == (if after.fulfilled(k) {
            1u32
        } else {
            0u32
        }) by {
        if k != id {
            assert(s.attestations(k) == after.attestations(k));
        }
    }
    assert forall|k: Seq<u8>| !after.fulfilled(k) implies (#[trigger] blob(
        after.fulfilled_attestations,
        k,
    )).len() == 0 by {
        assert(!s.fulfilled(k));
        assert(blob(s.fulfilled_attestations, k).len() == 0);
    }
    assert forall|key: Seq<u8>|
        (#[trigger] blob(after.partial_attestations, key)).len()
            > 0 implies after.belongs_to_fulfilled(key) by {
        if key == worker_key(id, caller) {
            let j = choose|j: int|
                0 <= j < s.authorized_workers.len() && s.authorized_workers[j] == caller;
            assert(after.fulfilled(id));
            assert(key == worker_key(id, after.authorized_workers[j]));
        } else {
            assert(blob(s.partial_attestations, key).len() > 0);
            lemma_belongs_still(s, after, key);
        }
    }
}

/// In a well-formed pool the first accepted attestation fulfills a request, and no later one
/// is accepted for it, whoever the caller is.
pub proof fn law_one_attestation_fulfills(
    s: PoolState,
    caller: Seq<u8>,
    id: Seq<u8>,
    attestation: Seq<u8>,
    later: Seq<u8>,
)
    requires
        s.well_formed(),
        s.submit_refusal(caller, id) is None,
    ensures
        s.after_submit(caller, id, attestation).fulfilled(id),
        s.after_submit(caller, id, attestation).attestations(id) == 1,
        s.after_submit(caller, id, attestation).submit_refusal(later, id) is Some,
        blob(s.after_submit(caller, id, attestation).fulfilled_attestations, id) == joined(
            s.partial_attestations.insert(worker_key(id, caller), attestation),
            id,
            s.authorized_workers,
        ),
{
    assert(s.attestations(id) == 0);
}

/// Who did not attest adds nothing to what is joined.
proof fn lemma_joined_nothing(partials: Map<Seq<u8>, Seq<u8>>, id: Seq<u8>, workers: Seq<Seq<u8>>)
    requires
        forall|i: int|
            0 <= i < workers.len() ==> blob(partials, worker_key(id, #[trigger] workers[i]))
                == Seq::<u8>::empty(),
    ensures
        joined(partials, id, workers) == Seq::<u8>::empty(),
    decreases workers.len(),
{
    if workers.len() > 0 {
        let front = workers.drop_last();
        assert forall|i: int| 0 <= i < front.len() implies blob(
            partials,
            worker_key(id, #[trigger] front[i]),
        ) == Seq::<u8>::empty() by {
            assert(front[i] == workers[i]);
        }
        lemma_joined_nothing(partials, id, front);
        assert(workers[workers.len() - 1] == workers.last());
    }
}

proof fn lemma_joined_one(
    partials: Map<Seq<u8>, Seq<u8>>,
    id: Seq<u8>,
    workers: Seq<Seq<u8>>,
    at: int,
)
    requires
        0 <= at < workers.len(),
        forall|i: int|
            0 <= i < workers.len() && i != at ==> blob(
                partials,
                worker_key(id, #[trigger] workers[i]),
            ) == Seq::<u8>::empty(),
    ensures
        joined(partials, id, workers) == blob(partials, worker_key(id, workers[at])),
    decreases workers.len(),
{
    let front = workers.drop_last();
    assert forall|i: int| 0 <= i < front.len() && i != at implies blob(
        partials,
        worker_key(id, #[trigger] front[i]),
    ) == Seq::<u8>::empty() by {
        assert(front[i] == workers[i]);
    }
    if at == workers.len() - 1 {
        lemma_joined_nothing(partials, id, front);
    } else {
        lemma_joined_one(partials, id, front, at);
        assert(workers[workers.len() - 1] == workers.last());
    }
    assert(joined(partials, id, workers) =~= blob(partials, worker_key(id, workers[at])));
}

/// The attestation of the worker that fulfills a request is what the pool answers for it, as
/// long as the keys under which attestations are stored do not collide: the workers' keys for
/// this request differ from each other and from those for fulfilled requests.
pub proof fn law_attestation_reads_back(
    s: PoolState,
    at: int,
    id: Seq<u8>,
    attestation: Seq<u8>,
)
    requires
        s.well_formed(),
        0 <= at < s.authorized_workers.len(),
        s.submit_refusal(s.authorized_workers[at], id) is None,
        forall|i: int|
            0 <= i < s.authorized_workers.len() && i != at ==> worker_key(
                id,
                #[trigger] s.authorized_workers[i],
            ) != worker_key(id, s.authorized_workers[at]),
        forall|i: int, other: Seq<u8>, j: int|
            0 <= i < s.authorized_workers.len() && 0 <= j < s.authorized_workers.len()
                && s.fulfilled(other) ==> worker_key(id, #[trigger] s.authorized_workers[i])
                != #[trigger] worker_key(other, s.authorized_workers[j]),
    ensures
        blob(
            s.after_submit(s.authorized_workers[at], id, attestation).fulfilled_attestations,
            id,
        ) == attestation,
{
    let caller = s.authorized_workers[at];
    let partials = s.partial_attestations.insert(worker_key(id, caller), attestation);
    assert(s.attestations(id) == 0);
    assert forall|i: int| 0 <= i < s.authorized_workers.len() && i != at implies blob(
        partials,
        worker_key(id, #[trigger] s.authorized_workers[i]),
    ) == Seq::<u8>::empty() by {
        let key = worker_key(id, s.authorized_workers[i]);
        if blob(s.partial_attestations, key).len() > 0 {
            assert(s.belongs_to_fulfilled(key));
            let (other, j) = choose|other: Seq<u8>, j: int|
                0 <= j < s.authorized_workers.len() && s.fulfilled(other) && key
                    == #[trigger] worker_key(other, s.authorized_workers[j]);
            assert(false);
        }
        assert(blob(partials, key) =~= Seq::<u8>::empty());
    }
    lemma_joined_one(partials, id, s.authorized_workers, at);
}

/// What a fulfilled request is answered with never changes: neither an added request nor an
/// accepted attestation touches it.
pub proof fn law_fulfilled_answer_is_final(
    s: PoolState,
    id: Seq<u8>,
    filename: Seq<u8>,
    witness_hex: Seq<u8>,
    location: Seq<u8>,
    timestamp: u64,
    caller: Seq<u8>,
    other: Seq<u8>,
    attestation: Seq<u8>,
)
    requires
        s.fulfilled(id),
        s.submit_refusal(caller, other) is None,
    ensures
        s.after_add(filename, witness_hex, location, timestamp).fulfilled(id),
        blob(
            s.after_add(filename, witness_hex, location, timestamp).fulfilled_attestations,
            id,
        ) == blob(s.fulfilled_attestations, id),
        s.after_submit(caller, other, attestation).fulfilled(id),
        blob(s.after_submit(caller, other, attestation).fulfilled_attestations, id) == blob(
            s.fulfilled_attestations,
            id,
        ),
{
}

/// Requests are never forgotten or changed: adding another one keeps what is stored.
pub proof fn law_add_keeps_requests(
    s: PoolState,
    filename: Seq<u8>,
    witness_hex: Seq<u8>,
    location: Seq<u8>,
    timestamp: u64,
    id: Seq<u8>,
)
    requires
        s.has(id),
        !s.has(request_id(filename, witness_hex, location)),
    ensures
        s.after_add(filename, witness_hex, location, timestamp).has(id),
        blob(s.after_add(filename, witness_hex, location, timestamp).requests, id) == blob(
            s.requests,
            id,
        ),
{
}

/// A request that is added is listed last, behind all others, which are listed as before.
pub proof fn law_added_request_is_listed_last(
    s: PoolState,
    filename: Seq<u8>,
    witness_hex: Seq<u8>,
    location: Seq<u8>,
    timestamp: u64,
)
    requires
        s.well_formed(),
        !s.has(request_id(filename, witness_hex, location)),
    ensures
        s.after_add(filename, witness_hex, location, timestamp).stored_requests()
            == s.stored_requests().push(request_bytes(filename, witness_hex, location)),
{
    let after = s.after_add(filename, witness_hex, location, timestamp);
    let new = request_id(filename, witness_hex, location);
    let expected = s.stored_requests().push(request_bytes(filename, witness_hex, location));
    assert forall|i: int| 0 <= i < expected.len() implies after.stored_requests()[i]
        == expected[i] by {
        if i < s.request_ids.len() {
            assert(s.request_ids.contains(s.request_ids[i]));
            assert(s.request_ids[i] != new);
        }
    }
    assert(after.stored_requests() =~= expected);
}

proof fn lemma_field_at(before: Seq<u8>, field: Seq<u8>, behind: Seq<u8>)
    requires
        field.len() < 0x1_0000_0000,
    ensures
        field_at(before + prefixed(field) + behind, before.len() as int) == Some(field),
{
    let data = before + prefixed(field) + behind;
    let at = before.len() as int;
    assert(data.subrange(at, at + 4) =~= u32_be(low_u32(field.len())));
    lemma_u32_be_round_trip(low_u32(field.len()));
    assert(data.subrange(at + 4, at + 4 + field.len()) =~= field);
}

proof fn lemma_regroup(f: Seq<u8>, w: Seq<u8>, l: Seq<u8>, behind: Seq<u8>)
    ensures
        f + w + l + behind == Seq::<u8>::empty() + f + (w + l + behind),
        f + w + l + behind == f + w + (l + behind),
{
    assert(f + w + l + behind =~= Seq::<u8>::empty() + f + (w + l + behind));
    assert(f + w + l + behind =~= f + w + (l + behind));
}

proof fn lemma_prefixed_len(field: Seq<u8>)
    ensures
        prefixed(field).len() == 4 + field.len(),
{
}

/// Where the fields of a request stand in its bytes.
proof fn lemma_fields_of_request(
    filename: Seq<u8>,
    witness_hex: Seq<u8>,
    location: Seq<u8>,
    behind: Seq<u8>,
)
    requires
        filename.len() < 0x1_0000_0000,
        witness_hex.len() < 0x1_0000_0000,
        location.len() < 0x1_0000_0000,
    ensures
        ({
            let data = request_bytes(filename, witness_hex, location) + behind;
            &&& field_at(data, 0) == Some(filename)
            &&& field_at(data, 4 + filename.len() as int) == Some(witness_hex)
            &&& field_at(data, 8 + filename.len() as int + witness_hex.len() as int) == Some(
                location,
            )
        }),
{
    let (f, w, l) = (prefixed(filename), prefixed(witness_hex), prefixed(location));
    lemma_regroup(f, w, l, behind);
    lemma_prefixed_len(filename);
    lemma_prefixed_len(witness_hex);
    lemma_field_at(Seq::empty(), filename, w + l + behind);
    lemma_field_at(f, witness_hex, l + behind);
    lemma_field_at(f + w, location, behind);
}

/// The bytes of a request give back its fields, whatever follows them, for fields whose length
/// fits in four bytes.
pub proof fn law_request_round_trip(
    filename: Seq<u8>,
    witness_hex: Seq<u8>,
    location: Seq<u8>,
    behind: Seq<u8>,
)
    requires
        filename.len() < 0x1_0000_0000,
        witness_hex.len() < 0x1_0000_0000,
        location.len() < 0x1_0000_0000,
    ensures
        request_parts(request_bytes(filename, witness_hex, location) + behind) == Some(
            (filename, witness_hex, location),
        ),
{
    lemma_fields_of_request(filename, witness_hex, location, behind);
}

/// Bytes that hold a request start with the bytes of that request.
pub proof fn law_request_parts_are_packed_back(data: Seq<u8>)
    requires
        request_parts(data) is Some,
    ensures
        ({
            let (filename, witness_hex, location) = request_parts(data).unwrap();
            let packed = request_bytes(filename, witness_hex, location);
            packed.len() <= data.len() && data.take(packed.len() as int) == packed
        }),
{
    let (filename, witness_hex, location) = request_parts(data).unwrap();
    let second = 4 + filename.len() as int;
    let third = second + 4 + witness_hex.len() as int;
    lemma_field_packs_back(data, 0);
    lemma_field_packs_back(data, second);
    lemma_field_packs_back(data, third);
    let end = third + 4 + location.len() as int;
    let (f, w, l) = (prefixed(filename), prefixed(witness_hex), prefixed(location));
    lemma_adjacent(data, 0, second, third);
    lemma_adjacent(data, 0, third, end);
    assert(f + w + l == data.subrange(0, end));
    assert(data.take(end) =~= data.subrange(0, end));
}

proof fn lemma_field_packs_back(data: Seq<u8>, at: int)
    requires
        0 <= at,
        field_at(data, at) is Some,
    ensures
        at + 4 + field_at(data, at).unwrap().len() <= data.len(),
        prefixed(field_at(data, at).unwrap()) == data.subrange(
            at,
            at + 4 + field_at(data, at).unwrap().len(),
        ),
{
    let field = field_at(data, at).unwrap();
    let head = data.subrange(at, at + 4);
    lemma_u32_be_packs_back(head);
    assert(field.len() == u32_of_be(head));
    assert(low_u32(field.len()) == u32_of_be(head));
    assert(head + field =~= data.subrange(at, at + 4 + field.len()));
}

proof fn lemma_adjacent(data: Seq<u8>, from: int, mid: int, to: int)
    requires
        0 <= from <= mid <= to <= data.len(),
    ensures
        data.subrange(from, mid) + data.subrange(mid, to) == data.subrange(from, to),
{
    assert(data.subrange(from, mid) + data.subrange(mid, to) =~= data.subrange(from, to));
}

} // verus!
