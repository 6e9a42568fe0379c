//! The client of the request pool.
//!
//! A call of the pool contract is prepared here and its reply is read here; sending the one
//! and receiving the other is left to the caller.

use std::sync::Arc;

use vstd::prelude::*;
use vstd::utf8::encode_utf8;

use crate::backend::{
    call_data_of, strip_status, without_status, ContractCall, ContractQuery, SubstrateBackend,
    CALL_PROOF_SIZE, CALL_REF_TIME,
};
use crate::bytes::append;
use crate::contract::ink_pool::{DecryptionRequest, GenericData, RequestView};
use crate::hashing::blake2_256_digest;
use crate::scale::{
    bytes_and_rest, bytes_refusal, compact, decode_bytes, decode_length, decode_u64, encode_bytes,
    law_bytes_are_unambiguous, law_compact_is_unambiguous, law_u64_round_trip, le_bytes, le_value,
    length_and_rest, length_refusal, no_bytes_start, no_length_starts, scale_bytes,
};

verus! {

/// A request as the pool contract reads it: its three fields, one after the other.
pub open spec fn request_scale(r: RequestView) -> Seq<u8> {
    scale_bytes(r.filename) + scale_bytes(r.witness_hex) + scale_bytes(r.location)
}

/// Requests one after the other.
pub open spec fn requests_joined(list: Seq<RequestView>) -> Seq<u8>
    decreases list.len(),
{
    if list.len() == 0 {
        Seq::empty()
    } else {
        request_scale(list.first()) + requests_joined(list.drop_first())
    }
}

/// A list of requests: their number, then each of them.
pub open spec fn requests_scale(list: Seq<RequestView>) -> Seq<u8> {
    compact(list.len()) + requests_joined(list)
}

/// Whether the lengths of the fields can be encoded.
pub open spec fn request_fits(r: RequestView) -> bool {
    &&& r.filename.len() <= u32::MAX
    &&& r.witness_hex.len() <= u32::MAX
    &&& r.location.len() <= u32::MAX
}

/// Whether a list of requests can be encoded.
pub open spec fn requests_fit(list: Seq<RequestView>) -> bool {
    &&& list.len() <= u32::MAX
    &&& forall|i: int| 0 <= i < list.len() ==> request_fits(#[trigger] list[i])
}

/// The fields of each request of a list.
pub open spec fn request_views(list: Seq<DecryptionRequest>) -> Seq<RequestView> {
    list.map_values(|r: DecryptionRequest| r@)
}

/// Byte strings one after the other.
pub open spec fn fields_joined(fields: Seq<Seq<u8>>) -> Seq<u8>
    decreases fields.len(),
{
    if fields.len() == 0 {
        Seq::empty()
    } else {
        fields_joined(fields.drop_last()) + scale_bytes(fields.last())
    }
}

/// Whether `data` starts with fields of a request, fewer than it has, and goes on with `part`,
/// which starts with no field.
pub open spec fn request_stops(data: Seq<u8>, fields: Seq<Seq<u8>>, part: Seq<u8>) -> bool {
    &&& fields.len() < 3
    &&& forall|i: int| 0 <= i < fields.len() ==> (#[trigger] fields[i]).len() <= u32::MAX
    &&& data == fields_joined(fields) + part
    &&& no_bytes_start(part)
}

/// Whether this is what is told of `data` that starts with no request: what the codec tells of
/// the part at which the request stops.
pub open spec fn request_refusal(data: Seq<u8>, text: Seq<char>) -> bool {
    exists|fields: Seq<Seq<u8>>, part: Seq<u8>| #[trigger]
        request_stops(data, fields, part) && text == bytes_refusal(part)
}

/// Whether `data` starts with a length and with requests, fewer than the length, and goes on
/// with `rest`.
pub open spec fn list_stops(
    data: Seq<u8>,
    len: u32,
    done: Seq<RequestView>,
    rest: Seq<u8>,
) -> bool {
    &&& done.len() < len
    &&& requests_fit(done)
    &&& data == compact(len as nat) + (requests_joined(done) + rest)
}

/// Whether this is what is told of `data` that starts with no list of requests: what the codec
/// tells of the length, or of the first request that is none.
pub open spec fn list_refusal(data: Seq<u8>, text: Seq<char>) -> bool {
    ||| no_length_starts(data) && text == length_refusal(data)
    ||| exists|len: u32, done: Seq<RequestView>, rest: Seq<u8>| #[trigger]
        list_stops(data, len, done, rest) && request_refusal(rest, text)
}

/// What was decoded and what follows it.
pub open spec fn request_and_rest(decoded: Result<(DecryptionRequest, Vec<u8>), String>) -> Option<
    (RequestView, Seq<u8>),
> {
    match decoded {
        Ok((r, rest)) => Some((r@, rest@)),
        Err(_) => None,
    }
}

fn decode_request(data: &[u8]) -> (decoded: Result<(DecryptionRequest, Vec<u8>), String>)
    ensures
        request_and_rest(decoded) matches Some((r, rest)) ==> data@ == request_scale(r) + rest
            && request_fits(r),
        forall|r: RequestView, rest: Seq<u8>|
            request_fits(r) && data@ == #[trigger] (request_scale(r) + rest) ==> request_and_rest(
                decoded,
            ) == Some((r, rest)),
        decoded matches Err(text) ==> request_refusal(data@, text@),
{
    let first = decode_bytes(data);
    proof {
        assert forall|r: RequestView, rest: Seq<u8>|
            request_fits(r) && data@ == #[trigger] (request_scale(r) + rest) implies bytes_and_rest(
            first,
        ) == Some(
            (r.filename, scale_bytes(r.witness_hex) + (scale_bytes(r.location) + rest)),
        ) by {
            assert(data@ =~= scale_bytes(r.filename) + (scale_bytes(r.witness_hex) + (scale_bytes(
                r.location,
            ) + rest)));
        }
        reveal_with_fuel(fields_joined, 3);
    }
    let (filename, after_filename) = match first {
        Ok(read) => read,
        Err(text) => {
            proof {
                assert(fields_joined(Seq::empty()) + data@ =~= data@);
                assert(request_stops(data@, Seq::empty(), data@));
            }
            return Err(text);
        },
    };
    let second = decode_bytes(after_filename.as_slice());
    let (witness_hex, after_witness) = match second {
        Ok(read) => read,
        Err(text) => {
            proof {
                let fields = seq![filename@];
                assert(fields.drop_last() =~= Seq::<Seq<u8>>::empty());
                assert(fields_joined(fields) =~= scale_bytes(filename@));
                assert(request_stops(data@, fields, after_filename@));
            }
            return Err(text);
        },
    };
    let third = decode_bytes(after_witness.as_slice());
    let (location, rest) = match third {
        Ok(read) => read,
        Err(text) => {
            proof {
                let fields = seq![filename@, witness_hex@];
                assert(fields.drop_last() =~= seq![filename@]);
                assert(seq![filename@].drop_last() =~= Seq::<Seq<u8>>::empty());
                assert(fields_joined(seq![filename@]) =~= scale_bytes(filename@));
                assert(fields_joined(fields) =~= scale_bytes(filename@) + scale_bytes(witness_hex@));
                assert(data@ =~= fields_joined(fields) + after_witness@);
                assert(request_stops(data@, fields, after_witness@));
            }
            return Err(text);
        },
    };
    let request = DecryptionRequest {
        filename: GenericData(filename),
        witness_hex: GenericData(witness_hex),
        location: GenericData(location),
    };
    assert(data@ =~= request_scale(request@) + rest@);
    Ok((request, rest))
}

/// Reads the list of requests that starts `data`; what follows it is ignored. Exactly where no
/// such list starts `data`, the codec's text tells at what the reading stopped.
pub fn decode_requests(data: &[u8]) -> (decoded: Result<Vec<DecryptionRequest>, String>)
    ensures
        decoded matches Ok(list) ==> requests_fit(request_views(list@)) && exists|tail: Seq<u8>|
            data@ == #[trigger] (requests_scale(request_views(list@)) + tail),
        forall|list: Seq<RequestView>, tail: Seq<u8>|
            requests_fit(list) && data@ == #[trigger] (requests_scale(list) + tail) ==> (
            decoded matches Ok(read) && request_views(read@) == list),
        decoded matches Err(text) ==> list_refusal(data@, text@),
{
    let start = decode_length(data);
    proof {
        assert forall|list: Seq<RequestView>, tail: Seq<u8>|
            requests_fit(list) && data@ == #[trigger] (requests_scale(list)
                + tail) implies length_and_rest(start) == Some(
            (list.len() as u32, requests_joined(list) + tail),
        ) by {
            assert(data@ =~= compact((list.len() as u32) as nat) + (requests_joined(list) + tail));
        }
    }
    let (len, after_len) = match start {
        Ok(read) => read,
        Err(text) => {
            return Err(text);
        },
    };
    let mut list: Vec<DecryptionRequest> = Vec::new();
    let mut rest: Vec<u8> = after_len;
    let mut i: u32 = 0;
    assert(request_views(list@) =~= Seq::empty());
    assert(requests_joined(request_views(list@)) + rest@ =~= rest@);
    assert forall|l: Seq<RequestView>, tail: Seq<u8>|
        requests_fit(l) && data@ == #[trigger] (requests_scale(l) + tail) implies l.take(0)
        == Seq::<RequestView>::empty() && l.skip(0) == l by {
        assert(l.take(0) =~= Seq::<RequestView>::empty());
        assert(l.skip(0) =~= l);
    }
    while i < len
        invariant
            i <= len,
            list@.len() == i,
            requests_fit(request_views(list@)),
            data@ == compact(len as nat) + (requests_joined(request_views(list@)) + rest@),
            forall|l: Seq<RequestView>, tail: Seq<u8>|
                requests_fit(l) && data@ == #[trigger] (requests_scale(l) + tail) ==> l.len() == len
                    && l.take(i as int) == request_views(list@) && rest@ == requests_joined(
                    l.skip(i as int),
                ) + tail,
        decreases len - i,
    {
        let next = decode_request(rest.as_slice());
        proof {
            assert forall|l: Seq<RequestView>, tail: Seq<u8>|
                requests_fit(l) && data@ == #[trigger] (requests_scale(l)
                    + tail) implies request_and_rest(next) == Some(
                (l[i as int], requests_joined(l.skip(i + 1)) + tail),
            ) by {
                assert(l.skip(i as int).first() == l[i as int]);
                assert(l.skip(i as int).drop_first() =~= l.skip(i + 1));
                assert(rest@ =~= request_scale(l[i as int]) + (requests_joined(l.skip(i + 1))
                    + tail));
            }
        }
        let ghost before = request_views(list@);
        match next {
            Ok((request, after)) => {
                list.push(request);
                proof {
                    assert(request_views(list@) =~= before.push(request@));
                    lemma_joined_push(before, request@);
                    assert(data@ =~= compact(len as nat) + (requests_joined(request_views(list@))
                        + after@));
                    assert forall|l: Seq<RequestView>, tail: Seq<u8>|
                        requests_fit(l) && data@ == #[trigger] (requests_scale(l)
                            + tail) implies l.take(i + 1) == request_views(list@) by {
                        assert(l.take(i + 1) =~= l.take(i as int).push(l[i as int]));
                    }
                }
                rest = after;
            },
            Err(text) => {
                assert(list_stops(data@, len, before, rest@));
                return Err(text);
            },
        }
        i = i + 1;
    }
    proof {
        assert(data@ =~= requests_scale(request_views(list@)) + rest@);
        assert forall|l: Seq<RequestView>, tail: Seq<u8>|
            requests_fit(l) && data@ == #[trigger] (requests_scale(l) + tail) implies request_views(
            list@,
        ) == l by {
            assert(l.take(len as int) =~= l);
        }
    }
    Ok(list)
}

proof fn lemma_joined_push(list: Seq<RequestView>, r: RequestView)
    ensures
        requests_joined(list.push(r)) == requests_joined(list) + request_scale(r),
    decreases list.len(),
{
    if list.len() == 0 {
        assert(list.push(r).drop_first() =~= list);
        assert(list.push(r).first() == r);
        reveal_with_fuel(requests_joined, 2);
        assert(requests_joined(list.push(r)) =~= request_scale(r) + requests_joined(list));
        assert(requests_joined(list.push(r)) =~= request_scale(r));
        assert(requests_joined(list) + request_scale(r) =~= request_scale(r));
    } else {
        assert(list.push(r).drop_first() =~= list.drop_first().push(r));
        lemma_joined_push(list.drop_first(), r);
        assert(requests_joined(list.push(r)) =~= requests_joined(list) + request_scale(r));
    }
}

/// Encodes a request.
pub fn encode_request(r: &DecryptionRequest) -> (encoded: Vec<u8>)
    requires
        request_fits(r@),
    ensures
        encoded@ == request_scale(r@),
{
    let mut encoded = encode_bytes(r.filename.0.as_slice());
    append(&mut encoded, encode_bytes(r.witness_hex.0.as_slice()).as_slice());
    append(&mut encoded, encode_bytes(r.location.0.as_slice()).as_slice());
    encoded
}

/// Different lists of requests have different encodings, whatever follows them.
pub proof fn law_requests_are_unambiguous(
    a: Seq<RequestView>,
    after_a: Seq<u8>,
    b: Seq<RequestView>,
    after_b: Seq<u8>,
)
    requires
        requests_fit(a),
        requests_fit(b),
        requests_scale(a) + after_a == requests_scale(b) + after_b,
    ensures
        a == b,
        after_a == after_b,
{
    assert(requests_scale(a) + after_a =~= compact(a.len()) + (requests_joined(a) + after_a));
    assert(requests_scale(b) + after_b =~= compact(b.len()) + (requests_joined(b) + after_b));
    law_compact_is_unambiguous(
        a.len(),
        requests_joined(a) + after_a,
        b.len(),
        requests_joined(b) + after_b,
    );
    lemma_joined_is_unambiguous(a, after_a, b, after_b);
}

proof fn lemma_joined_is_unambiguous(
    a: Seq<RequestView>,
    after_a: Seq<u8>,
    b: Seq<RequestView>,
    after_b: Seq<u8>,
)
    requires
        requests_fit(a),
        requests_fit(b),
        a.len() == b.len(),
        requests_joined(a) + after_a == requests_joined(b) + after_b,
    ensures
        a == b,
        after_a == after_b,
    decreases a.len(),
{
    if a.len() == 0 {
        assert(requests_joined(a) + after_a =~= after_a);
        assert(requests_joined(b) + after_b =~= after_b);
        assert(a =~= b);
    } else {
        let rest_a = requests_joined(a.drop_first()) + after_a;
        let rest_b = requests_joined(b.drop_first()) + after_b;
        assert(request_fits(a[0]) && request_fits(b[0]));
        assert(requests_joined(a) + after_a =~= request_scale(a[0]) + rest_a);
        assert(requests_joined(b) + after_b =~= request_scale(b[0]) + rest_b);
        lemma_request_is_unambiguous(a[0], rest_a, b[0], rest_b);
        lemma_joined_is_unambiguous(a.drop_first(), after_a, b.drop_first(), after_b);
        assert(a =~= seq![a[0]] + a.drop_first());
        assert(b =~= seq![b[0]] + b.drop_first());
    }
}

proof fn lemma_request_is_unambiguous(
    a: RequestView,
    after_a: Seq<u8>,
    b: RequestView,
    after_b: Seq<u8>,
)
    requires
        request_fits(a),
        request_fits(b),
        request_scale(a) + after_a == request_scale(b) + after_b,
    ensures
        a == b,
        after_a == after_b,
{
    let witness_a = scale_bytes(a.witness_hex) + (scale_bytes(a.location) + after_a);
    let witness_b = scale_bytes(b.witness_hex) + (scale_bytes(b.location) + after_b);
    assert(request_scale(a) + after_a =~= scale_bytes(a.filename) + witness_a);
    assert(request_scale(b) + after_b =~= scale_bytes(b.filename) + witness_b);
    law_bytes_are_unambiguous(a.filename, witness_a, b.filename, witness_b);
    law_bytes_are_unambiguous(
        a.witness_hex,
        scale_bytes(a.location) + after_a,
        b.witness_hex,
        scale_bytes(b.location) + after_b,
    );
    law_bytes_are_unambiguous(a.location, after_a, b.location, after_b);
}

/// Why a reply of the pool is of no use.
#[derive(Debug)]
pub enum PoolError {
    /// The chain refused the query, with a text.
    Backend(String),
    /// The reply cannot be decoded, with the codec's text.
    Undecodable(String),
}

/// Whether `decode` may read `text` as `address`.
pub open spec fn decodes_to<F: Fn(&str) -> [u8; 32]>(
    decode: F,
    text: Seq<char>,
    address: [u8; 32],
) -> bool {
    exists|t: &str| t@ == text && #[trigger] call_ensures(decode, (t,), address)
}

/// The request pool contract, seen from one account.
pub struct InkContractPool {
    contract_address: String,
    backend: Arc<SubstrateBackend>,
}

impl InkContractPool {
    /// The text of the contract's address.
    pub closed spec fn address(self) -> Seq<char> {
        self.contract_address@
    }

    /// The chain.
    pub closed spec fn chain(self) -> SubstrateBackend {
        *self.backend
    }

    /// Whether `call` is the transaction that calls `method`, of the contract whose address
    /// `decode` reads.
    pub open spec fn calls<F: Fn(&str) -> [u8; 32]>(
        self,
        decode: F,
        method: Seq<char>,
        arguments: Seq<u8>,
        call: ContractCall,
    ) -> bool {
        &&& decodes_to(decode, self.address(), call.dest)
        &&& call.value == 0
        &&& call.ref_time == CALL_REF_TIME
        &&& call.proof_size == CALL_PROOF_SIZE
        &&& call.data@ == call_data_of(method, arguments)
    }

    /// Whether `query` asks for `method` without arguments, of the contract whose address
    /// `decode` reads.
    pub open spec fn asks<F: Fn(&str) -> [u8; 32]>(
        self,
        decode: F,
        method: Seq<char>,
        query: ContractQuery,
    ) -> bool {
        &&& decodes_to(decode, self.address(), query.dest)
        &&& query.origin@ == self.chain().signed_by().account()
        &&& query.value == 0
        &&& query.input_data@ == call_data_of(method, Seq::empty())
    }

    /// The pool at an address.
    pub fn new(contract_address: String, backend: Arc<SubstrateBackend>) -> (pool: Self)
        ensures
            pool.address() == contract_address@,
            pool.chain() == *backend,
    {
        InkContractPool { contract_address, backend }
    }

    /// The transaction that adds a request. `decode` reads the contract's address.
    pub fn add<F: Fn(&str) -> [u8; 32]>(&self, decode: F, req: &DecryptionRequest) -> (call:
        ContractCall)
        requires
            forall|text: &str| call_requires(decode, (text,)),
            request_fits(req@),
        ensures
            self.calls(decode, "add"@, request_scale(req@), call),
    {
        let address = decode(self.contract_address.as_str());
        let data = encode_request(req);
        self.backend.write(&address, "add", data.as_slice())
    }

    /// The query for all requests. `decode` reads the contract's address.
    pub fn read_all<F: Fn(&str) -> [u8; 32]>(&self, decode: F) -> (query: ContractQuery)
        requires
            forall|text: &str| call_requires(decode, (text,)),
        ensures
            self.asks(decode, "read_all"@, query),
    {
        let address = decode(self.contract_address.as_str());
        self.backend.read(&address, "read_all", None)
    }

    /// The requests in the reply to a query for all requests.
    pub fn read_all_reply(&self, reply: Result<Option<Vec<u8>>, String>) -> (requests: Result<
        Vec<DecryptionRequest>,
        PoolError,
    >)
        requires
            reply !== Ok(None),
        ensures
            match reply {
                Ok(data) => lists(requests, without_status(data.unwrap()@)),
                Err(text) => requests == Err::<Vec<DecryptionRequest>, PoolError>(
                    PoolError::Backend(text),
                ),
            },
    {
        match reply {
            Ok(Some(data)) => match decode_requests(strip_status(data.as_slice()).as_slice()) {
                Ok(requests) => Ok(requests),
                Err(text) => Err(PoolError::Undecodable(text)),
            },
            Ok(None) => Ok(Vec::new()),
            Err(text) => Err(PoolError::Backend(text)),
        }
    }

    /// The query for the number of requests. `decode` reads the contract's address.
    pub fn count<F: Fn(&str) -> [u8; 32]>(&self, decode: F) -> (query: ContractQuery)
        requires
            forall|text: &str| call_requires(decode, (text,)),
        ensures
            self.asks(decode, "count"@, query),
    {
        let address = decode(self.contract_address.as_str());
        self.backend.read(&address, "count", None)
    }

    /// The number in the reply to a query for the number of requests.
    pub fn count_reply(&self, reply: Result<Option<Vec<u8>>, String>) -> (count: Result<
        usize,
        PoolError,
    >)
        requires
            reply !== Ok(None),
        ensures
            match reply {
                Ok(data) => is_count(count, without_status(data.unwrap()@)),
                Err(text) => count == Err::<usize, PoolError>(PoolError::Backend(text)),
            },
    {
        match reply {
            Ok(Some(data)) => match decode_u64(strip_status(data.as_slice()).as_slice()) {
                Ok(count) => Ok(count as usize),
                Err(text) => Err(PoolError::Undecodable(text)),
            },
            Ok(None) => Ok(0),
            Err(text) => Err(PoolError::Backend(text)),
        }
    }

    /// The transaction that reports work on a request. `decode` reads the contract's address.
    pub fn submit_partial_attestation<F: Fn(&str) -> [u8; 32]>(
        &self,
        decode: F,
        id: &[u8],
        attestation: &[u8],
    ) -> (call: ContractCall)
        requires
            forall|text: &str| call_requires(decode, (text,)),
            id@.len() <= u32::MAX,
            attestation@.len() <= u32::MAX,
        ensures
            self.calls(
                decode,
                "submit_partial_decryption"@,
                scale_bytes(id@) + scale_bytes(attestation@),
                call,
            ),
    {
        let mut data = encode_bytes(id);
        append(&mut data, encode_bytes(attestation).as_slice());
        let address = decode(self.contract_address.as_str());
        self.backend.write(&address, "submit_partial_decryption", data.as_slice())
    }
}

/// Whether this is what a reply lists: the one list that starts `data`, and an error with the
/// codec's text exactly where no list does.
pub open spec fn lists(
    requests: Result<Vec<DecryptionRequest>, PoolError>,
    data: Seq<u8>,
) -> bool {
    match requests {
        Ok(list) => requests_fit(request_views(list@)) && exists|tail: Seq<u8>|
            data == #[trigger] (requests_scale(request_views(list@)) + tail),
        Err(e) => {
            &&& e matches PoolError::Undecodable(text) && list_refusal(data, text@)
            &&& forall|list: Seq<RequestView>, tail: Seq<u8>|
                requests_fit(list) ==> data != #[trigger] (requests_scale(list) + tail)
        },
    }
}

/// A client reads the very list that the contract replies with, whatever the status before it.
pub proof fn law_client_reads_the_list(
    list: Seq<RequestView>,
    status: u8,
    requests: Result<Vec<DecryptionRequest>, PoolError>,
)
    requires
        requests_fit(list),
        lists(requests, without_status(seq![status] + requests_scale(list))),
    ensures
        requests matches Ok(read) && request_views(read@) == list,
{
    let data = without_status(seq![status] + requests_scale(list));
    assert(data =~= requests_scale(list) + Seq::<u8>::empty());
    if let Ok(read) = requests {
        let tail = choose|tail: Seq<u8>|
            data == #[trigger] (requests_scale(request_views(read@)) + tail);
        law_requests_are_unambiguous(list, Seq::empty(), request_views(read@), tail);
    }
}

/// A client reads the very number that the contract replies with, whatever the status before
/// it.
pub proof fn law_client_reads_the_count(
    count: u64,
    status: u8,
    read: Result<usize, PoolError>,
)
    requires
        is_count(read, without_status(seq![status] + le_bytes(count as nat, 8))),
    ensures
        read matches Ok(n) && n == count as usize,
{
    law_u64_round_trip(count);
    let data = without_status(seq![status] + le_bytes(count as nat, 8));
    assert(data =~= le_bytes(count as nat, 8));
    assert(data.take(8) =~= data);
}

/// Whether this is the number that a reply tells: the one in its first eight bytes, and an error
/// with the codec's text exactly where there are fewer.
pub open spec fn is_count(count: Result<usize, PoolError>, data: Seq<u8>) -> bool {
    match count {
        Ok(n) => data.len() >= 8 && n == (le_value(data.take(8)) as u64) as usize,
        Err(e) => data.len() < 8 && (e matches PoolError::Undecodable(text) && text@
            == "Not enough data to fill buffer"@),
    }
}

/// A request is sent with its three fields in this order, each whole and behind its length; each
/// may have up to `u32::MAX` bytes.
pub proof fn law_layout_of_a_request(r: DecryptionRequest)
    ensures
        request_scale(r@) == scale_bytes(r.filename.0@) + scale_bytes(r.witness_hex.0@)
            + scale_bytes(r.location.0@),
        request_fits(r@) <==> r.filename.0@.len() <= u32::MAX && r.witness_hex.0@.len() <= u32::MAX
            && r.location.0@.len() <= u32::MAX,
{
}

/// A transaction goes to the address that the text spells, moves no value, pays for ten thousand
/// million units of time and half a million bytes of proof, and carries four bytes of the hash
/// of the method's name and then all of its arguments.
pub proof fn law_what_a_transaction_carries<F: Fn(&str) -> [u8; 32]>(
    pool: InkContractPool,
    decode: F,
    method: Seq<char>,
    arguments: Seq<u8>,
    call: ContractCall,
)
    requires
        pool.calls(decode, method, arguments, call),
    ensures
        exists|text: &str|
            text@ == pool.address() && #[trigger] call_ensures(decode, (text,), call.dest),
        call.value == 0,
        call.ref_time == 10_000_000_000,
        call.proof_size == 500_000,
        call.data@ == blake2_256_digest(encode_utf8(method)).take(4) + arguments,
{
}

/// A query goes to the address that the text spells, comes from the account that signs, moves no
/// value, and carries four bytes of the hash of the method's name and nothing else.
pub proof fn law_what_a_query_carries<F: Fn(&str) -> [u8; 32]>(
    pool: InkContractPool,
    decode: F,
    method: Seq<char>,
    query: ContractQuery,
)
    requires
        pool.asks(decode, method, query),
    ensures
        exists|text: &str|
            text@ == pool.address() && #[trigger] call_ensures(decode, (text,), query.dest),
        query.origin@ == pool.chain().signed_by().account(),
        query.value == 0,
        query.input_data@ == blake2_256_digest(encode_utf8(method)).take(4),
{
    let selector = blake2_256_digest(encode_utf8(method)).take(4);
    assert(selector + Seq::<u8>::empty() =~= selector);
}

/// What follows the list in a reply is passed over, and each request is read whole.
pub proof fn law_client_reads_each_request(
    list: Seq<RequestView>,
    status: u8,
    tail: Seq<u8>,
    requests: Result<Vec<DecryptionRequest>, PoolError>,
    i: int,
)
    requires
        requests_fit(list),
        lists(requests, without_status(seq![status] + (requests_scale(list) + tail))),
    ensures
        requests is Ok,
        requests->Ok_0@.len() == list.len(),
        0 <= i < list.len() ==> {
            &&& requests->Ok_0@[i].filename.0@ == list[i].filename
            &&& requests->Ok_0@[i].witness_hex.0@ == list[i].witness_hex
            &&& requests->Ok_0@[i].location.0@ == list[i].location
        },
{
    let data = without_status(seq![status] + (requests_scale(list) + tail));
    assert(data =~= requests_scale(list) + tail);
    if let Ok(read) = requests {
        let views = request_views(read@);
        let rest = choose|rest: Seq<u8>| data == #[trigger] (requests_scale(views) + rest);
        law_requests_are_unambiguous(list, tail, views, rest);
        if 0 <= i < list.len() {
            assert(views[i] == read@[i]@);
        }
    }
}

/// A list is its length and then each of its requests: one request more follows all others.
pub proof fn law_requests_follow_their_number(list: Seq<RequestView>, r: RequestView)
    ensures
        requests_joined(Seq::empty()) == Seq::<u8>::empty(),
        requests_joined(list.push(r)) == requests_joined(list) + request_scale(r),
        requests_scale(list) == compact(list.len()) + requests_joined(list),
{
    lemma_joined_push(list, r);
}

/// A reply with fewer than eight bytes behind the status tells no number; one with more tells
/// the number in the first eight.
pub proof fn law_eight_bytes_tell_a_number(
    count: u64,
    status: u8,
    tail: Seq<u8>,
    read: Result<usize, PoolError>,
)
    requires
        is_count(read, without_status(seq![status] + (le_bytes(count as nat, 8) + tail))),
    ensures
        read is Ok,
        read->Ok_0 == count as usize,
        forall|short: Result<usize, PoolError>, reply: Seq<u8>|
            reply.len() < 9 && #[trigger] is_count(short, without_status(reply)) ==> short is Err
                && short->Err_0 is Undecodable && short->Err_0->Undecodable_0@
                == "Not enough data to fill buffer"@,
{
    law_u64_round_trip(count);
    let data = without_status(seq![status] + (le_bytes(count as nat, 8) + tail));
    assert(data =~= le_bytes(count as nat, 8) + tail);
    assert(data.take(8) =~= le_bytes(count as nat, 8));
}

/// A list fits if it has up to `u32::MAX` requests and each of their fields has up to `u32::MAX`
/// bytes.
pub proof fn law_which_lists_fit(list: Seq<RequestView>)
    ensures
        requests_fit(list) <==> list.len() <= u32::MAX && forall|i: int|
            0 <= i < list.len() ==> (#[trigger] list[i]).filename.len() <= u32::MAX
                && list[i].witness_hex.len() <= u32::MAX && list[i].location.len() <= u32::MAX,
{
}

/// The fields of all requests, one after the other.
spec fn all_fields(list: Seq<RequestView>) -> Seq<Seq<u8>>
    decreases list.len(),
{
    if list.len() == 0 {
        Seq::empty()
    } else {
        seq![list.first().filename, list.first().witness_hex, list.first().location] + all_fields(
            list.drop_first(),
        )
    }
}

proof fn lemma_fields_front(fields: Seq<Seq<u8>>)
    requires
        fields.len() > 0,
    ensures
        fields_joined(fields) == scale_bytes(fields.first()) + fields_joined(fields.drop_first()),
    decreases fields.len(),
{
    reveal_with_fuel(fields_joined, 2);
    if fields.len() == 1 {
        assert(fields.drop_last() =~= Seq::<Seq<u8>>::empty());
        assert(fields.drop_first() =~= Seq::<Seq<u8>>::empty());
        assert(fields_joined(fields) =~= scale_bytes(fields.first()) + fields_joined(
            fields.drop_first(),
        ));
    } else {
        let front = fields.drop_last();
        lemma_fields_front(front);
        assert(fields.drop_first().drop_last() =~= front.drop_first());
        assert(fields_joined(fields) =~= scale_bytes(fields.first()) + fields_joined(
            fields.drop_first(),
        ));
    }
}

proof fn lemma_regroup(a: Seq<u8>, b: Seq<u8>, c: Seq<u8>, d: Seq<u8>, e: Seq<u8>)
    ensures
        a + (b + (c + (d + e))) == (a + b + c) + d + e,
{
    assert(a + (b + (c + (d + e))) =~= (a + b + c) + d + e);
}

proof fn lemma_fields_of_requests(list: Seq<RequestView>, more: Seq<Seq<u8>>)
    requires
        requests_fit(list),
        forall|i: int| 0 <= i < more.len() ==> (#[trigger] more[i]).len() <= u32::MAX,
    ensures
        fields_joined(all_fields(list) + more) == requests_joined(list) + fields_joined(more),
        all_fields(list).len() == 3 * list.len(),
        forall|i: int|
            0 <= i < (all_fields(list) + more).len() ==> (#[trigger] (all_fields(list)
                + more)[i]).len() <= u32::MAX,
    decreases list.len(),
{
    if list.len() == 0 {
        assert(all_fields(list) + more =~= more);
        assert(requests_joined(list) + fields_joined(more) =~= fields_joined(more));
    } else {
        let rest = list.drop_first();
        let r = list.first();
        assert(request_fits(list[0]));
        assert(requests_fit(rest)) by {
            assert forall|i: int| 0 <= i < rest.len() implies request_fits(#[trigger] rest[i]) by {
                assert(request_fits(list[i + 1]));
            }
        }
        lemma_fields_of_requests(rest, more);
        let tail = all_fields(rest) + more;
        let all = all_fields(list) + more;
        assert(all =~= seq![r.filename, r.witness_hex, r.location] + tail);
        let one = all.drop_first();
        let two = one.drop_first();
        assert(two.drop_first() =~= tail);
        lemma_fields_front(all);
        lemma_fields_front(one);
        lemma_fields_front(two);
        lemma_regroup(
            scale_bytes(r.filename),
            scale_bytes(r.witness_hex),
            scale_bytes(r.location),
            requests_joined(rest),
            fields_joined(more),
        );
        assert forall|i: int| 0 <= i < all.len() implies (#[trigger] all[i]).len() <= u32::MAX by {
            if i >= 3 {
                assert(all[i] == tail[i - 3]);
            }
        }
    }
}

proof fn lemma_no_more_fields(a: Seq<Seq<u8>>, part: Seq<u8>, b: Seq<Seq<u8>>, rest: Seq<u8>)
    requires
        forall|i: int| 0 <= i < a.len() ==> (#[trigger] a[i]).len() <= u32::MAX,
        forall|i: int| 0 <= i < b.len() ==> (#[trigger] b[i]).len() <= u32::MAX,
        no_bytes_start(part),
        fields_joined(a) + part == fields_joined(b) + rest,
    ensures
        b.len() <= a.len(),
        a.len() == b.len() ==> part == rest,
    decreases b.len(),
{
    if b.len() == 0 {
        assert(fields_joined(b) + rest =~= rest);
        if a.len() == 0 {
            assert(fields_joined(a) + part =~= part);
        }
    } else {
        lemma_fields_front(b);
        let rest_b = fields_joined(b.drop_first()) + rest;
        assert(b[0].len() <= u32::MAX);
        assert(fields_joined(b) + rest =~= scale_bytes(b.first()) + rest_b);
        if a.len() == 0 {
            assert(fields_joined(a) + part =~= part);
            assert(part == scale_bytes(b.first()) + rest_b);
        } else {
            lemma_fields_front(a);
            let rest_a = fields_joined(a.drop_first()) + part;
            assert(a[0].len() <= u32::MAX);
            assert(fields_joined(a) + part =~= scale_bytes(a.first()) + rest_a);
            law_bytes_are_unambiguous(a.first(), rest_a, b.first(), rest_b);
            let a1 = a.drop_first();
            let b1 = b.drop_first();
            assert forall|i: int| 0 <= i < a1.len() implies (#[trigger] a1[i]).len()
                <= u32::MAX by {
                assert(a[i + 1].len() <= u32::MAX);
            }
            assert forall|i: int| 0 <= i < b1.len() implies (#[trigger] b1[i]).len()
                <= u32::MAX by {
                assert(b[i + 1].len() <= u32::MAX);
            }
            lemma_no_more_fields(a1, part, b1, rest);
        }
    }
}

/// A reply that starts with no length is refused with what the codec tells of it.
pub proof fn law_a_reply_without_a_length(
    data: Seq<u8>,
    requests: Result<Vec<DecryptionRequest>, PoolError>,
)
    requires
        no_length_starts(data),
        lists(requests, data),
    ensures
        requests is Err,
        requests->Err_0 is Undecodable,
        requests->Err_0->Undecodable_0@ == length_refusal(data),
{
    if let Ok(list) = requests {
        let views = request_views(list@);
        let tail = choose|tail: Seq<u8>| data == #[trigger] (requests_scale(views) + tail);
        let n = views.len() as u32;
        assert(data =~= compact(n as nat) + (requests_joined(views) + tail));
    }
}

/// A list that breaks off is refused: where its length promises more requests than follow, and
/// `part` is where the next field should start, with what the codec tells of `part`.
#[verifier::rlimit(40)]
pub proof fn law_a_list_that_breaks_off(
    len: u32,
    done: Seq<RequestView>,
    fields: Seq<Seq<u8>>,
    part: Seq<u8>,
    requests: Result<Vec<DecryptionRequest>, PoolError>,
)
    requires
        done.len() < len,
        requests_fit(done),
        fields.len() < 3,
        forall|i: int| 0 <= i < fields.len() ==> (#[trigger] fields[i]).len() <= u32::MAX,
        no_bytes_start(part),
        lists(
            requests,
            compact(len as nat) + (requests_joined(done) + (fields_joined(fields) + part)),
        ),
    ensures
        requests is Err,
        requests->Err_0 is Undecodable,
        requests->Err_0->Undecodable_0@ == bytes_refusal(part),
{
    let body = requests_joined(done) + (fields_joined(fields) + part);
    let data = compact(len as nat) + body;
    let here = all_fields(done) + fields;
    lemma_fields_of_requests(done, fields);
    assert(body =~= fields_joined(here) + part);
    match requests {
        Ok(list) => {
            let views = request_views(list@);
            let tail = choose|tail: Seq<u8>| data == #[trigger] (requests_scale(views) + tail);
            let there = all_fields(views) + Seq::<Seq<u8>>::empty();
            assert(data =~= compact(views.len()) + (requests_joined(views) + tail));
            law_compact_is_unambiguous(
                len as nat,
                body,
                views.len(),
                requests_joined(views) + tail,
            );
            lemma_fields_of_requests(views, Seq::empty());
            assert(fields_joined(there) =~= requests_joined(views));
            lemma_no_more_fields(here, part, there, tail);
        },
        Err(e) => {
            let text = e->Undecodable_0@;
            assert(data == compact(len as nat) + body);
            assert(!no_length_starts(data));
            let (len2, done2, rest2) = choose|
                len2: u32,
                done2: Seq<RequestView>,
                rest2: Seq<u8>,
            | #[trigger]
                list_stops(data, len2, done2, rest2) && request_refusal(rest2, text);
            let (fields2, part2) = choose|fields2: Seq<Seq<u8>>, part2: Seq<u8>| #[trigger]
                request_stops(rest2, fields2, part2) && text == bytes_refusal(part2);
            law_compact_is_unambiguous(
                len as nat,
                body,
                len2 as nat,
                requests_joined(done2) + rest2,
            );
            let there = all_fields(done2) + fields2;
            lemma_fields_of_requests(done2, fields2);
            assert(requests_joined(done2) + rest2 =~= fields_joined(there) + part2);
            lemma_no_more_fields(here, part, there, part2);
            lemma_no_more_fields(there, part2, here, part);
        },
    }
}

} // verus!
