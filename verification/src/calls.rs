//! What calls of the chain client give, in terms of what goes into them.

use vstd::prelude::*;
use vstd::utf8::{encode_utf8, valid_utf8};

use crate::backend::{
    strip_status, ContractBackend, ContractCall, ContractQuery, PolkadotSigner, SubstrateBackend,
};
use crate::bytes::{
    append, append_prefixed, append_u32_be, bytes_equal, copy_range, law_big_endian_bytes,
    lemma_u32_be_round_trip, length_u32, low_u32, read_u32_be, text_bytes, to_vec, u32_be,
};
use crate::contract::ink_pool::{DecryptionRequest, RequestView};
use crate::crypto::keys::{sr25519_accepts, sr25519_public_key};
use crate::crypto::keyvault::{KeyVaultError, Sr25519KeyVault};
use crate::gadget::{
    balance_query, law_decimal_minimum_is_stated, law_only_whole_keys_and_statements_are_asked_for,
    law_short_reply_is_an_error, law_the_balance_decides, law_what_is_no_statement, parses,
    statement_bytes, BalanceQuery, IntentError, Psp22Gadget,
};
use crate::hashing::blake2_256_digest;
use crate::message::{message_scale, PartialDecryptionMessage};
use crate::pool::{
    decode_requests, encode_request, law_client_reads_each_request, law_eight_bytes_tell_a_number,
    law_requests_follow_their_number, request_views, requests_fit, requests_joined, requests_scale,
    InkContractPool, PoolError,
};
use crate::scale::{
    append_u128_le, append_u32_le, law_compact_form, law_u128_round_trip, law_u32_round_trip,
    le_bytes, read_u128_le, read_u32_le, scale_bytes,
};
use crate::text::{
    decimal, decimal_text, is_space, law_decimal_spells_the_number, law_split_cuts_at_a_separator,
    law_split_is_never_empty, law_split_without_separator, law_trim_takes_the_space_around, number,
    parse_u128, split, split_at, trim, trimmed,
};
use crate::uint256::U256;

verus! {

/// A reply that brings a balance opens a file exactly where the balance is at least the minimum,
/// for all balances and minimums, whatever the status before it and whatever follows it.
pub proof fn law_enough_balance_opens<B: ContractBackend>(
    gadget: &Psp22Gadget<B>,
    minimum_balance: u128,
    balance: u128,
    status: u8,
    tail: Seq<u8>,
    reply: Vec<u8>,
    verdict: Result<bool, IntentError>,
)
    requires
        reply@ == seq![status] + le_bytes(balance as nat, 16) + tail,
        call_ensures(
            Psp22Gadget::<B>::verify_balance,
            (gadget, minimum_balance, Ok(Some(reply))),
            verdict,
        ),
    ensures
        call_requires(
            Psp22Gadget::<B>::verify_balance,
            (gadget, minimum_balance, Ok(Some(reply))),
        ),
        verdict is Ok,
        verdict->Ok_0 <==> balance >= minimum_balance,
{
    law_the_balance_decides(minimum_balance, status, balance, tail, verdict);
}

/// A reply that is too short decides nothing, and a refused query comes with its text.
pub proof fn law_without_a_balance_nothing_opens<B: ContractBackend>(
    gadget: &Psp22Gadget<B>,
    minimum_balance: u128,
    short: Vec<u8>,
    undecided: Result<bool, IntentError>,
    text: String,
    refused: Result<bool, IntentError>,
)
    requires
        short@.len() < 17,
        call_ensures(
            Psp22Gadget::<B>::verify_balance,
            (gadget, minimum_balance, Ok(Some(short))),
            undecided,
        ),
        call_ensures(
            Psp22Gadget::<B>::verify_balance,
            (gadget, minimum_balance, Err(text)),
            refused,
        ),
    ensures
        call_requires(
            Psp22Gadget::<B>::verify_balance,
            (gadget, minimum_balance, Ok(Some(short))),
        ),
        call_requires(Psp22Gadget::<B>::verify_balance, (gadget, minimum_balance, Err(text))),
        undecided is Err && undecided->Err_0 is VerificationError,
        undecided->Err_0->VerificationError_0@ == "Decode failed: Not enough data to fill buffer"@,
        refused is Err && refused->Err_0 is VerificationError,
        refused->Err_0->VerificationError_0@ == "Contract query failed: "@ + text@,
{
    law_short_reply_is_an_error(
        minimum_balance as nat,
        short@,
        undecided,
    );
}

/// What was stated is asked for: the minimum and the contract of a statement that was made from a
/// decimal text come back in the question, with the account that was given.
pub proof fn law_a_statement_is_asked_for(
    address: &[u8],
    minimum_balance: u128,
    text: &str,
    statement: Result<Vec<u8>, IntentError>,
    account: &[u8],
    stated: &[u8],
    query: Result<BalanceQuery, IntentError>,
)
    requires
        address@.len() == 32,
        account@.len() == 32,
        text@ == decimal(minimum_balance as nat),
        call_ensures(statement_bytes, (address, text), statement),
        statement is Ok ==> stated@ == statement->Ok_0@,
        call_ensures(balance_query, (account, stated), query),
    ensures
        statement is Ok,
        query is Ok,
        query->Ok_0.contract@ == address@,
        query->Ok_0.minimum_balance == minimum_balance,
        query->Ok_0.data@ == account@,
        query->Ok_0.method@ == "PSP22::balance_of"@,
{
    law_decimal_minimum_is_stated(address@, minimum_balance, statement);
    law_only_whole_keys_and_statements_are_asked_for(account@, stated@, query);
    let q = query->Ok_0;
    assert(q.contract@ =~= stated@.take(32)) by {
        assert(q.contract@.len() == 32);
    }
    assert(stated@.skip(32) =~= stated@.subrange(32, 48));
    law_u128_round_trip(minimum_balance);
    law_u128_round_trip(q.minimum_balance);
}

/// A witness of 32 bytes is the account itself, whatever `decode` would read; any other is read by
/// `decode`. The statement is taken as it is.
pub proof fn law_which_account_is_asked_for<B: ContractBackend, F: Fn(&str) -> Vec<u8>>(
    gadget: &Psp22Gadget<B>,
    decode: F,
    witness: &[u8],
    statement: &[u8],
    query: Result<BalanceQuery, IntentError>,
)
    requires
        call_ensures(
            Psp22Gadget::<B>::verify_witness::<F>,
            (gadget, decode, witness, statement),
            query,
        ),
    ensures
        (forall|text: &str| call_requires(decode, (text,))) && (witness@.len() == 32 || valid_utf8(
            witness@,
        )) ==> call_requires(
            Psp22Gadget::<B>::verify_witness::<F>,
            (gadget, decode, witness, statement),
        ),
        witness@.len() == 32 ==> (query is Ok <==> statement@.len() == 48),
        witness@.len() == 32 && query is Ok ==> query->Ok_0.data@ == witness@,
        query is Ok ==> le_bytes(query->Ok_0.minimum_balance as nat, 16) == statement@.skip(32),
        query is Err ==> query->Err_0 is VerificationError,
        query is Ok ==> query->Ok_0.contract@ == statement@.take(32),
        query is Ok ==> query->Ok_0.method@ == "PSP22::balance_of"@,
        witness@.len() != 32 && query is Ok ==> exists|text: &str, account: Vec<u8>|
            encode_utf8(text@) == witness@ && #[trigger] call_ensures(decode, (text,), account)
                && account@ == query->Ok_0.data@,
{
    if statement@.len() == 48 {
        assert(statement@.skip(32) =~= statement@.subrange(32, 48));
    }
    if witness@.len() == 32 {
        law_only_whole_keys_and_statements_are_asked_for(witness@, statement@, query);
    } else {
        let (text, account) = choose|text: &str, account: Vec<u8>|
            encode_utf8(text@) == witness@ && #[trigger] call_ensures(decode, (text,), account)
                && crate::gadget::asks_balance(query, account@, statement@);
        law_only_whole_keys_and_statements_are_asked_for(account@, statement@, query);
        if query is Ok {
            assert(call_ensures(decode, (text,), account) && account@ == query->Ok_0.data@);
        }
    }
}

/// A signer has the account of its seed, and signs with it: whoever holds the account's key
/// accepts the signature on the very payload.
pub proof fn law_a_signer_signs_for_its_account(
    vault: Sr25519KeyVault,
    seed: &[u8],
    signer: Result<PolkadotSigner, KeyVaultError>,
    account: [u8; 32],
    payload: &[u8],
    signature: Result<[u8; 64], KeyVaultError>,
)
    requires
        call_ensures(PolkadotSigner::new, (vault, seed), signer),
        signer is Ok,
        call_ensures(PolkadotSigner::account_id, (&signer->Ok_0,), account),
        call_ensures(PolkadotSigner::sign, (&signer->Ok_0, seed, payload), signature),
    ensures
        sr25519_public_key(seed@) == Some(account@),
        signature is Ok,
        sr25519_accepts(account@, payload@, signature->Ok_0@),
{
}

/// There is a signer exactly where the seed makes a key.
pub proof fn law_which_seeds_make_a_signer(
    vault: Sr25519KeyVault,
    seed: &[u8],
    signer: Result<PolkadotSigner, KeyVaultError>,
)
    requires
        call_ensures(PolkadotSigner::new, (vault, seed), signer),
    ensures
        signer is Ok <==> sr25519_public_key(seed@) is Some,
        signer is Err ==> signer->Err_0 is SecretString,
{
}

/// A chain is seen from the account that it was given, and so are its queries. A query and a
/// transaction go to the contract that is given and carry the hash of the method and all of the
/// data; neither moves value, and the transaction pays a fixed price.
pub proof fn law_what_goes_to_a_contract(
    signer: PolkadotSigner,
    account: [u8; 32],
    backend: SubstrateBackend,
    kept: &PolkadotSigner,
    contract: &[u8; 32],
    method: &str,
    data: &[u8],
    query: ContractQuery,
    bare: ContractQuery,
    call: ContractCall,
)
    requires
        call_ensures(PolkadotSigner::account_id, (&signer,), account),
        call_ensures(SubstrateBackend::new, (signer,), backend),
        call_ensures(SubstrateBackend::signer, (&backend,), kept),
        call_ensures(SubstrateBackend::read, (&backend, contract, method, Some(data)), query),
        call_ensures(SubstrateBackend::read, (&backend, contract, method, None), bare),
        call_ensures(SubstrateBackend::write, (&backend, contract, method, data), call),
    ensures
        *kept == signer,
        query.origin@ == account@,
        query.dest@ == contract@,
        query.value == 0,
        query.input_data@ == blake2_256_digest(encode_utf8(method@)).take(4) + data@,
        bare.origin@ == account@,
        bare.dest@ == contract@,
        bare.value == 0,
        bare.input_data@ == blake2_256_digest(encode_utf8(method@)).take(4),
        call.dest@ == contract@,
        call.value == 0,
        call.ref_time == 10_000_000_000,
        call.proof_size == 500_000,
        call.data@ == blake2_256_digest(encode_utf8(method@)).take(4) + data@,
{
    let selector = blake2_256_digest(encode_utf8(method@)).take(4);
    assert(selector + Seq::<u8>::empty() =~= selector);
}

/// What a contract replies comes back whole, and a refusal with its text; the number of the next
/// transaction is kept up to where 32 bits end.
pub proof fn law_what_a_chain_replies(
    backend: &SubstrateBackend,
    data: Vec<u8>,
    reply: Result<Option<Vec<u8>>, String>,
    text: String,
    refusal: Result<Option<Vec<u8>>, String>,
    nonce: u64,
    capped: u32,
)
    requires
        call_ensures(SubstrateBackend::read_reply, (backend, Ok(data)), reply),
        call_ensures(SubstrateBackend::read_reply, (backend, Err(text)), refusal),
        call_ensures(SubstrateBackend::nonce, (backend, nonce), capped),
    ensures
        reply is Ok && reply->Ok_0 is Some && reply->Ok_0->Some_0@ == data@,
        refusal is Err && refusal->Err_0@ == "Contract query failed: "@ + text@,
        nonce < 0x1_0000_0000 ==> capped == nonce,
        nonce >= 0x1_0000_0000 ==> capped == u32::MAX,
{
}

/// The status of a reply is its first byte, and all others are left.
pub proof fn law_what_follows_the_status(status: u8, data: Seq<u8>, reply: &[u8], rest: Vec<u8>)
    requires
        reply@ == seq![status] + data,
        call_ensures(strip_status, (reply,), rest),
    ensures
        rest@ == data,
{
    assert(rest@ =~= data);
}

/// The transactions of the pool's client: a request goes out with its three fields, an attestation
/// with the request's identifier before it, each whole and behind its length, and each to the
/// contract whose address the text spells.
pub proof fn law_what_the_pool_is_told<F: Fn(&str) -> [u8; 32]>(
    pool: &InkContractPool,
    decode: F,
    req: &DecryptionRequest,
    added: ContractCall,
    id: &[u8],
    attestation: &[u8],
    attested: ContractCall,
)
    requires
        call_ensures(InkContractPool::add::<F>, (pool, decode, req), added),
        call_ensures(
            InkContractPool::submit_partial_attestation::<F>,
            (pool, decode, id, attestation),
            attested,
        ),
    ensures
        (forall|text: &str| call_requires(decode, (text,))) && req.filename.0@.len() <= u32::MAX
            && req.witness_hex.0@.len() <= u32::MAX && req.location.0@.len() <= u32::MAX
            ==> call_requires(InkContractPool::add::<F>, (pool, decode, req)),
        (forall|text: &str| call_requires(decode, (text,))) && id@.len() <= u32::MAX
            && attestation@.len() <= u32::MAX ==> call_requires(
            InkContractPool::submit_partial_attestation::<F>,
            (pool, decode, id, attestation),
        ),
        added.data@ == blake2_256_digest(encode_utf8("add"@)).take(4) + (scale_bytes(
            req.filename.0@,
        ) + scale_bytes(req.witness_hex.0@) + scale_bytes(req.location.0@)),
        added.value == 0 && added.ref_time == 10_000_000_000 && added.proof_size == 500_000,
        exists|text: &str|
            text@ == pool.address() && #[trigger] call_ensures(decode, (text,), added.dest),
        attested.data@ == blake2_256_digest(encode_utf8("submit_partial_decryption"@)).take(4) + (
        scale_bytes(id@) + scale_bytes(attestation@)),
        attested.value == 0 && attested.ref_time == 10_000_000_000 && attested.proof_size
            == 500_000,
        exists|text: &str|
            text@ == pool.address() && #[trigger] call_ensures(decode, (text,), attested.dest),
{
}

/// The queries of the pool's client: each asks for its method and brings no arguments, and goes to
/// the contract whose address the text spells.
pub proof fn law_what_the_pool_is_asked<F: Fn(&str) -> [u8; 32]>(
    pool: &InkContractPool,
    decode: F,
    all: ContractQuery,
    count: ContractQuery,
)
    requires
        call_ensures(InkContractPool::read_all::<F>, (pool, decode), all),
        call_ensures(InkContractPool::count::<F>, (pool, decode), count),
    ensures
        all.input_data@ == blake2_256_digest(encode_utf8("read_all"@)).take(4),
        count.input_data@ == blake2_256_digest(encode_utf8("count"@)).take(4),
        all.value == 0 && count.value == 0,
        all.origin@ == pool.chain().signed_by().account(),
        count.origin@ == pool.chain().signed_by().account(),
        exists|text: &str|
            text@ == pool.address() && #[trigger] call_ensures(decode, (text,), all.dest),
        exists|text: &str|
            text@ == pool.address() && #[trigger] call_ensures(decode, (text,), count.dest),
{
    let empty = Seq::<u8>::empty();
    let one = blake2_256_digest(encode_utf8("read_all"@)).take(4);
    let other = blake2_256_digest(encode_utf8("count"@)).take(4);
    assert(one + empty =~= one);
    assert(other + empty =~= other);
}

/// Each request of a reply is read whole and in its place, whatever the status before the list and
/// whatever follows it; a refusal is handed on.
pub proof fn law_what_the_pool_lists(
    pool: &InkContractPool,
    list: Seq<RequestView>,
    status: u8,
    tail: Seq<u8>,
    reply: Vec<u8>,
    requests: Result<Vec<DecryptionRequest>, PoolError>,
    text: String,
    refused: Result<Vec<DecryptionRequest>, PoolError>,
    i: int,
)
    requires
        requests_fit(list),
        reply@ == seq![status] + (requests_scale(list) + tail),
        call_ensures(InkContractPool::read_all_reply, (pool, Ok(Some(reply))), requests),
        call_ensures(InkContractPool::read_all_reply, (pool, Err(text)), refused),
    ensures
        call_requires(InkContractPool::read_all_reply, (pool, Ok(Some(reply)))),
        call_requires(InkContractPool::read_all_reply, (pool, Err(text))),
        requests is Ok,
        requests->Ok_0@.len() == list.len(),
        0 <= i < list.len() ==> {
            &&& requests->Ok_0@[i].filename.0@ == list[i].filename
            &&& requests->Ok_0@[i].witness_hex.0@ == list[i].witness_hex
            &&& requests->Ok_0@[i].location.0@ == list[i].location
        },
        refused is Err && refused->Err_0 is Backend && refused->Err_0->Backend_0@ == text@,
{
    law_client_reads_each_request(list, status, tail, requests, i);
}

/// The number in a reply is read as it is, whatever the status before it and whatever follows it;
/// a refusal is handed on.
pub proof fn law_what_the_pool_counts(
    pool: &InkContractPool,
    count: u64,
    status: u8,
    tail: Seq<u8>,
    reply: Vec<u8>,
    read: Result<usize, PoolError>,
    text: String,
    refused: Result<usize, PoolError>,
)
    requires
        reply@ == seq![status] + (le_bytes(count as nat, 8) + tail),
        call_ensures(InkContractPool::count_reply, (pool, Ok(Some(reply))), read),
        call_ensures(InkContractPool::count_reply, (pool, Err(text)), refused),
    ensures
        call_requires(InkContractPool::count_reply, (pool, Ok(Some(reply)))),
        call_requires(InkContractPool::count_reply, (pool, Err(text))),
        read is Ok,
        count <= usize::MAX ==> read->Ok_0 == count,
        refused is Err && refused->Err_0 is Backend && refused->Err_0->Backend_0@ == text@,
{
    law_eight_bytes_tell_a_number(count, status, tail, read);
}

/// A message that was encoded decodes to its own fields, whatever follows it; every index and all
/// fields of up to `u32::MAX` bytes can be encoded.
pub proof fn law_a_message_comes_back(
    message: &PartialDecryptionMessage,
    encoded: Vec<u8>,
    tail: Seq<u8>,
    bytes: &[u8],
    decoded: Option<PartialDecryptionMessage>,
)
    requires
        message.filename@.len() <= u32::MAX,
        message.partial_decryption_bytes@.len() <= u32::MAX,
        call_ensures(PartialDecryptionMessage::encode, (message,), encoded),
        bytes@ == encoded@ + tail,
        call_ensures(PartialDecryptionMessage::decode, (bytes,), decoded),
    ensures
        call_requires(PartialDecryptionMessage::encode, (message,)),
        encoded@ == scale_bytes(message.filename@) + le_bytes(message.index as nat, 4)
            + scale_bytes(message.partial_decryption_bytes@),
        decoded is Some,
        decoded->Some_0.filename@ == message.filename@,
        decoded->Some_0.index == message.index,
        decoded->Some_0.partial_decryption_bytes@ == message.partial_decryption_bytes@,
{
    assert(bytes@ == message_scale(message@) + tail);
}

/// Numbers that were appended are read back, and so is what stood before them.
pub proof fn law_numbers_come_back(
    n: u32,
    small: &mut Vec<u8>,
    small_done: (),
    tail: &[u8],
    read: u32,
    m: u128,
    large: &mut Vec<u8>,
    large_done: (),
    wide_tail: &[u8],
    wide: u128,
)
    requires
        call_ensures(append_u32_le, (small, n), small_done),
        tail@ == final(small)@.skip(old(small)@.len() as int),
        call_ensures(read_u32_le, (tail,), read),
        call_ensures(append_u128_le, (large, m), large_done),
        wide_tail@ == final(large)@.skip(old(large)@.len() as int),
        call_ensures(read_u128_le, (wide_tail,), wide),
    ensures
        final(small)@.take(old(small)@.len() as int) == old(small)@,
        final(small)@.len() == old(small)@.len() + 4,
        read == n,
        final(large)@.take(old(large)@.len() as int) == old(large)@,
        final(large)@.len() == old(large)@.len() + 16,
        wide == m,
{
    law_u32_round_trip(n);
    law_u128_round_trip(m);
    assert(final(small)@.take(old(small)@.len() as int) =~= old(small)@);
    assert(tail@.take(4) =~= le_bytes(n as nat, 4));
    assert(final(large)@.take(old(large)@.len() as int) =~= old(large)@);
    assert(wide_tail@.take(16) =~= le_bytes(m as nat, 16));
}

/// White space around a text is taken away, and the text comes back whole.
pub proof fn law_what_is_trimmed(
    before: Seq<char>,
    text: Seq<char>,
    after: Seq<char>,
    given: &str,
    rest: &str,
)
    requires
        forall|i: int| 0 <= i < before.len() ==> is_space(#[trigger] before[i]),
        forall|i: int| 0 <= i < after.len() ==> is_space(#[trigger] after[i]),
        text.len() > 0 ==> !is_space(text.first()) && !is_space(text.last()),
        given@ == before + text + after,
        call_ensures(trim, (given,), rest),
    ensures
        rest@ == text,
{
    law_trim_takes_the_space_around(before, text, after);
}

/// Two parts around one separator come back whole.
pub proof fn law_what_is_split(
    first: Seq<char>,
    second: Seq<char>,
    separator: char,
    given: &str,
    parts: Vec<&str>,
)
    requires
        !first.contains(separator),
        !second.contains(separator),
        given@ == first.push(separator) + second,
        call_ensures(split, (given, separator), parts),
    ensures
        parts@.len() == 2,
        parts@[0]@ == first,
        parts@[1]@ == second,
{
    law_split_cuts_at_a_separator(first, second, separator);
    law_split_without_separator(first, separator);
    law_split_without_separator(second, separator);
    let texts = split_at(given@, separator);
    assert(texts =~= seq![first, second]);
    assert(parts@.len() == texts.len());
    assert(texts[0] == parts@[0]@);
    assert(texts[1] == parts@[1]@);
}

/// A number that is written in decimal is read back.
pub proof fn law_decimals_come_back(n: u64, text: String, given: &str, read: Option<u128>)
    requires
        call_ensures(decimal_text, (n,), text),
        given@ == text@,
        call_ensures(parse_u128, (given,), read),
    ensures
        read == Some(n as u128),
{
    law_decimal_spells_the_number(n as nat);
}

/// Byte strings are copied whole, compared whole, and counted.
pub proof fn law_byte_strings_are_copied(
    s: &[u8],
    t: &[u8],
    copy: Vec<u8>,
    from: usize,
    to: usize,
    part: Vec<u8>,
    buf: &mut Vec<u8>,
    done: (),
    same: bool,
    length: u32,
)
    requires
        from <= to <= s@.len(),
        s@.len() <= u32::MAX,
        call_ensures(to_vec, (s,), copy),
        call_ensures(copy_range, (s, from, to), part),
        call_ensures(append, (buf, s), done),
        call_ensures(bytes_equal, (s, t), same),
        call_ensures(length_u32, (s,), length),
    ensures
        copy@ == s@,
        part@.len() == to - from,
        forall|i: int| 0 <= i < to - from ==> #[trigger] part@[i] == s@[from + i],
        final(buf)@.len() == old(buf)@.len() + s@.len(),
        final(buf)@.take(old(buf)@.len() as int) == old(buf)@,
        final(buf)@.skip(old(buf)@.len() as int) == s@,
        same <==> s@.len() == t@.len() && forall|i: int|
            0 <= i < s@.len() ==> #[trigger] s@[i] == t@[i],
        length == s@.len(),
{
    assert(final(buf)@.take(old(buf)@.len() as int) =~= old(buf)@);
    assert(final(buf)@.skip(old(buf)@.len() as int) =~= s@);
    if s@.len() == t@.len() && forall|i: int| 0 <= i < s@.len() ==> #[trigger] s@[i] == t@[i] {
        assert(s@ =~= t@);
    }
}

/// A field is appended behind its length, which is read back.
pub proof fn law_fields_come_back(
    field: &[u8],
    buf: &mut Vec<u8>,
    done: (),
    data: &[u8],
    at: usize,
    length: u32,
)
    requires
        field@.len() <= u32::MAX,
        call_ensures(append_prefixed, (buf, field), done),
        data@ == final(buf)@,
        at == old(buf)@.len(),
        call_ensures(read_u32_be, (data, at), length),
    ensures
        length == field@.len(),
        data@.len() == at + 4 + field@.len(),
        data@.take(at as int) == old(buf)@,
        data@.skip(at + 4) == field@,
{
    lemma_u32_be_round_trip(low_u32(field@.len()));
    assert(data@.subrange(at as int, at + 4) =~= u32_be(low_u32(field@.len())));
    assert(data@.take(at as int) =~= old(buf)@);
    assert(data@.skip(at + 4) =~= field@);
}

/// Sums and differences undo each other, and order and equality are those of the numbers.
#[verifier::rlimit(40)]
pub proof fn law_wide_numbers(
    a: U256,
    b: U256,
    sum: U256,
    back: U256,
    less: bool,
    equal: bool,
    difference: U256,
    n: u128,
    wide: U256,
    zero: U256,
    max: U256,
)
    requires
        call_ensures(U256::wrapping_add, (a, b), sum),
        b@ <= sum@ ==> call_ensures(U256::minus, (sum, b), back),
        call_ensures(U256::less_than, (a, b), less),
        call_ensures(U256::equals, (a, b), equal),
        b@ <= a@ ==> call_ensures(U256::minus, (a, b), difference),
        call_ensures(U256::from_u128, (n,), wide),
        call_ensures(U256::zero, (), zero),
        call_ensures(U256::max, (), max),
    ensures
        ({
            let half = 0x1_0000_0000_0000_0000_0000_0000_0000_0000nat;
            &&& a@ + b@ < half * half ==> sum@ == a@ + b@ && back.hi == a.hi && back.lo == a.lo
            &&& a@ + b@ >= half * half ==> sum@ == a@ + b@ - half * half
            &&& b@ <= a@ ==> difference@ + b@ == a@
            &&& b@ <= a@ ==> call_requires(U256::minus, (a, b))
            &&& less <==> a.hi < b.hi || (a.hi == b.hi && a.lo < b.lo)
            &&& equal <==> a.hi == b.hi && a.lo == b.lo
            &&& wide.hi == 0 && wide.lo == n
            &&& zero.hi == 0 && zero.lo == 0
            &&& max.hi == u128::MAX && max.lo == u128::MAX
        }),
{
}

/// An intent is two parts around one comma: an address that `decode` reads, and a number below
/// 2^128, each with white space around it or not. It is stated as the address and the number.
#[verifier::rlimit(40)]
pub proof fn law_what_an_intent_states<B: ContractBackend, F: Fn(&str) -> Vec<u8>>(
    gadget: &Psp22Gadget<B>,
    decode: F,
    first: Seq<char>,
    second: Seq<char>,
    data: &str,
    statement: Result<Vec<u8>, IntentError>,
)
    requires
        !first.contains(','),
        !second.contains(','),
        data@ == first.push(',') + second,
        call_ensures(Psp22Gadget::<B>::parse_intent_data::<F>, (gadget, decode, data), statement),
    ensures
        (forall|text: &str| call_requires(decode, (text,))) ==> call_requires(
            Psp22Gadget::<B>::parse_intent_data::<F>,
            (gadget, decode, data),
        ),
        exists|text: &str, address: Vec<u8>|
            {
                &&& text@ == trimmed(first)
                &&& #[trigger] call_ensures(decode, (text,), address)
                &&& statement is Ok <==> address@.len() == 32 && (number(trimmed(second)) matches Some(
                    n,
                ) && n <= u128::MAX)
                &&& statement is Ok ==> statement->Ok_0@ == address@ + le_bytes(
                    number(trimmed(second))->Some_0,
                    16,
                )
                &&& statement is Err ==> statement->Err_0 is ParseError
                    && statement->Err_0->ParseError_0@ == (if address@.len() != 32 {
                    "Address must be 32 bytes"@
                } else {
                    "Minimum balance must be a valid u128."@
                })
            },
{
    law_split_cuts_at_a_separator(first, second, ',');
    law_split_without_separator(first, ',');
    law_split_without_separator(second, ',');
    let parts = split_at(data@, ',');
    assert(parts =~= seq![first, second]);
    let (text, address) = choose|text: &str, address: Vec<u8>|
        text@ == trimmed(parts[0]) && #[trigger] call_ensures(decode, (text,), address) && parses(
            statement,
            address@,
            trimmed(parts[1]),
        );
    law_what_is_no_statement(address@, trimmed(second), statement);
    assert(call_ensures(decode, (text,), address));
}

/// An intent without a comma, and one with two commas or more, is not understood.
pub proof fn law_what_is_no_intent<B: ContractBackend, F: Fn(&str) -> Vec<u8>>(
    gadget: &Psp22Gadget<B>,
    decode: F,
    data: &str,
    statement: Result<Vec<u8>, IntentError>,
    first: Seq<char>,
    second: Seq<char>,
    third: Seq<char>,
)
    requires
        !data@.contains(',') || data@ == (first.push(',') + second).push(',') + third,
        call_ensures(Psp22Gadget::<B>::parse_intent_data::<F>, (gadget, decode, data), statement),
    ensures
        statement is Err && statement->Err_0 is ParseError,
        statement->Err_0->ParseError_0@ == "PSP22 format: contract_address,minimum_balance"@,
{
    if !data@.contains(',') {
        law_split_without_separator(data@, ',');
    } else {
        law_split_cuts_at_a_separator(first.push(',') + second, third, ',');
        law_split_cuts_at_a_separator(first, second, ',');
        law_split_is_never_empty(first, ',');
        law_split_is_never_empty(second, ',');
        law_split_is_never_empty(third, ',');
    }
}

/// The gadget asks on the chain that it was given, and answers to one name.
pub proof fn law_what_a_gadget_is<B: ContractBackend>(
    backend: std::sync::Arc<B>,
    gadget: Psp22Gadget<B>,
    kept: &B,
    name: &'static str,
)
    requires
        call_ensures(Psp22Gadget::<B>::new, (backend,), gadget),
        call_ensures(Psp22Gadget::<B>::backend, (&gadget,), kept),
        call_ensures(Psp22Gadget::<B>::intent_type_id, (&gadget,), name),
    ensures
        *kept == *backend,
        name@ == "Psp22"@,
{
}

/// A list of one request that was encoded reads back, whatever follows it.
pub proof fn law_a_request_comes_back(
    request: &DecryptionRequest,
    encoded: Vec<u8>,
    tail: Seq<u8>,
    data: &[u8],
    decoded: Result<Vec<DecryptionRequest>, String>,
)
    requires
        request.filename.0@.len() <= u32::MAX,
        request.witness_hex.0@.len() <= u32::MAX,
        request.location.0@.len() <= u32::MAX,
        call_ensures(encode_request, (request,), encoded),
        data@ == seq![4u8] + encoded@ + tail,
        call_ensures(decode_requests, (data,), decoded),
    ensures
        call_requires(encode_request, (request,)),
        encoded@ == scale_bytes(request.filename.0@) + scale_bytes(request.witness_hex.0@)
            + scale_bytes(request.location.0@),
        decoded is Ok,
        decoded->Ok_0@.len() == 1,
        decoded->Ok_0@[0].filename.0@ == request.filename.0@,
        decoded->Ok_0@[0].witness_hex.0@ == request.witness_hex.0@,
        decoded->Ok_0@[0].location.0@ == request.location.0@,
{
    let list = seq![request@];
    law_compact_form(1);
    law_requests_follow_their_number(Seq::empty(), request@);
    assert(Seq::<RequestView>::empty().push(request@) =~= list);
    assert(requests_joined(list) =~= encoded@);
    assert(requests_scale(list) =~= seq![4u8] + encoded@);
    assert(requests_fit(list));
    assert(data@ == requests_scale(list) + tail);
    let views = request_views(decoded->Ok_0@);
    assert(views.len() == decoded->Ok_0@.len());
    assert(views[0] == decoded->Ok_0@[0]@);
}

/// Texts go out as their UTF-8 bytes, and numbers with their most significant byte first.
pub proof fn law_texts_and_numbers_go_out(
    text: &str,
    bytes: Vec<u8>,
    n: u32,
    buf: &mut Vec<u8>,
    done: (),
)
    requires
        call_ensures(text_bytes, (text,), bytes),
        call_ensures(append_u32_be, (buf, n), done),
    ensures
        bytes@ == encode_utf8(text@),
        final(buf)@.len() == old(buf)@.len() + 4,
        final(buf)@.take(old(buf)@.len() as int) == old(buf)@,
        ({
            let b = final(buf)@.skip(old(buf)@.len() as int);
            n == b[0] * 0x100_0000 + b[1] * 0x1_0000 + b[2] * 0x100 + b[3]
        }),
{
    law_big_endian_bytes(n);
    assert(final(buf)@.take(old(buf)@.len() as int) =~= old(buf)@);
    assert(final(buf)@.skip(old(buf)@.len() as int) =~= u32_be(n));
}

} // verus!
