//! The gadget that lets those decrypt who hold enough of a token.
//!
//! An intent names a PSP22 token contract and the least balance that opens a file. A witness is
//! the account whose balance is asked for: its public key of 32 bytes, or a text for that key.

use std::sync::Arc;

use vstd::prelude::*;
use vstd::string::StringExecFns;
use vstd::utf8::{encode_utf8, valid_utf8};

use crate::backend::{strip_status, without_status, ContractBackend};
use crate::bytes::{copy_range, to_vec};
use crate::scale::{
    append_u128_le, decode_u128, law_le_value_reads_back, law_u128_round_trip, le_bytes, le_value,
    read_u128_le,
};
use crate::text::{
    decimal, law_decimal_spells_the_number, number, parse_u128, split, split_at, trim, trimmed,
    utf8_text,
};

verus! {

/// Why an intent is not met, or not understood.
#[derive(Debug)]
pub enum IntentError {
    VerificationError(String),
    ParseError(String),
}

impl IntentError {
    /// Whether verification failed with this text.
    pub open spec fn is_verification(self, text: Seq<char>) -> bool {
        self matches IntentError::VerificationError(told) && told@ == text
    }

    /// Whether parsing failed with this text.
    pub open spec fn is_parse(self, text: Seq<char>) -> bool {
        self matches IntentError::ParseError(told) && told@ == text
    }
}

/// The gadget for token balances.
pub struct Psp22Gadget<B> {
    backend: Arc<B>,
}

/// A question for a token contract, and the least balance that will do.
#[derive(Debug)]
pub struct BalanceQuery {
    pub contract: [u8; 32],
    pub method: String,
    pub data: Vec<u8>,
    pub minimum_balance: u128,
}

/// What an intent says: the contract's address, then the least balance in sixteen bytes.
pub open spec fn statement_of(address: Seq<u8>, minimum_balance: nat) -> Seq<u8> {
    address + le_bytes(minimum_balance, 16)
}

/// Whether this is what becomes of an account and a statement: a question for the balance of
/// the account, if both have the right length.
pub open spec fn asks_balance(
    query: Result<BalanceQuery, IntentError>,
    account: Seq<u8>,
    statement: Seq<u8>,
) -> bool {
    match query {
        Ok(q) => {
            &&& account.len() == 32
            &&& statement.len() == 48
            &&& q.contract@ == statement.take(32)
            &&& q.method@ == "PSP22::balance_of"@
            &&& q.data@ == account
            &&& q.minimum_balance as nat == le_value(statement.skip(32))
        },
        Err(e) => if account.len() != 32 {
            e.is_verification("Witness must be 32-byte account ID"@)
        } else {
            statement.len() != 48 && e.is_verification(
                "Statement must be 48 bytes (32 addr + 16 balance)"@,
            )
        },
    }
}

/// Whether this is what a token contract's answer means: the balance behind the status decides.
pub open spec fn decides(verdict: Result<bool, IntentError>, minimum_balance: nat, data: Seq<u8>) -> bool {
    if data.len() >= 16 {
        verdict == Ok::<bool, IntentError>(le_value(data.take(16)) >= minimum_balance)
    } else {
        verdict matches Err(e) && e.is_verification(
            "Decode failed: "@ + "Not enough data to fill buffer"@,
        )
    }
}

/// Whether this is what becomes of the parts of an intent, where the first was read as
/// `address`.
pub open spec fn parses(
    statement: Result<Vec<u8>, IntentError>,
    address: Seq<u8>,
    balance: Seq<char>,
) -> bool {
    match statement {
        Ok(s) => address.len() == 32 && number(balance) is Some && number(balance).unwrap()
            <= u128::MAX && s@ == statement_of(address, number(balance).unwrap()),
        Err(e) => if address.len() != 32 {
            e.is_parse("Address must be 32 bytes"@)
        } else {
            (number(balance) is None || number(balance).unwrap() > u128::MAX) && e.is_parse(
                "Minimum balance must be a valid u128."@,
            )
        },
    }
}

impl<B: ContractBackend> Psp22Gadget<B> {
    /// The chain on which balances are asked for.
    pub closed spec fn chain(self) -> B {
        *self.backend
    }

    /// The gadget on a chain.
    pub fn new(backend: Arc<B>) -> (gadget: Self)
        ensures
            gadget.chain() == *backend,
    {
        Psp22Gadget { backend }
    }

    /// The chain on which balances are asked for.
    pub fn backend(&self) -> (backend: &B)
        ensures
            *backend == self.chain(),
    {
        &self.backend
    }

    /// The name under which intents ask for this gadget.
    pub fn intent_type_id(&self) -> (id: &'static str)
        ensures
            id@ == "Psp22"@,
    {
        "Psp22"
    }

    /// The question that decides whether the witness meets the statement. A witness of 32 bytes
    /// is the account itself; any other is a text, in which `decode` reads the account.
    pub fn verify_witness<F: Fn(&str) -> Vec<u8>>(
        &self,
        decode: F,
        witness: &[u8],
        statement: &[u8],
    ) -> (query: Result<BalanceQuery, IntentError>)
        requires
            witness@.len() != 32 ==> valid_utf8(witness@),
            forall|text: &str| call_requires(decode, (text,)),
        ensures
            witness@.len() == 32 ==> asks_balance(query, witness@, statement@),
            witness@.len() != 32 ==> exists|text: &str, account: Vec<u8>|
                encode_utf8(text@) == witness@ && #[trigger] call_ensures(decode, (text,), account)
                    && asks_balance(query, account@, statement@),
    {
        if witness.len() == 32 {
            return balance_query(witness, statement);
        }
        let text = utf8_text(witness);
        let text = text.as_str();
        let account = decode(text);
        let query = balance_query(account.as_slice(), statement);
        assert(call_ensures(decode, (text,), account));
        query
    }

    /// What the reply to the question decides.
    pub fn verify_balance(&self, minimum_balance: u128, reply: Result<Option<Vec<u8>>, String>) -> (
    verdict: Result<bool, IntentError>)
        requires
            reply !== Ok(None),
        ensures
            match reply {
                Ok(data) => decides(
                    verdict,
                    minimum_balance as nat,
                    without_status(data.unwrap()@),
                ),
                Err(text) => verdict matches Err(e) && e.is_verification(
                    "Contract query failed: "@ + text@,
                ),
            },
    {
        match reply {
            Ok(Some(data)) => match decode_u128(strip_status(data.as_slice()).as_slice()) {
                Ok(balance) => Ok(balance >= minimum_balance),
                Err(text) => Err(prefixed_error("Decode failed: ", text.as_str())),
            },
            Ok(None) => Ok(false),
            Err(text) => Err(prefixed_error("Contract query failed: ", text.as_str())),
        }
    }

    /// The statement of an intent that is given as a contract's address and a least balance,
    /// apart by a comma. `decode` reads the address.
    pub fn parse_intent_data<F: Fn(&str) -> Vec<u8>>(&self, decode: F, data: &str) -> (statement:
        Result<Vec<u8>, IntentError>)
        requires
            forall|text: &str| call_requires(decode, (text,)),
        ensures
            split_at(data@, ',').len() != 2 ==> (statement matches Err(e) && e.is_parse(
                "PSP22 format: contract_address,minimum_balance"@,
            )),
            split_at(data@, ',').len() == 2 ==> exists|text: &str, address: Vec<u8>|
                text@ == trimmed(split_at(data@, ',')[0]) && #[trigger] call_ensures(
                    decode,
                    (text,),
                    address,
                ) && parses(statement, address@, trimmed(split_at(data@, ',')[1])),
    {
        let parts = split(data, ',');
        assert(parts@.len() == split_at(data@, ',').len());
        if parts.len() != 2 {
            return Err(
                IntentError::ParseError("PSP22 format: contract_address,minimum_balance".to_owned()),
            );
        }
        proof {
            let view = |part: &str| part@;
            assert(parts@.map_values(view)[0] == parts@[0]@);
            assert(parts@.map_values(view)[1] == parts@[1]@);
        }
        let text = trim(parts[0]);
        let address = decode(text);
        let statement = statement_bytes(address.as_slice(), trim(parts[1]));
        assert(call_ensures(decode, (text,), address));
        statement
    }
}

fn prefixed_error(prefix: &str, text: &str) -> (e: IntentError)
    ensures
        e.is_verification(prefix@ + text@),
{
    let mut told = prefix.to_owned();
    told.append(text);
    IntentError::VerificationError(told)
}

/// The question for the balance of an account.
pub fn balance_query(account: &[u8], statement: &[u8]) -> (query: Result<BalanceQuery, IntentError>)
    ensures
        asks_balance(query, account@, statement@),
{
    if account.len() != 32 {
        return Err(IntentError::VerificationError("Witness must be 32-byte account ID".to_owned()));
    }
    if statement.len() != 48 {
        return Err(
            IntentError::VerificationError(
                "Statement must be 48 bytes (32 addr + 16 balance)".to_owned(),
            ),
        );
    }
    let mut contract: [u8; 32] = [0u8; 32];
    let mut i: usize = 0;
    while i < 32
        invariant
            i <= 32,
            statement@.len() == 48,
            forall|j: int| 0 <= j < i ==> contract@[j] == statement@[j],
        decreases 32 - i,
    {
        contract[i] = statement[i];
        i = i + 1;
    }
    assert(contract@ =~= statement@.take(32));
    let balance = copy_range(statement, 32, 48);
    assert(balance@.take(16) =~= statement@.skip(32));
    Ok(
        BalanceQuery {
            contract,
            method: "PSP22::balance_of".to_owned(),
            data: to_vec(account),
            minimum_balance: read_u128_le(balance.as_slice()),
        },
    )
}

/// The statement for a contract's address and the text of a least balance.
pub fn statement_bytes(address: &[u8], balance: &str) -> (statement: Result<Vec<u8>, IntentError>)
    ensures
        parses(statement, address@, balance@),
{
    if address.len() != 32 {
        return Err(IntentError::ParseError("Address must be 32 bytes".to_owned()));
    }
    match parse_u128(balance) {
        Some(minimum_balance) => {
            let mut statement = to_vec(address);
            append_u128_le(&mut statement, minimum_balance);
            Ok(statement)
        },
        None => Err(
            IntentError::ParseError("Minimum balance must be a valid u128.".to_owned()),
        ),
    }
}

/// The contract and the least balance that went into a statement are asked for when a witness
/// is verified.
pub proof fn law_statement_reads_back(
    address: Seq<u8>,
    minimum_balance: u128,
    account: Seq<u8>,
    query: Result<BalanceQuery, IntentError>,
)
    requires
        address.len() == 32,
        account.len() == 32,
        asks_balance(query, account, statement_of(address, minimum_balance as nat)),
    ensures
        query matches Ok(q) && q.contract@ == address && q.minimum_balance == minimum_balance
            && q.data@ == account,
{
    let statement = statement_of(address, minimum_balance as nat);
    law_u128_round_trip(minimum_balance);
    assert(statement.take(32) =~= address);
    assert(statement.skip(32) =~= le_bytes(minimum_balance as nat, 16));
}

/// A reply that brings a balance opens a file exactly where the balance is at least the minimum,
/// whatever the status before it, whatever follows it, and however far the two are apart.
pub proof fn law_the_balance_decides(
    minimum_balance: u128,
    status: u8,
    balance: u128,
    tail: Seq<u8>,
    verdict: Result<bool, IntentError>,
)
    requires
        decides(
            verdict,
            minimum_balance as nat,
            without_status(seq![status] + le_bytes(balance as nat, 16) + tail),
        ),
    ensures
        verdict is Ok,
        balance >= minimum_balance ==> verdict->Ok_0,
        balance < minimum_balance ==> !verdict->Ok_0,
{
    law_u128_round_trip(balance);
    let data = without_status(seq![status] + le_bytes(balance as nat, 16) + tail);
    assert(data =~= le_bytes(balance as nat, 16) + tail);
    assert(data.take(16) =~= le_bytes(balance as nat, 16));
}

/// Whoever is let in with some balance is let in with a larger one too, and whoever is let in
/// under some minimum is let in under a smaller one too.
pub proof fn law_more_balance_never_closes(
    minimum_balance: u128,
    lower_minimum: u128,
    status: u8,
    balance: u128,
    larger_balance: u128,
    verdict: Result<bool, IntentError>,
    later: Result<bool, IntentError>,
)
    requires
        lower_minimum <= minimum_balance,
        balance <= larger_balance,
        decides(
            verdict,
            minimum_balance as nat,
            without_status(seq![status] + le_bytes(balance as nat, 16)),
        ),
        decides(
            later,
            lower_minimum as nat,
            without_status(seq![status] + le_bytes(larger_balance as nat, 16)),
        ),
        verdict == Ok::<bool, IntentError>(true),
    ensures
        later == Ok::<bool, IntentError>(true),
{
    let empty = Seq::<u8>::empty();
    assert(seq![status] + le_bytes(balance as nat, 16) =~= seq![status] + le_bytes(
        balance as nat,
        16,
    ) + empty);
    assert(seq![status] + le_bytes(larger_balance as nat, 16) =~= seq![status] + le_bytes(
        larger_balance as nat,
        16,
    ) + empty);
    law_the_balance_decides(minimum_balance, status, balance, empty, verdict);
    law_the_balance_decides(lower_minimum, status, larger_balance, empty, later);
}

/// A reply with fewer than sixteen bytes behind the status decides nothing, and that is told.
pub proof fn law_short_reply_is_an_error(
    minimum_balance: nat,
    reply: Seq<u8>,
    verdict: Result<bool, IntentError>,
)
    requires
        reply.len() < 17,
        decides(verdict, minimum_balance, without_status(reply)),
    ensures
        verdict matches Err(IntentError::VerificationError(told)) && told@
            == "Decode failed: Not enough data to fill buffer"@,
{
    assert(without_status(reply).len() < 16);
    reveal_strlit("Decode failed: ");
    reveal_strlit("Not enough data to fill buffer");
    reveal_strlit("Decode failed: Not enough data to fill buffer");
    assert("Decode failed: "@ + "Not enough data to fill buffer"@
        =~= "Decode failed: Not enough data to fill buffer"@);
}

/// For an account and a statement the balance is asked for exactly if they have 32 and 48 bytes.
/// The question goes to the contract in the first 32 bytes of the statement, and is for that
/// account; the account's length is looked at first.
pub proof fn law_only_whole_keys_and_statements_are_asked_for(
    account: Seq<u8>,
    statement: Seq<u8>,
    query: Result<BalanceQuery, IntentError>,
)
    requires
        asks_balance(query, account, statement),
    ensures
        query is Ok <==> account.len() == 32 && statement.len() == 48,
        query matches Ok(q) ==> q.data@ == account && q.method@ == "PSP22::balance_of"@,
        query matches Ok(q) ==> forall|i: int|
            0 <= i < 32 ==> #[trigger] q.contract@[i] == statement[i],
        query matches Ok(q) ==> le_bytes(q.minimum_balance as nat, 16) == statement.subrange(32, 48),
        query matches Err(e) ==> e is VerificationError && e->VerificationError_0@ == (
        if account.len() != 32 {
            "Witness must be 32-byte account ID"@
        } else {
            "Statement must be 48 bytes (32 addr + 16 balance)"@
        }),
{
    if query is Ok {
        let tail = statement.subrange(32, 48);
        assert(statement.skip(32) =~= tail);
        law_le_value_reads_back(tail);
    }
}

/// An address and the decimal text of a number below 2^128 make a statement of the address and
/// that number, in 48 bytes.
pub proof fn law_decimal_minimum_is_stated(
    address: Seq<u8>,
    minimum_balance: u128,
    statement: Result<Vec<u8>, IntentError>,
)
    requires
        address.len() == 32,
        parses(statement, address, decimal(minimum_balance as nat)),
    ensures
        statement is Ok,
        statement->Ok_0@.len() == 48,
        statement->Ok_0@.take(32) == address,
        statement->Ok_0@.skip(32) == le_bytes(minimum_balance as nat, 16),
{
    law_decimal_spells_the_number(minimum_balance as nat);
    law_u128_round_trip(minimum_balance);
    let s = statement->Ok_0@;
    assert(s.take(32) =~= address);
    assert(s.skip(32) =~= le_bytes(minimum_balance as nat, 16));
}

/// There is no statement exactly where the address has not 32 bytes or the balance is no number
/// below 2^128; the address is looked at first.
pub proof fn law_what_is_no_statement(
    address: Seq<u8>,
    balance: Seq<char>,
    statement: Result<Vec<u8>, IntentError>,
)
    requires
        parses(statement, address, balance),
    ensures
        statement is Err <==> address.len() != 32 || (number(balance) matches Some(n) ==> n
            >= 0x1_0000_0000_0000_0000_0000_0000_0000_0000),
        statement matches Err(e) ==> e is ParseError && e->ParseError_0@ == (if address.len() != 32 {
            "Address must be 32 bytes"@
        } else {
            "Minimum balance must be a valid u128."@
        }),
{
}

} // verus!
