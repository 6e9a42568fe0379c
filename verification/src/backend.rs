//! Calls of contracts on a Substrate chain: what is sent, and what a reply means.

use vstd::prelude::*;
use vstd::string::StringExecFns;
use vstd::utf8::encode_utf8;

use crate::bytes::{append, copy_range, to_vec};
use crate::crypto::keys::{sr25519_accepts, sr25519_public_key};
use crate::crypto::keyvault::{KeyVaultError, Sr25519KeyVault};
use crate::hashing::{blake2_256, blake2_256_digest};

verus! {

/// The computation time that a transaction pays for.
pub const CALL_REF_TIME: u64 = 10_000_000_000;

/// The proof size that a transaction pays for.
pub const CALL_PROOF_SIZE: u64 = 500_000;

/// A chain on which contracts can be called.
pub trait ContractBackend {

}

/// The first four bytes of the hash of a method's name, by which a contract knows the method.
pub open spec fn selector_of(method: Seq<char>) -> Seq<u8> {
    blake2_256_digest(encode_utf8(method)).take(4)
}

/// What a contract receives: the selector of the method, then its arguments.
pub open spec fn call_data_of(method: Seq<char>, arguments: Seq<u8>) -> Seq<u8> {
    selector_of(method) + arguments
}

/// The account with which transactions are signed.
pub struct PolkadotSigner {
    account_id: [u8; 32],
    sr25519_vault: Sr25519KeyVault,
}

impl PolkadotSigner {
    /// The account.
    pub closed spec fn account(self) -> Seq<u8> {
        self.account_id@
    }

    /// The vault of the account's key.
    pub closed spec fn vault(self) -> Sr25519KeyVault {
        self.sr25519_vault
    }

    /// The signer for the seed that the vault handed out.
    pub fn new(sr25519_vault: Sr25519KeyVault, seed: &[u8]) -> (signer: Result<Self, KeyVaultError>)
        ensures
            match signer {
                Ok(s) => sr25519_public_key(seed@) == Some(s.account()) && s.vault()
                    == sr25519_vault,
                Err(e) => sr25519_public_key(seed@) is None && e == KeyVaultError::SecretString,
            },
    {
        match sr25519_vault.get_public_key(seed) {
            Ok(account_id) => Ok(PolkadotSigner { account_id, sr25519_vault }),
            Err(e) => Err(e),
        }
    }

    /// The account.
    pub fn account_id(&self) -> (account: [u8; 32])
        ensures
            account@ == self.account(),
    {
        self.account_id
    }

    /// Signs a transaction with the seed that the vault handed out.
    pub fn sign(&self, seed: &[u8], signer_payload: &[u8]) -> (signature: Result<
        [u8; 64],
        KeyVaultError,
    >)
        ensures
            match signature {
                Ok(s) => sr25519_public_key(seed@) is Some && sr25519_accepts(
                    sr25519_public_key(seed@).unwrap(),
                    signer_payload@,
                    s@,
                ),
                Err(e) => sr25519_public_key(seed@) is None && e == KeyVaultError::SecretString,
            },
    {
        self.sr25519_vault.sign(seed, signer_payload)
    }
}

/// A query of a contract, which costs nothing and changes nothing.
#[derive(Debug)]
pub struct ContractQuery {
    pub origin: [u8; 32],
    pub dest: [u8; 32],
    pub value: u128,
    pub input_data: Vec<u8>,
}

/// A transaction that calls a contract.
#[derive(Debug)]
pub struct ContractCall {
    pub dest: [u8; 32],
    pub value: u128,
    pub ref_time: u64,
    pub proof_size: u64,
    pub data: Vec<u8>,
}

/// A Substrate chain, seen from one account.
pub struct SubstrateBackend {
    signer: PolkadotSigner,
}

impl ContractBackend for SubstrateBackend {

}

impl SubstrateBackend {
    /// The account that signs.
    pub closed spec fn signed_by(self) -> PolkadotSigner {
        self.signer
    }

    /// The chain, seen from the account of `signer`.
    pub fn new(signer: PolkadotSigner) -> (backend: Self)
        ensures
            backend.signed_by() == signer,
    {
        SubstrateBackend { signer }
    }

    /// The account that signs.
    pub fn signer(&self) -> (signer: &PolkadotSigner)
        ensures
            *signer == self.signed_by(),
    {
        &self.signer
    }

    /// The number of an account's next transaction; one beyond `u32` is capped.
    pub fn nonce(&self, nonce: u64) -> (capped: u32)
        ensures
            capped == (if nonce <= u32::MAX {
                nonce as u32
            } else {
                u32::MAX
            }),
    {
        if nonce <= u32::MAX as u64 {
            nonce as u32
        } else {
            u32::MAX
        }
    }

    fn selector(&self, name: &str) -> (selector: [u8; 4])
        ensures
            selector@ == selector_of(name@),
    {
        let hash = blake2_256(name.as_bytes());
        let selector = [hash[0], hash[1], hash[2], hash[3]];
        assert(selector@ =~= hash@.take(4));
        selector
    }

    /// The query that asks a contract for `method`.
    pub fn read(&self, contract_address: &[u8; 32], method: &str, data: Option<&[u8]>) -> (query:
        ContractQuery)
        ensures
            query.origin@ == self.signed_by().account(),
            query.dest == *contract_address,
            query.value == 0,
            query.input_data@ == call_data_of(
                method@,
                match data {
                    Some(d) => d@,
                    None => Seq::empty(),
                },
            ),
    {
        let mut input_data = to_vec(self.selector(method).as_slice());
        match data {
            Some(data) => {
                append(&mut input_data, data);
            },
            None => {
                assert(input_data@ =~= call_data_of(method@, Seq::empty()));
            },
        }
        ContractQuery {
            origin: self.signer.account_id(),
            dest: *contract_address,
            value: 0,
            input_data,
        }
    }

    /// What the reply to a query means; a refusal comes with its text.
    pub fn read_reply(&self, result: Result<Vec<u8>, String>) -> (reply: Result<
        Option<Vec<u8>>,
        String,
    >)
        ensures
            match result {
                Ok(data) => reply == Ok::<Option<Vec<u8>>, String>(Some(data)),
                Err(e) => reply matches Err(text) && text@ == "Contract query failed: "@ + e@,
            },
    {
        match result {
            Ok(data) => Ok(Some(data)),
            Err(e) => {
                let mut text = "Contract query failed: ".to_owned();
                text.append(e.as_str());
                Err(text)
            },
        }
    }

    /// The transaction that calls `method` of a contract.
    pub fn write(&self, contract_address: &[u8; 32], method: &str, data: &[u8]) -> (call:
        ContractCall)
        ensures
            call.dest == *contract_address,
            call.value == 0,
            call.ref_time == CALL_REF_TIME,
            call.proof_size == CALL_PROOF_SIZE,
            call.data@ == call_data_of(method@, data@),
    {
        let mut call_data = to_vec(self.selector(method).as_slice());
        append(&mut call_data, data);
        ContractCall {
            dest: *contract_address,
            value: 0,
            ref_time: CALL_REF_TIME,
            proof_size: CALL_PROOF_SIZE,
            data: call_data,
        }
    }
}

/// A contract's reply without the status that precedes it.
pub open spec fn without_status(reply: Seq<u8>) -> Seq<u8> {
    if reply.len() == 0 {
        reply
    } else {
        reply.skip(1)
    }
}

/// Takes the status off a contract's reply.
pub fn strip_status(reply: &[u8]) -> (data: Vec<u8>)
    ensures
        data@ == without_status(reply@),
{
    if reply.len() == 0 {
        let data: Vec<u8> = Vec::new();
        assert(data@ =~= reply@);
        data
    } else {
        let data = copy_range(reply, 1, reply.len());
        assert(data@ =~= reply@.skip(1));
        data
    }
}

/// A contract receives four bytes of the hash of the method's name, and behind them all of the
/// arguments.
pub proof fn law_a_call_carries_its_arguments(method: Seq<char>, arguments: Seq<u8>)
    requires
        blake2_256_digest(encode_utf8(method)).len() == 32,
    ensures
        call_data_of(method, arguments).len() == 4 + arguments.len(),
        call_data_of(method, arguments).skip(4) == arguments,
        forall|i: int|
            0 <= i < 4 ==> #[trigger] call_data_of(method, arguments)[i] == blake2_256_digest(
                encode_utf8(method),
            )[i],
{
    assert(call_data_of(method, arguments).skip(4) =~= arguments);
}

/// The status is one byte, and all that follows it is the reply.
pub proof fn law_the_status_is_one_byte(status: u8, data: Seq<u8>)
    ensures
        without_status(seq![status] + data) == data,
        without_status(Seq::empty()) == Seq::<u8>::empty(),
{
    assert(without_status(seq![status] + data) =~= data);
}

/// What a transaction pays for.
pub proof fn law_what_a_transaction_pays_for()
    ensures
        CALL_REF_TIME == 10_000_000_000,
        CALL_PROOF_SIZE == 500_000,
{
}

} // verus!
