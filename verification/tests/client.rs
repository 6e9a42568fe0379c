use std::sync::Arc;

use fangorn::backend::{strip_status, PolkadotSigner, SubstrateBackend};
use fangorn::contract::ink_pool::{DecryptionRequest, GenericData};
use fangorn::crypto::keyvault::{KeyVaultError, Sr25519KeyVault};
use fangorn::gadget::{balance_query, statement_bytes, IntentError, Psp22Gadget};
use fangorn::message::PartialDecryptionMessage;
use fangorn::pool::{decode_requests, encode_request, InkContractPool, PoolError};
use fangorn::scale::{append_u128_le, append_u32_le, read_u128_le, read_u32_le};

const SEED: &str = "e5be9a5092b81bca64be81d212e7f2f9eba183bb7a90954f7b76361f6edb5c0a";
const ACCOUNT: &str = "d43593c715fdd31c61141abd04a99fd6822c8558854ccde39a5684e7a56da27d";

fn bytes(hex: &str) -> Vec<u8> {
    hex::decode(hex).unwrap()
}

fn vault() -> Sr25519KeyVault {
    Sr25519KeyVault::new_store_info("v".to_string(), "key".to_string(), "k".to_string())
}

fn backend() -> Arc<SubstrateBackend> {
    let signer = PolkadotSigner::new(vault(), &bytes(SEED)).unwrap();
    Arc::new(SubstrateBackend::new(signer))
}

fn pool() -> InkContractPool {
    InkContractPool::new("contract".to_string(), backend())
}

fn decode_address(text: &str) -> [u8; 32] {
    [text.len() as u8; 32]
}

fn request(filename: &[u8], witness: &[u8], location: &[u8]) -> DecryptionRequest {
    DecryptionRequest {
        filename: GenericData(filename.to_vec()),
        witness_hex: GenericData(witness.to_vec()),
        location: GenericData(location.to_vec()),
    }
}

#[test]
fn signer_has_the_account_of_its_seed() {
    let signer = PolkadotSigner::new(vault(), &bytes(SEED)).unwrap();
    assert_eq!(signer.account_id().to_vec(), bytes(ACCOUNT));
    let signature = signer.sign(&bytes(SEED), b"payload").unwrap();
    assert!(Sr25519KeyVault::verify(&signer.account_id(), b"payload", &signature));
    assert!(!Sr25519KeyVault::verify(&signer.account_id(), b"other", &signature));
}

#[test]
fn signer_needs_a_seed() {
    assert!(matches!(
        PolkadotSigner::new(vault(), &[1, 2, 3]),
        Err(KeyVaultError::SecretString)
    ));
}

#[test]
fn queries_carry_selector_and_arguments() {
    let chain = backend();
    let query = chain.read(&[7u8; 32], "flip", Some(&[1, 2, 3]));
    assert_eq!(query.origin.to_vec(), bytes(ACCOUNT));
    assert_eq!(query.dest, [7u8; 32]);
    assert_eq!(query.value, 0);
    assert_eq!(query.input_data, bytes("633aa551010203"));
    assert_eq!(chain.read(&[7u8; 32], "flip", None).input_data, bytes("633aa551"));
    assert_eq!(chain.signer().account_id().to_vec(), bytes(ACCOUNT));
}

#[test]
fn calls_carry_selector_arguments_and_weight() {
    let call = backend().write(&[7u8; 32], "flip", &[9]);
    assert_eq!(call.dest, [7u8; 32]);
    assert_eq!(call.value, 0);
    assert_eq!(call.ref_time, 10_000_000_000);
    assert_eq!(call.proof_size, 500_000);
    assert_eq!(call.data, bytes("633aa55109"));
}

#[test]
fn replies_are_passed_on() {
    let chain = backend();
    assert_eq!(chain.read_reply(Ok(vec![1])), Ok(Some(vec![1])));
    assert_eq!(
        chain.read_reply(Err("Trapped".to_string())),
        Err("Contract query failed: Trapped".to_string())
    );
}

#[test]
fn nonces_are_capped() {
    let chain = backend();
    assert_eq!(chain.nonce(0), 0);
    assert_eq!(chain.nonce(u32::MAX as u64), u32::MAX);
    assert_eq!(chain.nonce(u32::MAX as u64 + 1), u32::MAX);
}

#[test]
fn status_is_taken_off() {
    assert_eq!(strip_status(&[]), Vec::<u8>::new());
    assert_eq!(strip_status(&[0]), Vec::<u8>::new());
    assert_eq!(strip_status(&[0, 5, 6]), vec![5, 6]);
}

#[test]
fn pool_adds_a_request() {
    let call = pool().add(decode_address, &request(b"ab", b"", b"c"));
    assert_eq!(call.dest, [8u8; 32]);
    assert_eq!(call.data, bytes("4b050ea9086162000463"));
}

#[test]
fn pool_asks_for_requests_and_their_number() {
    let query = pool().read_all(decode_address);
    assert_eq!(query.dest, [8u8; 32]);
    assert_eq!(query.input_data, bytes("e7c135a5"));
    assert_eq!(pool().count(decode_address).input_data, bytes("df209683"));
}

#[test]
fn pool_submits_an_attestation() {
    let call = pool().submit_partial_attestation(decode_address, &[1, 2], b"");
    assert_eq!(call.data, bytes("701be3d008010200"));
}

#[test]
fn pool_reads_the_listed_requests() {
    let list = vec![request(b"a", b"b", b"c"), request(b"", b"", b"location")];
    let mut reply = vec![0u8, 8];
    for r in &list {
        reply.extend(encode_request(r));
    }
    let read = pool().read_all_reply(Ok(Some(reply.clone()))).unwrap();
    assert_eq!(read, list);
    // what follows the list is ignored
    reply.push(77);
    assert_eq!(decode_requests(&reply[1..]), Ok(list));
    // a list that ends early is none
    assert_eq!(
        decode_requests(&reply[1..10]),
        Err("Not enough data to fill buffer".to_string())
    );
    assert_eq!(
        decode_requests(&reply[1..11]),
        Err("Not enough data to decode vector".to_string())
    );
    assert!(matches!(
        pool().read_all_reply(Ok(Some(vec![]))),
        Err(PoolError::Undecodable(text)) if text == "Not enough data to fill buffer"
    ));
    assert!(matches!(
        pool().read_all_reply(Err("gone".to_string())),
        Err(PoolError::Backend(text)) if text == "gone"
    ));
    assert_eq!(pool().read_all_reply(Ok(Some(vec![0, 0]))).unwrap(), vec![]);
}

#[test]
fn pool_reads_the_number_of_requests() {
    assert_eq!(
        pool().count_reply(Ok(Some(vec![0, 2, 1, 0, 0, 0, 0, 0, 0]))).unwrap(),
        258
    );
    assert!(matches!(
        pool().count_reply(Ok(Some(vec![0, 2, 1, 0, 0, 0, 0, 0]))),
        Err(PoolError::Undecodable(text)) if text == "Not enough data to fill buffer"
    ));
    assert!(matches!(
        pool().count_reply(Err("gone".to_string())),
        Err(PoolError::Backend(_))
    ));
}

#[test]
fn long_fields_have_wider_lengths() {
    let field = vec![1u8; 70];
    let encoded = encode_request(&request(&field, b"", b""));
    assert_eq!(encoded[..2], [0x19, 0x01]);
    let wide = vec![2u8; 20000];
    let encoded = encode_request(&request(&wide, b"", b""));
    assert_eq!(encoded[..4], [0x82, 0x38, 0x01, 0x00]);
    let mut list = vec![4u8];
    list.extend(encoded);
    assert_eq!(decode_requests(&list), Ok(vec![request(&wide, b"", b"")]));
}

#[test]
fn lengths_have_one_form() {
    // a list of no requests, its length in two bytes
    assert!(decode_requests(&[0x01, 0x00]).is_err());
    assert_eq!(decode_requests(&[0x00]), Ok(vec![]));
}

#[test]
fn messages_read_back() {
    let message = PartialDecryptionMessage {
        filename: b"f".to_vec(),
        index: 0x01020304,
        partial_decryption_bytes: vec![9, 8],
    };
    let encoded = message.encode();
    assert_eq!(encoded, bytes("046604030201080908"));
    let read = PartialDecryptionMessage::decode(&encoded).unwrap();
    assert_eq!(read.filename, message.filename);
    assert_eq!(read.index, message.index);
    assert_eq!(read.partial_decryption_bytes, message.partial_decryption_bytes);
    for len in 0..encoded.len() {
        assert!(PartialDecryptionMessage::decode(&encoded[..len]).is_none());
    }
}

#[test]
fn numbers_are_little_endian() {
    let mut buf = vec![7u8];
    append_u32_le(&mut buf, 0x01020304);
    assert_eq!(buf, vec![7, 4, 3, 2, 1]);
    assert_eq!(read_u32_le(&buf[1..]), 0x01020304);
    let mut wide = Vec::new();
    append_u128_le(&mut wide, u128::MAX - 1);
    assert_eq!(wide, (u128::MAX - 1).to_le_bytes().to_vec());
    assert_eq!(read_u128_le(&wide), u128::MAX - 1);
}

fn gadget() -> Psp22Gadget<SubstrateBackend> {
    Psp22Gadget::new(backend())
}

fn decode_account(text: &str) -> Vec<u8> {
    hex::decode(text).unwrap_or_default()
}

#[test]
fn gadget_has_a_name_and_a_chain() {
    assert_eq!(gadget().intent_type_id(), "Psp22");
    assert_eq!(gadget().backend().signer().account_id().to_vec(), bytes(ACCOUNT));
}

#[test]
fn intents_are_parsed() {
    let text = format!(" {} , 300 ", ACCOUNT);
    let statement = gadget().parse_intent_data(decode_account, &text).unwrap();
    let mut expected = bytes(ACCOUNT);
    expected.extend_from_slice(&300u128.to_le_bytes());
    assert_eq!(statement, expected);
}

#[test]
fn malformed_intents_are_refused() {
    let parse = |text: &str| gadget().parse_intent_data(decode_account, text);
    for text in ["", "00", "00,1,2"] {
        assert!(matches!(
            parse(text),
            Err(IntentError::ParseError(e)) if e == "PSP22 format: contract_address,minimum_balance"
        ));
    }
    assert!(matches!(
        parse("00,1"),
        Err(IntentError::ParseError(e)) if e == "Address must be 32 bytes"
    ));
    for balance in ["", "-1", "1x", "340282366920938463463374607431768211456"] {
        assert!(matches!(
            parse(&format!("{},{}", ACCOUNT, balance)),
            Err(IntentError::ParseError(e)) if e == "Minimum balance must be a valid u128."
        ));
    }
    assert!(parse(&format!("{},340282366920938463463374607431768211455", ACCOUNT)).is_ok());
}

#[test]
fn witnesses_become_balance_queries() {
    let mut statement = vec![5u8; 32];
    statement.extend_from_slice(&300u128.to_le_bytes());
    let query = gadget()
        .verify_witness(decode_account, ACCOUNT.as_bytes(), &statement)
        .unwrap();
    assert_eq!(query.contract, [5u8; 32]);
    assert_eq!(query.method, "PSP22::balance_of");
    assert_eq!(query.data, bytes(ACCOUNT));
    assert_eq!(query.minimum_balance, 300);
}

#[test]
fn raw_keys_are_witnesses() {
    let mut statement = vec![5u8; 32];
    statement.extend_from_slice(&300u128.to_le_bytes());
    let never = |_: &str| -> Vec<u8> { unreachable!() };
    for witness in [bytes(ACCOUNT), vec![0xff; 32], vec![b'a'; 32]] {
        let query = gadget().verify_witness(never, &witness, &statement).unwrap();
        assert_eq!(query.contract, [5u8; 32]);
        assert_eq!(query.method, "PSP22::balance_of");
        assert_eq!(query.data, witness);
    }
}

#[test]
fn statements_read_back() {
    let address = [6u8; 32];
    let statement = statement_bytes(&address, "12345678901234567890").unwrap();
    let query = balance_query(&[1u8; 32], &statement).unwrap();
    assert_eq!(query.contract, address);
    assert_eq!(query.minimum_balance, 12345678901234567890);
}

#[test]
fn malformed_witnesses_are_refused() {
    assert!(matches!(
        gadget().verify_witness(decode_account, b"00", &[0u8; 48]),
        Err(IntentError::VerificationError(e)) if e == "Witness must be 32-byte account ID"
    ));
    assert!(matches!(
        gadget().verify_witness(decode_account, ACCOUNT.as_bytes(), &[0u8; 47]),
        Err(IntentError::VerificationError(e))
            if e == "Statement must be 48 bytes (32 addr + 16 balance)"
    ));
}

#[test]
fn balances_decide() {
    let reply = |balance: u128| {
        let mut data = vec![0u8];
        data.extend_from_slice(&balance.to_le_bytes());
        Ok(Some(data))
    };
    assert!(gadget().verify_balance(300, reply(300)).unwrap());
    assert!(gadget().verify_balance(300, reply(301)).unwrap());
    assert!(!gadget().verify_balance(300, reply(299)).unwrap());
    assert!(matches!(
        gadget().verify_balance(1, Ok(Some(vec![0; 16]))),
        Err(IntentError::VerificationError(e))
            if e == "Decode failed: Not enough data to fill buffer"
    ));
    assert!(matches!(
        gadget().verify_balance(1, Err("down".to_string())),
        Err(IntentError::VerificationError(e)) if e == "Contract query failed: down"
    ));
}
