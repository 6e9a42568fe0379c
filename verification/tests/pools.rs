use fangorn::contract::ink_pool::{Error, GenericData, PoolEvent, RequestPool as InkPool};
use fangorn::contract::stylus_pool::{
    attestation_key, decode_request, encode_request, PoolEvent as StylusEvent,
    RequestPool as StylusPool,
};

const WORKER: [u8; 32] = [1u8; 32];
const HELPER: [u8; 32] = [2u8; 32];
const STRANGER: [u8; 32] = [3u8; 32];

const FIRST: [u8; 20] = [1u8; 20];
const SECOND: [u8; 20] = [2u8; 20];
const OUTSIDER: [u8; 20] = [3u8; 20];

fn data(bytes: &[u8]) -> GenericData {
    GenericData(bytes.to_vec())
}

fn ink_pool() -> InkPool {
    InkPool::new(vec![WORKER, HELPER])
}

fn stylus_pool() -> StylusPool {
    let mut pool = StylusPool::new();
    assert_eq!(pool.init(vec![FIRST, SECOND]), Ok(()));
    pool
}

#[test]
fn test_add_request() {
    let mut pool = ink_pool();
    let request = b"encrypted_request".to_vec();

    assert!(pool.add(GenericData(request), data(b""), data(b""), 0).is_ok());
    assert_eq!(pool.count(), 1);
}

#[test]
fn test_fulfill_request() {
    let mut pool = ink_pool();
    let request = b"request".to_vec();

    pool.add(GenericData(request.clone()), data(b""), data(b""), 0).unwrap();
    let id = pool.hash_request(&request);

    let attestation = b"proof_of_work".to_vec();
    assert!(pool
        .submit_partial_attestation(WORKER, id.clone(), attestation.clone())
        .is_ok());
    assert_eq!(pool.get_attestation(id), Some(attestation));
}

#[test]
fn ink_identifiers_are_blake2() {
    let pool = ink_pool();
    assert_eq!(
        pool.hash_request(b""),
        hex::decode("0e5751c026e543b2e8ab2eb06099daa1d1e5df47778f7787faab45cdf12fe3a8").unwrap()
    );
}

#[test]
fn ink_requests_are_listed() {
    let mut pool = ink_pool();
    assert!(pool.read_all().is_empty());
    assert!(pool.add(data(b"a"), data(b"b"), data(b"c"), 5).is_ok());
    assert!(pool.add(data(b"d"), data(b"e"), data(b"f"), 6).is_ok());
    let all = pool.read_all();
    assert_eq!(all.len(), 2);
    assert_eq!(all[0].filename, data(b"a"));
    assert_eq!(all[1].location, data(b"f"));
    assert_eq!(pool.count(), 2);
    let id = pool.hash_request(b"def");
    assert!(matches!(&pool.log[1], PoolEvent::Added(e) if e.id == id && e.timestamp == 6));
}

#[test]
fn ink_requests_are_added_once() {
    let mut pool = ink_pool();
    assert!(pool.add(data(b"ab"), data(b"c"), data(b""), 0).is_ok());
    assert_eq!(
        pool.add(data(b"ab"), data(b"c"), data(b""), 1),
        Err(Error::RequestAlreadyExists)
    );
    // the identifier is the hash of the fields one after the other
    assert_eq!(
        pool.add(data(b"a"), data(b"bc"), data(b""), 1),
        Err(Error::RequestAlreadyExists)
    );
    assert_eq!(pool.count(), 1);
    assert_eq!(pool.log.len(), 1);
}

#[test]
fn ink_attestations_are_refused() {
    let mut pool = ink_pool();
    assert!(pool.add(data(b"r"), data(b""), data(b""), 0).is_ok());
    let id = pool.hash_request(b"r");
    assert_eq!(
        pool.submit_partial_attestation(STRANGER, id.clone(), vec![1]),
        Err(Error::Unauthorized)
    );
    assert_eq!(
        pool.submit_partial_attestation(WORKER, vec![9], vec![1]),
        Err(Error::RequestNotFound)
    );
    assert_eq!(pool.get_attestation(id.clone()), None);
    assert_eq!(pool.get_attestation_count(id.clone()), 0);
    assert!(pool.submit_partial_attestation(WORKER, id.clone(), vec![1]).is_ok());
    assert_eq!(
        pool.submit_partial_attestation(HELPER, id.clone(), vec![2]),
        Err(Error::AlreadyFulfilled)
    );
    assert_eq!(pool.get_attestation(id.clone()), Some(vec![1]));
    assert_eq!(pool.get_attestation_count(id), 1);
}

#[test]
fn ink_worker_attests_once() {
    let mut pool = ink_pool();
    assert!(pool.add(data(b"r"), data(b""), data(b""), 0).is_ok());
    let id = pool.hash_request(b"r");
    let mut key = id.clone();
    key.extend_from_slice(&WORKER);
    pool.partial_attestations.insert(&key, vec![7]);
    assert_eq!(
        pool.submit_partial_attestation(WORKER, id, vec![1]),
        Err(Error::AlreadyAttested)
    );
}

#[test]
fn ink_attestations_are_joined() {
    let mut pool = ink_pool();
    assert!(pool.add(data(b"r"), data(b""), data(b""), 0).is_ok());
    let id = pool.hash_request(b"r");
    let mut key = id.clone();
    key.extend_from_slice(&WORKER);
    pool.partial_attestations.insert(&key, b"one".to_vec());
    assert!(pool.submit_partial_attestation(HELPER, id.clone(), b"two".to_vec()).is_ok());
    assert_eq!(pool.get_attestation(id.clone()), Some(b"onetwo".to_vec()));
    let digest = pool.hash_request(b"onetwo");
    assert!(matches!(
        &pool.log[2],
        PoolEvent::Fulfilled(e) if e.id == id && e.attestation_hash.to_vec() == digest
    ));
    assert!(matches!(
        &pool.log[1],
        PoolEvent::Submitted(e) if e.worker == HELPER && e.count == 1
    ));
}

#[test]
fn ink_count_saturates() {
    let mut pool = ink_pool();
    pool.count = u64::MAX;
    assert!(pool.add(data(b"r"), data(b""), data(b""), 0).is_ok());
    assert_eq!(pool.count(), u64::MAX);
}

#[test]
fn stylus_requests_have_length_prefixes() {
    assert_eq!(
        encode_request(b"a", b"", b"bc"),
        b"\x00\x00\x00\x01a\x00\x00\x00\x00\x00\x00\x00\x02bc".to_vec()
    );
}

#[test]
fn stylus_requests_read_back() {
    let encoded = encode_request(b"file", b"witness", b"location");
    assert_eq!(
        decode_request(&encoded),
        Some((b"file".to_vec(), b"witness".to_vec(), b"location".to_vec()))
    );
    let mut longer = encoded.clone();
    longer.push(0);
    assert_eq!(decode_request(&longer), decode_request(&encoded));
    for len in 0..encoded.len() {
        assert_eq!(decode_request(&encoded[..len]), None);
    }
    assert_eq!(decode_request(&[0xff; 12]), None);
}

#[test]
fn stylus_pool_is_set_up_once() {
    let mut pool = StylusPool::new();
    assert_eq!(pool.init(vec![FIRST]), Err(b"wrong worker count".to_vec()));
    assert_eq!(
        pool.init(vec![FIRST, SECOND, OUTSIDER]),
        Err(b"wrong worker count".to_vec())
    );
    assert_eq!(pool.init(vec![FIRST, SECOND]), Ok(()));
    assert_eq!(pool.init(vec![FIRST, SECOND]), Err(b"already initialized".to_vec()));
    assert_eq!(pool.init(vec![FIRST]), Err(b"already initialized".to_vec()));
}

#[test]
fn stylus_requests_are_added_and_listed() {
    let mut pool = stylus_pool();
    assert_eq!(pool.read_all(), vec![0, 0, 0, 0]);
    assert_eq!(pool.add(b"a".to_vec(), b"b".to_vec(), b"c".to_vec(), 77), Ok(()));
    let id = pool.hash_request(b"abc".to_vec());
    assert!(pool.has_request(id));
    assert!(!pool.has_request([0u8; 32]));
    assert!(!pool.is_fulfilled(id));
    assert_eq!(pool.count(), 1);
    let mut listed = vec![0, 0, 0, 1, 0, 0, 0, 15];
    listed.extend(encode_request(b"a", b"b", b"c"));
    assert_eq!(pool.read_all(), listed);
    assert!(matches!(
        pool.log[0],
        StylusEvent::RequestAdded { id: logged, timestamp: 77 } if logged == id
    ));
    assert_eq!(
        pool.add(b"a".to_vec(), b"b".to_vec(), b"c".to_vec(), 78),
        Err(b"RequestAlreadyExists".to_vec())
    );
    assert_eq!(pool.add(b"d".to_vec(), vec![], vec![], 79), Ok(()));
    assert_eq!(pool.count(), 2);
}

#[test]
fn stylus_identifiers_are_keccak() {
    let pool = stylus_pool();
    assert_eq!(
        pool.hash_request(vec![]).to_vec(),
        hex::decode("c5d2460186f7233c927e7db2dcc703c0e500b653ca82273b7bfad8045d85a470").unwrap()
    );
    let mut preimage = vec![5u8; 32];
    preimage.extend_from_slice(&FIRST);
    assert_eq!(attestation_key([5u8; 32], FIRST), pool.hash_request(preimage));
}

#[test]
fn stylus_attestation_fulfills() {
    let mut pool = stylus_pool();
    assert_eq!(pool.add(b"r".to_vec(), vec![], vec![], 0), Ok(()));
    let id = pool.hash_request(b"r".to_vec());
    assert_eq!(
        pool.submit_partial_attestation(OUTSIDER, id, vec![1]),
        Err(b"Unauthorized".to_vec())
    );
    assert_eq!(
        pool.submit_partial_attestation(FIRST, [0u8; 32], vec![1]),
        Err(b"RequestNotFound".to_vec())
    );
    assert_eq!(pool.get_attestation(id), Vec::<u8>::new());
    assert_eq!(pool.submit_partial_attestation(SECOND, id, b"proof".to_vec()), Ok(()));
    assert!(pool.is_fulfilled(id));
    assert_eq!(pool.get_attestation(id), b"proof".to_vec());
    assert_eq!(pool.get_attestation_count(id), 1);
    assert_eq!(
        pool.submit_partial_attestation(FIRST, id, vec![1]),
        Err(b"AlreadyFulfilled".to_vec())
    );
    assert_eq!(pool.get_attestation(id), b"proof".to_vec());
    let digest = pool.hash_request(b"proof".to_vec());
    assert!(matches!(
        pool.log[1],
        StylusEvent::PartialAttestationSubmitted { worker: SECOND, count: 1, .. }
    ));
    assert!(matches!(
        pool.log[2],
        StylusEvent::RequestFulfilled { attestation_hash, .. } if attestation_hash == digest
    ));
}

#[test]
fn stylus_worker_attests_once() {
    let mut pool = stylus_pool();
    assert_eq!(pool.add(b"r".to_vec(), vec![], vec![], 0), Ok(()));
    let id = pool.hash_request(b"r".to_vec());
    pool.partial_attestations.insert(&attestation_key(id, FIRST), b"one".to_vec());
    assert_eq!(
        pool.submit_partial_attestation(FIRST, id, vec![1]),
        Err(b"AlreadyAttested".to_vec())
    );
    assert_eq!(pool.submit_partial_attestation(SECOND, id, b"two".to_vec()), Ok(()));
    assert_eq!(pool.get_attestation(id), b"onetwo".to_vec());
}

#[test]
fn stylus_empty_attestation_fulfills() {
    let mut pool = stylus_pool();
    assert_eq!(pool.add(b"r".to_vec(), vec![], vec![], 0), Ok(()));
    let id = pool.hash_request(b"r".to_vec());
    assert_eq!(pool.submit_partial_attestation(FIRST, id, vec![]), Ok(()));
    assert!(pool.is_fulfilled(id));
    assert_eq!(pool.get_attestation(id), Vec::<u8>::new());
}

#[test]
fn stylus_count_wraps() {
    let mut pool = stylus_pool();
    pool.count = u64::MAX;
    assert_eq!(pool.add(b"r".to_vec(), vec![], vec![], 0), Ok(()));
    assert_eq!(pool.count(), 0);
}

#[test]
fn stylus_answers_only_fulfilled_requests() {
    let mut pool = stylus_pool();
    for name in [b"r1", b"r2"] {
        assert_eq!(pool.add(name.to_vec(), vec![], vec![], 0), Ok(()));
    }
    let first = pool.hash_request(b"r1".to_vec());
    let second = pool.hash_request(b"r2".to_vec());
    assert_eq!(pool.submit_partial_attestation(FIRST, first, b"done".to_vec()), Ok(()));
    assert_eq!(pool.get_attestation(first), b"done".to_vec());
    assert!(!pool.is_fulfilled(second));
    assert_eq!(pool.get_attestation(second), Vec::<u8>::new());
    assert_eq!(pool.submit_partial_attestation(FIRST, second, b"too".to_vec()), Ok(()));
    assert_eq!(pool.get_attestation(second), b"too".to_vec());
    assert_eq!(pool.get_attestation(first), b"done".to_vec());
}
