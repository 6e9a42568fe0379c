use fangorn::contract::datasource::{DatasourceRegistryError, Entry, Filename, CID};
use fangorn::contract::registry::{decode_entry, encode_entry, PredicateRegistry};
use fangorn::uint256::U256;

fn name(text: &str) -> Vec<u8> {
    text.as_bytes().to_vec()
}

fn registry_of(names: &[&str]) -> PredicateRegistry {
    let mut registry = PredicateRegistry::new();
    for n in names {
        assert_eq!(registry.register_predicate(name(n), name("cid"), name("p")), Ok(()));
    }
    registry
}

#[test]
fn entries_have_a_length_prefix() {
    assert_eq!(encode_entry(b"ab", b"xyz"), b"\x00\x00\x00\x02abxyz".to_vec());
    assert_eq!(encode_entry(b"", b""), vec![0, 0, 0, 0]);
}

#[test]
fn entries_read_back() {
    let data = encode_entry(b"cid", b"predicate");
    assert_eq!(decode_entry(&data), Some((name("cid"), name("predicate"))));
    assert_eq!(decode_entry(&encode_entry(b"", b"")), Some((name(""), name(""))));
}

#[test]
fn short_entries_are_refused() {
    assert_eq!(decode_entry(b""), None);
    assert_eq!(decode_entry(&[0, 0, 0]), None);
    assert_eq!(decode_entry(&[0, 0, 0, 2, 1]), None);
    assert_eq!(decode_entry(&[0xff, 0xff, 0xff, 0xff, 1]), None);
    assert_eq!(decode_entry(&[0, 0, 0, 1, 9]), Some((vec![9], vec![])));
}

#[test]
fn decoded_entries_are_packed_back() {
    let data = vec![0u8, 0, 0, 2, 7, 8, 9];
    let (cid, predicate) = decode_entry(&data).unwrap();
    assert_eq!(encode_entry(&cid, &predicate), data);
}

#[test]
fn registered_predicates_are_read() {
    let mut registry = PredicateRegistry::new();
    assert_eq!(
        registry.register_predicate(name("file"), name("cid"), name("predicate")),
        Ok(())
    );
    assert!(registry.has_filename(name("file")));
    assert_eq!(registry.read(name("file")), b"\x00\x00\x00\x03cidpredicate".to_vec());
    assert_eq!(registry.read_cid(name("file")), name("cid"));
    assert_eq!(registry.read_predicate(name("file")), name("predicate"));
    assert_eq!(registry.count(), U256::from_u128(1));
}

#[test]
fn unknown_filenames_read_as_nothing() {
    let registry = registry_of(&["file"]);
    assert!(!registry.has_filename(name("other")));
    assert_eq!(registry.read(name("other")), name(""));
    assert_eq!(registry.read_cid(name("other")), name(""));
    assert_eq!(registry.read_predicate(name("other")), name(""));
}

#[test]
fn filenames_are_registered_once() {
    let mut registry = registry_of(&["file"]);
    assert_eq!(
        registry.register_predicate(name("file"), name("b"), name("c")),
        Err(b"FilenameAlreadyExists".to_vec())
    );
    assert_eq!(registry.read_cid(name("file")), name("cid"));
    assert_eq!(registry.count(), U256::from_u128(1));
}

#[test]
fn filenames_are_listed() {
    assert_eq!(PredicateRegistry::new().read_all(), vec![0, 0, 0, 0]);
    let registry = registry_of(&["a", "bc"]);
    assert_eq!(
        registry.read_all(),
        b"\x00\x00\x00\x02\x00\x00\x00\x01a\x00\x00\x00\x02bc".to_vec()
    );
}

#[test]
fn hashes_are_keccak() {
    let registry = registry_of(&[""]);
    assert_eq!(
        registry.filename_hashes[0],
        hex::decode("c5d2460186f7233c927e7db2dcc703c0e500b653ca82273b7bfad8045d85a470").unwrap()
    );
}

#[test]
fn removing_undoes_registering() {
    let mut registry = registry_of(&["file"]);
    assert_eq!(registry.remove_predicate(name("file")), Ok(b"\x00\x00\x00\x03cidp".to_vec()));
    assert!(!registry.has_filename(name("file")));
    assert_eq!(registry.read(name("file")), name(""));
    assert_eq!(registry.count(), U256::zero());
    assert_eq!(registry.read_all(), vec![0, 0, 0, 0]);
    // and the name is free again
    assert_eq!(registry.register_predicate(name("file"), name("x"), name("y")), Ok(()));
    assert_eq!(registry.read_cid(name("file")), name("x"));
}

#[test]
fn removing_swaps_in_the_last_filename() {
    let mut registry = registry_of(&["a", "b", "c"]);
    assert!(registry.remove_predicate(name("a")).is_ok());
    assert_eq!(
        registry.read_all(),
        b"\x00\x00\x00\x02\x00\x00\x00\x01c\x00\x00\x00\x01b".to_vec()
    );
    assert!(registry.remove_predicate(name("b")).is_ok());
    assert_eq!(registry.read_all(), b"\x00\x00\x00\x01\x00\x00\x00\x01c".to_vec());
    assert!(registry.has_filename(name("c")));
}

#[test]
fn removing_leaves_others_alone() {
    let mut registry = registry_of(&["a", "b"]);
    assert!(registry.remove_predicate(name("a")).is_ok());
    assert_eq!(registry.read(name("b")), b"\x00\x00\x00\x03cidp".to_vec());
}

#[test]
fn unknown_filenames_are_not_removed() {
    let mut registry = registry_of(&["a"]);
    assert_eq!(registry.remove_predicate(name("b")), Err(b"FilenameNotFound".to_vec()));
    assert_eq!(registry.count(), U256::from_u128(1));
}

#[test]
fn data_sources_have_entries() {
    let entry = Entry { cid: CID(name("c")), predicate: name("p") };
    assert_eq!(entry.cid, CID(name("c")));
    assert_ne!(Filename(name("a")), Filename(name("b")));
    assert_ne!(
        DatasourceRegistryError::FilenameNotFound,
        DatasourceRegistryError::Unauthorized
    );
}

#[test]
fn registered_filenames_never_read_as_nothing() {
    let mut registry = PredicateRegistry::new();
    assert_eq!(registry.register_predicate(name(""), name(""), name("")), Ok(()));
    assert_eq!(registry.read(name("")), vec![0, 0, 0, 0]);
    assert!(registry.remove_predicate(name("")).is_ok());
    assert_eq!(registry.read(name("")), name(""));
}
