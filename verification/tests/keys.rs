use fangorn::crypto::keyvault::{IrohKeyVault, KeyVaultError, SteKeyVault, Sr25519KeyVault};

const SEED: &str = "e5be9a5092b81bca64be81d212e7f2f9eba183bb7a90954f7b76361f6edb5c0a";
const PUBLIC: &str = "d43593c715fdd31c61141abd04a99fd6822c8558854ccde39a5684e7a56da27d";
const ADDRESS: &str = "5GrwvaEF5zXb26Fz9rcQpDWS57CtERHpNehXCPcNoHGKutQY";
const PHRASE: &str = "bottom drive obey lake curtain smoke basket hold race lonely fit walk";

const SECRET: &str = "9d61b19deffd5a60ba844af492ec2cc44449c5697b326919703bac031cae7f60";
const IDENTITY: &str = "d75a980182b10ab7d54bfed3c964073a0ee172f3daa62325af021a68f707511a";
const SIGNATURE: &str = "e5564300c360ac729086e2cc806e828a84877f1eb8e5d974d873e065224901555fb8821590a33bacc61e39701cf9b46bd25bf5f0595bbe24655141438e7a100b";

fn bytes(hex: &str) -> Vec<u8> {
    hex::decode(hex).unwrap()
}

fn key(hex: &str) -> [u8; 32] {
    bytes(hex).try_into().unwrap()
}

fn text(s: &str) -> String {
    s.to_string()
}

fn account() -> Sr25519KeyVault {
    Sr25519KeyVault::new_store_info(text("vault"), text("name"), text("file"))
}

fn identity() -> IrohKeyVault {
    IrohKeyVault::new_store_info(text("vault"), text("file"), 7)
}

fn not_implemented<T>(result: Result<T, KeyVaultError>) -> bool {
    matches!(
        result,
        Err(KeyVaultError::Keystore(e)) if e == "This function is not yet implemented"
    )
}

#[test]
fn vaults_are_opened_with_stored_passwords() {
    let access = account().access().unwrap();
    assert_eq!(access.key_name, "name");
    assert_eq!(access.vault_password, "vault");
    assert_eq!(access.key_password, "file");
    let access = identity().access().unwrap();
    assert_eq!(access.key_name, "iroh_key_idx_7");
    assert_eq!(access.vault_password, "vault");
    assert_eq!(access.key_password, "file");
    let access = SteKeyVault::new_store_info(text("v"), text("f"), 12).access().unwrap();
    assert_eq!(access.key_name, "ste_key_idx_12");
    assert_eq!(access.vault_password, "v");
    assert_eq!(access.key_password, "f");
}

#[test]
fn vaults_without_passwords_stay_shut() {
    assert!(not_implemented(Sr25519KeyVault::new(text("name")).access()));
    assert!(not_implemented(IrohKeyVault::new(0).access()));
    assert!(not_implemented(SteKeyVault::new(0).access()));
    assert!(not_implemented(account().get_secure_password(text("vault_password"))));
    assert!(not_implemented(identity().get_secure_password(text("file_password"))));
    assert!(not_implemented(
        Sr25519KeyVault::new(text("name")).generate_key_print_mnemonic()
    ));
    assert!(not_implemented(Sr25519KeyVault::new(text("name")).generate_key()));
    assert!(not_implemented(SteKeyVault::new(0).get_secure_password(text("file_password"))));
    assert!(not_implemented(IrohKeyVault::new(0).generate_key()));
    assert!(not_implemented(SteKeyVault::new(0).generate_key(&[1])));
}

#[test]
fn keys_are_generated_with_stored_passwords() {
    let generated = account().generate_key().unwrap();
    assert_eq!(generated.access.key_name, "name");
    assert_eq!(generated.access.vault_password, "vault");
    assert_eq!(generated.access.key_password, "file");
    assert_eq!(account().get_public_key(&generated.seed).unwrap(), generated.public);
    assert_ne!(account().generate_key().unwrap().seed, generated.seed);
}

#[test]
fn keys_are_generated_with_asked_passwords() {
    let vault = Sr25519KeyVault::new(text("name"));
    let shown = vault.generate_key_print_mnemonic_with_passwords(text("v"), text("f")).unwrap();
    assert_eq!(shown.mnemonic.split(' ').count(), 24);
    assert_eq!(shown.access.vault_password, "v");
    let again = vault.key_with_passwords(shown.mnemonic.clone(), text("v"), text("f")).unwrap();
    assert_eq!(again.seed, shown.seed);
    assert_eq!(again.public, shown.public);
    let generated = vault.generate_key_with_passwords(text("v"), text("f")).unwrap();
    assert_eq!(generated.access.key_name, "name");
    assert_eq!(generated.access.vault_password, "v");
    assert_eq!(generated.access.key_password, "f");
    assert_eq!(vault.get_public_key(&generated.seed).unwrap(), generated.public);
    let signature = vault.sign(&generated.seed, b"m").unwrap();
    assert!(Sr25519KeyVault::verify(&generated.public, b"m", &signature));
    let restored = vault.key_with_passwords(text(PHRASE), text("v"), text("f")).unwrap();
    assert_eq!(
        restored.seed.to_vec(),
        bytes("fac7959dbfe72f052e5a0c3c8d6530f202b02fd8f9f5ca3580ec8deb7797479e")
    );
    assert!(matches!(
        vault.key_with_passwords(text("no such phrase"), text("v"), text("f")),
        Err(KeyVaultError::SecretString)
    ));
    assert_eq!(vault.access_with_passwords(text("v"), text("f")).key_name, "name");

    let node = IrohKeyVault::new(4);
    let generated = node.generate_key_with_passwords(text("v"), text("f"));
    assert_eq!(generated.access.key_name, "iroh_key_idx_4");
    assert_eq!(generated.access.key_password, "f");
    assert_eq!(node.get_public_key(&generated.secret).unwrap(), generated.public);
    assert_eq!(node.key_with_passwords(key(SECRET), text("v"), text("f")).public, key(IDENTITY));
    let stored = SteKeyVault::new(5).share_with_passwords(&[1], text("v"), text("f"));
    assert_eq!(stored.bytes, vec![1]);
    assert_eq!(stored.access.key_name, "ste_key_idx_5");
    assert_eq!(stored.access.vault_password, "v");
}

#[test]
fn every_random_phrase_makes_a_key() {
    for _ in 0..20 {
        assert!(account().generate_key().is_ok());
    }
}

#[test]
fn identity_signatures_are_accepted() {
    let vault = identity();
    for message in [b"".to_vec(), b"m".to_vec(), vec![7u8; 300]] {
        let generated = vault.generate_key().unwrap();
        let signature = vault.sign(&generated.secret, &message).unwrap();
        assert!(IrohKeyVault::verify(&generated.public, &message, &signature));
    }
}

#[test]
fn key_names_tell_nodes_apart() {
    assert_eq!(IrohKeyVault::new(0).get_key_name(), "iroh_key_idx_0");
    assert_eq!(IrohKeyVault::new(10).get_key_name(), "iroh_key_idx_10");
    assert_eq!(SteKeyVault::new(1).get_key_name(), "ste_key_idx_1");
    assert_eq!(SteKeyVault::new(1).index(), 1);
    assert_eq!(
        IrohKeyVault::new(usize::MAX).get_key_name(),
        format!("iroh_key_idx_{}", usize::MAX)
    );
}

#[test]
fn seeds_make_public_keys() {
    assert_eq!(account().get_public_key(&bytes(SEED)).unwrap().to_vec(), bytes(PUBLIC));
    assert!(matches!(
        account().get_public_key(&[0u8; 31]),
        Err(KeyVaultError::SecretString)
    ));
    assert!(account().get_public_key(&[0u8; 32]).is_ok());
}

#[test]
fn phrases_make_keys() {
    let generated = account().key_from_phrase(text(PHRASE)).unwrap();
    assert_eq!(
        generated.seed.to_vec(),
        bytes("fac7959dbfe72f052e5a0c3c8d6530f202b02fd8f9f5ca3580ec8deb7797479e")
    );
    assert_eq!(
        generated.public.to_vec(),
        bytes("46ebddef8cd9bb167dc30878d7113b7e168e6f0646beffd77d69d39bad76b47a")
    );
    assert_eq!(generated.mnemonic, PHRASE);
    assert_eq!(generated.access.key_name, "name");
    assert_eq!(account().get_public_key(&generated.seed).unwrap(), generated.public);
    assert!(matches!(
        account().key_from_phrase(text("no such phrase")),
        Err(KeyVaultError::SecretString)
    ));
}

#[test]
fn random_phrases_have_the_wanted_words() {
    let generated = account().generate_key_print_mnemonic().unwrap();
    assert_eq!(generated.mnemonic.split(' ').count(), 24);
    let again = account().key_from_phrase(generated.mnemonic.clone()).unwrap();
    assert_eq!(again.seed, generated.seed);
    assert_eq!(again.public, generated.public);
    let other = account().generate_key_print_mnemonic().unwrap();
    assert_ne!(other.mnemonic, generated.mnemonic);
}

#[test]
fn account_signatures_are_accepted() {
    let signature = account().sign(&bytes(SEED), b"message").unwrap();
    assert!(Sr25519KeyVault::verify(&key(PUBLIC), b"message", &signature));
    assert!(!Sr25519KeyVault::verify(&key(PUBLIC), b"massage", &signature));
    assert!(!Sr25519KeyVault::verify(&key(IDENTITY), b"message", &signature));
    assert!(matches!(account().sign(&[1], b"m"), Err(KeyVaultError::SecretString)));
}

#[test]
fn addresses_read_back() {
    let address = account().to_ss58(&key(PUBLIC));
    assert_eq!(address, ADDRESS);
    assert_eq!(Sr25519KeyVault::from_ss58(&address).unwrap(), key(PUBLIC));
    // the same key on another network
    assert_eq!(
        Sr25519KeyVault::from_ss58("15oF4uVJwmo4TdGW7VfQxNLavjCXviqxT9S1MgbjMNHr6Sp5").unwrap(),
        key(PUBLIC)
    );
    // another checksum
    assert!(Sr25519KeyVault::from_ss58("5GrwvaEF5zXb26Fz9rcQpDWS57CtERHpNehXCPcNoHGKutQZ").is_err());
    assert!(Sr25519KeyVault::from_ss58("").is_err());
    assert!(matches!(
        Sr25519KeyVault::from_ss58("nonsense"),
        Err(KeyVaultError::Keystore(e)) if e == "Invalid SS58 address"
    ));
}

#[test]
fn stored_secrets_read_back() {
    let vault = identity();
    assert_eq!(vault.get_secret_key(&bytes(SECRET)).unwrap(), key(SECRET));
    assert_eq!(vault.get_public_key(&bytes(SECRET)).unwrap(), key(IDENTITY));
    let mut longer = bytes(SECRET);
    longer.push(1);
    assert_eq!(vault.get_secret_key(&longer).unwrap(), key(SECRET));
    let mut expected = [0u8; 32];
    expected[0] = 5;
    expected[1] = 6;
    assert_eq!(vault.get_secret_key(&[5, 6]).unwrap(), expected);
}

#[test]
fn identities_sign() {
    let signature = identity().sign(&bytes(SECRET), b"").unwrap();
    assert_eq!(signature.to_vec(), bytes(SIGNATURE));
    assert!(IrohKeyVault::verify(&key(IDENTITY), b"", &signature));
    assert!(!IrohKeyVault::verify(&key(IDENTITY), b"x", &signature));
    assert!(!IrohKeyVault::verify(&[2u8; 32], b"", &signature));
}

#[test]
fn identities_are_generated() {
    let generated = identity().key_from_secret(key(SECRET)).unwrap();
    assert_eq!(generated.public, key(IDENTITY));
    assert_eq!(generated.secret, key(SECRET));
    assert_eq!(generated.access.key_name, "iroh_key_idx_7");
    let one = identity().generate_key().unwrap();
    let two = identity().generate_key().unwrap();
    assert_ne!(one.secret, two.secret);
    assert_eq!(identity().get_public_key(&one.secret).unwrap(), one.public);
}

#[test]
fn shares_are_stored_under_their_name() {
    let vault = SteKeyVault::new_store_info(text("v"), text("f"), 3);
    let stored = vault.generate_key(&[1, 2, 3]).unwrap();
    assert_eq!(stored.bytes, vec![1, 2, 3]);
    assert_eq!(stored.access.key_name, "ste_key_idx_3");
}
