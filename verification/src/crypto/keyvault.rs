//! Keys behind passwords.
//!
//! The vault that keeps the secrets is opened elsewhere. A key vault here decides under which
//! name and with which passwords it is opened, and works on what it hands out.

use vstd::prelude::*;
use vstd::string::StringExecFns;

use crate::bytes::to_vec;
use crate::crypto::keys::{
    ed25519_accepts, ed25519_generate, ed25519_public, ed25519_public_key, ed25519_sign,
    ed25519_signature, ed25519_verify, from_ss58check, generic_prefix, neutral_point, random_phrase,
    sr25519_accepts, sr25519_from_phrase, sr25519_phrase_seed, sr25519_public, sr25519_public_key,
    sr25519_sign, sr25519_verify, ss58_custom, ss58_decoded, ss58_text,
    to_ss58check,
};
use crate::text::{
    decimal, decimal_text, law_decimal_has_no_leading_zero, law_decimal_is_unambiguous,
    law_decimal_spells_the_number, number, split_at,
};

verus! {

/// The number of words in a new phrase.
pub const PHRASE_WORDS: usize = 24;

/// Why a key vault fails.
#[derive(Debug)]
pub enum KeyVaultError {
    /// The keystore refuses, with a text.
    Keystore(String),
    KeyNotFound,
    InvalidSignature,
    /// Reading or writing failed, with a text.
    Io(String),
    /// The stored seed, or a phrase, makes no key.
    SecretString,
}

impl KeyVaultError {
    /// Whether the keystore refuses with this text.
    pub open spec fn is_keystore(self, text: Seq<char>) -> bool {
        self matches KeyVaultError::Keystore(told) && told@ == text
    }
}

/// How a vault is opened: under which name, and with which passwords.
#[verifier::ext_equal]
pub struct AccessView {
    pub key_name: Seq<char>,
    pub vault_password: Seq<char>,
    pub key_password: Seq<char>,
}

/// How a vault is opened.
#[derive(Debug)]
pub struct VaultAccess {
    pub key_name: String,
    pub vault_password: String,
    pub key_password: String,
}

impl View for VaultAccess {
    type V = AccessView;

    open spec fn view(&self) -> AccessView {
        AccessView {
            key_name: self.key_name@,
            vault_password: self.vault_password@,
            key_password: self.key_password@,
        }
    }
}

/// The two passwords that a key vault may keep.
#[verifier::ext_equal]
pub struct PasswordsView {
    pub vault: Seq<char>,
    pub key: Seq<char>,
}

/// The name of a key, and the passwords for it if they are kept.
#[verifier::ext_equal]
pub struct SettingsView {
    pub key_name: Seq<char>,
    pub passwords: Option<PasswordsView>,
}

impl SettingsView {
    /// How the vault is opened with passwords that were asked for.
    pub open spec fn access_with(
        self,
        vault_password: Seq<char>,
        key_password: Seq<char>,
    ) -> AccessView {
        AccessView { key_name: self.key_name, vault_password, key_password }
    }

    /// How the vault is opened with kept passwords. Without them it is not.
    pub open spec fn access(self) -> Option<AccessView> {
        match self.passwords {
            Some(p) => Some(self.access_with(p.vault, p.key)),
            None => None,
        }
    }
}

struct VaultSettings {
    key_name: String,
    key_password: Option<String>,
    vault_password: Option<String>,
    storing_passwords: bool,
}

impl VaultSettings {
    #[verifier::type_invariant]
    spec fn both_passwords_or_none(self) -> bool {
        &&& self.storing_passwords == self.key_password is Some
        &&& self.storing_passwords == self.vault_password is Some
    }

    spec fn settings(self) -> SettingsView {
        SettingsView {
            key_name: self.key_name@,
            passwords: if self.storing_passwords {
                Some(
                    PasswordsView {
                        vault: self.vault_password.unwrap()@,
                        key: self.key_password.unwrap()@,
                    },
                )
            } else {
                None
            },
        }
    }

    fn without_passwords(key_name: String) -> (settings: VaultSettings)
        ensures
            settings.settings() == (SettingsView { key_name: key_name@, passwords: None }),
    {
        VaultSettings {
            key_name,
            key_password: None,
            vault_password: None,
            storing_passwords: false,
        }
    }

    fn with_passwords(key_name: String, vault_password: String, key_password: String) -> (settings:
        VaultSettings)
        ensures
            settings.settings() == (SettingsView {
                key_name: key_name@,
                passwords: Some(PasswordsView { vault: vault_password@, key: key_password@ }),
            }),
    {
        VaultSettings {
            key_name,
            key_password: Some(key_password),
            vault_password: Some(vault_password),
            storing_passwords: true,
        }
    }

    fn access_with_passwords(&self, vault_password: String, key_password: String) -> (access:
        VaultAccess)
        ensures
            access@ == self.settings().access_with(vault_password@, key_password@),
    {
        VaultAccess { key_name: self.key_name.clone(), vault_password, key_password }
    }

    fn access(&self) -> (access: Result<VaultAccess, KeyVaultError>)
        ensures
            opens(access, self.settings()),
    {
        proof {
            use_type_invariant(self);
        }
        if self.storing_passwords {
            match (&self.vault_password, &self.key_password) {
                (Some(vault_password), Some(key_password)) => Ok(
                    VaultAccess {
                        key_name: self.key_name.clone(),
                        vault_password: vault_password.clone(),
                        key_password: key_password.clone(),
                    },
                ),
                _ => secure_password(),
            }
        } else {
            secure_password()
        }
    }
}

/// Whether this is how a key vault with these settings opens the vault: with the kept
/// passwords, and where none are kept it fails, because passwords cannot be asked for here.
pub open spec fn opens(access: Result<VaultAccess, KeyVaultError>, settings: SettingsView) -> bool {
    match access {
        Ok(a) => settings.access() == Some(a@),
        Err(e) => settings.access() is None && e.is_keystore(
            "This function is not yet implemented"@,
        ),
    }
}

fn secure_password<T>() -> (asked: Result<T, KeyVaultError>)
    ensures
        asked matches Err(e) && e.is_keystore("This function is not yet implemented"@),
{
    Err(KeyVaultError::Keystore("This function is not yet implemented".to_owned()))
}

/// Whether this is what becomes of a stored seed: its public key, if the seed makes one.
pub open spec fn is_public_key_of(public: Result<[u8; 32], KeyVaultError>, seed: Seq<u8>) -> bool {
    match public {
        Ok(p) => sr25519_public_key(seed) == Some(p@),
        Err(e) => sr25519_public_key(seed) is None && e == KeyVaultError::SecretString,
    }
}

/// A key that was generated reads back: the stored seed gives the public key that was handed
/// out with it.
pub proof fn law_generated_key_reads_back(
    seed: Seq<u8>,
    handed_out: Seq<u8>,
    public: Result<[u8; 32], KeyVaultError>,
)
    requires
        sr25519_public_key(seed) == Some(handed_out),
        is_public_key_of(public, seed),
    ensures
        public matches Ok(p) && p@ == handed_out,
{
}

/// The key vault of the account that signs transactions.
pub struct Sr25519KeyVault {
    settings: VaultSettings,
}

/// A new sr25519 key whose phrase is not handed out.
pub struct SecludedKey {
    pub public: [u8; 32],
    /// What the vault has to store.
    pub seed: [u8; 32],
    /// Where it has to store it.
    pub access: VaultAccess,
}

/// Whether a seed stands behind a phrase of the wanted number of words.
pub open spec fn seed_of_some_phrase(seed: Seq<u8>) -> bool {
    exists|phrase: Seq<char>|
        split_at(phrase, ' ').len() == PHRASE_WORDS && #[trigger] sr25519_phrase_seed(phrase)
            == Some(seed)
}

/// A new sr25519 key, with the phrase behind it.
pub struct GeneratedKey {
    /// The phrase from which the key can be restored.
    pub mnemonic: String,
    pub public: [u8; 32],
    /// What the vault has to store.
    pub seed: [u8; 32],
    /// Where it has to store it.
    pub access: VaultAccess,
}

impl View for Sr25519KeyVault {
    type V = SettingsView;

    closed spec fn view(&self) -> SettingsView {
        self.settings.settings()
    }
}

impl Sr25519KeyVault {
    /// A key vault that keeps no passwords.
    pub fn new(key_name: String) -> (vault: Self)
        ensures
            vault@ == (SettingsView { key_name: key_name@, passwords: None }),
    {
        Sr25519KeyVault { settings: VaultSettings::without_passwords(key_name) }
    }

    /// A key vault that keeps its passwords.
    pub fn new_store_info(vault_password: String, key_name: String, key_password: String) -> (vault:
        Self)
        ensures
            vault@ == (SettingsView {
                key_name: key_name@,
                passwords: Some(PasswordsView { vault: vault_password@, key: key_password@ }),
            }),
    {
        Sr25519KeyVault {
            settings: VaultSettings::with_passwords(key_name, vault_password, key_password),
        }
    }

    /// How to open the vault for this key with its kept passwords.
    pub fn access(&self) -> (access: Result<VaultAccess, KeyVaultError>)
        ensures
            opens(access, self@),
    {
        self.settings.access()
    }

    /// How to open the vault for this key with passwords that were asked for.
    pub fn access_with_passwords(&self, vault_password: String, key_password: String) -> (access:
        VaultAccess)
        ensures
            access@ == self@.access_with(vault_password@, key_password@),
    {
        self.settings.access_with_passwords(vault_password, key_password)
    }

    /// The address of a public key, under the network prefix of the process.
    pub fn to_ss58(&self, public: &[u8; 32]) -> (address: String)
        ensures
            exists|prefix: u16| address@ == #[trigger] ss58_text(public@, prefix),
    {
        to_ss58check(public)
    }

    /// The public key behind an address. A text in which no key is read is refused, and one with
    /// the generic or another registered prefix is accepted; where any address of a key is accepted, the key is given
    /// back.
    pub fn from_ss58(address: &str) -> (public: Result<[u8; 32], KeyVaultError>)
        ensures
            public matches Ok(p) ==> ss58_decoded(address@) is Some && ss58_decoded(
                address@,
            ).unwrap().0 == p@,
            ss58_decoded(address@) is Some && ss58_decoded(address@).unwrap().1 == generic_prefix()
                ==> public is Ok,
            ss58_decoded(address@) is Some && !ss58_custom(ss58_decoded(address@).unwrap().1)
                ==> public is Ok,
            forall|key: Seq<u8>|
                key.len() == 32 && address@ == #[trigger] ss58_text(key, generic_prefix()) ==> (
                public matches Ok(p) && p@ == key),
            forall|key: Seq<u8>, prefix: u16|
                key.len() == 32 && public is Ok && address@ == #[trigger] ss58_text(key, prefix)
                    ==> (public matches Ok(p) && p@ == key),
            public matches Err(e) ==> e.is_keystore("Invalid SS58 address"@),
    {
        match from_ss58check(address) {
            Some(public) => Ok(public),
            None => Err(KeyVaultError::Keystore("Invalid SS58 address".to_owned())),
        }
    }

    /// The key that a phrase stands for, ready to be stored.
    pub fn key_from_phrase(&self, mnemonic: String) -> (key: Result<GeneratedKey, KeyVaultError>)
        ensures
            match key {
                Ok(k) => {
                    &&& k.mnemonic@ == mnemonic@
                    &&& sr25519_phrase_seed(mnemonic@) == Some(k.seed@)
                    &&& sr25519_public_key(k.seed@) == Some(k.public@)
                    &&& self@.access() == Some(k.access@)
                },
                Err(e) => if self@.access() is None {
                    e.is_keystore("This function is not yet implemented"@)
                } else {
                    sr25519_phrase_seed(mnemonic@) is None && e == KeyVaultError::SecretString
                },
            },
    {
        let access = match self.access() {
            Ok(access) => access,
            Err(e) => {
                return Err(e);
            },
        };
        match sr25519_from_phrase(mnemonic.as_str()) {
            Some((public, seed)) => Ok(GeneratedKey { mnemonic, public, seed, access }),
            None => Err(KeyVaultError::SecretString),
        }
    }

    /// The key that a phrase stands for, ready to be stored with passwords that were asked for.
    pub fn key_with_passwords(
        &self,
        mnemonic: String,
        vault_password: String,
        key_password: String,
    ) -> (key: Result<GeneratedKey, KeyVaultError>)
        ensures
            match key {
                Ok(k) => {
                    &&& k.mnemonic@ == mnemonic@
                    &&& sr25519_phrase_seed(mnemonic@) == Some(k.seed@)
                    &&& sr25519_public_key(k.seed@) == Some(k.public@)
                    &&& k.access@ == self@.access_with(vault_password@, key_password@)
                },
                Err(e) => sr25519_phrase_seed(mnemonic@) is None && e
                    == KeyVaultError::SecretString,
            },
    {
        let access = self.access_with_passwords(vault_password, key_password);
        match sr25519_from_phrase(mnemonic.as_str()) {
            Some((public, seed)) => Ok(GeneratedKey { mnemonic, public, seed, access }),
            None => Err(KeyVaultError::SecretString),
        }
    }

    /// A new key from a random phrase, which the caller may show, for a key vault that keeps its
    /// passwords. For one that does not, the caller asks for them and takes
    /// [`Sr25519KeyVault::generate_key_print_mnemonic_with_passwords`].
    pub fn generate_key_print_mnemonic(&self) -> (key: Result<GeneratedKey, KeyVaultError>)
        ensures
            match key {
                Ok(k) => {
                    &&& split_at(k.mnemonic@, ' ').len() == PHRASE_WORDS
                    &&& sr25519_phrase_seed(k.mnemonic@) == Some(k.seed@)
                    &&& sr25519_public_key(k.seed@) == Some(k.public@)
                    &&& self@.access() == Some(k.access@)
                },
                Err(e) => self@.access() is None && e.is_keystore(
                    "This function is not yet implemented"@,
                ),
            },
    {
        self.key_from_phrase(random_phrase(PHRASE_WORDS))
    }

    /// A new key from a random phrase, which the caller may show, for passwords that were asked
    /// for.
    pub fn generate_key_print_mnemonic_with_passwords(
        &self,
        vault_password: String,
        key_password: String,
    ) -> (key: Result<GeneratedKey, KeyVaultError>)
        ensures
            key matches Ok(k) && split_at(k.mnemonic@, ' ').len() == PHRASE_WORDS
                && sr25519_phrase_seed(k.mnemonic@) == Some(k.seed@) && sr25519_public_key(k.seed@)
                == Some(k.public@) && k.access@ == self@.access_with(
                vault_password@,
                key_password@,
            ),
    {
        self.key_with_passwords(random_phrase(PHRASE_WORDS), vault_password, key_password)
    }

    /// A new key from a random phrase, which is never revealed, for a key vault that keeps its
    /// passwords. For one that does not, the caller asks for them and takes
    /// [`Sr25519KeyVault::generate_key_with_passwords`].
    pub fn generate_key(&self) -> (key: Result<SecludedKey, KeyVaultError>)
        ensures
            match key {
                Ok(k) => {
                    &&& seed_of_some_phrase(k.seed@)
                    &&& sr25519_public_key(k.seed@) == Some(k.public@)
                    &&& self@.access() == Some(k.access@)
                },
                Err(e) => self@.access() is None && e.is_keystore(
                    "This function is not yet implemented"@,
                ),
            },
    {
        match self.key_from_phrase(random_phrase(PHRASE_WORDS)) {
            Ok(key) => Ok(
                SecludedKey { public: key.public, seed: key.seed, access: key.access },
            ),
            Err(e) => Err(e),
        }
    }

    /// A new key from a random phrase, which is never revealed, for passwords that were asked
    /// for.
    pub fn generate_key_with_passwords(&self, vault_password: String, key_password: String) -> (key:
        Result<SecludedKey, KeyVaultError>)
        ensures
            key matches Ok(k) && seed_of_some_phrase(k.seed@) && sr25519_public_key(k.seed@) == Some(
                k.public@,
            ) && k.access@ == self@.access_with(vault_password@, key_password@),
    {
        let phrase = random_phrase(PHRASE_WORDS);
        match self.key_with_passwords(phrase, vault_password, key_password) {
            Ok(key) => Ok(
                SecludedKey { public: key.public, seed: key.seed, access: key.access },
            ),
            Err(e) => Err(e),
        }
    }

    /// The public key of the seed that the vault handed out.
    pub fn get_public_key(&self, seed: &[u8]) -> (public: Result<[u8; 32], KeyVaultError>)
        ensures
            is_public_key_of(public, seed@),
            seed@.len() == 32 ==> public is Ok,
            seed@.len() != 32 && seed@.len() != 64 ==> public is Err,
    {
        match sr25519_public(seed) {
            Some(public) => Ok(public),
            None => Err(KeyVaultError::SecretString),
        }
    }

    /// Signs a message with the seed that the vault handed out.
    pub fn sign(&self, seed: &[u8], message: &[u8]) -> (signature: Result<[u8; 64], KeyVaultError>)
        ensures
            match signature {
                Ok(s) => sr25519_public_key(seed@) is Some && sr25519_accepts(
                    sr25519_public_key(seed@).unwrap(),
                    message@,
                    s@,
                ),
                Err(e) => sr25519_public_key(seed@) is None && e == KeyVaultError::SecretString,
            },
    {
        match sr25519_sign(seed, message) {
            Some(signature) => Ok(signature),
            None => Err(KeyVaultError::SecretString),
        }
    }

    /// Whether a signature is one of the key's holder on the message.
    pub fn verify(public: &[u8; 32], message: &[u8], signature: &[u8; 64]) -> (accepted: bool)
        ensures
            accepted == sr25519_accepts(public@, message@, signature@),
    {
        sr25519_verify(public, message, signature)
    }

    /// Asks for a password, which is not possible.
    pub fn get_secure_password(&self, password_name: String) -> (password: Result<
        String,
        KeyVaultError,
    >)
        ensures
            password matches Err(e) && e.is_keystore("This function is not yet implemented"@),
    {
        secure_password()
    }
}

/// The key vault of a node's network identity.
pub struct IrohKeyVault {
    settings: VaultSettings,
}

/// A new ed25519 key.
pub struct GeneratedIdentity {
    pub public: [u8; 32],
    /// What the vault has to store.
    pub secret: [u8; 32],
    /// Where it has to store it.
    pub access: VaultAccess,
}

/// The name under which a node keeps its identity.
pub open spec fn iroh_key_name(index: nat) -> Seq<char> {
    "iroh_key_idx_"@ + decimal(index)
}

/// The name under which a node keeps its share of the threshold key.
pub open spec fn ste_key_name(index: nat) -> Seq<char> {
    "ste_key_idx_"@ + decimal(index)
}

/// The first 32 bytes of what is stored; missing bytes are zero.
pub open spec fn secret_of(stored: Seq<u8>) -> Seq<u8> {
    Seq::new(
        32,
        |i: int|
            if i < stored.len() {
                stored[i]
            } else {
                0u8
            },
    )
}

/// A secret that was stored reads back, and with it the public key that it was generated with.
pub proof fn law_stored_secret_reads_back(secret: Seq<u8>)
    requires
        secret.len() == 32,
    ensures
        secret_of(secret) == secret,
        ed25519_public_key(secret_of(secret)) == ed25519_public_key(secret),
{
    assert(secret_of(secret) =~= secret);
}

/// Two nodes never share the name of a key.
pub proof fn law_key_names_differ(i: nat, j: nat)
    ensures
        iroh_key_name(i) == iroh_key_name(j) ==> i == j,
        ste_key_name(i) == ste_key_name(j) ==> i == j,
        iroh_key_name(i) != ste_key_name(j),
{
    reveal_strlit("iroh_key_idx_");
    reveal_strlit("ste_key_idx_");
    assert(iroh_key_name(i).skip(13) =~= decimal(i));
    assert(iroh_key_name(j).skip(13) =~= decimal(j));
    assert(ste_key_name(i).skip(12) =~= decimal(i));
    assert(ste_key_name(j).skip(12) =~= decimal(j));
    law_decimal_is_unambiguous(i, j);
    assert(iroh_key_name(i)[0] == 'i');
    assert(ste_key_name(j)[0] == 's');
}

fn read_secret(stored: &[u8]) -> (secret: [u8; 32])
    ensures
        secret@ == secret_of(stored@),
{
    let mut secret: [u8; 32] = [0u8; 32];
    let mut i: usize = 0;
    while i < 32 && i < stored.len()
        invariant
            i <= 32,
            i <= stored@.len(),
            forall|j: int| 0 <= j < i ==> secret@[j] == stored@[j],
            forall|j: int| i <= j < 32 ==> secret@[j] == 0,
        decreases 32 - i,
    {
        secret[i] = stored[i];
        i = i + 1;
    }
    assert(secret@ =~= secret_of(stored@));
    secret
}

impl View for IrohKeyVault {
    type V = SettingsView;

    closed spec fn view(&self) -> SettingsView {
        self.settings.settings()
    }
}

impl IrohKeyVault {
    /// A key vault that keeps no passwords.
    pub fn new(index: usize) -> (vault: Self)
        ensures
            vault@ == (SettingsView { key_name: iroh_key_name(index as nat), passwords: None }),
    {
        let mut key_name = "iroh_key_idx_".to_owned();
        key_name.append(decimal_text(index as u64).as_str());
        IrohKeyVault { settings: VaultSettings::without_passwords(key_name) }
    }

    /// A key vault that keeps its passwords.
    pub fn new_store_info(vault_password: String, key_password: String, index: usize) -> (vault:
        Self)
        ensures
            vault@ == (SettingsView {
                key_name: iroh_key_name(index as nat),
                passwords: Some(PasswordsView { vault: vault_password@, key: key_password@ }),
            }),
    {
        let mut key_name = "iroh_key_idx_".to_owned();
        key_name.append(decimal_text(index as u64).as_str());
        IrohKeyVault {
            settings: VaultSettings::with_passwords(key_name, vault_password, key_password),
        }
    }

    /// The name of the key.
    pub fn get_key_name(&self) -> (name: String)
        ensures
            name@ == self@.key_name,
    {
        self.settings.key_name.clone()
    }

    /// How to open the vault for this key with its kept passwords.
    pub fn access(&self) -> (access: Result<VaultAccess, KeyVaultError>)
        ensures
            opens(access, self@),
    {
        self.settings.access()
    }

    /// How to open the vault for this key with passwords that were asked for.
    pub fn access_with_passwords(&self, vault_password: String, key_password: String) -> (access:
        VaultAccess)
        ensures
            access@ == self@.access_with(vault_password@, key_password@),
    {
        self.settings.access_with_passwords(vault_password, key_password)
    }

    /// The secret key in what the vault handed out.
    pub fn get_secret_key(&self, stored: &[u8]) -> (secret: Result<[u8; 32], KeyVaultError>)
        ensures
            secret matches Ok(s) && s@ == secret_of(stored@),
    {
        Ok(read_secret(stored))
    }

    /// The identity of a secret key, ready to be stored.
    pub fn key_from_secret(&self, secret: [u8; 32]) -> (key: Result<
        GeneratedIdentity,
        KeyVaultError,
    >)
        ensures
            match key {
                Ok(k) => {
                    &&& k.secret@ == secret@
                    &&& k.public@ == ed25519_public_key(secret@)
                    &&& self@.access() == Some(k.access@)
                },
                Err(e) => self@.access() is None && e.is_keystore(
                    "This function is not yet implemented"@,
                ),
            },
    {
        match self.access() {
            Ok(access) => Ok(
                GeneratedIdentity { public: ed25519_public(&secret), secret, access },
            ),
            Err(e) => Err(e),
        }
    }

    /// The identity of a secret key, ready to be stored with passwords that were asked for.
    pub fn key_with_passwords(
        &self,
        secret: [u8; 32],
        vault_password: String,
        key_password: String,
    ) -> (key: GeneratedIdentity)
        ensures
            key.secret@ == secret@,
            key.public@ == ed25519_public_key(secret@),
            key.access@ == self@.access_with(vault_password@, key_password@),
    {
        GeneratedIdentity {
            public: ed25519_public(&secret),
            secret,
            access: self.access_with_passwords(vault_password, key_password),
        }
    }

    /// A new random identity, for passwords that were asked for.
    pub fn generate_key_with_passwords(&self, vault_password: String, key_password: String) -> (key:
        GeneratedIdentity)
        ensures
            key.public@ == ed25519_public_key(key.secret@),
            key.access@ == self@.access_with(vault_password@, key_password@),
    {
        self.key_with_passwords(ed25519_generate(), vault_password, key_password)
    }

    /// A new random identity, for a key vault that keeps its passwords.
    pub fn generate_key(&self) -> (key: Result<GeneratedIdentity, KeyVaultError>)
        ensures
            match key {
                Ok(k) => {
                    &&& k.public@ == ed25519_public_key(k.secret@)
                    &&& self@.access() == Some(k.access@)
                },
                Err(e) => self@.access() is None && e.is_keystore(
                    "This function is not yet implemented"@,
                ),
            },
    {
        self.key_from_secret(ed25519_generate())
    }

    /// The public key of the secret that the vault handed out.
    pub fn get_public_key(&self, stored: &[u8]) -> (public: Result<[u8; 32], KeyVaultError>)
        ensures
            public matches Ok(p) && p@ == ed25519_public_key(secret_of(stored@)),
    {
        Ok(ed25519_public(&read_secret(stored)))
    }

    /// Signs a message with the secret that the vault handed out. The signature is accepted under
    /// the public key of that secret, unless it starts with the neutral point.
    pub fn sign(&self, stored: &[u8], message: &[u8]) -> (signature: Result<
        [u8; 64],
        KeyVaultError,
    >)
        ensures
            signature matches Ok(s) && s@ == ed25519_signature(secret_of(stored@), message@) && (s@.take(
                32,
            ) != neutral_point() ==> ed25519_accepts(
                ed25519_public_key(secret_of(stored@)),
                message@,
                s@,
            )),
    {
        Ok(ed25519_sign(&read_secret(stored), message))
    }

    /// Whether a signature is one of the key's holder on the message.
    pub fn verify(public: &[u8; 32], message: &[u8], signature: &[u8; 64]) -> (accepted: bool)
        ensures
            accepted == ed25519_accepts(public@, message@, signature@),
    {
        ed25519_verify(public, message, signature)
    }

    /// Asks for a password, which is not possible.
    pub fn get_secure_password(&self, password_name: String) -> (password: Result<
        String,
        KeyVaultError,
    >)
        ensures
            password matches Err(e) && e.is_keystore("This function is not yet implemented"@),
    {
        secure_password()
    }
}

/// The key vault of a node's share of the threshold key.
pub struct SteKeyVault {
    settings: VaultSettings,
    index: usize,
}

/// A secret that the vault has to store.
pub struct StoredSecret {
    pub bytes: Vec<u8>,
    /// Where it has to store it.
    pub access: VaultAccess,
}

/// The settings of a share's key vault, and the position of its node in the committee.
#[verifier::ext_equal]
pub struct ShareView {
    pub settings: SettingsView,
    pub position: nat,
}

impl View for SteKeyVault {
    type V = ShareView;

    closed spec fn view(&self) -> ShareView {
        ShareView { settings: self.settings.settings(), position: self.index as nat }
    }
}

impl SteKeyVault {
    /// A key vault that keeps no passwords.
    pub fn new(index: usize) -> (vault: Self)
        ensures
            vault@.settings == (SettingsView {
                key_name: ste_key_name(index as nat),
                passwords: None,
            }),
            vault@.position == index,
    {
        let mut key_name = "ste_key_idx_".to_owned();
        key_name.append(decimal_text(index as u64).as_str());
        SteKeyVault { settings: VaultSettings::without_passwords(key_name), index }
    }

    /// A key vault that keeps its passwords.
    pub fn new_store_info(vault_password: String, key_password: String, index: usize) -> (vault:
        Self)
        ensures
            vault@.settings == (SettingsView {
                key_name: ste_key_name(index as nat),
                passwords: Some(PasswordsView { vault: vault_password@, key: key_password@ }),
            }),
            vault@.position == index,
    {
        let mut key_name = "ste_key_idx_".to_owned();
        key_name.append(decimal_text(index as u64).as_str());
        SteKeyVault {
            settings: VaultSettings::with_passwords(key_name, vault_password, key_password),
            index,
        }
    }

    /// The name of the key.
    pub fn get_key_name(&self) -> (name: String)
        ensures
            name@ == self@.settings.key_name,
    {
        self.settings.key_name.clone()
    }

    /// The position for which the share is drawn.
    pub fn index(&self) -> (index: usize)
        ensures
            index == self@.position,
    {
        self.index
    }

    /// How to open the vault for this key, to compute a public key or a partial decryption
    /// with it.
    pub fn access(&self) -> (access: Result<VaultAccess, KeyVaultError>)
        ensures
            opens(access, self@.settings),
    {
        self.settings.access()
    }

    /// How to open the vault for this key with passwords that were asked for.
    pub fn access_with_passwords(&self, vault_password: String, key_password: String) -> (access:
        VaultAccess)
        ensures
            access@ == self@.settings.access_with(vault_password@, key_password@),
    {
        self.settings.access_with_passwords(vault_password, key_password)
    }

    /// Asks for a password, which is not possible.
    pub fn get_secure_password(&self, password_name: String) -> (password: Result<
        String,
        KeyVaultError,
    >)
        ensures
            password matches Err(e) && e.is_keystore("This function is not yet implemented"@),
    {
        secure_password()
    }

    /// Where to store the bytes of a new share, for passwords that were asked for.
    pub fn share_with_passwords(&self, share: &[u8], vault_password: String, key_password: String)
        -> (stored: StoredSecret)
        ensures
            stored.bytes@ == share@,
            stored.access@ == self@.settings.access_with(vault_password@, key_password@),
    {
        StoredSecret {
            bytes: to_vec(share),
            access: self.access_with_passwords(vault_password, key_password),
        }
    }

    /// Where to store the bytes of a new share, for a key vault that keeps its passwords.
    pub fn generate_key(&self, share: &[u8]) -> (stored: Result<StoredSecret, KeyVaultError>)
        ensures
            match stored {
                Ok(s) => s.bytes@ == share@ && self@.settings.access() == Some(s.access@),
                Err(e) => self@.settings.access() is None && e.is_keystore(
                    "This function is not yet implemented"@,
                ),
            },
    {
        match self.access() {
            Ok(access) => Ok(StoredSecret { bytes: to_vec(share), access }),
            Err(e) => Err(e),
        }
    }
}

/// A key vault that keeps passwords opens the vault under its own name, with each of the two in
/// its own place. One that keeps none does not open it, and says why.
pub proof fn law_kept_passwords_open_the_vault(
    settings: SettingsView,
    access: Result<VaultAccess, KeyVaultError>,
)
    requires
        opens(access, settings),
    ensures
        access is Ok <==> settings.passwords is Some,
        access is Ok ==> {
            &&& access->Ok_0.key_name@ == settings.key_name
            &&& access->Ok_0.vault_password@ == settings.passwords->Some_0.vault
            &&& access->Ok_0.key_password@ == settings.passwords->Some_0.key
        },
        access matches Err(e) ==> e is Keystore && e->Keystore_0@
            == "This function is not yet implemented"@,
{
}

/// What is opened where passwords are kept: the name, and each password in its own place.
pub proof fn law_where_a_key_is_stored(settings: SettingsView, access: VaultAccess)
    requires
        settings.access() == Some(access@),
    ensures
        settings.passwords is Some,
        access.key_name@ == settings.key_name,
        access.vault_password@ == settings.passwords->Some_0.vault,
        access.key_password@ == settings.passwords->Some_0.key,
{
}

/// Passwords that were asked for open the vault under the key's own name, each in its own place,
/// whichever passwords are kept.
pub proof fn law_asked_passwords_open_the_vault(
    settings: SettingsView,
    vault_password: Seq<char>,
    key_password: Seq<char>,
    access: VaultAccess,
)
    requires
        access@ == settings.access_with(vault_password, key_password),
    ensures
        access.key_name@ == settings.key_name,
        access.vault_password@ == vault_password,
        access.key_password@ == key_password,
{
}

/// A seed has a public key, or that is told; no other error comes.
pub proof fn law_a_seed_has_its_public_key(
    seed: Seq<u8>,
    public: Result<[u8; 32], KeyVaultError>,
)
    requires
        is_public_key_of(public, seed),
    ensures
        public is Ok <==> sr25519_public_key(seed) is Some,
        public matches Ok(p) ==> p@ == sr25519_public_key(seed)->Some_0,
        public matches Err(e) ==> e is SecretString,
{
}

/// The name of a node's key ends with its index in decimal, behind what tells the two kinds of
/// keys apart.
pub proof fn law_key_names(index: nat)
    ensures
        iroh_key_name(index).take(13) == "iroh_key_idx_"@,
        number(iroh_key_name(index).skip(13)) == Some(index),
        ste_key_name(index).take(12) == "ste_key_idx_"@,
        number(ste_key_name(index).skip(12)) == Some(index),
        index > 0 ==> iroh_key_name(index)[13] != '0' && ste_key_name(index)[12] != '0',
{
    reveal_strlit("iroh_key_idx_");
    reveal_strlit("ste_key_idx_");
    law_decimal_spells_the_number(index);
    law_decimal_has_no_leading_zero(index);
    assert(iroh_key_name(index).take(13) =~= "iroh_key_idx_"@);
    assert(iroh_key_name(index).skip(13) =~= decimal(index));
    assert(ste_key_name(index).take(12) =~= "ste_key_idx_"@);
    assert(ste_key_name(index).skip(12) =~= decimal(index));
}

/// A secret is the first 32 bytes of what is stored, and where fewer are stored, zeros follow
/// them.
pub proof fn law_secret_is_the_first_bytes(stored: Seq<u8>)
    ensures
        secret_of(stored).len() == 32,
        stored.len() >= 32 ==> secret_of(stored) == stored.take(32),
        stored.len() < 32 ==> secret_of(stored) == stored + Seq::new(
            (32 - stored.len()) as nat,
            |i: int| 0u8,
        ),
{
    if stored.len() >= 32 {
        assert(secret_of(stored) =~= stored.take(32));
    } else {
        assert(secret_of(stored) =~= stored + Seq::new((32 - stored.len()) as nat, |i: int| 0u8));
    }
}

/// A key that is generated can be restored from a phrase of twenty-four words.
pub proof fn law_phrases_have_twenty_four_words(seed: Seq<u8>)
    requires
        seed_of_some_phrase(seed),
    ensures
        PHRASE_WORDS == 24,
        exists|phrase: Seq<char>|
            split_at(phrase, ' ').len() == 24 && #[trigger] sr25519_phrase_seed(phrase) == Some(
                seed,
            ),
{
    let phrase = choose|phrase: Seq<char>|
        split_at(phrase, ' ').len() == PHRASE_WORDS && #[trigger] sr25519_phrase_seed(phrase)
            == Some(seed);
    assert(sr25519_phrase_seed(phrase) == Some(seed));
}

} // verus!
