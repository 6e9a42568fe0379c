//! The signature schemes: sr25519, with which transactions are signed, and ed25519, with
//! which nodes identify themselves.

use sp_core::crypto::{Pair, Ss58Codec};
use vstd::prelude::*;

use crate::text::split_at;

verus! {

/// The public key of the sr25519 pair that `sp_core::sr25519::Pair::from_seed_slice` makes of a
/// seed, where it makes one.
pub uninterp spec fn sr25519_public_key(seed: Seq<u8>) -> Option<Seq<u8>>;

/// Whether `sp_core::sr25519::Pair::verify` accepts a signature.
pub uninterp spec fn sr25519_accepts(public: Seq<u8>, message: Seq<u8>, signature: Seq<u8>) -> bool;

/// The seed that `sp_core::sr25519::Pair::from_phrase` makes of an English BIP-39 phrase and no
/// password, where it makes one.
pub uninterp spec fn sr25519_phrase_seed(phrase: Seq<char>) -> Option<Seq<u8>>;

/// The text that `sp_core`'s `to_ss58check_with_version` gives a public key under a network
/// prefix.
pub uninterp spec fn ss58_text(public: Seq<u8>, prefix: u16) -> Seq<char>;

/// The public key and the network prefix that `sp_core`'s `from_ss58check_with_version` reads in a
/// text, where it reads them.
pub uninterp spec fn ss58_decoded(text: Seq<char>) -> Option<(Seq<u8>, u16)>;

/// Whether `is_custom` of `sp_core`'s `Ss58AddressFormat` says that a prefix is not registered.
pub uninterp spec fn ss58_custom(prefix: u16) -> bool;

/// The prefix of addresses that belong to no particular network.
pub open spec fn generic_prefix() -> u16 {
    42
}

/// The public key of the ed25519 secret key `iroh_base::SecretKey`.
pub uninterp spec fn ed25519_public_key(secret: Seq<u8>) -> Seq<u8>;

/// The signature that `iroh_base::SecretKey::sign` gives.
pub uninterp spec fn ed25519_signature(secret: Seq<u8>, message: Seq<u8>) -> Seq<u8>;

/// The bytes of the neutral point of the curve, with which a signature starts in the one case in
/// which the strict test turns an honest signature down.
pub open spec fn neutral_point() -> Seq<u8> {
    Seq::new(
        32,
        |i: int|
            if i == 0 {
                1u8
            } else {
                0u8
            },
    )
}

/// Whether the bytes are an ed25519 public key and `iroh_base::PublicKey::verify` of it accepts a
/// signature.
pub uninterp spec fn ed25519_accepts(public: Seq<u8>, message: Seq<u8>, signature: Seq<u8>) -> bool;

/// The key that `iroh_base::PublicKey::from_str` reads.
pub uninterp spec fn ed25519_key_of_text(text: Seq<char>) -> Option<Seq<u8>>;

/// The bytes of an array, if there is one.
pub open spec fn array_view<const N: usize>(bytes: Option<[u8; N]>) -> Option<Seq<u8>> {
    match bytes {
        Some(b) => Some(b@),
        None => None,
    }
}

/// Calls `sp_core::sr25519::Pair::from_seed_slice` and takes the public key of the pair.
/// Trusted: the result depends on the seed alone; every seed of 32 bytes makes a pair, and no
/// seed of another length than 32 or 64 does.
#[verifier::external_body]
pub(crate) fn sr25519_public(seed: &[u8]) -> (public: Option<[u8; 32]>)
    ensures
        array_view(public) == sr25519_public_key(seed@),
        seed@.len() == 32 ==> public is Some,
        seed@.len() != 32 && seed@.len() != 64 ==> public is None,
{
    match sp_core::sr25519::Pair::from_seed_slice(seed) {
        Ok(pair) => Some(pair.public().0),
        Err(_) => None,
    }
}

/// Calls `sp_core::sr25519::Pair::sign` of the pair that `from_seed_slice` makes of a seed.
/// Trusted: there is a signature exactly where there is a pair, and `verify` accepts it for the
/// signed message under the pair's public key. Which of the many acceptable signatures it is,
/// is left to chance.
#[verifier::external_body]
pub(crate) fn sr25519_sign(seed: &[u8], message: &[u8]) -> (signature: Option<[u8; 64]>)
    ensures
        signature is Some == sr25519_public_key(seed@) is Some,
        signature matches Some(bytes) ==> sr25519_accepts(
            sr25519_public_key(seed@).unwrap(),
            message@,
            bytes@,
        ),
{
    match sp_core::sr25519::Pair::from_seed_slice(seed) {
        Ok(pair) => Some(pair.sign(message).0),
        Err(_) => None,
    }
}

/// Calls `sp_core::sr25519::Pair::verify`.
/// Trusted: the answer depends on the three arguments alone.
#[verifier::external_body]
pub(crate) fn sr25519_verify(public: &[u8; 32], message: &[u8], signature: &[u8; 64]) -> (accepted:
    bool)
    ensures
        accepted == sr25519_accepts(public@, message@, signature@),
{
    let public = sp_core::sr25519::Public::from_raw(*public);
    let signature = sp_core::sr25519::Signature::from_raw(*signature);
    sp_core::sr25519::Pair::verify(&signature, message, &public)
}

/// Calls `bip39::Mnemonic::generate`.
/// Trusted: the phrase has the wanted number of words, which stand apart by one space each, and
/// whichever words they are, `sp_core::sr25519::Pair::from_phrase` makes a pair of it: the words
/// are of the English list and end in their checksum, which is all that it asks for. Which words
/// they are is left to chance. Numbers of words that BIP-39 does not know, on which the call
/// fails, are left out.
#[verifier::external_body]
pub(crate) fn random_phrase(words: usize) -> (phrase: String)
    requires
        12 <= words <= 24,
        words % 3 == 0,
    ensures
        split_at(phrase@, ' ').len() == words,
        sr25519_phrase_seed(phrase@) is Some,
{
    bip39::Mnemonic::generate(words).unwrap().to_string()
}

/// Calls `sp_core::sr25519::Pair::from_phrase` without a password; the result is the pair's
/// public key and its seed.
/// Trusted: whether there is a pair, and its seed, depend on the phrase alone; the public key
/// is that of the pair which `from_seed_slice` makes of the seed.
#[verifier::external_body]
pub(crate) fn sr25519_from_phrase(phrase: &str) -> (pair: Option<([u8; 32], [u8; 32])>)
    ensures
        match pair {
            Some((public, seed)) => sr25519_phrase_seed(phrase@) == Some(seed@)
                && sr25519_public_key(seed@) == Some(public@),
            None => sr25519_phrase_seed(phrase@) is None,
        },
{
    match sp_core::sr25519::Pair::from_phrase(phrase, None) {
        Ok((pair, seed)) => Some((pair.public().0, seed)),
        Err(_) => None,
    }
}

/// Calls `sp_core`'s `to_ss58check` of an sr25519 public key.
/// Trusted: the text is the address of the key under some network prefix. Which prefix that is,
/// is a setting of the process.
#[verifier::external_body]
pub(crate) fn to_ss58check(public: &[u8; 32]) -> (address: String)
    ensures
        exists|prefix: u16| address@ == #[trigger] ss58_text(public@, prefix),
{
    sp_core::sr25519::Public::from_raw(*public).to_ss58check()
}

/// Calls `sp_core`'s `from_ss58check` for an sr25519 public key, which is
/// `from_ss58check_with_version` followed by a test of the prefix.
/// Trusted: a text in which no key is read is refused; where it accepts a text, it gives the key
/// that is read in it; it accepts every registered prefix, the generic one among them. The
/// address of any key under the generic prefix is accepted, and where the address of a key is
/// accepted, under whatever prefix, that key is given back. Which prefix it accepts besides the
/// registered ones is a setting of the process.
#[verifier::external_body]
pub(crate) fn from_ss58check(address: &str) -> (public: Option<[u8; 32]>)
    ensures
        public matches Some(key) ==> ss58_decoded(address@) is Some && ss58_decoded(
            address@,
        ).unwrap().0 == key@,
        ss58_decoded(address@) is Some && ss58_decoded(address@).unwrap().1 == generic_prefix()
            ==> public is Some,
        ss58_decoded(address@) is Some && !ss58_custom(ss58_decoded(address@).unwrap().1)
            ==> public is Some,
        forall|key: Seq<u8>|
            key.len() == 32 && address@ == #[trigger] ss58_text(key, generic_prefix())
                ==> array_view(public) == Some(key),
        forall|key: Seq<u8>, prefix: u16|
            key.len() == 32 && public is Some && address@ == #[trigger] ss58_text(key, prefix)
                ==> array_view(public) == Some(key),
{
    match sp_core::sr25519::Public::from_ss58check(address) {
        Ok(public) => Some(public.0),
        Err(_) => None,
    }
}

/// Calls `iroh_base::SecretKey::generate`. Nothing is claimed of the bytes, which are left to
/// chance.
#[verifier::external_body]
pub(crate) fn ed25519_generate() -> (secret: [u8; 32]) {
    iroh_base::SecretKey::generate().to_bytes()
}

/// Calls `iroh_base::SecretKey::public`.
/// Trusted: the public key depends on the secret bytes alone.
#[verifier::external_body]
pub(crate) fn ed25519_public(secret: &[u8; 32]) -> (public: [u8; 32])
    ensures
        public@ == ed25519_public_key(secret@),
{
    *iroh_base::SecretKey::from_bytes(secret).public().as_bytes()
}

/// Calls `iroh_base::SecretKey::sign`.
/// Trusted: the signature depends on the secret bytes and the message alone. `verify` accepts it
/// for the signed message under the public key of the secret bytes, unless its first half is the
/// neutral point: the strict test turns points of small order down, and an honest signer meets no
/// other such point.
#[verifier::external_body]
pub(crate) fn ed25519_sign(secret: &[u8; 32], message: &[u8]) -> (signature: [u8; 64])
    ensures
        signature@ == ed25519_signature(secret@, message@),
        signature@.take(32) != neutral_point() ==> ed25519_accepts(
            ed25519_public_key(secret@),
            message@,
            signature@,
        ),
{
    iroh_base::SecretKey::from_bytes(secret).sign(message).to_bytes()
}

/// Calls `iroh_base::PublicKey::verify` of the key that `from_bytes` makes; where the bytes are
/// no key, nothing is accepted.
/// Trusted: the answer depends on the three arguments alone.
#[verifier::external_body]
pub(crate) fn ed25519_verify(public: &[u8; 32], message: &[u8], signature: &[u8; 64]) -> (accepted:
    bool)
    ensures
        accepted == ed25519_accepts(public@, message@, signature@),
{
    let signature = iroh_base::Signature::from_bytes(signature);
    match iroh_base::PublicKey::from_bytes(public) {
        Ok(key) => key.verify(message, &signature).is_ok(),
        Err(_) => false,
    }
}

/// Calls `iroh_base::PublicKey::from_str`.
/// Trusted: the key depends on the text alone.
#[verifier::external_body]
pub(crate) fn ed25519_parse(text: &str) -> (public: Option<[u8; 32]>)
    ensures
        array_view(public) == ed25519_key_of_text(text@),
{
    match <iroh_base::PublicKey as std::str::FromStr>::from_str(text) {
        Ok(key) => Some(*key.as_bytes()),
        Err(_) => None,
    }
}

/// The generic prefix is the one that Substrate gives to addresses of no network, and the neutral
/// point is written as the number one.
pub proof fn law_fixed_values(i: int)
    requires
        0 <= i < 32,
    ensures
        generic_prefix() == 42,
        neutral_point().len() == 32,
        neutral_point()[i] == (if i == 0 {
            1u8
        } else {
            0u8
        }),
{
}

} // verus!
