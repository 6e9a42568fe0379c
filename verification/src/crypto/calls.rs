//! What calls of ciphers and key vaults give, in terms of what goes into them.

use vstd::prelude::*;
use vstd::utf8::{encode_utf8, valid_utf8};

use crate::crypto::cipher::{
    aggregated_positions, law_aggregation_takes_the_place_of_the_first_key,
    law_commas_part_witnesses, parse_witnesses, plan_aggregation, witnesses, Aggregation,
    DecryptSession, SessionAction, SessionEvent,
};
use crate::crypto::keys::{
    ed25519_accepts, ed25519_public_key, ed25519_signature, generic_prefix, neutral_point,
    sr25519_phrase_seed, sr25519_public_key, ss58_text,
};
use crate::crypto::keyvault::{
    law_key_names, law_secret_is_the_first_bytes, GeneratedIdentity, GeneratedKey, IrohKeyVault,
    KeyVaultError, SecludedKey, SteKeyVault, Sr25519KeyVault, StoredSecret, VaultAccess,
};
use crate::text::{is_space, law_trim_takes_the_space_around, number, split_at};

verus! {

/// The partial decryption that arrived is aggregated in the place of the first key of two, which
/// is a place that counts, and it alone counts, whatever the threshold and the committee.
pub proof fn law_what_arrived_counts(
    threshold: usize,
    positions: Vec<usize>,
    given: &[usize],
    committee_size: usize,
    aggregation: Aggregation,
)
    requires
        committee_size > 0,
        call_ensures(aggregated_positions, (threshold,), positions),
        given@ == positions@,
        call_ensures(plan_aggregation, (given, committee_size), aggregation),
    ensures
        positions@.len() == 2,
        positions@[0] == 0,
        positions@[1] == threshold,
        call_requires(plan_aggregation, (given, committee_size)),
        aggregation.place == positions@[0],
        aggregation.places == 2,
        aggregation.selector@.len() == committee_size,
        aggregation.selector@[aggregation.place as int],
        forall|i: int|
            0 <= i < committee_size && i != aggregation.place
                ==> !#[trigger] aggregation.selector@[i],
{
    law_aggregation_takes_the_place_of_the_first_key(positions@, committee_size, aggregation);
}

/// Under any positions the place is that of the first key, and there are as many places as keys.
pub proof fn law_where_a_partial_decryption_goes(
    positions: &[usize],
    committee_size: usize,
    aggregation: Aggregation,
)
    requires
        positions@.len() > 0,
        positions@[0] < positions@.len(),
        committee_size > 0,
        call_ensures(plan_aggregation, (positions, committee_size), aggregation),
    ensures
        call_requires(plan_aggregation, (positions, committee_size)),
        aggregation.place == positions@[0],
        aggregation.places == positions@.len(),
        aggregation.selector@.len() == committee_size,
        forall|i: int|
            0 <= i < committee_size ==> (#[trigger] aggregation.selector@[i] <==> i == 0),
{
    law_aggregation_takes_the_place_of_the_first_key(positions@, committee_size, aggregation);
}

/// A list of two witnesses, with white space around each, gives both, whole and in order.
#[verifier::rlimit(40)]
pub proof fn law_two_witnesses(
    first: Seq<char>,
    second: Seq<char>,
    a: Seq<char>,
    b: Seq<char>,
    c: Seq<char>,
    d: Seq<char>,
    text: &str,
    parsed: Vec<&str>,
)
    requires
        forall|i: int| 0 <= i < a.len() ==> is_space(#[trigger] a[i]),
        forall|i: int| 0 <= i < b.len() ==> is_space(#[trigger] b[i]),
        forall|i: int| 0 <= i < c.len() ==> is_space(#[trigger] c[i]),
        forall|i: int| 0 <= i < d.len() ==> is_space(#[trigger] d[i]),
        !first.contains(','),
        !second.contains(','),
        first.len() > 0 ==> !is_space(first.first()) && !is_space(first.last()),
        second.len() > 0 ==> !is_space(second.first()) && !is_space(second.last()),
        text@ == (a + first + b).push(',') + (c + second + d),
        call_ensures(parse_witnesses, (text,), parsed),
    ensures
        parsed@.len() == 2,
        parsed@[0]@ == first,
        parsed@[1]@ == second,
{
    let left = a + first + b;
    let right = c + second + d;
    lemma_no_comma(a, first, b);
    lemma_no_comma(c, second, d);
    law_commas_part_witnesses(left, right);
    law_commas_part_witnesses(right, left);
    law_trim_takes_the_space_around(a, first, b);
    law_trim_takes_the_space_around(c, second, d);
    let texts = witnesses(text@);
    assert(texts =~= seq![first, second]);
    assert(parsed@.len() == texts.len());
    assert(texts[0] == parsed@[0]@);
    assert(texts[1] == parsed@[1]@);
}

proof fn lemma_no_comma(before: Seq<char>, text: Seq<char>, after: Seq<char>)
    requires
        forall|i: int| 0 <= i < before.len() ==> is_space(#[trigger] before[i]),
        forall|i: int| 0 <= i < after.len() ==> is_space(#[trigger] after[i]),
        !text.contains(','),
    ensures
        !(before + text + after).contains(','),
{
    let all = before + text + after;
    if all.contains(',') {
        let i = choose|i: int| 0 <= i < all.len() && all[i] == ',';
        if i < before.len() {
            assert(is_space(before[i]));
        } else if i < before.len() + text.len() {
            assert(text[i - before.len()] == ',');
        } else {
            assert(is_space(after[i - before.len() - text.len()]));
        }
    }
}

/// There is a session exactly where the request was accepted.
pub proof fn law_where_a_session_begins(
    accepted: Option<DecryptSession>,
    text: String,
    refused: Option<DecryptSession>,
)
    requires
        call_ensures(DecryptSession::after_request, (Ok(()),), accepted),
        call_ensures(DecryptSession::after_request, (Err(text),), refused),
    ensures
        accepted is Some,
        refused is None,
{
}

/// A file that is decrypted: its name is looked up, its content is fetched, the whole ciphertext
/// is decrypted with the whole partial decryption that arrived, and the whole plaintext is saved
/// under that name.
#[verifier::rlimit(40)]
pub proof fn law_a_file_is_decrypted(
    session: Option<DecryptSession>,
    filename: Vec<u8>,
    partial_decryption: Vec<u8>,
    s1: &mut DecryptSession,
    look_up: SessionAction,
    cid: Vec<u8>,
    s2: &mut DecryptSession,
    fetch: SessionAction,
    ciphertext: Vec<u8>,
    s3: &mut DecryptSession,
    aggregate: SessionAction,
    plaintext: Vec<u8>,
    s4: &mut DecryptSession,
    save: SessionAction,
    s5: &mut DecryptSession,
    finish: SessionAction,
)
    requires
        call_ensures(DecryptSession::after_request, (Ok(()),), session),
        session == Some(*old(s1)),
        call_ensures(
            DecryptSession::step,
            (s1, SessionEvent::Received { filename, partial_decryption }),
            look_up,
        ),
        *old(s2) == *final(s1),
        call_ensures(DecryptSession::step, (s2, SessionEvent::IntentFound { cid }), fetch),
        *old(s3) == *final(s2),
        call_ensures(DecryptSession::step, (s3, SessionEvent::Fetched { ciphertext }), aggregate),
        *old(s4) == *final(s3),
        call_ensures(DecryptSession::step, (s4, SessionEvent::Aggregated { plaintext }), save),
        *old(s5) == *final(s4),
        call_ensures(DecryptSession::step, (s5, SessionEvent::Saved), finish),
    ensures
        look_up is LookUp && look_up->LookUp_filename@ == filename@,
        fetch is Fetch && fetch->cid@ == cid@,
        aggregate is Aggregate && aggregate->ciphertext@ == ciphertext@,
        aggregate->partial_decryption@ == partial_decryption@,
        save is Save && encode_utf8(save->name@) == filename@ && save->plaintext@ == plaintext@,
        finish is Finish,
        call_requires(
            DecryptSession::step,
            (s1, SessionEvent::Received { filename, partial_decryption }),
        ),
        call_requires(DecryptSession::step, (s2, SessionEvent::IntentFound { cid })),
        call_requires(DecryptSession::step, (s3, SessionEvent::Fetched { ciphertext })),
        valid_utf8(filename@) ==> call_requires(
            DecryptSession::step,
            (s4, SessionEvent::Aggregated { plaintext }),
        ),
        call_requires(DecryptSession::step, (s5, SessionEvent::Saved)),
{
}

/// An account's key vault that keeps passwords opens the vault with them, under its key's name;
/// one that keeps none does not, but passwords that were asked for open it.
pub proof fn law_how_an_account_vault_is_opened(
    vault_password: String,
    key_name: String,
    key_password: String,
    keeping: Sr25519KeyVault,
    kept: Result<VaultAccess, KeyVaultError>,
    bare: Sr25519KeyVault,
    refused: Result<VaultAccess, KeyVaultError>,
    asked: VaultAccess,
)
    requires
        call_ensures(
            Sr25519KeyVault::new_store_info,
            (vault_password, key_name, key_password),
            keeping,
        ),
        call_ensures(Sr25519KeyVault::access, (&keeping,), kept),
        call_ensures(Sr25519KeyVault::new, (key_name,), bare),
        call_ensures(Sr25519KeyVault::access, (&bare,), refused),
        call_ensures(
            Sr25519KeyVault::access_with_passwords,
            (&bare, vault_password, key_password),
            asked,
        ),
    ensures
        kept is Ok,
        kept->Ok_0.key_name@ == key_name@,
        kept->Ok_0.vault_password@ == vault_password@,
        kept->Ok_0.key_password@ == key_password@,
        refused is Err && refused->Err_0 is Keystore,
        refused->Err_0->Keystore_0@ == "This function is not yet implemented"@,
        asked.key_name@ == key_name@,
        asked.vault_password@ == vault_password@,
        asked.key_password@ == key_password@,
{
}

/// The same holds of the key vault of a node's identity, whose key is named by the node's index.
pub proof fn law_how_an_identity_vault_is_opened(
    vault_password: String,
    key_password: String,
    index: usize,
    keeping: IrohKeyVault,
    kept: Result<VaultAccess, KeyVaultError>,
    bare: IrohKeyVault,
    refused: Result<VaultAccess, KeyVaultError>,
    asked: VaultAccess,
    name: String,
)
    requires
        call_ensures(IrohKeyVault::new_store_info, (vault_password, key_password, index), keeping),
        call_ensures(IrohKeyVault::access, (&keeping,), kept),
        call_ensures(IrohKeyVault::new, (index,), bare),
        call_ensures(IrohKeyVault::access, (&bare,), refused),
        call_ensures(
            IrohKeyVault::access_with_passwords,
            (&bare, vault_password, key_password),
            asked,
        ),
        call_ensures(IrohKeyVault::get_key_name, (&bare,), name),
    ensures
        name@.take(13) == "iroh_key_idx_"@,
        number(name@.skip(13)) == Some(index as nat),
        kept is Ok,
        kept->Ok_0.key_name@ == name@,
        kept->Ok_0.vault_password@ == vault_password@,
        kept->Ok_0.key_password@ == key_password@,
        refused is Err && refused->Err_0 is Keystore,
        refused->Err_0->Keystore_0@ == "This function is not yet implemented"@,
        asked.key_name@ == name@,
        asked.vault_password@ == vault_password@,
        asked.key_password@ == key_password@,
{
    law_key_names(index as nat);
}

/// The same holds of the key vault of a node's share, which also keeps the node's position.
pub proof fn law_how_a_share_vault_is_opened(
    vault_password: String,
    key_password: String,
    index: usize,
    keeping: SteKeyVault,
    kept: Result<VaultAccess, KeyVaultError>,
    bare: SteKeyVault,
    refused: Result<VaultAccess, KeyVaultError>,
    asked: VaultAccess,
    name: String,
    position: usize,
)
    requires
        call_ensures(SteKeyVault::new_store_info, (vault_password, key_password, index), keeping),
        call_ensures(SteKeyVault::access, (&keeping,), kept),
        call_ensures(SteKeyVault::new, (index,), bare),
        call_ensures(SteKeyVault::access, (&bare,), refused),
        call_ensures(
            SteKeyVault::access_with_passwords,
            (&bare, vault_password, key_password),
            asked,
        ),
        call_ensures(SteKeyVault::get_key_name, (&bare,), name),
        call_ensures(SteKeyVault::index, (&bare,), position)
            || call_ensures(SteKeyVault::index, (&keeping,), position),
    ensures
        name@.take(12) == "ste_key_idx_"@,
        number(name@.skip(12)) == Some(index as nat),
        position == index,
        kept is Ok,
        kept->Ok_0.key_name@ == name@,
        kept->Ok_0.vault_password@ == vault_password@,
        kept->Ok_0.key_password@ == key_password@,
        refused is Err && refused->Err_0 is Keystore,
        refused->Err_0->Keystore_0@ == "This function is not yet implemented"@,
        asked.key_name@ == name@,
        asked.vault_password@ == vault_password@,
        asked.key_password@ == key_password@,
{
    law_key_names(index as nat);
}

/// A share is stored whole, where its key vault is opened.
pub proof fn law_a_share_is_stored_whole(
    vault: &SteKeyVault,
    share: &[u8],
    access: Result<VaultAccess, KeyVaultError>,
    stored: Result<StoredSecret, KeyVaultError>,
    vault_password: String,
    key_password: String,
    asked: StoredSecret,
    name: String,
)
    requires
        call_ensures(SteKeyVault::access, (vault,), access),
        call_ensures(SteKeyVault::generate_key, (vault, share), stored),
        call_ensures(
            SteKeyVault::share_with_passwords,
            (vault, share, vault_password, key_password),
            asked,
        ),
        call_ensures(SteKeyVault::get_key_name, (vault,), name),
    ensures
        stored is Ok <==> access is Ok,
        stored is Ok ==> {
            &&& stored->Ok_0.bytes@ == share@
            &&& stored->Ok_0.access.key_name@ == access->Ok_0.key_name@
            &&& stored->Ok_0.access.vault_password@ == access->Ok_0.vault_password@
            &&& stored->Ok_0.access.key_password@ == access->Ok_0.key_password@
        },
        asked.bytes@ == share@,
        asked.access.key_name@ == name@,
        asked.access.vault_password@ == vault_password@,
        asked.access.key_password@ == key_password@,
{
}

/// A phrase gives its own seed and key, which are stored where the vault is opened.
pub proof fn law_a_phrase_gives_its_key(
    vault: &Sr25519KeyVault,
    mnemonic: String,
    access: Result<VaultAccess, KeyVaultError>,
    key: Result<GeneratedKey, KeyVaultError>,
    vault_password: String,
    key_password: String,
    asked_access: VaultAccess,
    asked: Result<GeneratedKey, KeyVaultError>,
)
    requires
        call_ensures(Sr25519KeyVault::access, (vault,), access),
        call_ensures(Sr25519KeyVault::key_from_phrase, (vault, mnemonic), key),
        call_ensures(
            Sr25519KeyVault::access_with_passwords,
            (vault, vault_password, key_password),
            asked_access,
        ),
        call_ensures(
            Sr25519KeyVault::key_with_passwords,
            (vault, mnemonic, vault_password, key_password),
            asked,
        ),
    ensures
        key is Ok <==> access is Ok && sr25519_phrase_seed(mnemonic@) is Some,
        asked is Ok <==> sr25519_phrase_seed(mnemonic@) is Some,
        key is Ok ==> {
            &&& key->Ok_0.mnemonic@ == mnemonic@
            &&& Some(key->Ok_0.seed@) == sr25519_phrase_seed(mnemonic@)
            &&& Some(key->Ok_0.public@) == sr25519_public_key(key->Ok_0.seed@)
            &&& key->Ok_0.access@ == access->Ok_0@
        },
        asked is Ok ==> {
            &&& asked->Ok_0.mnemonic@ == mnemonic@
            &&& Some(asked->Ok_0.seed@) == sr25519_phrase_seed(mnemonic@)
            &&& Some(asked->Ok_0.public@) == sr25519_public_key(asked->Ok_0.seed@)
            &&& asked->Ok_0.access@ == asked_access@
        },
        access is Ok && key is Err ==> key->Err_0 is SecretString,
        asked is Err ==> asked->Err_0 is SecretString,
{
}

/// A key that is generated comes of a phrase of twenty-four words, which is shown or not; its
/// public key is read back from the stored seed.
pub proof fn law_a_generated_key_reads_back(
    vault: &Sr25519KeyVault,
    access: Result<VaultAccess, KeyVaultError>,
    shown: Result<GeneratedKey, KeyVaultError>,
    hidden: Result<SecludedKey, KeyVaultError>,
    shown_seed: &[u8],
    shown_public: Result<[u8; 32], KeyVaultError>,
    hidden_seed: &[u8],
    hidden_public: Result<[u8; 32], KeyVaultError>,
)
    requires
        call_ensures(Sr25519KeyVault::access, (vault,), access),
        call_ensures(Sr25519KeyVault::generate_key_print_mnemonic, (vault,), shown),
        call_ensures(Sr25519KeyVault::generate_key, (vault,), hidden),
        shown is Ok ==> shown_seed@ == shown->Ok_0.seed@,
        call_ensures(Sr25519KeyVault::get_public_key, (vault, shown_seed), shown_public),
        hidden is Ok ==> hidden_seed@ == hidden->Ok_0.seed@,
        call_ensures(Sr25519KeyVault::get_public_key, (vault, hidden_seed), hidden_public),
    ensures
        shown is Ok <==> access is Ok,
        hidden is Ok <==> access is Ok,
        shown is Ok ==> {
            &&& split_at(shown->Ok_0.mnemonic@, ' ').len() == 24
            &&& Some(shown->Ok_0.seed@) == sr25519_phrase_seed(shown->Ok_0.mnemonic@)
            &&& shown->Ok_0.access@ == access->Ok_0@
            &&& shown_public is Ok && shown_public->Ok_0@ == shown->Ok_0.public@
        },
        hidden is Ok ==> {
            &&& hidden->Ok_0.access@ == access->Ok_0@
            &&& hidden_public is Ok && hidden_public->Ok_0@ == hidden->Ok_0.public@
            &&& exists|phrase: Seq<char>|
                split_at(phrase, ' ').len() == 24 && #[trigger] sr25519_phrase_seed(phrase) == Some(
                    hidden->Ok_0.seed@,
                )
        },
{
}

/// With passwords that were asked for a key is always generated, and stored with them.
pub proof fn law_a_key_is_generated_for_asked_passwords(
    vault: &Sr25519KeyVault,
    vault_password: String,
    key_password: String,
    access: VaultAccess,
    shown: Result<GeneratedKey, KeyVaultError>,
    hidden: Result<SecludedKey, KeyVaultError>,
)
    requires
        call_ensures(
            Sr25519KeyVault::access_with_passwords,
            (vault, vault_password, key_password),
            access,
        ),
        call_ensures(
            Sr25519KeyVault::generate_key_print_mnemonic_with_passwords,
            (vault, vault_password, key_password),
            shown,
        ),
        call_ensures(
            Sr25519KeyVault::generate_key_with_passwords,
            (vault, vault_password, key_password),
            hidden,
        ),
    ensures
        shown is Ok && hidden is Ok,
        split_at(shown->Ok_0.mnemonic@, ' ').len() == 24,
        Some(shown->Ok_0.seed@) == sr25519_phrase_seed(shown->Ok_0.mnemonic@),
        Some(shown->Ok_0.public@) == sr25519_public_key(shown->Ok_0.seed@),
        shown->Ok_0.access@ == access@,
        Some(hidden->Ok_0.public@) == sr25519_public_key(hidden->Ok_0.seed@),
        hidden->Ok_0.access@ == access@,
        exists|phrase: Seq<char>|
            split_at(phrase, ' ').len() == 24 && #[trigger] sr25519_phrase_seed(phrase) == Some(
                hidden->Ok_0.seed@,
            ),
{
}

/// A signature of an account is accepted under the account's public key for the signed message,
/// and every seed of 32 bytes signs.
pub proof fn law_an_account_signs(
    vault: &Sr25519KeyVault,
    seed: &[u8],
    public: Result<[u8; 32], KeyVaultError>,
    message: &[u8],
    signature: Result<[u8; 64], KeyVaultError>,
    key: &[u8; 32],
    signed: &[u8; 64],
    accepted: bool,
)
    requires
        call_ensures(Sr25519KeyVault::get_public_key, (vault, seed), public),
        call_ensures(Sr25519KeyVault::sign, (vault, seed, message), signature),
        public is Ok ==> *key == public->Ok_0,
        signature is Ok ==> *signed == signature->Ok_0,
        call_ensures(Sr25519KeyVault::verify, (key, message, signed), accepted),
    ensures
        signature is Ok <==> public is Ok,
        public is Ok ==> accepted,
        seed@.len() == 32 ==> public is Ok,
        seed@.len() != 32 && seed@.len() != 64 ==> public is Err,
        public is Err ==> public->Err_0 is SecretString,
        signature is Err ==> signature->Err_0 is SecretString,
{
}

/// An address of the generic network gives back its key, and the text of one that gives none is
/// told to be no address.
pub proof fn law_an_address_gives_its_key(
    key: [u8; 32],
    address: &str,
    public: Result<[u8; 32], KeyVaultError>,
    other: &str,
    refused: Result<[u8; 32], KeyVaultError>,
)
    requires
        address@ == ss58_text(key@, 42),
        call_ensures(Sr25519KeyVault::from_ss58, (address,), public),
        call_ensures(Sr25519KeyVault::from_ss58, (other,), refused),
    ensures
        public is Ok && public->Ok_0@ == key@,
        refused is Err ==> refused->Err_0 is Keystore && refused->Err_0->Keystore_0@
            == "Invalid SS58 address"@,
{
    assert(key@.len() == 32);
    assert(address@ == ss58_text(key@, generic_prefix()));
}

/// A stored identity reads back: its secret, its public key, and signatures that are accepted
/// under that key, unless they start with the neutral point.
pub proof fn law_an_identity_reads_back(
    vault: &IrohKeyVault,
    secret: [u8; 32],
    vault_password: String,
    key_password: String,
    access: VaultAccess,
    identity: GeneratedIdentity,
    stored: &[u8],
    read: Result<[u8; 32], KeyVaultError>,
    public: Result<[u8; 32], KeyVaultError>,
    message: &[u8],
    signature: Result<[u8; 64], KeyVaultError>,
    key: &[u8; 32],
    signed: &[u8; 64],
    accepted: bool,
)
    requires
        call_ensures(
            IrohKeyVault::access_with_passwords,
            (vault, vault_password, key_password),
            access,
        ),
        call_ensures(
            IrohKeyVault::key_with_passwords,
            (vault, secret, vault_password, key_password),
            identity,
        ),
        stored@ == identity.secret@,
        call_ensures(IrohKeyVault::get_secret_key, (vault, stored), read),
        call_ensures(IrohKeyVault::get_public_key, (vault, stored), public),
        call_ensures(IrohKeyVault::sign, (vault, stored, message), signature),
        public is Ok ==> *key == public->Ok_0,
        signature is Ok ==> *signed == signature->Ok_0,
        call_ensures(IrohKeyVault::verify, (key, message, signed), accepted),
    ensures
        identity.secret@ == secret@,
        identity.public@ == ed25519_public_key(secret@),
        identity.access@ == access@,
        read is Ok && read->Ok_0@ == secret@,
        public is Ok && public->Ok_0@ == identity.public@,
        signature is Ok && signature->Ok_0@ == ed25519_signature(secret@, message@),
        accepted <==> ed25519_accepts(identity.public@, message@, signature->Ok_0@),
        signature->Ok_0@.take(32) != neutral_point() ==> accepted,
{
    law_secret_is_the_first_bytes(stored@);
    assert(stored@.take(32) =~= secret@);
}

/// What is stored is read up to 32 bytes, and zeros stand for what is missing.
pub proof fn law_what_a_stored_secret_is(
    vault: &IrohKeyVault,
    stored: &[u8],
    read: Result<[u8; 32], KeyVaultError>,
    i: int,
)
    requires
        0 <= i < 32,
        call_ensures(IrohKeyVault::get_secret_key, (vault, stored), read),
    ensures
        read is Ok,
        i < stored@.len() ==> read->Ok_0@[i] == stored@[i],
        i >= stored@.len() ==> read->Ok_0@[i] == 0,
{
}

/// An identity is made where the vault can be opened, whether its secret is given or new.
pub proof fn law_where_an_identity_is_made(
    vault: &IrohKeyVault,
    access: Result<VaultAccess, KeyVaultError>,
    secret: [u8; 32],
    given: Result<GeneratedIdentity, KeyVaultError>,
    new: Result<GeneratedIdentity, KeyVaultError>,
    vault_password: String,
    key_password: String,
    asked_access: VaultAccess,
    asked: GeneratedIdentity,
)
    requires
        call_ensures(IrohKeyVault::access, (vault,), access),
        call_ensures(IrohKeyVault::key_from_secret, (vault, secret), given),
        call_ensures(IrohKeyVault::generate_key, (vault,), new),
        call_ensures(
            IrohKeyVault::access_with_passwords,
            (vault, vault_password, key_password),
            asked_access,
        ),
        call_ensures(
            IrohKeyVault::generate_key_with_passwords,
            (vault, vault_password, key_password),
            asked,
        ),
    ensures
        given is Ok <==> access is Ok,
        new is Ok <==> access is Ok,
        given is Ok ==> {
            &&& given->Ok_0.secret@ == secret@
            &&& given->Ok_0.public@ == ed25519_public_key(secret@)
            &&& given->Ok_0.access@ == access->Ok_0@
        },
        new is Ok ==> {
            &&& new->Ok_0.public@ == ed25519_public_key(new->Ok_0.secret@)
            &&& new->Ok_0.access@ == access->Ok_0@
        },
        asked.public@ == ed25519_public_key(asked.secret@),
        asked.access@ == asked_access@,
{
}

/// Passwords cannot be asked for here: each key vault says so.
pub proof fn law_passwords_cannot_be_asked_for(
    account: &Sr25519KeyVault,
    identity: &IrohKeyVault,
    share: &SteKeyVault,
    name: String,
    a: Result<String, KeyVaultError>,
    b: Result<String, KeyVaultError>,
    c: Result<String, KeyVaultError>,
)
    requires
        call_ensures(Sr25519KeyVault::get_secure_password, (account, name), a),
        call_ensures(IrohKeyVault::get_secure_password, (identity, name), b),
        call_ensures(SteKeyVault::get_secure_password, (share, name), c),
    ensures
        a is Err && a->Err_0 is Keystore && b is Err && b->Err_0 is Keystore && c is Err
            && c->Err_0 is Keystore,
        a->Err_0->Keystore_0@ == "This function is not yet implemented"@,
        b->Err_0->Keystore_0@ == a->Err_0->Keystore_0@,
        c->Err_0->Keystore_0@ == a->Err_0->Keystore_0@,
{
}

/// The address of a key, where it is read at all, is read as that key.
pub proof fn law_an_address_is_read_as_its_key(
    vault: &Sr25519KeyVault,
    key: &[u8; 32],
    address: String,
    given: &str,
    public: Result<[u8; 32], KeyVaultError>,
)
    requires
        call_ensures(Sr25519KeyVault::to_ss58, (vault, key), address),
        given@ == address@,
        call_ensures(Sr25519KeyVault::from_ss58, (given,), public),
    ensures
        public is Ok ==> public->Ok_0@ == key@,
        public is Err ==> public->Err_0 is Keystore,
{
    let prefix = choose|prefix: u16| address@ == #[trigger] ss58_text(key@, prefix);
    assert(key@.len() == 32);
    assert(given@ == ss58_text(key@, prefix));
}

} // verus!
