//! The vault: database passwords encrypted under a random data key, which each enrolled security
//! key wraps with its hmac-secret output.

pub mod file;
pub mod laws;
pub mod rules;

use vstd::prelude::*;
use vstd::string::*;
use vstd::utf8::*;

use crate::crypto::{
    array_32, decrypt, decrypted, encrypt, encrypted, random_bytes, sealed_bytes,
    SecretBytes, SecretKey, MESSAGE_LIMIT,
};
use crate::error::{opt_str, Fault, VaultError};
use crate::text::{bytes_eq, bytes_to_vec, text_eq, texts};

verus! {

/// The layout that new vaults use.
pub const VERSION: u32 = 2;

/// The database name that matches any database without its own entry.
pub const ANY: &'static str = "*";

/// One security key's hmac-secret output for its enrolled credential.
pub struct Unlock {
    pub cred_id: Vec<u8>,
    pub output: SecretKey,
}

/// An [`Unlock`] as plain bytes.
pub struct UnlockModel {
    pub cred_id: Seq<u8>,
    pub output: Seq<u8>,
}

impl View for Unlock {
    type V = UnlockModel;

    open spec fn view(&self) -> UnlockModel {
        UnlockModel { cred_id: self.cred_id@, output: self.output@ }
    }
}

/// One enrolled security key and the data key wrapped for it.
#[derive(Debug)]
pub struct KeyEntry {
    pub label: String,
    pub cred_id: Vec<u8>,
    pub nonce: Vec<u8>,
    pub wrapped_key: Vec<u8>,
}

/// A [`KeyEntry`] as plain sequences.
#[verifier::ext_equal]
pub struct KeyModel {
    pub label: Seq<char>,
    pub cred_id: Seq<u8>,
    pub nonce: Seq<u8>,
    pub wrapped_key: Seq<u8>,
}

impl View for KeyEntry {
    type V = KeyModel;

    open spec fn view(&self) -> KeyModel {
        KeyModel {
            label: self.label@,
            cred_id: self.cred_id@,
            nonce: self.nonce@,
            wrapped_key: self.wrapped_key@,
        }
    }
}

/// One database password. `database` is a file name such as `pdb.kdbx`, or [`ANY`].
#[derive(Debug)]
pub struct SecretEntry {
    pub database: String,
    pub nonce: Vec<u8>,
    pub ciphertext: Vec<u8>,
}

/// A [`SecretEntry`] as plain sequences.
#[verifier::ext_equal]
pub struct SecretModel {
    pub database: Seq<char>,
    pub nonce: Seq<u8>,
    pub ciphertext: Seq<u8>,
}

impl View for SecretEntry {
    type V = SecretModel;

    open spec fn view(&self) -> SecretModel {
        SecretModel {
            database: self.database@,
            nonce: self.nonce@,
            ciphertext: self.ciphertext@,
        }
    }
}

/// The vault.
#[derive(Debug)]
pub struct Vault {
    pub version: u32,
    pub salt: Vec<u8>,
    pub keys: Vec<KeyEntry>,
    pub secrets: Vec<SecretEntry>,
}

/// A [`Vault`] as plain sequences.
#[verifier::ext_equal]
pub struct VaultModel {
    pub version: u32,
    pub salt: Seq<u8>,
    pub keys: Seq<KeyModel>,
    pub secrets: Seq<SecretModel>,
}

impl View for Vault {
    type V = VaultModel;

    open spec fn view(&self) -> VaultModel {
        VaultModel {
            version: self.version,
            salt: self.salt@,
            keys: self.keys@.map_values(|k: KeyEntry| k@),
            secrets: self.secrets@.map_values(|s: SecretEntry| s@),
        }
    }
}

/// The first key enrolled with a credential.
pub open spec fn find_key(keys: Seq<KeyModel>, cred_id: Seq<u8>) -> Option<KeyModel>
    decreases keys.len(),
{
    if keys.len() == 0 {
        None
    } else if keys[0].cred_id == cred_id {
        Some(keys[0])
    } else {
        find_key(keys.skip(1), cred_id)
    }
}

/// The first password stored under a name.
pub open spec fn find_secret(secrets: Seq<SecretModel>, name: Seq<char>) -> Option<SecretModel>
    decreases secrets.len(),
{
    if secrets.len() == 0 {
        None
    } else if secrets[0].database == name {
        Some(secrets[0])
    } else {
        find_secret(secrets.skip(1), name)
    }
}

/// The passwords stored under other names, in order.
pub open spec fn without_secret(secrets: Seq<SecretModel>, name: Seq<char>) -> Seq<SecretModel>
    decreases secrets.len(),
{
    if secrets.len() == 0 {
        Seq::empty()
    } else if secrets[0].database == name {
        without_secret(secrets.skip(1), name)
    } else {
        seq![secrets[0]] + without_secret(secrets.skip(1), name)
    }
}

/// A key with this label is enrolled.
pub open spec fn has_label(keys: Seq<KeyModel>, label: Seq<char>) -> bool {
    exists|i: int| 0 <= i < keys.len() && (#[trigger] keys[i]).label == label
}

/// A key with this credential is enrolled.
pub open spec fn has_cred(keys: Seq<KeyModel>, cred_id: Seq<u8>) -> bool {
    exists|i: int| 0 <= i < keys.len() && (#[trigger] keys[i]).cred_id == cred_id
}

/// A password is stored under this name.
pub open spec fn has_name(secrets: Seq<SecretModel>, name: Seq<char>) -> bool {
    exists|i: int| 0 <= i < secrets.len() && (#[trigger] secrets[i]).database == name
}

/// No name is stored twice.
pub open spec fn names_differ(secrets: Seq<SecretModel>) -> bool {
    forall|i: int, j: int|
        0 <= i < j < secrets.len() ==> (#[trigger] secrets[i]).database != (
        #[trigger] secrets[j]).database
}

/// What a password is bound to: its database name. The [`ANY`] entry keeps the version 1 value, so
/// migrated vaults need no re-encryption.
pub open spec fn aad_of(database: Seq<char>) -> Seq<u8> {
    if database == ANY@ {
        encode_utf8("fido2kpxc-vault-v1"@)
    } else {
        encode_utf8("fido2kpxc-secret:"@ + database)
    }
}

/// What an entry decrypts to under the data key.
pub open spec fn plain_of(key: Seq<u8>, entry: SecretModel) -> Result<Seq<u8>, Fault> {
    match decrypted(key, entry.nonce, entry.ciphertext, aad_of(entry.database)) {
        Some(plain) => Ok(plain),
        None => Err(Fault::SecretRejected { database: entry.database }),
    }
}

/// `entry` holds `plain`, encrypted under `key` with a nonce of its own and bound to `database`.
pub open spec fn sealed_as(
    entry: SecretModel,
    key: Seq<u8>,
    database: Seq<char>,
    plain: Seq<u8>,
) -> bool {
    &&& entry.database == database
    &&& entry.nonce.len() == 24
    &&& encrypted(key, entry.nonce, plain, aad_of(database)) == Some(entry.ciphertext)
    &&& decrypted(key, entry.nonce, entry.ciphertext, aad_of(database)) == Some(plain)
}

/// `entry` holds the data key `key`, encrypted under the security key's output with a nonce of its
/// own and bound to the credential.
pub open spec fn wrapped_as(
    entry: KeyModel,
    key: Seq<u8>,
    label: Seq<char>,
    unlock: UnlockModel,
) -> bool {
    &&& entry.label == label
    &&& entry.cred_id == unlock.cred_id
    &&& entry.nonce.len() == 24
    &&& encrypted(unlock.output, entry.nonce, key, unlock.cred_id) == Some(entry.wrapped_key)
    &&& decrypted(unlock.output, entry.nonce, entry.wrapped_key, unlock.cred_id) == Some(key)
}

impl VaultModel {
    /// Every nonce has the cipher's length.
    pub open spec fn nonces_fit(self) -> bool {
        &&& forall|i: int| 0 <= i < self.keys.len() ==> (#[trigger] self.keys[i]).nonce.len() == 24
        &&& forall|i: int|
            0 <= i < self.secrets.len() ==> (#[trigger] self.secrets[i]).nonce.len() == 24
    }

    /// What every vault on disk satisfies: a full salt, at least one key and one password, nonces
    /// of the cipher's length, and no database name twice.
    pub open spec fn wf(self) -> bool {
        &&& self.salt.len() == 32
        &&& self.keys.len() > 0
        &&& self.secrets.len() > 0
        &&& self.nonces_fit()
        &&& names_differ(self.secrets)
    }

    /// The entry that answers for `database`: its own entry if one exists, else the [`ANY`] entry.
    pub open spec fn secret_for(self, database: Option<Seq<char>>) -> Option<SecretModel> {
        match database {
            Some(name) if find_secret(self.secrets, name) is Some => find_secret(
                self.secrets,
                name,
            ),
            _ => find_secret(self.secrets, ANY@),
        }
    }

    /// The data key, as a security key unwraps it.
    pub open spec fn data_key(self, unlock: UnlockModel) -> Result<Seq<u8>, Fault> {
        match find_key(self.keys, unlock.cred_id) {
            None => Err(Fault::NotEnrolled),
            Some(entry) => match decrypted(
                unlock.output,
                entry.nonce,
                entry.wrapped_key,
                entry.cred_id,
            ) {
                None => Err(Fault::KeyRejected { label: entry.label }),
                Some(key) => if key.len() == 32 {
                    Ok(key)
                } else {
                    Err(Fault::KeyLength)
                },
            },
        }
    }

    /// The password for `database`, as a security key opens it.
    pub open spec fn password(
        self,
        unlock: UnlockModel,
        database: Option<Seq<char>>,
    ) -> Result<Seq<u8>, Fault> {
        match self.data_key(unlock) {
            Err(fault) => Err(fault),
            Ok(key) => match self.secret_for(database) {
                None => Err(Fault::NoPassword { database }),
                Some(entry) => plain_of(key, entry),
            },
        }
    }

    /// The same vault with another list of passwords.
    pub open spec fn with_secrets(self, secrets: Seq<SecretModel>) -> VaultModel {
        VaultModel { secrets, ..self }
    }

    /// The same vault with another list of keys.
    pub open spec fn with_keys(self, keys: Seq<KeyModel>) -> VaultModel {
        VaultModel { keys, ..self }
    }
}

/// The entry that holds `plain`, encrypted under `key` with `nonce` and bound to `database`.
pub open spec fn sealed_entry(
    key: Seq<u8>,
    nonce: Seq<u8>,
    database: Seq<char>,
    plain: Seq<u8>,
) -> SecretModel {
    SecretModel { database, nonce, ciphertext: sealed_bytes(key, nonce, plain, aad_of(database)) }
}

/// The entry that holds the data key `key`, encrypted under a security key's output with `nonce`
/// and bound to its credential.
pub open spec fn wrapped_entry(
    key: Seq<u8>,
    nonce: Seq<u8>,
    label: Seq<char>,
    unlock: UnlockModel,
) -> KeyModel {
    KeyModel {
        label,
        cred_id: unlock.cred_id,
        nonce,
        wrapped_key: sealed_bytes(unlock.output, nonce, key, unlock.cred_id),
    }
}

/// The bytes of a random draw, or why it failed.
pub open spec fn drawn(draw: Result<Vec<u8>, VaultError>) -> Result<Seq<u8>, Fault> {
    match draw {
        Ok(bytes) => Ok(bytes@),
        Err(error) => Err(error@),
    }
}

/// The bytes of a drawn data key, or why the draw failed.
pub open spec fn drawn_key(draw: Result<SecretKey, VaultError>) -> Result<Seq<u8>, Fault> {
    match draw {
        Ok(key) => Ok(key@),
        Err(error) => Err(error@),
    }
}

/// The bytes of each draw in a list.
pub open spec fn all_drawn(draws: Seq<Result<Vec<u8>, VaultError>>) -> Seq<
    Result<Seq<u8>, Fault>,
> {
    draws.map_values(|d: Result<Vec<u8>, VaultError>| drawn(d))
}

/// A draw that succeeded has `count` bytes.
pub open spec fn draw_fits(draw: Result<Seq<u8>, Fault>, count: nat) -> bool {
    draw matches Ok(bytes) ==> bytes.len() == count
}

/// How many draws succeed before the first that fails.
pub open spec fn good_draws(draws: Seq<Result<Seq<u8>, Fault>>) -> nat
    decreases draws.len(),
{
    if draws.len() == 0 || draws[0] is Err {
        0
    } else {
        1 + good_draws(draws.skip(1))
    }
}

/// How an operation ended.
pub open spec fn outcome(r: Result<(), VaultError>) -> Result<(), Fault> {
    match r {
        Ok(_) => Ok(()),
        Err(error) => Err(error@),
    }
}

/// How sealing a password ends, and the vault that it leaves.
pub open spec fn sealing(
    vault: VaultModel,
    key: Seq<u8>,
    database: Seq<char>,
    secret: Seq<u8>,
    nonce: Result<Seq<u8>, Fault>,
) -> (Result<(), Fault>, VaultModel) {
    match nonce {
        Err(fault) => (Err(fault), vault),
        Ok(nonce) => if secret.len() > MESSAGE_LIMIT {
            (Err(Fault::Encryption), vault)
        } else {
            (
                Ok(()),
                vault.with_secrets(
                    vault.secrets.push(sealed_entry(key, nonce, database, secret)),
                ),
            )
        },
    }
}

/// How wrapping the data key ends, and the vault that it leaves.
pub open spec fn wrapping(
    vault: VaultModel,
    key: Seq<u8>,
    label: Seq<char>,
    unlock: UnlockModel,
    nonce: Result<Seq<u8>, Fault>,
) -> (Result<(), Fault>, VaultModel) {
    match nonce {
        Err(fault) => (Err(fault), vault),
        Ok(nonce) => (
            Ok(()),
            vault.with_keys(vault.keys.push(wrapped_entry(key, nonce, label, unlock))),
        ),
    }
}

/// How creating a vault ends, given the draws for the data key and the two nonces.
pub open spec fn creation(
    salt: Seq<u8>,
    label: Seq<char>,
    unlock: UnlockModel,
    database: Seq<char>,
    secret: Seq<u8>,
    key: Result<Seq<u8>, Fault>,
    seal_nonce: Result<Seq<u8>, Fault>,
    wrap_nonce: Result<Seq<u8>, Fault>,
) -> Result<VaultModel, Fault> {
    let empty = VaultModel { version: VERSION, salt, keys: Seq::empty(), secrets: Seq::empty() };
    match key {
        Err(fault) => Err(fault),
        Ok(key) => match sealing(empty, key, database, secret, seal_nonce) {
            (Err(fault), _) => Err(fault),
            (Ok(_), sealed) => match wrapping(sealed, key, label, unlock, wrap_nonce) {
                (Err(fault), _) => Err(fault),
                (Ok(_), wrapped) => Ok(wrapped),
            },
        },
    }
}

/// How enrolling a key ends, and the vault that it leaves, given the draw for the nonce.
pub open spec fn adding(
    vault: VaultModel,
    current: UnlockModel,
    label: Seq<char>,
    new: UnlockModel,
    nonce: Result<Seq<u8>, Fault>,
) -> (Result<(), Fault>, VaultModel) {
    if has_label(vault.keys, label) {
        (Err(Fault::LabelExists { label }), vault)
    } else if has_cred(vault.keys, new.cred_id) {
        (Err(Fault::AlreadyEnrolled), vault)
    } else {
        match vault.data_key(current) {
            Err(fault) => (Err(fault), vault),
            Ok(key) => wrapping(vault, key, label, new, nonce),
        }
    }
}

/// How storing a password ends, and the vault that it leaves, given the draw for the nonce.
pub open spec fn setting(
    vault: VaultModel,
    unlock: UnlockModel,
    database: Seq<char>,
    secret: Seq<u8>,
    nonce: Result<Seq<u8>, Fault>,
) -> (Result<(), Fault>, VaultModel) {
    match vault.data_key(unlock) {
        Err(fault) => (Err(fault), vault),
        Ok(key) => sealing(
            vault.with_secrets(without_secret(vault.secrets, database)),
            key,
            database,
            secret,
            nonce,
        ),
    }
}

/// How dropping a password ends, and the vault that it leaves.
pub open spec fn dropping(vault: VaultModel, database: Seq<char>) -> (
    Result<(), Fault>,
    VaultModel,
) {
    if !has_name(vault.secrets, database) {
        (Err(Fault::NotStored { database }), vault)
    } else if vault.secrets.len() <= 1 {
        (Err(Fault::LastPassword), vault)
    } else {
        (Ok(()), vault.with_secrets(without_secret(vault.secrets, database)))
    }
}

/// The keys with other labels, in order.
pub open spec fn kept_keys(keys: Seq<KeyModel>, label: Seq<char>) -> Seq<KeyModel>
    decreases keys.len(),
{
    if keys.len() == 0 {
        Seq::empty()
    } else if keys[0].label == label {
        kept_keys(keys.skip(1), label)
    } else {
        seq![keys[0]] + kept_keys(keys.skip(1), label)
    }
}

/// Unlocks as plain bytes.
pub open spec fn unlocks(given: Seq<Unlock>) -> Seq<UnlockModel> {
    given.map_values(|u: Unlock| u@)
}

/// The first unlock for a credential.
pub open spec fn unlock_for(given: Seq<UnlockModel>, cred_id: Seq<u8>) -> Option<UnlockModel>
    decreases given.len(),
{
    if given.len() == 0 {
        None
    } else if given[0].cred_id == cred_id {
        Some(given[0])
    } else {
        unlock_for(given.skip(1), cred_id)
    }
}

/// Why the first of `kept` that is absent or wrong cannot stay, if one is.
pub open spec fn kept_fault(
    vault: VaultModel,
    kept: Seq<KeyModel>,
    given: Seq<UnlockModel>,
) -> Option<Fault>
    decreases kept.len(),
{
    if kept.len() == 0 {
        None
    } else {
        match unlock_for(given, kept[0].cred_id) {
            None => Some(Fault::KeyMissing { label: kept[0].label }),
            Some(unlock) => match vault.data_key(unlock) {
                Err(fault) => Some(fault),
                Ok(_) => kept_fault(vault, kept.skip(1), given),
            },
        }
    }
}

/// Why the first password that does not decrypt fails, if one does.
pub open spec fn secret_fault(key: Seq<u8>, secrets: Seq<SecretModel>) -> Option<Fault>
    decreases secrets.len(),
{
    if secrets.len() == 0 {
        None
    } else {
        match plain_of(key, secrets[0]) {
            Err(fault) => Some(fault),
            Ok(_) => secret_fault(key, secrets.skip(1)),
        }
    }
}

/// The smaller of two counts.
pub open spec fn at_most(count: nat, limit: nat) -> nat {
    if count < limit {
        count
    } else {
        limit
    }
}

/// How moving every password from the data key `from` to the data key `to` ends, and the vault
/// that it leaves. Each password and then each key takes the next nonce. A failed draw stops the
/// move where it stands.
pub open spec fn moving(
    vault: VaultModel,
    kept: Seq<KeyModel>,
    given: Seq<UnlockModel>,
    from: Seq<u8>,
    to: Seq<u8>,
    nonces: Seq<Result<Seq<u8>, Fault>>,
) -> (Result<(), Fault>, VaultModel) {
    let count = vault.secrets.len();
    let good = good_draws(nonces);
    let secrets = Seq::new(
        at_most(good, count),
        |i: int|
            sealed_entry(
                to,
                nonces[i]->Ok_0,
                vault.secrets[i].database,
                plain_of(from, vault.secrets[i])->Ok_0,
            ),
    );
    let keys = if good < count {
        vault.keys
    } else {
        Seq::new(
            at_most((good - count) as nat, kept.len()),
            |i: int|
                wrapped_entry(
                    to,
                    nonces[count + i]->Ok_0,
                    kept[i].label,
                    unlock_for(given, kept[i].cred_id)->0,
                ),
        )
    };
    let end: Result<(), Fault> = if good >= count + kept.len() {
        Ok(())
    } else {
        Err(nonces[good as int]->Err_0)
    };
    (end, VaultModel { secrets, keys, ..vault })
}

/// The data key that the first kept key unwraps.
pub open spec fn kept_key(
    vault: VaultModel,
    kept: Seq<KeyModel>,
    given: Seq<UnlockModel>,
) -> Seq<u8> {
    vault.data_key(unlock_for(given, kept[0].cred_id)->0)->Ok_0
}

/// Why the key labeled `label` cannot be dropped, if it cannot.
pub open spec fn removal_fault(
    vault: VaultModel,
    label: Seq<char>,
    given: Seq<UnlockModel>,
) -> Option<Fault> {
    let kept = kept_keys(vault.keys, label);
    if !has_label(vault.keys, label) {
        Some(Fault::NoSuchLabel { label })
    } else if vault.keys.len() <= 1 {
        Some(Fault::LastKey)
    } else if kept_fault(vault, kept, given) is Some {
        kept_fault(vault, kept, given)
    } else {
        secret_fault(kept_key(vault, kept, given), vault.secrets)
    }
}

/// How dropping a key ends, and the vault that it leaves, given the draws for the new data key and
/// for the nonces.
pub open spec fn removal(
    vault: VaultModel,
    label: Seq<char>,
    given: Seq<UnlockModel>,
    key: Result<Seq<u8>, Fault>,
    nonces: Seq<Result<Seq<u8>, Fault>>,
) -> (Result<(), Fault>, VaultModel) {
    let kept = kept_keys(vault.keys, label);
    match removal_fault(vault, label, given) {
        Some(fault) => (Err(fault), vault),
        None => match key {
            Err(fault) => (Err(fault), vault),
            Ok(to) => moving(vault, kept, given, kept_key(vault, kept, given), to, nonces),
        },
    }
}

/// Several keys are enrolled and all of them carry this label.
pub open spec fn only_label(keys: Seq<KeyModel>, label: Seq<char>) -> bool {
    &&& keys.len() > 1
    &&& forall|i: int| 0 <= i < keys.len() ==> (#[trigger] keys[i]).label == label
}

/// The bytes of a text in UTF-8.
fn utf8_bytes(s: &str) -> (bytes: Vec<u8>)
    ensures
        bytes@ == encode_utf8(s@),
{
    bytes_to_vec(s.as_bytes())
}

/// Binds each password to its database name, so entries cannot be swapped.
pub fn secret_aad(database: &str) -> (aad: Vec<u8>)
    ensures
        aad@ == aad_of(database@),
{
    if text_eq(database, ANY) {
        utf8_bytes("fido2kpxc-vault-v1")
    } else {
        let mut bound = "fido2kpxc-secret:".to_owned();
        bound.append(database);
        utf8_bytes(bound.as_str())
    }
}

/// Draws `count` bytes from the random source.
fn random(count: usize) -> (r: Result<Vec<u8>, VaultError>)
    requires
        count <= 32,
    ensures
        r matches Ok(bytes) ==> bytes@.len() == count,
        r matches Err(e) ==> e@ is Random,
{
    match random_bytes(count) {
        Ok(bytes) => Ok(bytes),
        Err(reason) => Err(VaultError::Random { reason }),
    }
}

/// Draws a data key.
fn random_key() -> (r: Result<SecretKey, VaultError>)
    ensures
        r matches Ok(key) ==> key@.len() == 32,
        r matches Err(e) ==> e@ is Random,
{
    match random(32) {
        Ok(bytes) => {
            let drawn = SecretBytes::new(bytes);
            Ok(SecretKey::new(array_32(drawn.expose())))
        },
        Err(error) => Err(error),
    }
}

impl Vault {
    /// A random salt for a new vault.
    pub fn new_salt() -> (r: Result<[u8; 32], VaultError>)
        ensures
            r matches Err(e) ==> e@ is Random,
    {
        Self::new_salt_with(random_bytes(32))
    }

    /// The salt that was drawn for a new vault, or why the draw failed.
    pub fn new_salt_with(draw: Result<Vec<u8>, String>) -> (r: Result<[u8; 32], VaultError>)
        requires
            draw matches Ok(bytes) ==> bytes@.len() == 32,
        ensures
            match draw {
                Ok(bytes) => r matches Ok(salt) && salt@ == bytes@,
                Err(reason) => r matches Err(e) && e@ == (Fault::Random { reason: reason@ }),
            },
    {
        match draw {
            Ok(bytes) => Ok(array_32(&bytes)),
            Err(reason) => Err(VaultError::Random { reason }),
        }
    }

    /// The salt that every security key derives its output from.
    pub fn salt(&self) -> (salt: [u8; 32])
        requires
            self@.salt.len() == 32,
        ensures
            salt@ == self@.salt,
    {
        array_32(&self.salt)
    }

    /// The credential IDs of the enrolled keys, in vault order.
    pub fn cred_ids(&self) -> (ids: Vec<&[u8]>)
        ensures
            ids@.len() == self@.keys.len(),
            forall|i: int| 0 <= i < ids@.len() ==> (#[trigger] ids@[i])@ == self@.keys[i].cred_id,
    {
        let mut ids: Vec<&[u8]> = Vec::new();
        for i in 0..self.keys.len()
            invariant
                ids@.len() == i,
                forall|j: int| 0 <= j < i ==> (#[trigger] ids@[j])@ == self@.keys[j].cred_id,
        {
            ids.push(self.keys[i].cred_id.as_slice());
        }
        ids
    }

    /// Stored database names, in vault order.
    pub fn databases(&self) -> (names: Vec<&str>)
        ensures
            names@.len() == self@.secrets.len(),
            forall|i: int|
                0 <= i < names@.len() ==> (#[trigger] names@[i])@ == self@.secrets[i].database,
    {
        let mut names: Vec<&str> = Vec::new();
        for i in 0..self.secrets.len()
            invariant
                names@.len() == i,
                forall|j: int|
                    0 <= j < i ==> (#[trigger] names@[j])@ == self@.secrets[j].database,
        {
            names.push(self.secrets[i].database.as_str());
        }
        names
    }

    /// Labels and credential IDs of the enrolled keys, in vault order.
    pub fn entries(&self) -> (entries: Vec<(&str, &[u8])>)
        ensures
            entries@.len() == self@.keys.len(),
            forall|i: int|
                #![trigger entries@[i]]
                0 <= i < entries@.len() ==> entries@[i].0@ == self@.keys[i].label
                    && entries@[i].1@ == self@.keys[i].cred_id,
    {
        let mut entries: Vec<(&str, &[u8])> = Vec::new();
        for i in 0..self.keys.len()
            invariant
                entries@.len() == i,
                forall|j: int|
                    #![trigger entries@[j]]
                    0 <= j < i ==> entries@[j].0@ == self@.keys[j].label && entries@[j].1@
                        == self@.keys[j].cred_id,
        {
            entries.push((self.keys[i].label.as_str(), self.keys[i].cred_id.as_slice()));
        }
        entries
    }

    /// The position of the first password stored under `name`.
    fn find_database(&self, name: &str) -> (found: Option<usize>)
        ensures
            found is Some <==> find_secret(self@.secrets, name@) is Some,
            found matches Some(i) ==> i < self.secrets@.len() && find_secret(self@.secrets, name@)
                == Some(self.secrets@[i as int]@),
    {
        let ghost all = self@.secrets;
        assert(all.skip(0) =~= all);
        for i in 0..self.secrets.len()
            invariant
                all == self@.secrets,
                find_secret(all, name@) == find_secret(all.skip(i as int), name@),
        {
            if text_eq(self.secrets[i].database.as_str(), name) {
                return Some(i);
            }
            assert(all.skip(i as int).skip(1) =~= all.skip(i + 1));
        }
        None
    }

    /// The position of the entry that answers for `database`.
    pub fn secret_for(&self, database: Option<&str>) -> (found: Option<usize>)
        ensures
            found is Some <==> self@.secret_for(opt_str(database)) is Some,
            found matches Some(i) ==> i < self.secrets@.len() && self@.secret_for(opt_str(database))
                == Some(self.secrets@[i as int]@),
    {
        if let Some(name) = database {
            let exact = self.find_database(name);
            if exact.is_some() {
                return exact;
            }
        }
        self.find_database(ANY)
    }

    /// True when `open` would find a password for `database`.
    pub fn has_secret_for(&self, database: Option<&str>) -> (found: bool)
        ensures
            found == (self@.secret_for(opt_str(database)) is Some),
    {
        self.secret_for(database).is_some()
    }

    /// The position of the key enrolled with `cred_id`.
    fn find_credential(&self, cred_id: &[u8]) -> (found: Option<usize>)
        ensures
            found is Some <==> find_key(self@.keys, cred_id@) is Some,
            found matches Some(i) ==> i < self.keys@.len() && find_key(self@.keys, cred_id@) == Some(
                self.keys@[i as int]@,
            ),
    {
        let ghost all = self@.keys;
        assert(all.skip(0) =~= all);
        for i in 0..self.keys.len()
            invariant
                all == self@.keys,
                find_key(all, cred_id@) == find_key(all.skip(i as int), cred_id@),
        {
            if bytes_eq(self.keys[i].cred_id.as_slice(), cred_id) {
                return Some(i);
            }
            assert(all.skip(i as int).skip(1) =~= all.skip(i + 1));
        }
        None
    }

    /// Unwraps the data key with a security key's output.
    pub fn unwrap(&self, unlock: &Unlock) -> (r: Result<SecretKey, VaultError>)
        requires
            self@.nonces_fit(),
        ensures
            r matches Ok(key) ==> self@.data_key(unlock@) == Ok::<Seq<u8>, Fault>(key@),
            r matches Err(e) ==> self@.data_key(unlock@) == Err::<Seq<u8>, Fault>(e@),
    {
        match self.find_credential(unlock.cred_id.as_slice()) {
            None => Err(VaultError::NotEnrolled),
            Some(i) => {
                let entry = &self.keys[i];
                assert(entry@ == self@.keys[i as int]);
                match decrypt(
                    unlock.output.expose(),
                    entry.nonce.as_slice(),
                    entry.wrapped_key.as_slice(),
                    entry.cred_id.as_slice(),
                ) {
                    None => Err(VaultError::KeyRejected { label: entry.label.clone() }),
                    Some(bytes) => {
                        let plain = SecretBytes::new(bytes);
                        if plain.expose().len() == 32 {
                            Ok(SecretKey::new(array_32(plain.expose())))
                        } else {
                            Err(VaultError::KeyLength)
                        }
                    },
                }
            },
        }
    }

    /// Decrypts one entry under the data key.
    fn decrypt(&self, key: &SecretKey, entry: &SecretEntry) -> (r: Result<SecretBytes, VaultError>)
        requires
            entry@.nonce.len() == 24,
        ensures
            r matches Ok(plain) ==> plain_of(key@, entry@) == Ok::<Seq<u8>, Fault>(plain@)
                && plain@.len() <= MESSAGE_LIMIT,
            r matches Err(e) ==> plain_of(key@, entry@) == Err::<Seq<u8>, Fault>(e@),
    {
        let aad = secret_aad(entry.database.as_str());
        match decrypt(
            key.expose(),
            entry.nonce.as_slice(),
            entry.ciphertext.as_slice(),
            aad.as_slice(),
        ) {
            Some(bytes) => Ok(SecretBytes::new(bytes)),
            None => Err(VaultError::SecretRejected { database: entry.database.clone() }),
        }
    }

    /// Decrypts the password for `database`: its own entry if one exists, else the [`ANY`] entry.
    pub fn open(&self, unlock: &Unlock, database: Option<&str>) -> (r: Result<
        SecretBytes,
        VaultError,
    >)
        requires
            self@.nonces_fit(),
        ensures
            r matches Ok(plain) ==> self@.password(unlock@, opt_str(database)) == Ok::<
                Seq<u8>,
                Fault,
            >(plain@),
            r matches Err(e) ==> self@.password(unlock@, opt_str(database)) == Err::<
                Seq<u8>,
                Fault,
            >(e@),
    {
        let key = match self.unwrap(unlock) {
            Ok(key) => key,
            Err(error) => return Err(error),
        };
        match self.secret_for(database) {
            None => {
                let name = match database {
                    Some(name) => Some(name.to_owned()),
                    None => None,
                };
                Err(VaultError::NoPassword { database: name })
            },
            Some(i) => {
                assert(self.secrets@[i as int]@ == self@.secrets[i as int]);
                self.decrypt(&key, &self.secrets[i])
            },
        }
    }
}

impl Vault {
    /// Encrypts a password with the nonce that was drawn for it and appends it.
    pub fn seal_with(
        &mut self,
        key: &SecretKey,
        database: &str,
        secret: &[u8],
        nonce: Result<Vec<u8>, VaultError>,
    ) -> (r: Result<(), VaultError>)
        requires
            draw_fits(drawn(nonce), 24),
        ensures
            (outcome(r), final(self)@) == sealing(
                old(self)@,
                key@,
                database@,
                secret@,
                drawn(nonce),
            ),
            r is Ok ==> sealed_as(final(self)@.secrets.last(), key@, database@, secret@),
    {
        let nonce = match nonce {
            Ok(nonce) => nonce,
            Err(error) => return Err(error),
        };
        let aad = secret_aad(database);
        match encrypt(key.expose(), nonce.as_slice(), secret, aad.as_slice()) {
            None => Err(VaultError::Encryption),
            Some(ciphertext) => {
                let ghost before = self@;
                self.secrets.push(
                    SecretEntry { database: database.to_owned(), nonce, ciphertext },
                );
                assert(self@ =~= before.with_secrets(
                    before.secrets.push(sealed_entry(key@, nonce@, database@, secret@)),
                ));
                Ok(())
            },
        }
    }

    /// Wraps the data key for a security key with the nonce that was drawn for it and appends it.
    pub fn wrap_with(
        &mut self,
        key: &SecretKey,
        label: &str,
        unlock: &Unlock,
        nonce: Result<Vec<u8>, VaultError>,
    ) -> (r: Result<(), VaultError>)
        requires
            draw_fits(drawn(nonce), 24),
        ensures
            (outcome(r), final(self)@) == wrapping(
                old(self)@,
                key@,
                label@,
                unlock@,
                drawn(nonce),
            ),
            r is Ok ==> wrapped_as(final(self)@.keys.last(), key@, label@, unlock@),
    {
        let nonce = match nonce {
            Ok(nonce) => nonce,
            Err(error) => return Err(error),
        };
        match encrypt(
            unlock.output.expose(),
            nonce.as_slice(),
            key.expose(),
            unlock.cred_id.as_slice(),
        ) {
            None => Err(VaultError::Encryption),
            Some(wrapped_key) => {
                let ghost before = self@;
                self.keys.push(
                    KeyEntry {
                        label: label.to_owned(),
                        cred_id: bytes_to_vec(unlock.cred_id.as_slice()),
                        nonce,
                        wrapped_key,
                    },
                );
                assert(self@ =~= before.with_keys(
                    before.keys.push(wrapped_entry(key@, nonce@, label@, unlock@)),
                ));
                Ok(())
            },
        }
    }
}

/// Draws a nonce.
fn random_nonce() -> (r: Result<Vec<u8>, VaultError>)
    ensures
        draw_fits(drawn(r), 24),
        r matches Err(e) ==> e@ is Random,
{
    random(24)
}

/// Draws `count` nonces.
fn random_nonces(count: usize) -> (draws: Vec<Result<Vec<u8>, VaultError>>)
    ensures
        draws@.len() == count,
        random_draws(all_drawn(draws@), 24),
{
    let mut draws: Vec<Result<Vec<u8>, VaultError>> = Vec::new();
    for i in 0..count
        invariant
            draws@.len() == i,
            random_draws(all_drawn(draws@), 24),
    {
        let draw = random_nonce();
        let ghost before = all_drawn(draws@);
        draws.push(draw);
        assert(all_drawn(draws@) =~= before.push(drawn(draw)));
    }
    draws
}

/// A failed draw is the random source's failure.
pub open spec fn random_draw(draw: Result<Seq<u8>, Fault>, count: nat) -> bool {
    &&& draw_fits(draw, count)
    &&& draw matches Err(fault) ==> fault is Random
}

/// Every draw comes from the random source.
pub open spec fn random_draws(draws: Seq<Result<Seq<u8>, Fault>>, count: nat) -> bool {
    forall|i: int| 0 <= i < draws.len() ==> random_draw(#[trigger] draws[i], count)
}

impl Vault {
    /// Creates a vault with the data key and the nonces that were drawn for it.
    pub fn create_with(
        salt: [u8; 32],
        label: &str,
        unlock: &Unlock,
        database: &str,
        secret: &[u8],
        key: Result<SecretKey, VaultError>,
        seal_nonce: Result<Vec<u8>, VaultError>,
        wrap_nonce: Result<Vec<u8>, VaultError>,
    ) -> (r: Result<Vault, VaultError>)
        requires
            draw_fits(drawn(seal_nonce), 24),
            draw_fits(drawn(wrap_nonce), 24),
        ensures
            created(r) == creation(
                salt@,
                label@,
                unlock@,
                database@,
                secret@,
                drawn_key(key),
                drawn(seal_nonce),
                drawn(wrap_nonce),
            ),
            r matches Ok(vault) ==> vault@.wf() && sealed_as(
                vault@.secrets[0],
                drawn_key(key)->Ok_0,
                database@,
                secret@,
            ) && wrapped_as(vault@.keys[0], drawn_key(key)->Ok_0, label@, unlock@),
    {
        let key = match key {
            Ok(key) => key,
            Err(error) => return Err(error),
        };
        let mut vault = Vault {
            version: VERSION,
            salt: bytes_to_vec(&salt),
            keys: Vec::new(),
            secrets: Vec::new(),
        };
        assert(vault@ =~= VaultModel {
            version: VERSION,
            salt: salt@,
            keys: Seq::empty(),
            secrets: Seq::empty(),
        });
        match vault.seal_with(&key, database, secret, seal_nonce) {
            Ok(()) => {},
            Err(error) => return Err(error),
        }
        match vault.wrap_with(&key, label, unlock, wrap_nonce) {
            Ok(()) => {},
            Err(error) => return Err(error),
        }
        Ok(vault)
    }

    /// Creates a vault that holds one password and one enrolled key, under a random data key.
    pub fn create(
        salt: [u8; 32],
        label: &str,
        unlock: &Unlock,
        database: &str,
        secret: &[u8],
    ) -> (r: Result<Vault, VaultError>)
        ensures
            exists|
                key: Result<Seq<u8>, Fault>,
                seal_nonce: Result<Seq<u8>, Fault>,
                wrap_nonce: Result<Seq<u8>, Fault>,
            | #[trigger]
                creation(
                    salt@,
                    label@,
                    unlock@,
                    database@,
                    secret@,
                    key,
                    seal_nonce,
                    wrap_nonce,
                ) == created(r) && random_draw(key, 32) && random_draw(seal_nonce, 24)
                    && random_draw(wrap_nonce, 24),
            r matches Ok(vault) ==> vault@.wf() && vault@.password(unlock@, Some(database@)) == Ok::<
                Seq<u8>,
                Fault,
            >(secret@),
            r is Ok && database@ == ANY@ ==> forall|name: Option<Seq<char>>| #[trigger]
                r->Ok_0@.password(unlock@, name) == Ok::<Seq<u8>, Fault>(secret@),
    {
        let key = random_key();
        let seal_nonce = random_nonce();
        let wrap_nonce = random_nonce();
        proof {
            reveal_with_fuel(find_secret, 2);
        }
        Self::create_with(salt, label, unlock, database, secret, key, seal_nonce, wrap_nonce)
    }

    /// True when a key with this label is enrolled.
    pub fn has_label(&self, label: &str) -> (found: bool)
        ensures
            found == has_label(self@.keys, label@),
    {
        for i in 0..self.keys.len()
            invariant
                forall|j: int| 0 <= j < i ==> (#[trigger] self@.keys[j]).label != label@,
        {
            if text_eq(self.keys[i].label.as_str(), label) {
                assert(self@.keys[i as int].label == label@);
                return true;
            }
        }
        false
    }

    /// True when a key with this credential is enrolled.
    pub fn has_cred(&self, cred_id: &[u8]) -> (found: bool)
        ensures
            found == has_cred(self@.keys, cred_id@),
    {
        for i in 0..self.keys.len()
            invariant
                forall|j: int| 0 <= j < i ==> (#[trigger] self@.keys[j]).cred_id != cred_id@,
        {
            if bytes_eq(self.keys[i].cred_id.as_slice(), cred_id) {
                assert(self@.keys[i as int].cred_id == cred_id@);
                return true;
            }
        }
        false
    }

    /// Enrolls another key with the nonce that was drawn for it.
    pub fn add_key_with(
        &mut self,
        current: &Unlock,
        label: &str,
        new: &Unlock,
        nonce: Result<Vec<u8>, VaultError>,
    ) -> (r: Result<(), VaultError>)
        requires
            old(self)@.nonces_fit(),
            draw_fits(drawn(nonce), 24),
        ensures
            (outcome(r), final(self)@) == adding(
                old(self)@,
                current@,
                label@,
                new@,
                drawn(nonce),
            ),
            r is Ok ==> key_added(old(self)@, current@, label@, new@, final(self)@),
            old(self)@.wf() ==> final(self)@.wf(),
    {
        if self.has_label(label) {
            return Err(VaultError::LabelExists { label: label.to_owned() });
        }
        if self.has_cred(new.cred_id.as_slice()) {
            return Err(VaultError::AlreadyEnrolled);
        }
        let key = match self.unwrap(current) {
            Ok(key) => key,
            Err(error) => return Err(error),
        };
        self.wrap_with(&key, label, new, nonce)
    }

    /// Enrolls another key, which `current` lets in.
    pub fn add_key(&mut self, current: &Unlock, label: &str, new: &Unlock) -> (r: Result<
        (),
        VaultError,
    >)
        requires
            old(self)@.nonces_fit(),
        ensures
            exists|nonce: Result<Seq<u8>, Fault>| #[trigger]
                adding(old(self)@, current@, label@, new@, nonce) == (
                    outcome(r),
                    final(self)@,
                ) && random_draw(nonce, 24),
            r is Ok ==> key_added(old(self)@, current@, label@, new@, final(self)@),
            old(self)@.wf() ==> final(self)@.wf(),
    {
        let nonce = random_nonce();
        self.add_key_with(current, label, new, nonce)
    }

    /// Drops the password stored under a name.
    fn retain_others(&mut self, database: &str)
        ensures
            final(self)@ == old(self)@.with_secrets(
                without_secret(old(self)@.secrets, database@),
            ),
    {
        let ghost before = self@;
        let ghost all = self@.secrets;
        let mut kept: Vec<SecretEntry> = Vec::new();
        let mut rest: Vec<SecretEntry> = Vec::new();
        std::mem::swap(&mut rest, &mut self.secrets);
        let ghost whole = rest@;
        let length: usize = rest.len();
        assert(all.skip(0) =~= all);
        assert(secret_models(kept@) + without_secret(all, database@) =~= without_secret(
            all,
            database@,
        ));
        for i in 0..length
            invariant
                all == secret_models(whole),
                whole.len() == length,
                rest@ =~= whole.skip(i as int),
                secret_models(kept@) + without_secret(all.skip(i as int), database@)
                    == without_secret(all, database@),
        {
            let entry = rest.remove(0);
            let ghost tail = all.skip(i as int);
            assert(tail[0] == entry@);
            assert(tail.skip(1) =~= all.skip(i + 1));
            if !text_eq(entry.database.as_str(), database) {
                let ghost had = secret_models(kept@);
                kept.push(entry);
                assert(secret_models(kept@) =~= had.push(entry@));
                assert(had.push(entry@) + without_secret(tail.skip(1), database@) =~= had
                    + without_secret(tail, database@));
            }
        }
        self.secrets = kept;
        assert(secret_models(kept@) + without_secret(all.skip(length as int), database@)
            =~= secret_models(kept@));
        assert(self@ =~= before.with_secrets(without_secret(all, database@)));
    }

    /// Adds or replaces the password for `database` with the nonce that was drawn for it.
    pub fn set_secret_with(
        &mut self,
        unlock: &Unlock,
        database: &str,
        secret: &[u8],
        nonce: Result<Vec<u8>, VaultError>,
    ) -> (r: Result<(), VaultError>)
        requires
            old(self)@.nonces_fit(),
            draw_fits(drawn(nonce), 24),
        ensures
            (outcome(r), final(self)@) == setting(
                old(self)@,
                unlock@,
                database@,
                secret@,
                drawn(nonce),
            ),
            r is Ok ==> secret_set(old(self)@, unlock@, database@, secret@, final(self)@),
            r is Ok && old(self)@.wf() ==> final(self)@.wf(),
    {
        let key = match self.unwrap(unlock) {
            Ok(key) => key,
            Err(error) => return Err(error),
        };
        self.retain_others(database);
        proof {
            others_differ(old(self)@.secrets, database@);
        }
        self.seal_with(&key, database, secret, nonce)
    }

    /// Adds or replaces the password for `database`.
    pub fn set_secret(&mut self, unlock: &Unlock, database: &str, secret: &[u8]) -> (r: Result<
        (),
        VaultError,
    >)
        requires
            old(self)@.nonces_fit(),
        ensures
            exists|nonce: Result<Seq<u8>, Fault>| #[trigger]
                setting(old(self)@, unlock@, database@, secret@, nonce) == (
                    outcome(r),
                    final(self)@,
                ) && random_draw(nonce, 24),
            r is Ok ==> secret_set(old(self)@, unlock@, database@, secret@, final(self)@),
            r is Ok && old(self)@.wf() ==> final(self)@.wf(),
    {
        let nonce = random_nonce();
        self.set_secret_with(unlock, database, secret, nonce)
    }

    /// True when a password is stored under this name.
    pub fn has_database(&self, database: &str) -> (found: bool)
        ensures
            found == has_name(self@.secrets, database@),
    {
        for i in 0..self.secrets.len()
            invariant
                forall|j: int|
                    0 <= j < i ==> (#[trigger] self@.secrets[j]).database != database@,
        {
            if text_eq(self.secrets[i].database.as_str(), database) {
                assert(self@.secrets[i as int].database == database@);
                return true;
            }
        }
        false
    }

    /// Drops the password for `database`, unless it is the last one.
    pub fn remove_secret(&mut self, database: &str) -> (r: Result<(), VaultError>)
        ensures
            (outcome(r), final(self)@) == dropping(old(self)@, database@),
            old(self)@.wf() ==> final(self)@.wf(),
    {
        if !self.has_database(database) {
            return Err(VaultError::NotStored { database: database.to_owned() });
        }
        if self.secrets.len() <= 1 {
            return Err(VaultError::LastPassword);
        }
        self.retain_others(database);
        proof {
            others_differ(old(self)@.secrets, database@);
            if names_differ(old(self)@.secrets) {
                others_stay(old(self)@.secrets, database@);
            }
        }
        Ok(())
    }
}

/// A vault's secrets as plain sequences.
pub open spec fn secret_models(secrets: Seq<SecretEntry>) -> Seq<SecretModel> {
    secrets.map_values(|s: SecretEntry| s@)
}

/// How creating a vault ended.
pub open spec fn created(r: Result<Vault, VaultError>) -> Result<VaultModel, Fault> {
    match r {
        Ok(vault) => Ok(vault@),
        Err(error) => Err(error@),
    }
}

/// `after` is `before` with one more key, which unwraps the data key that `current` unwraps.
pub open spec fn key_added(
    before: VaultModel,
    current: UnlockModel,
    label: Seq<char>,
    new: UnlockModel,
    after: VaultModel,
) -> bool {
    &&& !has_label(before.keys, label)
    &&& !has_cred(before.keys, new.cred_id)
    &&& before.data_key(current) is Ok
    &&& after == before.with_keys(before.keys.push(after.keys.last()))
    &&& wrapped_as(after.keys.last(), before.data_key(current)->Ok_0, label, new)
}

/// `after` is `before` with `secret` stored under `database` in place of what was there.
pub open spec fn secret_set(
    before: VaultModel,
    unlock: UnlockModel,
    database: Seq<char>,
    secret: Seq<u8>,
    after: VaultModel,
) -> bool {
    &&& before.data_key(unlock) is Ok
    &&& after == before.with_secrets(
        without_secret(before.secrets, database).push(after.secrets.last()),
    )
    &&& sealed_as(after.secrets.last(), before.data_key(unlock)->Ok_0, database, secret)
}

/// Nothing is left under the dropped name, what is left was there, and names stay distinct.
proof fn others_differ(secrets: Seq<SecretModel>, database: Seq<char>)
    ensures
        forall|i: int|
            0 <= i < without_secret(secrets, database).len() ==> secrets.contains(
                #[trigger] without_secret(secrets, database)[i],
            ) && without_secret(secrets, database)[i].database != database,
        names_differ(secrets) ==> names_differ(without_secret(secrets, database)),
    decreases secrets.len(),
{
    if secrets.len() > 0 {
        let rest = secrets.skip(1);
        let kept = without_secret(rest, database);
        let whole = without_secret(secrets, database);
        others_differ(rest, database);
        assert forall|i: int| 0 <= i < whole.len() implies secrets.contains(#[trigger] whole[i])
            && whole[i].database != database by {
            if secrets[0].database != database && i == 0 {
                assert(whole[0] == secrets[0]);
            } else {
                let j = if secrets[0].database == database {
                    i
                } else {
                    i - 1
                };
                assert(whole[i] == kept[j]);
                let at = choose|at: int| 0 <= at < rest.len() && rest[at] == kept[j];
                assert(secrets[at + 1] == whole[i]);
            }
        }
        if names_differ(secrets) {
            assert(names_differ(rest)) by {
                assert forall|i: int, j: int| 0 <= i < j < rest.len() implies (
                #[trigger] rest[i]).database != (#[trigger] rest[j]).database by {
                    assert(rest[i] == secrets[i + 1] && rest[j] == secrets[j + 1]);
                }
            }
            assert forall|i: int, j: int| 0 <= i < j < whole.len() implies (
            #[trigger] whole[i]).database != (#[trigger] whole[j]).database by {
                if secrets[0].database != database {
                    assert(whole[j] == kept[j - 1]);
                    if i == 0 {
                        let at = choose|at: int| 0 <= at < rest.len() && rest[at] == kept[j - 1];
                        assert(secrets[at + 1] == whole[j]);
                    } else {
                        assert(whole[i] == kept[i - 1]);
                    }
                }
            }
        }
    }
}

/// With distinct names, dropping one leaves all but one entry.
proof fn others_stay(secrets: Seq<SecretModel>, database: Seq<char>)
    requires
        names_differ(secrets),
    ensures
        without_secret(secrets, database).len() + 1 >= secrets.len(),
        !has_name(secrets, database) ==> without_secret(secrets, database) == secrets,
    decreases secrets.len(),
{
    if secrets.len() > 0 {
        let rest = secrets.skip(1);
        assert forall|i: int, j: int| 0 <= i < j < rest.len() implies (
        #[trigger] rest[i]).database != (#[trigger] rest[j]).database by {
            assert(rest[i] == secrets[i + 1] && rest[j] == secrets[j + 1]);
        }
        others_stay(rest, database);
        if secrets[0].database == database {
            assert forall|i: int| 0 <= i < rest.len() implies (#[trigger] rest[i]).database
                != database by {
                assert(rest[i] == secrets[i + 1]);
            }
        } else if !has_name(secrets, database) {
            assert forall|i: int| 0 <= i < rest.len() implies (#[trigger] rest[i]).database
                != database by {
                assert(rest[i] == secrets[i + 1]);
            }
            assert(secrets =~= seq![secrets[0]] + rest);
        }
    }
}

/// The position of the first unlock for a credential.
fn find_unlock(given: &[Unlock], cred_id: &[u8]) -> (found: Option<usize>)
    ensures
        found is Some <==> unlock_for(unlocks(given@), cred_id@) is Some,
        found matches Some(i) ==> i < given@.len() && unlock_for(unlocks(given@), cred_id@) == Some(
            given@[i as int]@,
        ),
{
    let ghost all = unlocks(given@);
    assert(all.skip(0) =~= all);
    for i in 0..given.len()
        invariant
            all == unlocks(given@),
            unlock_for(all, cred_id@) == unlock_for(all.skip(i as int), cred_id@),
    {
        if bytes_eq(given[i].cred_id.as_slice(), cred_id) {
            return Some(i);
        }
        assert(all.skip(i as int).skip(1) =~= all.skip(i + 1));
    }
    None
}

/// The labels of kept keys, each with the position of the unlock that opens it.
pub open spec fn kept_as(
    kept: Seq<(String, usize)>,
    keys: Seq<KeyModel>,
    given: Seq<UnlockModel>,
) -> bool {
    &&& kept.len() == keys.len()
    &&& forall|i: int|
        #![trigger kept[i]]
        0 <= i < kept.len() ==> kept[i].0@ == keys[i].label && kept[i].1 < given.len()
            && unlock_for(given, keys[i].cred_id) == Some(given[kept[i].1 as int])
}

/// The names of passwords, each with what it decrypts to.
pub open spec fn decrypted_as(
    plain: Seq<(String, SecretBytes)>,
    secrets: Seq<SecretModel>,
    key: Seq<u8>,
) -> bool {
    &&& plain.len() == secrets.len()
    &&& forall|i: int|
        #![trigger plain[i]]
        0 <= i < plain.len() ==> plain[i].0@ == secrets[i].database && plain_of(key, secrets[i])
            == Ok::<Seq<u8>, Fault>(plain[i].1@) && plain[i].1@.len() <= MESSAGE_LIMIT
}

proof fn kept_fault_of_prefix(
    vault: VaultModel,
    front: Seq<KeyModel>,
    back: Seq<KeyModel>,
    given: Seq<UnlockModel>,
)
    requires
        kept_fault(vault, front, given) is None,
    ensures
        kept_fault(vault, front + back, given) == kept_fault(vault, back, given),
    decreases front.len(),
{
    if front.len() == 0 {
        assert(front + back =~= back);
    } else {
        assert((front + back)[0] == front[0]);
        assert((front + back).skip(1) =~= front.skip(1) + back);
        kept_fault_of_prefix(vault, front.skip(1), back, given);
    }
}

/// No key stays exactly when every key carries the label.
pub proof fn kept_is_empty_for_one_label(keys: Seq<KeyModel>, label: Seq<char>)
    ensures
        kept_keys(keys, label).len() == 0 <==> (forall|i: int|
            0 <= i < keys.len() ==> (#[trigger] keys[i]).label == label),
    decreases keys.len(),
{
    if keys.len() > 0 {
        let rest = keys.skip(1);
        kept_is_empty_for_one_label(rest, label);
        if kept_keys(keys, label).len() == 0 {
            assert forall|i: int| 0 <= i < keys.len() implies (#[trigger] keys[i]).label
                == label by {
                if i > 0 {
                    assert(keys[i] == rest[i - 1]);
                }
            }
        }
        if forall|i: int| 0 <= i < keys.len() ==> (#[trigger] keys[i]).label == label {
            assert(keys[0].label == label);
            assert forall|i: int| 0 <= i < rest.len() implies (#[trigger] rest[i]).label
                == label by {
                assert(rest[i] == keys[i + 1]);
            }
        }
    }
}

proof fn good_draws_bounds(draws: Seq<Result<Seq<u8>, Fault>>)
    ensures
        good_draws(draws) <= draws.len(),
        forall|i: int| 0 <= i < good_draws(draws) ==> (#[trigger] draws[i]) is Ok,
        good_draws(draws) < draws.len() ==> draws[good_draws(draws) as int] is Err,
    decreases draws.len(),
{
    if draws.len() > 0 && draws[0] is Ok {
        let rest = draws.skip(1);
        good_draws_bounds(rest);
        assert forall|i: int| 0 <= i < good_draws(draws) implies (#[trigger] draws[i]) is Ok by {
            if i > 0 {
                assert(draws[i] == rest[i - 1]);
            }
        }
        if good_draws(draws) < draws.len() {
            assert(draws[good_draws(draws) as int] == rest[good_draws(rest) as int]);
        }
    }
}

impl Vault {
    /// True when several keys are enrolled and all of them carry this label.
    pub fn only_label(&self, label: &str) -> (only: bool)
        ensures
            only == only_label(self@.keys, label@),
    {
        for i in 0..self.keys.len()
            invariant
                forall|j: int| 0 <= j < i ==> (#[trigger] self@.keys[j]).label == label@,
        {
            if !text_eq(self.keys[i].label.as_str(), label) {
                assert(self@.keys[i as int].label != label@);
                return false;
            }
        }
        self.keys.len() > 1
    }

    /// Finds the unlock of every key that stays, and proves each output right.
    fn keep_others(&self, label: &str, remaining: &[Unlock]) -> (r: Result<
        Vec<(String, usize)>,
        VaultError,
    >)
        requires
            self@.nonces_fit(),
        ensures
            r matches Ok(kept) ==> kept_fault(
                self@,
                kept_keys(self@.keys, label@),
                unlocks(remaining@),
            ) is None && kept_as(kept@, kept_keys(self@.keys, label@), unlocks(remaining@)),
            r matches Err(e) ==> kept_fault(
                self@,
                kept_keys(self@.keys, label@),
                unlocks(remaining@),
            ) == Some(e@),
    {
        let ghost all = self@.keys;
        let ghost given = unlocks(remaining@);
        let ghost mut front: Seq<KeyModel> = Seq::empty();
        let mut kept: Vec<(String, usize)> = Vec::new();
        assert(all.skip(0) =~= all);
        assert(front + kept_keys(all, label@) =~= kept_keys(all, label@));
        for i in 0..self.keys.len()
            invariant
                self@.nonces_fit(),
                all == self@.keys,
                given == unlocks(remaining@),
                kept_keys(all, label@) == front + kept_keys(all.skip(i as int), label@),
                kept_fault(self@, front, given) is None,
                kept_as(kept@, front, given),
        {
            let entry = &self.keys[i];
            let ghost tail = all.skip(i as int);
            assert(tail[0] == entry@);
            assert(tail.skip(1) =~= all.skip(i + 1));
            if !text_eq(entry.label.as_str(), label) {
                let ghost back = kept_keys(tail, label@);
                proof {
                    kept_fault_of_prefix(self@, front, back, given);
                    assert(back[0] == entry@);
                }
                let at: usize = match find_unlock(remaining, entry.cred_id.as_slice()) {
                    Some(at) => at,
                    None => return Err(VaultError::KeyMissing { label: entry.label.clone() }),
                };
                match self.unwrap(&remaining[at]) {
                    Ok(_) => {},
                    Err(error) => return Err(error),
                }
                kept.push((entry.label.clone(), at));
                proof {
                    let one = seq![entry@];
                    assert(one.skip(1) =~= Seq::<KeyModel>::empty());
                    reveal_with_fuel(kept_fault, 2);
                    kept_fault_of_prefix(self@, front, one, given);
                    assert(front + back =~= (front + one) + kept_keys(tail.skip(1), label@));
                    front = front + one;
                }
            }
        }
        assert(front + kept_keys(all.skip(all.len() as int), label@) =~= front);
        Ok(kept)
    }

    /// Decrypts every password under the data key.
    fn decrypt_all(&self, key: &SecretKey) -> (r: Result<Vec<(String, SecretBytes)>, VaultError>)
        requires
            self@.nonces_fit(),
        ensures
            r matches Ok(plain) ==> secret_fault(key@, self@.secrets) is None && decrypted_as(
                plain@,
                self@.secrets,
                key@,
            ),
            r matches Err(e) ==> secret_fault(key@, self@.secrets) == Some(e@),
    {
        let ghost all = self@.secrets;
        let mut plain: Vec<(String, SecretBytes)> = Vec::new();
        assert(all.skip(0) =~= all);
        for i in 0..self.secrets.len()
            invariant
                self@.nonces_fit(),
                all == self@.secrets,
                secret_fault(key@, all) == secret_fault(key@, all.skip(i as int)),
                decrypted_as(plain@, all.take(i as int), key@),
        {
            let entry = &self.secrets[i];
            assert(entry@ == self@.secrets[i as int]);
            assert(all.skip(i as int).skip(1) =~= all.skip(i + 1));
            match self.decrypt(key, entry) {
                Ok(bytes) => plain.push((entry.database.clone(), bytes)),
                Err(error) => return Err(error),
            }
        }
        assert(all.take(all.len() as int) =~= all);
        Ok(plain)
    }

    /// Drops the key labeled `label` and moves every password to the data key that was drawn for
    /// it, with the nonces that were drawn for it.
    pub fn remove_key_with(
        &mut self,
        label: &str,
        remaining: &[Unlock],
        key: Result<SecretKey, VaultError>,
        nonces: Vec<Result<Vec<u8>, VaultError>>,
    ) -> (r: Result<(), VaultError>)
        requires
            old(self)@.nonces_fit(),
            !only_label(old(self)@.keys, label@),
            nonces@.len() >= old(self)@.secrets.len() + old(self)@.keys.len(),
            forall|i: int|
                0 <= i < nonces@.len() ==> draw_fits(#[trigger] all_drawn(nonces@)[i], 24),
        ensures
            (outcome(r), final(self)@) == removal(
                old(self)@,
                label@,
                unlocks(remaining@),
                drawn_key(key),
                all_drawn(nonces@),
            ),
            r is Ok ==> key_removed(
                old(self)@,
                label@,
                unlocks(remaining@),
                drawn_key(key)->Ok_0,
                final(self)@,
            ),
            r is Ok && old(self)@.wf() ==> final(self)@.wf(),
    {
        let mut queue = nonces;
        let ghost before = self@;
        let ghost given = unlocks(remaining@);
        let ghost keys = kept_keys(self@.keys, label@);
        let ghost draws = all_drawn(nonces@);
        let ghost good = good_draws(draws);
        if !self.has_label(label) {
            return Err(VaultError::NoSuchLabel { label: label.to_owned() });
        }
        if self.keys.len() <= 1 {
            return Err(VaultError::LastKey);
        }
        proof {
            kept_is_empty_for_one_label(before.keys, label@);
            good_draws_bounds(draws);
            kept_are_fewer(before.keys, label@);
        }
        let kept = match self.keep_others(label, remaining) {
            Ok(kept) => kept,
            Err(error) => return Err(error),
        };
        let from = match self.unwrap(&remaining[kept[0].1]) {
            Ok(from) => from,
            Err(error) => return Err(error),
        };
        let plain = match self.decrypt_all(&from) {
            Ok(plain) => plain,
            Err(error) => return Err(error),
        };
        let to = match key {
            Ok(to) => to,
            Err(error) => return Err(error),
        };
        let bytes = to.expose();
        assert(bytes@.len() == 32);
        let ghost count = before.secrets.len();
        let ghost end = moving(before, keys, given, from@, to@, draws);
        self.secrets.clear();
        assert(self@ =~= before.with_secrets(Seq::empty()));
        for i in 0..plain.len()
            invariant
                decrypted_as(plain@, before.secrets, from@),
                count == before.secrets.len(),
                draws.len() >= count,
                all_drawn(queue@) =~= draws.skip(i as int),
                good == good_draws(draws),
                forall|j: int| 0 <= j < draws.len() ==> draw_fits(#[trigger] draws[j], 24),
                i <= good,
                good <= draws.len(),
                good < draws.len() ==> draws[good as int] is Err,
                forall|j: int| 0 <= j < good ==> (#[trigger] draws[j]) is Ok,
                end == removal(
                    before,
                    label@,
                    unlocks(remaining@),
                    drawn_key(key),
                    all_drawn(nonces@),
                ),
                before == old(self)@,
                queue@.len() == draws.len() - i,
                end == moving(before, keys, given, from@, to@, draws),
                secrets_moved(before.secrets.take(i as int), from@, to@, self@.secrets),
                self@.secrets =~= end.1.secrets.take(i as int),
                self@ == before.with_secrets(self@.secrets),
        {
            let ghost held = all_drawn(queue@);
            assert(held[0] == draws[i as int]);
            let ghost had = self@.secrets;
            let nonce = queue.remove(0);
            assert(drawn(nonce) == draws[i as int]);
            assert(all_drawn(queue@) =~= held.skip(1));
            assert(held.skip(1) =~= draws.skip(i + 1));
            match self.seal_with(&to, plain[i].0.as_str(), plain[i].1.expose(), nonce) {
                Ok(()) => {},
                Err(error) => {
                    assert(i == good);
                    assert(self@ =~= end.1);
                    return Err(error);
                },
            }
            assert(i < good);
            assert(self@.secrets =~= had.push(end.1.secrets[i as int]));
            proof {
                let now = self@.secrets;
                let part = before.secrets.take(i + 1);
                assert forall|j: int| 0 <= j < now.len() implies secret_moved(
                    part[j],
                    from@,
                    to@,
                    #[trigger] now[j],
                ) by {
                    if j < i {
                        assert(now[j] == had[j]);
                    } else {
                        assert(now[j] == now.last());
                        assert(plain@[j].1@ == plain_of(from@, part[j])->Ok_0);
                    }
                }
            }
        }
        self.keys.clear();
        assert(end.1.secrets.take(count as int) =~= end.1.secrets);
        assert(before.secrets.take(count as int) =~= before.secrets);
        assert(self@ =~= before.with_secrets(end.1.secrets).with_keys(Seq::empty()));
        for i in 0..kept.len()
            invariant
                kept_as(kept@, keys, given),
                given == unlocks(remaining@),
                draws.len() >= count + keys.len(),
                all_drawn(queue@) =~= draws.skip(count + i),
                good == good_draws(draws),
                forall|j: int| 0 <= j < draws.len() ==> draw_fits(#[trigger] draws[j], 24),
                count + i <= good,
                count == before.secrets.len(),
                good <= draws.len(),
                good < draws.len() ==> draws[good as int] is Err,
                forall|j: int| 0 <= j < good ==> (#[trigger] draws[j]) is Ok,
                end == removal(
                    before,
                    label@,
                    unlocks(remaining@),
                    drawn_key(key),
                    all_drawn(nonces@),
                ),
                before == old(self)@,
                queue@.len() == draws.len() - count - i,
                end == moving(before, keys, given, from@, to@, draws),
                keys_moved(keys.take(i as int), given, to@, self@.keys),
                self@.keys =~= end.1.keys.take(i as int),
                self@ == before.with_secrets(end.1.secrets).with_keys(self@.keys),
        {
            let ghost held = all_drawn(queue@);
            assert(held[0] == draws[count + i]);
            let ghost had = self@.keys;
            let nonce = queue.remove(0);
            assert(drawn(nonce) == draws[count + i]);
            assert(all_drawn(queue@) =~= held.skip(1));
            assert(held.skip(1) =~= draws.skip(count + i + 1));
            match self.wrap_with(&to, kept[i].0.as_str(), &remaining[kept[i].1], nonce) {
                Ok(()) => {},
                Err(error) => {
                    assert(count + i == good);
                    assert(self@ =~= end.1);
                    return Err(error);
                },
            }
            assert(count + i < good);
            assert(self@.keys =~= had.push(end.1.keys[i as int]));
            proof {
                let now = self@.keys;
                let part = keys.take(i + 1);
                assert forall|j: int| 0 <= j < now.len() implies key_moved(
                    part[j],
                    given,
                    to@,
                    #[trigger] now[j],
                ) by {
                    if j < i {
                        assert(now[j] == had[j]);
                    } else {
                        assert(now[j] == now.last());
                        assert(kept@[j].0@ == part[j].label);
                    }
                }
            }
        }
        assert(end.1.keys.take(keys.len() as int) =~= end.1.keys);
        assert(keys.take(keys.len() as int) =~= keys);
        assert(self@ =~= end.1);
        assert(key_removed(before, label@, given, to@, self@));
        assert(names_differ(before.secrets) ==> names_differ(self@.secrets)) by {
            assert forall|i: int, j: int|
                names_differ(before.secrets) && 0 <= i < j < self@.secrets.len() implies (
            #[trigger] self@.secrets[i]).database != (#[trigger] self@.secrets[j]).database by {
                assert(before.secrets[i].database != before.secrets[j].database);
            }
        }
        Ok(())
    }

    /// Drops the key labeled `label` and moves every password to a new data key. A removed key that
    /// kept an old vault copy knows the old data key, so every remaining key must be present in
    /// `remaining` to wrap the new one.
    pub fn remove_key(&mut self, label: &str, remaining: &[Unlock]) -> (r: Result<(), VaultError>)
        requires
            old(self)@.nonces_fit(),
            !only_label(old(self)@.keys, label@),
        ensures
            exists|key: Result<Seq<u8>, Fault>, nonces: Seq<Result<Seq<u8>, Fault>>| #[trigger]
                removal(old(self)@, label@, unlocks(remaining@), key, nonces) == (
                    outcome(r),
                    final(self)@,
                ) && random_draw(key, 32) && random_draws(nonces, 24) && nonces.len()
                    == old(self)@.secrets.len() + old(self)@.keys.len(),
            r is Ok ==> exists|key: Seq<u8>| #[trigger]
                key_removed(old(self)@, label@, unlocks(remaining@), key, final(self)@),
            r is Ok && old(self)@.wf() ==> final(self)@.wf(),
    {
        let key = random_key();
        let mut nonces = random_nonces(self.secrets.len());
        let mut more = random_nonces(self.keys.len());
        let ghost all = nonces@ + more@;
        let ghost (first, second) = (all_drawn(nonces@), all_drawn(more@));
        nonces.append(&mut more);
        assert(nonces@ =~= all);
        assert(all_drawn(nonces@) =~= first + second);
        self.remove_key_with(label, remaining, key, nonces)
    }
}

/// `after` holds the password of `before`, moved from one data key to another.
pub open spec fn secret_moved(
    before: SecretModel,
    from: Seq<u8>,
    to: Seq<u8>,
    after: SecretModel,
) -> bool {
    &&& plain_of(from, before) is Ok
    &&& sealed_as(after, to, before.database, plain_of(from, before)->Ok_0)
}

/// `after` holds a new data key, wrapped for the kept key.
pub open spec fn key_moved(
    kept: KeyModel,
    given: Seq<UnlockModel>,
    to: Seq<u8>,
    after: KeyModel,
) -> bool {
    &&& unlock_for(given, kept.cred_id) is Some
    &&& wrapped_as(after, to, kept.label, unlock_for(given, kept.cred_id)->0)
}

/// `after` holds each password of `before` again, moved from one data key to another.
pub open spec fn secrets_moved(
    before: Seq<SecretModel>,
    from: Seq<u8>,
    to: Seq<u8>,
    after: Seq<SecretModel>,
) -> bool {
    &&& after.len() == before.len()
    &&& forall|i: int|
        0 <= i < after.len() ==> secret_moved(before[i], from, to, #[trigger] after[i])
}

/// `after` holds each of the kept keys again, with a new data key wrapped for it.
pub open spec fn keys_moved(
    kept: Seq<KeyModel>,
    given: Seq<UnlockModel>,
    to: Seq<u8>,
    after: Seq<KeyModel>,
) -> bool {
    &&& after.len() == kept.len()
    &&& forall|i: int|
        0 <= i < after.len() ==> key_moved(kept[i], given, to, #[trigger] after[i])
}

/// `after` is `before` without the keys labeled `label`, with every password and every other key
/// moved to the data key `to`.
pub open spec fn key_removed(
    before: VaultModel,
    label: Seq<char>,
    given: Seq<UnlockModel>,
    to: Seq<u8>,
    after: VaultModel,
) -> bool {
    let kept = kept_keys(before.keys, label);
    &&& removal_fault(before, label, given) is None
    &&& kept.len() > 0
    &&& to.len() == 32
    &&& after.version == before.version
    &&& after.salt == before.salt
    &&& secrets_moved(before.secrets, kept_key(before, kept, given), to, after.secrets)
    &&& keys_moved(kept, given, to, after.keys)
}

proof fn kept_are_fewer(keys: Seq<KeyModel>, label: Seq<char>)
    ensures
        kept_keys(keys, label).len() <= keys.len(),
    decreases keys.len(),
{
    if keys.len() > 0 {
        kept_are_fewer(keys.skip(1), label);
    }
}

/// Why a vault that was read cannot be used, if it cannot.
pub open spec fn invalid(vault: VaultModel) -> Option<Fault> {
    if vault.salt.len() != 32 {
        Some(Fault::SaltLength)
    } else if vault.keys.len() == 0 {
        Some(Fault::NoKeys)
    } else if vault.secrets.len() == 0 {
        Some(Fault::NoSecrets)
    } else if !vault.nonces_fit() {
        Some(Fault::NonceLength)
    } else if !names_differ(vault.secrets) {
        Some(Fault::DuplicateDatabase)
    } else {
        None
    }
}

/// What one security key opens.
#[derive(Debug)]
pub struct Check {
    pub label: String,
    pub opened: Vec<String>,
    pub failed: Vec<String>,
}

/// The names whose password decrypts (or does not) under a data key, in order.
pub open spec fn names_that(secrets: Seq<SecretModel>, key: Seq<u8>, opens: bool) -> Seq<Seq<char>>
    decreases secrets.len(),
{
    if secrets.len() == 0 {
        Seq::empty()
    } else if plain_of(key, secrets.last()) is Ok == opens {
        names_that(secrets.drop_last(), key, opens).push(secrets.last().database)
    } else {
        names_that(secrets.drop_last(), key, opens)
    }
}

impl Vault {
    /// True when every nonce has the cipher's length.
    pub fn nonces_fit(&self) -> (fit: bool)
        ensures
            fit == self@.nonces_fit(),
    {
        for i in 0..self.keys.len()
            invariant
                forall|j: int| 0 <= j < i ==> (#[trigger] self@.keys[j]).nonce.len() == 24,
        {
            if self.keys[i].nonce.len() != 24 {
                assert(self@.keys[i as int].nonce.len() != 24);
                return false;
            }
        }
        for i in 0..self.secrets.len()
            invariant
                forall|j: int| 0 <= j < i ==> (#[trigger] self@.secrets[j]).nonce.len() == 24,
        {
            if self.secrets[i].nonce.len() != 24 {
                assert(self@.secrets[i as int].nonce.len() != 24);
                return false;
            }
        }
        true
    }

    /// True when no database name is stored twice.
    fn names_differ(&self) -> (differ: bool)
        ensures
            differ == names_differ(self@.secrets),
    {
        for j in 0..self.secrets.len()
            invariant
                forall|a: int, b: int|
                    0 <= a < b < j ==> (#[trigger] self@.secrets[a]).database != (
                    #[trigger] self@.secrets[b]).database,
        {
            for i in 0..j
                invariant
                    j < self.secrets@.len(),
                    forall|a: int|
                        0 <= a < i ==> (#[trigger] self@.secrets[a]).database
                            != self@.secrets[j as int].database,
            {
                if text_eq(self.secrets[i].database.as_str(), self.secrets[j].database.as_str()) {
                    assert(self@.secrets[i as int].database == self@.secrets[j as int].database);
                    return false;
                }
            }
        }
        true
    }

    /// Checks a vault that was read.
    pub fn validate(&self) -> (r: Result<(), VaultError>)
        ensures
            r is Ok <==> invalid(self@) is None,
            r is Ok <==> self@.wf(),
            r matches Err(e) ==> invalid(self@) == Some(e@),
    {
        if self.salt.len() != 32 {
            return Err(VaultError::SaltLength);
        }
        if self.keys.len() == 0 {
            return Err(VaultError::NoKeys);
        }
        if self.secrets.len() == 0 {
            return Err(VaultError::NoSecrets);
        }
        if !self.nonces_fit() {
            return Err(VaultError::NonceLength);
        }
        if !self.names_differ() {
            return Err(VaultError::DuplicateDatabase);
        }
        Ok(())
    }

    /// Tries every stored password with a security key.
    pub fn check(&self, unlock: &Unlock) -> (r: Result<Check, VaultError>)
        requires
            self@.nonces_fit(),
        ensures
            r is Ok <==> self@.data_key(unlock@) is Ok,
            r matches Err(e) ==> self@.data_key(unlock@) == Err::<Seq<u8>, Fault>(e@),
            r matches Ok(check) ==> {
                let key = self@.data_key(unlock@)->Ok_0;
                &&& check.label@ == find_key(self@.keys, unlock@.cred_id)->0.label
                &&& texts(check.opened@) == names_that(self@.secrets, key, true)
                &&& texts(check.failed@) == names_that(self@.secrets, key, false)
            },
    {
        let key = match self.unwrap(unlock) {
            Ok(key) => key,
            Err(error) => return Err(error),
        };
        let label = match self.find_credential(unlock.cred_id.as_slice()) {
            Some(i) => self.keys[i].label.clone(),
            None => return Err(VaultError::NotEnrolled),
        };
        let ghost all = self@.secrets;
        let mut opened: Vec<String> = Vec::new();
        let mut failed: Vec<String> = Vec::new();
        for i in 0..self.secrets.len()
            invariant
                self@.nonces_fit(),
                all == self@.secrets,
                texts(opened@) =~= names_that(all.take(i as int), key@, true),
                texts(failed@) =~= names_that(all.take(i as int), key@, false),
        {
            let entry = &self.secrets[i];
            assert(entry@ == self@.secrets[i as int]);
            assert(all.take(i + 1).drop_last() =~= all.take(i as int));
            let name = entry.database.clone();
            let ghost had = (texts(opened@), texts(failed@));
            match self.decrypt(&key, entry) {
                Ok(_) => {
                    opened.push(name);
                    assert(texts(opened@) =~= had.0.push(name@));
                },
                Err(_) => {
                    failed.push(name);
                    assert(texts(failed@) =~= had.1.push(name@));
                },
            }
        }
        assert(all.take(all.len() as int) =~= all);
        Ok(Check { label, opened, failed })
    }
}

} // verus!
