//! The vault file: TOML with every byte string in base64.

use vstd::prelude::*;
use vstd::utf8::*;

use super::{
    aad_of, invalid, KeyEntry, KeyModel, SecretEntry, SecretModel, Vault, VaultModel, ANY, VERSION,
};
use crate::crypto::{base64_bytes, base64_decode, base64_encode, base64_text};
use crate::error::{Fault, VaultError};

verus! {

/// A key entry as the file holds it.
#[derive(Debug)]
pub struct KeyFile {
    pub label: String,
    pub cred_id: String,
    pub nonce: String,
    pub wrapped_key: String,
}

/// A [`KeyFile`] as characters.
#[verifier::ext_equal]
pub struct KeyText {
    pub label: Seq<char>,
    pub cred_id: Seq<char>,
    pub nonce: Seq<char>,
    pub wrapped_key: Seq<char>,
}

impl View for KeyFile {
    type V = KeyText;

    open spec fn view(&self) -> KeyText {
        KeyText {
            label: self.label@,
            cred_id: self.cred_id@,
            nonce: self.nonce@,
            wrapped_key: self.wrapped_key@,
        }
    }
}

/// A password entry as the file holds it.
#[derive(Debug)]
pub struct SecretFile {
    pub database: String,
    pub nonce: String,
    pub ciphertext: String,
}

/// A [`SecretFile`] as characters.
#[verifier::ext_equal]
pub struct SecretText {
    pub database: Seq<char>,
    pub nonce: Seq<char>,
    pub ciphertext: Seq<char>,
}

impl View for SecretFile {
    type V = SecretText;

    open spec fn view(&self) -> SecretText {
        SecretText {
            database: self.database@,
            nonce: self.nonce@,
            ciphertext: self.ciphertext@,
        }
    }
}

/// The version 2 layout: any number of passwords.
#[derive(Debug)]
pub struct VaultFile {
    pub version: u32,
    pub salt: String,
    pub keys: Vec<KeyFile>,
    pub secrets: Vec<SecretFile>,
}

/// A [`VaultFile`] as characters.
#[verifier::ext_equal]
pub struct VaultText {
    pub version: u32,
    pub salt: Seq<char>,
    pub keys: Seq<KeyText>,
    pub secrets: Seq<SecretText>,
}

impl View for VaultFile {
    type V = VaultText;

    open spec fn view(&self) -> VaultText {
        VaultText {
            version: self.version,
            salt: self.salt@,
            keys: self.keys@.map_values(|k: KeyFile| k@),
            secrets: self.secrets@.map_values(|s: SecretFile| s@),
        }
    }
}

/// The version 1 layout: one password, which now loads as the [`ANY`] entry.
#[derive(Debug)]
pub struct VaultFileV1 {
    pub salt: String,
    pub nonce: String,
    pub ciphertext: String,
    pub keys: Vec<KeyFile>,
}

impl VaultFileV1 {
    /// The same vault in the version 2 layout.
    pub open spec fn upgraded(self) -> VaultText {
        VaultText {
            version: VERSION,
            salt: self.salt@,
            keys: self.keys@.map_values(|k: KeyFile| k@),
            secrets: seq![
                SecretText {
                    database: ANY@,
                    nonce: self.nonce@,
                    ciphertext: self.ciphertext@,
                },
            ],
        }
    }

    /// Moves a version 1 vault to the version 2 layout.
    pub fn upgrade(self) -> (file: VaultFile)
        ensures
            file@ == self.upgraded(),
    {
        let mut secrets: Vec<SecretFile> = Vec::new();
        secrets.push(
            SecretFile {
                database: ANY.to_owned(),
                nonce: self.nonce,
                ciphertext: self.ciphertext,
            },
        );
        let file = VaultFile { version: VERSION, salt: self.salt, keys: self.keys, secrets };
        assert(file@ =~= self.upgraded());
        file
    }
}

/// Which layout a vault file uses.
#[derive(Debug, PartialEq, Eq, Structural, Clone, Copy)]
pub enum Layout {
    Version1,
    Version2,
}

/// The layout that a version number stands for.
pub open spec fn layout_of(version: Option<i64>) -> Result<Layout, Fault> {
    match version {
        None => Err(Fault::NoVersion),
        Some(version) => if version == 1 {
            Ok(Layout::Version1)
        } else if version == 2 {
            Ok(Layout::Version2)
        } else {
            Err(Fault::UnsupportedVersion { version })
        },
    }
}

#[verifier::external_type_specification]
#[verifier::external_body]
#[verifier::reject_recursive_types(K)]
#[verifier::reject_recursive_types(V)]
pub struct ExTomlMap<K, V>(toml::map::Map<K, V>);

#[verifier::external_type_specification]
#[verifier::external_body]
pub struct ExTomlValue(toml::Value);

/// What a TOML table holds: its keys, each with its integer if it holds one.
pub uninterp spec fn table_integers(table: toml::Table) -> Map<Seq<char>, Option<i64>>;

/// What the top table of a TOML document holds, or what is wrong with a text that is none, in words.
pub uninterp spec fn toml_integers(text: Seq<char>) -> Result<
    Map<Seq<char>, Option<i64>>,
    Seq<char>,
>;

/// What a parsed table holds, with the error as characters.
pub open spec fn as_parsed(r: Result<toml::Table, String>) -> Result<
    Map<Seq<char>, Option<i64>>,
    Seq<char>,
> {
    match r {
        Ok(table) => Ok(table_integers(table)),
        Err(error) => Err(error@),
    }
}

/// `toml::from_str` into a `toml::Table`, with its error in words.
#[verifier::external_body]
fn parse_table(text: &str) -> (r: Result<toml::Table, String>)
    ensures
        as_parsed(r) == toml_integers(text@),
{
    toml::from_str::<toml::Table>(text).map_err(|e| e.to_string())
}

/// `Table::get`, with the value turned by `Value::as_integer` into its integer, if it is one. A key that
/// the table lacks yields nothing.
#[verifier::external_body]
fn get_integer(table: &toml::Table, key: &str) -> (found: Option<Option<i64>>)
    ensures
        found is Some <==> table_integers(*table).contains_key(key@),
        found matches Some(value) ==> value == table_integers(*table)[key@],
{
    table.get(key).map(toml::Value::as_integer)
}

/// The integer under a key, if the key is there and holds one.
pub open spec fn integer_under(integers: Map<Seq<char>, Option<i64>>, key: Seq<char>) -> Option<
    i64,
> {
    if integers.contains_key(key) {
        integers[key]
    } else {
        None
    }
}

impl Layout {
    /// The layout for the version that a vault file states.
    pub fn of(version: Option<i64>) -> (r: Result<Layout, VaultError>)
        ensures
            r matches Ok(layout) ==> layout_of(version) == Ok::<Layout, Fault>(layout),
            r matches Err(e) ==> layout_of(version) == Err::<Layout, Fault>(e@),
    {
        match version {
            None => Err(VaultError::NoVersion),
            Some(version) => if version == 1 {
                Ok(Layout::Version1)
            } else if version == 2 {
                Ok(Layout::Version2)
            } else {
                Err(VaultError::UnsupportedVersion { version })
            },
        }
    }

    /// The layout of a vault file's text.
    pub fn read(text: &str) -> (r: Result<Layout, VaultError>)
        ensures
            match toml_integers(text@) {
                Err(reason) => r matches Err(e) && e@ == (Fault::Unreadable { reason }),
                Ok(integers) => match r {
                    Ok(layout) => layout_of(integer_under(integers, "version"@)) == Ok::<
                        Layout,
                        Fault,
                    >(layout),
                    Err(e) => layout_of(integer_under(integers, "version"@)) == Err::<
                        Layout,
                        Fault,
                    >(e@),
                },
            },
    {
        let table = match parse_table(text) {
            Ok(table) => table,
            Err(reason) => return Err(VaultError::Unreadable { reason }),
        };
        match get_integer(&table, "version") {
            Some(version) => Layout::of(version),
            None => Layout::of(None),
        }
    }
}

/// A key entry with its byte strings decoded, if all of them are base64.
pub open spec fn decoded_key(file: KeyText) -> Option<KeyModel> {
    match (base64_bytes(file.cred_id), base64_bytes(file.nonce), base64_bytes(file.wrapped_key)) {
        (Ok(cred_id), Ok(nonce), Ok(wrapped_key)) => Some(
            KeyModel { label: file.label, cred_id, nonce, wrapped_key },
        ),
        _ => None,
    }
}

/// A password entry with its byte strings decoded, if both of them are base64.
pub open spec fn decoded_secret(file: SecretText) -> Option<SecretModel> {
    match (base64_bytes(file.nonce), base64_bytes(file.ciphertext)) {
        (Ok(nonce), Ok(ciphertext)) => Some(
            SecretModel { database: file.database, nonce, ciphertext },
        ),
        _ => None,
    }
}

/// What is wrong with a text that should be base64, if anything.
pub open spec fn string_fault(text: Seq<char>) -> Option<Seq<char>> {
    match base64_bytes(text) {
        Ok(_) => None,
        Err(fault) => Some(fault),
    }
}

/// The first of two faults.
pub open spec fn first_of(a: Option<Seq<char>>, b: Option<Seq<char>>) -> Option<Seq<char>> {
    if a is Some {
        a
    } else {
        b
    }
}

/// What is wrong with the first byte string of a key entry that is no base64, if one is not.
pub open spec fn key_fault(file: KeyText) -> Option<Seq<char>> {
    first_of(
        string_fault(file.cred_id),
        first_of(string_fault(file.nonce), string_fault(file.wrapped_key)),
    )
}

/// What is wrong with the first byte string of a password entry that is no base64, if one is not.
pub open spec fn secret_fault(file: SecretText) -> Option<Seq<char>> {
    first_of(string_fault(file.nonce), string_fault(file.ciphertext))
}

/// What is wrong with the first key entry that does not decode, if one does not.
pub open spec fn keys_fault(keys: Seq<KeyText>) -> Option<Seq<char>>
    decreases keys.len(),
{
    if keys.len() == 0 {
        None
    } else {
        first_of(key_fault(keys[0]), keys_fault(keys.skip(1)))
    }
}

/// What is wrong with the first password entry that does not decode, if one does not.
pub open spec fn secrets_fault(secrets: Seq<SecretText>) -> Option<Seq<char>>
    decreases secrets.len(),
{
    if secrets.len() == 0 {
        None
    } else {
        first_of(secret_fault(secrets[0]), secrets_fault(secrets.skip(1)))
    }
}

/// What is wrong with the first byte string of a file that is no base64, if one is not.
pub open spec fn file_fault(file: VaultText) -> Option<Seq<char>> {
    first_of(
        string_fault(file.salt),
        first_of(keys_fault(file.keys), secrets_fault(file.secrets)),
    )
}

proof fn keys_decode(keys: Seq<KeyText>)
    ensures
        keys_fault(keys) is None <==> (forall|i: int|
            0 <= i < keys.len() ==> decoded_key(#[trigger] keys[i]) is Some),
    decreases keys.len(),
{
    if keys.len() > 0 {
        let rest = keys.skip(1);
        keys_decode(rest);
        if keys_fault(keys) is None {
            assert forall|i: int| 0 <= i < keys.len() implies decoded_key(
                #[trigger] keys[i],
            ) is Some by {
                if i > 0 {
                    assert(keys[i] == rest[i - 1]);
                }
            }
        } else if key_fault(keys[0]) is Some {
            assert(decoded_key(keys[0]) is None);
        } else {
            let i = choose|i: int| 0 <= i < rest.len() && decoded_key(#[trigger] rest[i]) is None;
            assert(keys[i + 1] == rest[i]);
        }
    }
}

proof fn secrets_decode(secrets: Seq<SecretText>)
    ensures
        secrets_fault(secrets) is None <==> (forall|i: int|
            0 <= i < secrets.len() ==> decoded_secret(#[trigger] secrets[i]) is Some),
    decreases secrets.len(),
{
    if secrets.len() > 0 {
        let rest = secrets.skip(1);
        secrets_decode(rest);
        if secrets_fault(secrets) is None {
            assert forall|i: int| 0 <= i < secrets.len() implies decoded_secret(
                #[trigger] secrets[i],
            ) is Some by {
                if i > 0 {
                    assert(secrets[i] == rest[i - 1]);
                }
            }
        } else if secret_fault(secrets[0]) is Some {
            assert(decoded_secret(secrets[0]) is None);
        } else {
            let i = choose|i: int|
                0 <= i < rest.len() && decoded_secret(#[trigger] rest[i]) is None;
            assert(secrets[i + 1] == rest[i]);
        }
    }
}

/// A file has no fault exactly when every byte string of it is base64.
pub proof fn a_file_without_fault_decodes(file: VaultText)
    ensures
        file_fault(file) is None <==> decodes(file),
{
    keys_decode(file.keys);
    secrets_decode(file.secrets);
}

/// Every byte string of the file is base64.
pub open spec fn decodes(file: VaultText) -> bool {
    &&& base64_bytes(file.salt) is Ok
    &&& forall|i: int| 0 <= i < file.keys.len() ==> decoded_key(#[trigger] file.keys[i]) is Some
    &&& forall|i: int|
        0 <= i < file.secrets.len() ==> decoded_secret(#[trigger] file.secrets[i]) is Some
}

/// The vault that a file holds, when it [`decodes`].
pub open spec fn decoded(file: VaultText) -> VaultModel {
    VaultModel {
        version: file.version,
        salt: base64_bytes(file.salt)->Ok_0,
        keys: file.keys.map_values(|k: KeyText| decoded_key(k)->0),
        secrets: file.secrets.map_values(|s: SecretText| decoded_secret(s)->0),
    }
}

/// The vault that a file loads as, or why it does not load.
pub open spec fn loaded(file: VaultText) -> Result<VaultModel, Fault> {
    match file_fault(file) {
        Some(reason) => Err(Fault::Unreadable { reason }),
        None => match invalid(decoded(file)) {
            Some(fault) => Err(fault),
            None => Ok(decoded(file)),
        },
    }
}

/// The file that holds a vault.
pub open spec fn encoded(vault: VaultModel) -> VaultText {
    VaultText {
        version: vault.version,
        salt: base64_text(vault.salt),
        keys: vault.keys.map_values(|k: KeyModel| encoded_key(k)),
        secrets: vault.secrets.map_values(|s: SecretModel| encoded_secret(s)),
    }
}

/// A key entry with its byte strings in base64.
pub open spec fn encoded_key(key: KeyModel) -> KeyText {
    KeyText {
        label: key.label,
        cred_id: base64_text(key.cred_id),
        nonce: base64_text(key.nonce),
        wrapped_key: base64_text(key.wrapped_key),
    }
}

/// A password entry with its byte strings in base64.
pub open spec fn encoded_secret(secret: SecretModel) -> SecretText {
    SecretText {
        database: secret.database,
        nonce: base64_text(secret.nonce),
        ciphertext: base64_text(secret.ciphertext),
    }
}

/// The fault tells what is wrong.
pub open spec fn unreadable(fault: Fault, reason: Option<Seq<char>>) -> bool {
    reason is Some && fault == (Fault::Unreadable { reason: reason->0 })
}

/// Decodes one byte string.
fn decode(text: &str) -> (r: Result<Vec<u8>, VaultError>)
    ensures
        r matches Ok(bytes) ==> base64_bytes(text@) == Ok::<Seq<u8>, Seq<char>>(bytes@),
        r matches Err(e) ==> unreadable(e@, string_fault(text@)),
{
    match base64_decode(text) {
        Ok(bytes) => Ok(bytes),
        Err(reason) => Err(VaultError::Unreadable { reason }),
    }
}

impl KeyFile {
    /// Decodes a key entry.
    fn decode(&self) -> (r: Result<KeyEntry, VaultError>)
        ensures
            r is Ok <==> decoded_key(self@) is Some,
            r matches Ok(entry) ==> decoded_key(self@) == Some(entry@),
            r matches Err(e) ==> unreadable(e@, key_fault(self@)),
    {
        let cred_id = match decode(self.cred_id.as_str()) {
            Ok(bytes) => bytes,
            Err(error) => return Err(error),
        };
        let nonce = match decode(self.nonce.as_str()) {
            Ok(bytes) => bytes,
            Err(error) => return Err(error),
        };
        let wrapped_key = match decode(self.wrapped_key.as_str()) {
            Ok(bytes) => bytes,
            Err(error) => return Err(error),
        };
        Ok(KeyEntry { label: self.label.clone(), cred_id, nonce, wrapped_key })
    }
}

impl SecretFile {
    /// Decodes a password entry.
    fn decode(&self) -> (r: Result<SecretEntry, VaultError>)
        ensures
            r is Ok <==> decoded_secret(self@) is Some,
            r matches Ok(entry) ==> decoded_secret(self@) == Some(entry@),
            r matches Err(e) ==> unreadable(e@, secret_fault(self@)),
    {
        let nonce = match decode(self.nonce.as_str()) {
            Ok(bytes) => bytes,
            Err(error) => return Err(error),
        };
        let ciphertext = match decode(self.ciphertext.as_str()) {
            Ok(bytes) => bytes,
            Err(error) => return Err(error),
        };
        Ok(SecretEntry { database: self.database.clone(), nonce, ciphertext })
    }
}

impl Vault {
    /// Decodes and checks a vault that was read from a file.
    pub fn from_file(file: &VaultFile) -> (r: Result<Vault, VaultError>)
        ensures
            r matches Ok(vault) ==> loaded(file@) == Ok::<VaultModel, Fault>(vault@) && vault@.wf(),
            r matches Err(e) ==> loaded(file@) == Err::<VaultModel, Fault>(e@),
    {
        let ghost whole = decoded(file@);
        let salt = match decode(file.salt.as_str()) {
            Ok(bytes) => bytes,
            Err(error) => return Err(error),
        };
        let mut keys: Vec<KeyEntry> = Vec::new();
        assert(file@.keys.skip(0) =~= file@.keys);
        assert(file@.secrets.skip(0) =~= file@.secrets);
        for i in 0..file.keys.len()
            invariant
                whole == decoded(file@),
                string_fault(file@.salt) is None,
                keys_fault(file@.keys) == keys_fault(file@.keys.skip(i as int)),
                keys@.len() == i,
                forall|j: int| 0 <= j < i ==> decoded_key(#[trigger] file@.keys[j]) is Some,
                forall|j: int| 0 <= j < i ==> (#[trigger] keys@[j])@ == whole.keys[j],
        {
            assert(file@.keys[i as int] == file.keys@[i as int]@);
            assert(file@.keys.skip(i as int).skip(1) =~= file@.keys.skip(i + 1));
            match file.keys[i].decode() {
                Ok(key) => keys.push(key),
                Err(error) => return Err(error),
            }
        }
        let mut secrets: Vec<SecretEntry> = Vec::new();
        for i in 0..file.secrets.len()
            invariant
                whole == decoded(file@),
                string_fault(file@.salt) is None,
                keys_fault(file@.keys) is None,
                secrets_fault(file@.secrets) == secrets_fault(file@.secrets.skip(i as int)),
                secrets@.len() == i,
                forall|j: int| 0 <= j < i ==> decoded_secret(#[trigger] file@.secrets[j]) is Some,
                forall|j: int| 0 <= j < i ==> (#[trigger] secrets@[j])@ == whole.secrets[j],
        {
            assert(file@.secrets[i as int] == file.secrets@[i as int]@);
            assert(file@.secrets.skip(i as int).skip(1) =~= file@.secrets.skip(i + 1));
            match file.secrets[i].decode() {
                Ok(secret) => secrets.push(secret),
                Err(error) => return Err(error),
            }
        }
        let vault = Vault { version: file.version, salt, keys, secrets };
        assert(vault@ =~= whole);
        match vault.validate() {
            Ok(()) => Ok(vault),
            Err(error) => Err(error),
        }
    }

    /// Encodes the vault for a file. Loading the file yields the vault.
    pub fn to_file(&self) -> (file: VaultFile)
        ensures
            file@ == encoded(self@),
            decodes(file@),
            decoded(file@) == self@,
            self@.wf() ==> loaded(file@) == Ok::<VaultModel, Fault>(self@),
    {
        let salt = base64_encode(self.salt.as_slice());
        let mut keys: Vec<KeyFile> = Vec::new();
        for i in 0..self.keys.len()
            invariant
                keys@.len() == i,
                forall|j: int|
                    0 <= j < i ==> (#[trigger] keys@[j])@ == encoded_key(self.keys@[j]@)
                        && decoded_key(keys@[j]@) == Some(self.keys@[j]@),
        {
            let key = &self.keys[i];
            keys.push(
                KeyFile {
                    label: key.label.clone(),
                    cred_id: base64_encode(key.cred_id.as_slice()),
                    nonce: base64_encode(key.nonce.as_slice()),
                    wrapped_key: base64_encode(key.wrapped_key.as_slice()),
                },
            );
        }
        let mut secrets: Vec<SecretFile> = Vec::new();
        for i in 0..self.secrets.len()
            invariant
                secrets@.len() == i,
                forall|j: int|
                    0 <= j < i ==> (#[trigger] secrets@[j])@ == encoded_secret(self.secrets@[j]@)
                        && decoded_secret(secrets@[j]@) == Some(self.secrets@[j]@),
        {
            let secret = &self.secrets[i];
            secrets.push(
                SecretFile {
                    database: secret.database.clone(),
                    nonce: base64_encode(secret.nonce.as_slice()),
                    ciphertext: base64_encode(secret.ciphertext.as_slice()),
                },
            );
        }
        let file = VaultFile { version: self.version, salt, keys, secrets };
        assert(file@ =~= encoded(self@));
        assert(decoded(file@) =~= self@);
        proof {
            a_file_without_fault_decodes(file@);
        }
        file
    }
}

/// A version 1 vault holds one password, which answers for every database. It is bound to what a
/// version 1 password was bound to, so it needs no re-encryption.
pub proof fn a_version_1_password_is_the_catch_all(
    file: VaultFileV1,
    database: Option<Seq<char>>,
)
    requires
        loaded(file.upgraded()) is Ok,
    ensures
        ({
            let vault = loaded(file.upgraded())->Ok_0;
            &&& vault.version == VERSION
            &&& vault.secrets.len() == 1
            &&& vault.secret_for(database) == Some(vault.secrets[0])
            &&& vault.secrets[0].database == ANY@
            &&& Ok::<Seq<u8>, Seq<char>>(vault.secrets[0].nonce) == base64_bytes(file.nonce@)
            &&& Ok::<Seq<u8>, Seq<char>>(vault.secrets[0].ciphertext) == base64_bytes(
                file.ciphertext@,
            )
            &&& aad_of(vault.secrets[0].database) == encode_utf8("fido2kpxc-vault-v1"@)
        }),
{
    reveal_with_fuel(super::find_secret, 2);
    let text = file.upgraded();
    a_file_without_fault_decodes(text);
    assert(decoded_secret(text.secrets[0]) is Some);
}

/// A vault file states version 1 or 2. Any other number is refused by its value.
pub proof fn a_version_decides_the_layout(
    integers: Map<Seq<char>, Option<i64>>,
    key: Seq<char>,
    version: i64,
)
    ensures
        layout_of(Some(1)) == Ok::<Layout, Fault>(Layout::Version1),
        layout_of(Some(2)) == Ok::<Layout, Fault>(Layout::Version2),
        version != 1 && version != 2 ==> layout_of(Some(version)) == Err::<Layout, Fault>(
            Fault::UnsupportedVersion { version },
        ),
        layout_of(None) == Err::<Layout, Fault>(Fault::NoVersion),
        integers.contains_key(key) ==> integer_under(integers, key) == integers[key],
        !integers.contains_key(key) ==> integer_under(integers, key) is None,
{
}

/// A file loads exactly when every byte string of it is base64 and what it holds is a valid vault. Then
/// every entry of the file stands in the vault at its place, with its name as it is and its bytes
/// decoded.
pub proof fn a_loaded_vault_holds_every_entry(file: VaultText, i: int)
    ensures
        loaded(file) is Ok ==> {
            let vault = loaded(file)->Ok_0;
            &&& vault.wf()
            &&& vault.version == file.version
            &&& base64_bytes(file.salt) == Ok::<Seq<u8>, Seq<char>>(vault.salt)
            &&& vault.keys.len() == file.keys.len()
            &&& vault.secrets.len() == file.secrets.len()
            &&& 0 <= i < file.keys.len() ==> {
                let key = vault.keys[i];
                &&& key.label == file.keys[i].label
                &&& base64_bytes(file.keys[i].cred_id) == Ok::<Seq<u8>, Seq<char>>(key.cred_id)
                &&& base64_bytes(file.keys[i].nonce) == Ok::<Seq<u8>, Seq<char>>(key.nonce)
                &&& base64_bytes(file.keys[i].wrapped_key) == Ok::<Seq<u8>, Seq<char>>(
                    key.wrapped_key,
                )
            }
            &&& 0 <= i < file.secrets.len() ==> {
                let secret = vault.secrets[i];
                &&& secret.database == file.secrets[i].database
                &&& base64_bytes(file.secrets[i].nonce) == Ok::<Seq<u8>, Seq<char>>(secret.nonce)
                &&& base64_bytes(file.secrets[i].ciphertext) == Ok::<Seq<u8>, Seq<char>>(
                    secret.ciphertext,
                )
            }
        },
{
    a_file_without_fault_decodes(file);
    if loaded(file) is Ok {
        if 0 <= i < file.keys.len() {
            assert(decoded_key(file.keys[i]) is Some);
        }
        if 0 <= i < file.secrets.len() {
            assert(decoded_secret(file.secrets[i]) is Some);
        }
    }
}

/// A file whose byte strings are all base64 loads as the vault that they decode to, or is refused for
/// what is wrong with that vault. One that holds another text is refused as unreadable.
pub proof fn a_readable_file_is_judged_by_its_vault(file: VaultText)
    ensures
        ({
            let readable = base64_bytes(file.salt) is Ok && (forall|i: int|
                #![trigger file.keys[i]]
                0 <= i < file.keys.len() ==> base64_bytes(file.keys[i].cred_id) is Ok
                    && base64_bytes(file.keys[i].nonce) is Ok && base64_bytes(
                    file.keys[i].wrapped_key,
                ) is Ok) && (forall|i: int|
                #![trigger file.secrets[i]]
                0 <= i < file.secrets.len() ==> base64_bytes(file.secrets[i].nonce) is Ok
                    && base64_bytes(file.secrets[i].ciphertext) is Ok);
            &&& readable && invalid(decoded(file)) is None ==> loaded(file) == Ok::<
                VaultModel,
                Fault,
            >(decoded(file))
            &&& readable ==> (invalid(decoded(file)) matches Some(fault) ==> loaded(file) == Err::<
                VaultModel,
                Fault,
            >(fault))
            &&& !readable ==> (loaded(file) matches Err(fault) && fault is Unreadable)
            &&& base64_bytes(file.salt) matches Err(reason) ==> loaded(file) == Err::<
                VaultModel,
                Fault,
            >(Fault::Unreadable { reason })
        }),
{
    a_file_without_fault_decodes(file);
    let readable = base64_bytes(file.salt) is Ok && (forall|i: int|
        #![trigger file.keys[i]]
        0 <= i < file.keys.len() ==> base64_bytes(file.keys[i].cred_id) is Ok && base64_bytes(
            file.keys[i].nonce,
        ) is Ok && base64_bytes(file.keys[i].wrapped_key) is Ok) && (forall|i: int|
        #![trigger file.secrets[i]]
        0 <= i < file.secrets.len() ==> base64_bytes(file.secrets[i].nonce) is Ok && base64_bytes(
            file.secrets[i].ciphertext,
        ) is Ok);
    if decodes(file) {
        assert forall|i: int|
            #![trigger file.keys[i]]
            0 <= i < file.keys.len() implies base64_bytes(file.keys[i].cred_id) is Ok
            && base64_bytes(file.keys[i].nonce) is Ok && base64_bytes(
            file.keys[i].wrapped_key,
        ) is Ok by {
            assert(decoded_key(file.keys[i]) is Some);
        }
        assert forall|i: int|
            #![trigger file.secrets[i]]
            0 <= i < file.secrets.len() implies base64_bytes(file.secrets[i].nonce) is Ok
            && base64_bytes(file.secrets[i].ciphertext) is Ok by {
            assert(decoded_secret(file.secrets[i]) is Some);
        }
        assert(readable);
    }
    if readable {
        assert forall|i: int| 0 <= i < file.keys.len() implies decoded_key(
            #[trigger] file.keys[i],
        ) is Some by {}
        assert forall|i: int| 0 <= i < file.secrets.len() implies decoded_secret(
            #[trigger] file.secrets[i],
        ) is Some by {}
        assert(decodes(file));
    }
}

/// An upgraded vault keeps the salt and every key, and its one password becomes the catch-all entry.
pub proof fn an_upgrade_keeps_every_entry(file: VaultFileV1, i: int)
    ensures
        file.upgraded().version == 2,
        file.upgraded().salt == file.salt@,
        file.upgraded().keys.len() == file.keys@.len(),
        0 <= i < file.keys@.len() ==> file.upgraded().keys[i] == file.keys@[i]@,
        file.upgraded().secrets == seq![
            SecretText { database: "*"@, nonce: file.nonce@, ciphertext: file.ciphertext@ },
        ],
{
}

/// A vault file is seen entry by entry, in order, by what the entries hold.
pub proof fn a_file_is_seen_as_it_is(file: VaultFile, i: int)
    ensures
        file@.version == file.version && file@.salt == file.salt@,
        file@.keys.len() == file.keys@.len() && file@.secrets.len() == file.secrets@.len(),
        0 <= i < file.keys@.len() ==> {
            let (seen, key) = (file@.keys[i], file.keys@[i]);
            seen.label == key.label@ && seen.cred_id == key.cred_id@ && seen.nonce == key.nonce@
                && seen.wrapped_key == key.wrapped_key@
        },
        0 <= i < file.secrets@.len() ==> {
            let (seen, secret) = (file@.secrets[i], file.secrets@[i]);
            seen.database == secret.database@ && seen.nonce == secret.nonce@ && seen.ciphertext
                == secret.ciphertext@
        },
{
}

} // verus!
