//! Why a vault operation failed, and how that reads.

use vstd::prelude::*;
use vstd::string::*;

use crate::text::{a_part_stands_between, has_part, integer, integer_text};

verus! {

/// Why a vault operation failed.
#[derive(Debug)]
pub enum VaultError {
    NotEnrolled,
    KeyRejected { label: String },
    KeyLength,
    NoPassword { database: Option<String> },
    SecretRejected { database: String },
    LabelExists { label: String },
    AlreadyEnrolled,
    NoSuchLabel { label: String },
    LastKey,
    KeyMissing { label: String },
    NotStored { database: String },
    LastPassword,
    SaltLength,
    NoKeys,
    NoSecrets,
    NonceLength,
    DuplicateDatabase,
    NoVersion,
    UnsupportedVersion { version: i64 },
    Unreadable { reason: String },
    Random { reason: String },
    Encryption,
}

/// A [`VaultError`] with its texts as characters.
pub enum Fault {
    NotEnrolled,
    KeyRejected { label: Seq<char> },
    KeyLength,
    NoPassword { database: Option<Seq<char>> },
    SecretRejected { database: Seq<char> },
    LabelExists { label: Seq<char> },
    AlreadyEnrolled,
    NoSuchLabel { label: Seq<char> },
    LastKey,
    KeyMissing { label: Seq<char> },
    NotStored { database: Seq<char> },
    LastPassword,
    SaltLength,
    NoKeys,
    NoSecrets,
    NonceLength,
    DuplicateDatabase,
    NoVersion,
    UnsupportedVersion { version: i64 },
    Unreadable { reason: Seq<char> },
    Random { reason: Seq<char> },
    Encryption,
}

/// The characters of an optional text.
pub open spec fn opt_text(text: Option<String>) -> Option<Seq<char>> {
    match text {
        Some(t) => Some(t@),
        None => None,
    }
}

/// The characters of an optional borrowed text.
pub open spec fn opt_str(text: Option<&str>) -> Option<Seq<char>> {
    match text {
        Some(t) => Some(t@),
        None => None,
    }
}

impl View for VaultError {
    type V = Fault;

    open spec fn view(&self) -> Fault {
        match *self {
            VaultError::NotEnrolled => Fault::NotEnrolled,
            VaultError::KeyRejected { label } => Fault::KeyRejected { label: label@ },
            VaultError::KeyLength => Fault::KeyLength,
            VaultError::NoPassword { database } => Fault::NoPassword {
                database: opt_text(database),
            },
            VaultError::SecretRejected { database } => Fault::SecretRejected {
                database: database@,
            },
            VaultError::LabelExists { label } => Fault::LabelExists { label: label@ },
            VaultError::AlreadyEnrolled => Fault::AlreadyEnrolled,
            VaultError::NoSuchLabel { label } => Fault::NoSuchLabel { label: label@ },
            VaultError::LastKey => Fault::LastKey,
            VaultError::KeyMissing { label } => Fault::KeyMissing { label: label@ },
            VaultError::NotStored { database } => Fault::NotStored { database: database@ },
            VaultError::LastPassword => Fault::LastPassword,
            VaultError::SaltLength => Fault::SaltLength,
            VaultError::NoKeys => Fault::NoKeys,
            VaultError::NoSecrets => Fault::NoSecrets,
            VaultError::NonceLength => Fault::NonceLength,
            VaultError::DuplicateDatabase => Fault::DuplicateDatabase,
            VaultError::NoVersion => Fault::NoVersion,
            VaultError::UnsupportedVersion { version } => Fault::UnsupportedVersion { version },
            VaultError::Unreadable { reason } => Fault::Unreadable { reason: reason@ },
            VaultError::Random { reason } => Fault::Random { reason: reason@ },
            VaultError::Encryption => Fault::Encryption,
        }
    }
}

/// The text in double quotes, with the escapes of a Rust string literal.
pub uninterp spec fn quoted_text(text: Seq<char>) -> Seq<char>;

/// `format!` with `{:?}`, which quotes and escapes the text.
#[verifier::external_body]
pub(crate) fn quoted(text: &str) -> (s: String)
    ensures
        s@ == quoted_text(text@),
{
    format!("{text:?}")
}

/// `before`, the quoted `name`, and `after`.
pub open spec fn around(before: Seq<char>, name: Seq<char>, after: Seq<char>) -> Seq<char> {
    before + quoted_text(name) + after
}

/// Puts a quoted name between two texts.
pub(crate) fn put_quoted(before: &str, name: &str, after: &str) -> (s: String)
    ensures
        s@ == around(before@, name@, after@),
{
    let mut s = before.to_owned();
    s.append(quoted(name).as_str());
    s.append(after);
    s
}

impl VaultError {
    /// The error in words, as the user sees it.
    pub open spec fn words(self) -> Seq<char> {
        match self {
            VaultError::NotEnrolled => "This security key is not enrolled in the vault"@,
            VaultError::KeyRejected { label } => around(
                "Key entry "@,
                label@,
                " failed authentication"@,
            ),
            VaultError::KeyLength => "The wrapped key has the wrong length"@,
            VaultError::NoPassword { database } => "No password is stored for "@ + (match database {
                Some(name) => name@,
                None => "this database"@,
            }),
            VaultError::SecretRejected { database } => around(
                "The password for "@,
                database@,
                " failed authentication"@,
            ),
            VaultError::LabelExists { label } => around("Label "@, label@, " already exists"@),
            VaultError::AlreadyEnrolled => "This security key is already enrolled"@,
            VaultError::NoSuchLabel { label } => around("No key is labeled "@, label@, ""@),
            VaultError::LastKey => "The last key cannot be removed"@,
            VaultError::KeyMissing { label } => around("Key "@, label@, " must be present"@),
            VaultError::NotStored { database } => around(
                "No password is stored for "@,
                database@,
                ""@,
            ),
            VaultError::LastPassword => "The last password cannot be removed"@,
            VaultError::SaltLength => "The vault salt has the wrong length"@,
            VaultError::NoKeys => "The vault has no enrolled keys"@,
            VaultError::NoSecrets => "The vault holds no password"@,
            VaultError::NonceLength => "A vault nonce has the wrong length"@,
            VaultError::DuplicateDatabase => "The vault stores a database name twice"@,
            VaultError::NoVersion => "The vault has no version"@,
            VaultError::UnsupportedVersion { version } => "Unsupported vault version "@
                + integer_text(version as int),
            VaultError::Unreadable { reason } => reason@,
            VaultError::Random { reason } => "The random source failed: "@ + reason@,
            VaultError::Encryption => "Encryption failed"@,
        }
    }

    /// The error in words, as the user sees it.
    pub fn message(&self) -> (s: String)
        ensures
            s@ == self.words(),
    {
        match self {
            VaultError::NotEnrolled => "This security key is not enrolled in the vault".to_owned(),
            VaultError::KeyRejected { label } => put_quoted(
                "Key entry ",
                label.as_str(),
                " failed authentication",
            ),
            VaultError::KeyLength => "The wrapped key has the wrong length".to_owned(),
            VaultError::NoPassword { database } => {
                let mut s = "No password is stored for ".to_owned();
                match database {
                    Some(name) => s.append(name.as_str()),
                    None => s.append("this database"),
                }
                s
            },
            VaultError::SecretRejected { database } => put_quoted(
                "The password for ",
                database.as_str(),
                " failed authentication",
            ),
            VaultError::LabelExists { label } => put_quoted(
                "Label ",
                label.as_str(),
                " already exists",
            ),
            VaultError::AlreadyEnrolled => "This security key is already enrolled".to_owned(),
            VaultError::NoSuchLabel { label } => put_quoted("No key is labeled ", label.as_str(), ""),
            VaultError::LastKey => "The last key cannot be removed".to_owned(),
            VaultError::KeyMissing { label } => put_quoted(
                "Key ",
                label.as_str(),
                " must be present",
            ),
            VaultError::NotStored { database } => put_quoted(
                "No password is stored for ",
                database.as_str(),
                "",
            ),
            VaultError::LastPassword => "The last password cannot be removed".to_owned(),
            VaultError::SaltLength => "The vault salt has the wrong length".to_owned(),
            VaultError::NoKeys => "The vault has no enrolled keys".to_owned(),
            VaultError::NoSecrets => "The vault holds no password".to_owned(),
            VaultError::NonceLength => "A vault nonce has the wrong length".to_owned(),
            VaultError::DuplicateDatabase => "The vault stores a database name twice".to_owned(),
            VaultError::NoVersion => "The vault has no version".to_owned(),
            VaultError::UnsupportedVersion { version } => {
                let mut s = "Unsupported vault version ".to_owned();
                s.append(integer(*version).as_str());
                s
            },
            VaultError::Unreadable { reason } => reason.clone(),
            VaultError::Random { reason } => {
                let mut s = "The random source failed: ".to_owned();
                s.append(reason.as_str());
                s
            },
            VaultError::Encryption => "Encryption failed".to_owned(),
        }
    }
}

/// An error names the label, the database, the version, or the reason that it is about.
pub proof fn an_error_names_what_it_is_about(text: String, version: i64)
    ensures
        has_part((VaultError::KeyRejected { label: text }).words(), quoted_text(text@)),
        has_part((VaultError::NoPassword { database: Some(text) }).words(), text@),
        has_part((VaultError::SecretRejected { database: text }).words(), quoted_text(text@)),
        has_part((VaultError::LabelExists { label: text }).words(), quoted_text(text@)),
        has_part((VaultError::NoSuchLabel { label: text }).words(), quoted_text(text@)),
        has_part((VaultError::KeyMissing { label: text }).words(), quoted_text(text@)),
        has_part((VaultError::NotStored { database: text }).words(), quoted_text(text@)),
        has_part(
            (VaultError::UnsupportedVersion { version }).words(),
            integer_text(version as int),
        ),
        (VaultError::Unreadable { reason: text }).words() == text@,
        has_part((VaultError::Random { reason: text }).words(), text@),
{
    reveal_strlit("");
    let quoted = quoted_text(text@);
    a_part_stands_between("Key entry "@, quoted, " failed authentication"@);
    a_part_stands_between("No password is stored for "@, text@, ""@);
    assert("No password is stored for "@ + text@ + ""@ =~= "No password is stored for "@ + text@);
    a_part_stands_between("The password for "@, quoted, " failed authentication"@);
    a_part_stands_between("Label "@, quoted, " already exists"@);
    a_part_stands_between("No key is labeled "@, quoted, ""@);
    a_part_stands_between("Key "@, quoted, " must be present"@);
    a_part_stands_between("No password is stored for "@, quoted, ""@);
    let digits = integer_text(version as int);
    a_part_stands_between("Unsupported vault version "@, digits, ""@);
    assert("Unsupported vault version "@ + digits + ""@ =~= "Unsupported vault version "@ + digits);
    a_part_stands_between("The random source failed: "@, text@, ""@);
    assert("The random source failed: "@ + text@ + ""@ =~= "The random source failed: "@ + text@);
}

} // verus!
