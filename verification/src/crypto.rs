//! Secrets that wipe themselves, authenticated encryption, randomness, and base64.

use base64::engine::general_purpose::STANDARD;
use base64::Engine;
use chacha20poly1305::aead::{Aead, KeyInit, Payload};
use chacha20poly1305::{Key, XChaCha20Poly1305, XNonce};
use vstd::prelude::*;
use vstd::utf8::*;
use zeroize::Zeroizing;

verus! {

/// Thirty-two secret bytes in a `zeroize::Zeroizing`, which overwrites them when dropped.
#[verifier::external_body]
pub struct SecretKey {
    held: Zeroizing<[u8; 32]>,
}

/// The bytes that a [`SecretKey`] holds.
pub uninterp spec fn secret_key_bytes(key: SecretKey) -> Seq<u8>;

impl View for SecretKey {
    type V = Seq<u8>;

    open spec fn view(&self) -> Seq<u8> {
        secret_key_bytes(*self)
    }
}

/// `Zeroizing::new` over an array moves the bytes in and changes none of them.
#[verifier::external_body]
fn hold_key(bytes: [u8; 32]) -> (key: SecretKey)
    ensures
        secret_key_bytes(key) == bytes@,
{
    SecretKey { held: Zeroizing::new(bytes) }
}

/// `Zeroizing::deref` over an array lends the bytes that were moved in.
#[verifier::external_body]
fn lend_key(key: &SecretKey) -> (bytes: &[u8; 32])
    ensures
        bytes@ == secret_key_bytes(*key),
{
    &key.held
}

impl SecretKey {
    /// Takes the bytes in.
    pub fn new(bytes: [u8; 32]) -> (key: SecretKey)
        ensures
            key@ == bytes@,
    {
        hold_key(bytes)
    }

    /// Lends the bytes.
    pub fn expose(&self) -> (bytes: &[u8; 32])
        ensures
            bytes@ == self@,
    {
        lend_key(self)
    }
}

/// Secret bytes of any length in a `zeroize::Zeroizing`, which overwrites them when dropped.
#[verifier::external_body]
pub struct SecretBytes {
    held: Zeroizing<Vec<u8>>,
}

/// The bytes that a [`SecretBytes`] holds.
pub uninterp spec fn secret_bytes(secret: SecretBytes) -> Seq<u8>;

impl View for SecretBytes {
    type V = Seq<u8>;

    open spec fn view(&self) -> Seq<u8> {
        secret_bytes(*self)
    }
}

/// `Zeroizing::new` over a vector moves the bytes in and changes none of them.
#[verifier::external_body]
fn hold_bytes(bytes: Vec<u8>) -> (secret: SecretBytes)
    ensures
        secret_bytes(secret) == bytes@,
{
    SecretBytes { held: Zeroizing::new(bytes) }
}

/// `Zeroizing::deref` over a vector lends the bytes that were moved in.
#[verifier::external_body]
fn lend_bytes(secret: &SecretBytes) -> (bytes: &[u8])
    ensures
        bytes@ == secret_bytes(*secret),
{
    &secret.held
}

impl SecretBytes {
    /// Takes the bytes in.
    pub fn new(bytes: Vec<u8>) -> (secret: SecretBytes)
        ensures
            secret@ == bytes@,
    {
        hold_bytes(bytes)
    }

    /// Lends the bytes.
    pub fn expose(&self) -> (bytes: &[u8])
        ensures
            bytes@ == self@,
    {
        lend_bytes(self)
    }
}

/// A secret text in a `zeroize::Zeroizing`, which overwrites it when dropped.
#[verifier::external_body]
pub struct SecretText {
    held: Zeroizing<String>,
}

/// The characters that a [`SecretText`] holds.
pub uninterp spec fn secret_text(secret: SecretText) -> Seq<char>;

impl View for SecretText {
    type V = Seq<char>;

    open spec fn view(&self) -> Seq<char> {
        secret_text(*self)
    }
}

/// `Zeroizing::new` over a string moves the text in and changes none of it.
#[verifier::external_body]
fn hold_text(text: String) -> (secret: SecretText)
    ensures
        secret_text(secret) == text@,
{
    SecretText { held: Zeroizing::new(text) }
}

/// `Zeroizing::deref` over a string lends the text that was moved in.
#[verifier::external_body]
fn lend_text(secret: &SecretText) -> (text: &str)
    ensures
        text@ == secret_text(*secret),
{
    &secret.held
}

impl SecretText {
    /// Takes the text in.
    pub fn new(text: String) -> (secret: SecretText)
        ensures
            secret@ == text@,
    {
        hold_text(text)
    }

    /// Lends the text.
    pub fn expose(&self) -> (text: &str)
        ensures
            text@ == self@,
    {
        lend_text(self)
    }
}

/// `std::str::from_utf8`. It succeeds on valid UTF-8 and yields the text that the bytes encode.
#[verifier::external_body]
fn from_utf8(bytes: &[u8]) -> (text: Option<&str>)
    ensures
        text is Some <==> valid_utf8(bytes@),
        text matches Some(t) ==> t@ == decode_utf8(bytes@),
{
    std::str::from_utf8(bytes).ok()
}

impl SecretBytes {
    /// The bytes as a text, if they are valid UTF-8.
    pub fn to_text(&self) -> (text: Option<SecretText>)
        ensures
            text is Some <==> valid_utf8(self@),
            text matches Some(t) ==> t@ == decode_utf8(self@),
    {
        match from_utf8(self.expose()) {
            Some(text) => Some(SecretText::new(text.to_owned())),
            None => None,
        }
    }
}

/// Thirty-two bytes as an array.
pub fn array_32(bytes: &[u8]) -> (a: [u8; 32])
    requires
        bytes@.len() == 32,
    ensures
        a@ == bytes@,
{
    let mut a: [u8; 32] = [0; 32];
    for i in 0..32
        invariant
            bytes@.len() == 32,
            forall|j: int| 0 <= j < i ==> a@[j] == bytes@[j],
    {
        a[i] = bytes[i];
    }
    assert(a@ =~= bytes@);
    a
}

#[verifier::external_type_specification]
#[verifier::external_body]
pub struct ExCipherError(chacha20poly1305::Error);

/// The longest message, in bytes, that one nonce can encrypt: 2^32 - 2 blocks of 64.
pub const MESSAGE_LIMIT: u64 = 274877906816;

/// The length of an authentication tag.
pub const TAG: usize = 16;

/// What XChaCha20-Poly1305 makes of a message: the ciphertext, then the tag.
pub uninterp spec fn sealed_bytes(
    key: Seq<u8>,
    nonce: Seq<u8>,
    message: Seq<u8>,
    aad: Seq<u8>,
) -> Seq<u8>;

/// XChaCha20-Poly1305 makes `sealed` of `message`.
pub open spec fn seals_to(
    key: Seq<u8>,
    nonce: Seq<u8>,
    message: Seq<u8>,
    aad: Seq<u8>,
    sealed: Seq<u8>,
) -> bool {
    message.len() <= MESSAGE_LIMIT && sealed_bytes(key, nonce, message, aad) == sealed
}

/// Some message seals to `sealed` under this key, nonce, and associated data.
pub open spec fn is_sealed(key: Seq<u8>, nonce: Seq<u8>, sealed: Seq<u8>, aad: Seq<u8>) -> bool {
    exists|message: Seq<u8>| seals_to(key, nonce, message, aad, sealed)
}

/// `message`, and no other message, seals to `sealed` under this key, nonce, and associated data.
pub open spec fn seals_alone(
    key: Seq<u8>,
    nonce: Seq<u8>,
    message: Seq<u8>,
    aad: Seq<u8>,
    sealed: Seq<u8>,
) -> bool {
    &&& seals_to(key, nonce, message, aad, sealed)
    &&& forall|other: Seq<u8>| seals_to(key, nonce, other, aad, sealed) ==> other == message
}

/// `XChaCha20Poly1305::encrypt`. It succeeds on every message within the limit and appends a tag. It
/// adds a keystream to the message, which depends on the key and the nonce alone, so no two messages
/// have one ciphertext.
#[verifier::external_body]
fn xchacha_encrypt(key: &[u8; 32], nonce: &[u8], message: &[u8], aad: &[u8]) -> (r: Result<
    Vec<u8>,
    chacha20poly1305::Error,
>)
    requires
        nonce@.len() == 24,
        message@.len() <= MESSAGE_LIMIT,
    ensures
        r is Ok,
        r->Ok_0@ == sealed_bytes(key@, nonce@, message@, aad@),
        r->Ok_0@.len() == message@.len() + TAG,
        seals_alone(key@, nonce@, message@, aad@, r->Ok_0@),
{
    XChaCha20Poly1305::new(Key::from_slice(key)).encrypt(
        XNonce::from_slice(nonce),
        Payload { msg: message, aad },
    )
}

/// `XChaCha20Poly1305::decrypt`. It recomputes the tag over the ciphertext and the associated data, and
/// takes the keystream off where the tag matches. So it yields the one message that seals to `sealed`,
/// and fails exactly where there is none.
#[verifier::external_body]
fn xchacha_decrypt(key: &[u8; 32], nonce: &[u8], sealed: &[u8], aad: &[u8]) -> (r: Result<
    Vec<u8>,
    chacha20poly1305::Error,
>)
    requires
        nonce@.len() == 24,
        sealed@.len() <= MESSAGE_LIMIT + TAG,
    ensures
        r is Ok <==> is_sealed(key@, nonce@, sealed@, aad@),
        r matches Ok(message) ==> seals_alone(key@, nonce@, message@, aad@, sealed@)
            && message@.len() + TAG == sealed@.len(),
{
    XChaCha20Poly1305::new(Key::from_slice(key)).decrypt(
        XNonce::from_slice(nonce),
        Payload { msg: sealed, aad },
    )
}

/// A message within the cipher's limit encrypts. A longer one does not.
pub open spec fn encrypted(
    key: Seq<u8>,
    nonce: Seq<u8>,
    message: Seq<u8>,
    aad: Seq<u8>,
) -> Option<Seq<u8>> {
    if message.len() <= MESSAGE_LIMIT {
        Some(sealed_bytes(key, nonce, message, aad))
    } else {
        None
    }
}

/// What a ciphertext decrypts to: the message that seals to it. One beyond the cipher's limit decrypts
/// to nothing.
pub open spec fn decrypted(
    key: Seq<u8>,
    nonce: Seq<u8>,
    sealed: Seq<u8>,
    aad: Seq<u8>,
) -> Option<Seq<u8>> {
    if sealed.len() <= MESSAGE_LIMIT + TAG && is_sealed(key, nonce, sealed, aad) {
        Some(choose|message: Seq<u8>| seals_to(key, nonce, message, aad, sealed))
    } else {
        None
    }
}

/// Encrypts and authenticates `message`, and authenticates `aad` with it.
pub fn encrypt(key: &[u8; 32], nonce: &[u8], message: &[u8], aad: &[u8]) -> (sealed: Option<
    Vec<u8>,
>)
    requires
        nonce@.len() == 24,
    ensures
        sealed is Some <==> encrypted(key@, nonce@, message@, aad@) is Some,
        sealed matches Some(c) ==> encrypted(key@, nonce@, message@, aad@) == Some(c@) && decrypted(
            key@,
            nonce@,
            c@,
            aad@,
        ) == Some(message@),
{
    if message.len() as u64 > MESSAGE_LIMIT {
        return None;
    }
    match xchacha_encrypt(key, nonce, message, aad) {
        Ok(sealed) => Some(sealed),
        Err(_) => None,
    }
}

/// Decrypts `sealed` when its tag matches it, `aad`, the nonce, and the key.
pub fn decrypt(key: &[u8; 32], nonce: &[u8], sealed: &[u8], aad: &[u8]) -> (message: Option<
    Vec<u8>,
>)
    requires
        nonce@.len() == 24,
    ensures
        message is Some <==> decrypted(key@, nonce@, sealed@, aad@) is Some,
        message matches Some(m) ==> decrypted(key@, nonce@, sealed@, aad@) == Some(m@) && m@.len()
            <= MESSAGE_LIMIT,
{
    if sealed.len() as u64 > MESSAGE_LIMIT + TAG as u64 {
        return None;
    }
    match xchacha_decrypt(key, nonce, sealed, aad) {
        Ok(message) => Some(message),
        Err(_) => None,
    }
}

/// `getrandom::fill` over `count` bytes. The bytes are the operating system's choice, and so is the
/// error, which comes in words.
#[verifier::external_body]
pub(crate) fn random_bytes(count: usize) -> (r: Result<Vec<u8>, String>)
    requires
        count <= 32,
    ensures
        r matches Ok(bytes) ==> bytes@.len() == count,
{
    let mut bytes = vec![0; count];
    getrandom::fill(&mut bytes).map(|()| bytes).map_err(|e| e.to_string())
}

/// The bytes in padded base64 with the standard alphabet.
pub uninterp spec fn base64_text(bytes: Seq<u8>) -> Seq<char>;

/// The bytes that a padded standard base64 text stands for, or what is wrong with the text, in words.
pub uninterp spec fn base64_bytes(text: Seq<char>) -> Result<Seq<u8>, Seq<char>>;

/// What was read, as plain sequences: bytes, or an error in words.
pub open spec fn as_read(r: Result<Vec<u8>, String>) -> Result<Seq<u8>, Seq<char>> {
    match r {
        Ok(bytes) => Ok(bytes@),
        Err(error) => Err(error@),
    }
}

/// `STANDARD.encode`. Decoding its result yields the bytes.
#[verifier::external_body]
pub(crate) fn base64_encode(bytes: &[u8]) -> (text: String)
    ensures
        text@ == base64_text(bytes@),
        base64_bytes(text@) is Ok,
        base64_bytes(text@)->Ok_0 == bytes@,
{
    STANDARD.encode(bytes)
}

/// `STANDARD.decode`, with its error in words.
#[verifier::external_body]
pub(crate) fn base64_decode(text: &str) -> (r: Result<Vec<u8>, String>)
    ensures
        as_read(r) == base64_bytes(text@),
{
    STANDARD.decode(text).map_err(|e| e.to_string())
}

} // verus!
