use chacha20poly1305::aead::{Aead, KeyInit, Payload};
use chacha20poly1305::{Key, XChaCha20Poly1305, XNonce};
use fido2kpxc::crypto::{decrypt, encrypt, SecretBytes, SecretKey, SecretText};

#[test]
fn encryption_is_xchacha20_poly1305() {
    let (key, nonce) = ([3; 32], [4; 24]);
    let payload = Payload {
        msg: b"message",
        aad: b"aad",
    };
    let expected = XChaCha20Poly1305::new(&Key::from(key))
        .encrypt(&XNonce::from(nonce), payload)
        .unwrap();
    let sealed = encrypt(&key, &nonce, b"message", b"aad").unwrap();
    assert_eq!(sealed, expected);
    assert_eq!(sealed.len(), 7 + 16);
    assert_eq!(decrypt(&key, &nonce, &sealed, b"aad").unwrap(), b"message");
}

#[test]
fn every_input_is_authenticated() {
    let sealed = encrypt(&[3; 32], &[4; 24], b"message", b"aad").unwrap();
    assert!(decrypt(&[5; 32], &[4; 24], &sealed, b"aad").is_none());
    assert!(decrypt(&[3; 32], &[5; 24], &sealed, b"aad").is_none());
    assert!(decrypt(&[3; 32], &[4; 24], &sealed, b"other").is_none());
    for i in 0..sealed.len() {
        let mut bent = sealed.clone();
        bent[i] ^= 1;
        assert!(decrypt(&[3; 32], &[4; 24], &bent, b"aad").is_none());
    }
    assert!(decrypt(&[3; 32], &[4; 24], &sealed[..15], b"aad").is_none());
    assert!(decrypt(&[3; 32], &[4; 24], &[], b"aad").is_none());
}

#[test]
fn an_empty_message_has_only_a_tag() {
    let sealed = encrypt(&[3; 32], &[4; 24], b"", b"").unwrap();
    assert_eq!(sealed.len(), 16);
    assert_eq!(decrypt(&[3; 32], &[4; 24], &sealed, b"").unwrap(), b"");
}

#[test]
fn secrets_hold_what_they_were_given() {
    assert_eq!(SecretKey::new([9; 32]).expose(), &[9; 32]);
    assert_eq!(SecretBytes::new(vec![1, 2]).expose(), &[1, 2]);
    assert_eq!(SecretText::new("a b".to_owned()).expose(), "a b");
}

#[test]
fn only_utf8_is_text() {
    let text = |bytes: &[u8]| {
        SecretBytes::new(bytes.to_vec())
            .to_text()
            .map(|t| t.expose().to_owned())
    };
    assert_eq!(text("h\u{fc}nter2".as_bytes()).as_deref(), Some("h\u{fc}nter2"));
    assert_eq!(text(b"").as_deref(), Some(""));
    assert_eq!(text(&[0xff]), None);
    assert_eq!(text(&[0xc3]), None);
    assert_eq!(text(&[0xed, 0xa0, 0x80]), None);
}
