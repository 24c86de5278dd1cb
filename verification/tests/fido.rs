use fido2kpxc::crypto::SecretKey;
use fido2kpxc::fido::{
    challenge, challenge_with, check_attestation, classify, select, unlock_from, with_retries,
    Answer, Assertion, FidoError,
};

#[test]
fn ctap_status_text_maps_to_ui_cases() {
    let map = |text: &str| classify(text);
    assert!(matches!(map("FIDO device not found."), FidoError::NoDevice));
    assert!(matches!(
        map("0x31 CTAP2_ERR_PIN_INVALID   PIN Invalid."),
        FidoError::WrongPin { .. }
    ));
    assert!(matches!(
        map("0x32 CTAP2_ERR_PIN_BLOCKED PIN Blocked."),
        FidoError::PinBlocked
    ));
    assert!(matches!(
        map("0x34 CTAP2_ERR_PIN_AUTH_BLOCKED PIN authentication, pinAuth, blocked."),
        FidoError::PinAuthBlocked
    ));
    assert!(matches!(
        map("0x2E CTAP2_ERR_NO_CREDENTIALS    No valid credentials provided."),
        FidoError::NotEnrolled
    ));
    assert!(matches!(
        map("0x3A CTAP2_ERR_ACTION_TIMEOUT Maximum time for user action expired."),
        FidoError::Timeout
    ));
    assert!(matches!(
        map("read err = something else"),
        FidoError::Other(_)
    ));
}

#[test]
fn other_status_texts_map_too() {
    assert!(matches!(
        classify("Multiple FIDO devices found."),
        FidoError::MultipleDevices
    ));
    assert!(matches!(
        classify("0x2F CTAP2_ERR_USER_ACTION_TIMEOUT"),
        FidoError::Timeout
    ));
    assert!(matches!(
        classify("0x19 CTAP2_ERR_CREDENTIAL_EXCLUDED"),
        FidoError::AlreadyEnrolled
    ));
    assert_eq!(classify("read err").message(), "read err");
    assert_eq!(classify("").message(), "");
}

#[test]
fn only_a_wrong_pin_learns_its_retries() {
    let wrong = with_retries(FidoError::WrongPin { retries: None }, Some(3));
    assert_eq!(wrong.message(), "Wrong PIN. 3 tries left.");
    let unknown = with_retries(FidoError::WrongPin { retries: Some(3) }, None);
    assert_eq!(unknown.message(), "Wrong PIN.");
    let negative = with_retries(FidoError::WrongPin { retries: None }, Some(-1));
    assert_eq!(negative.message(), "Wrong PIN. -1 tries left.");
    assert!(matches!(
        with_retries(FidoError::Timeout, Some(3)),
        FidoError::Timeout
    ));
}

#[test]
fn every_error_has_its_words() {
    let words = [
        (FidoError::NoDevice, "Insert your security key."),
        (FidoError::MultipleDevices, "Remove all security keys but one."),
        (FidoError::PinBlocked, "The FIDO2 PIN is blocked. Only a FIDO2 reset with the vendor's tool recovers the key, and it erases all FIDO2 credentials. Use a backup key."),
        (FidoError::PinAuthBlocked, "Too many wrong PINs in a row. Remove and reinsert the security key."),
        (FidoError::Timeout, "No touch detected. Try again."),
        (FidoError::NotEnrolled, "This security key is not enrolled in the vault."),
        (FidoError::AlreadyEnrolled, "This security key is already enrolled."),
    ];
    for (error, text) in words {
        assert_eq!(error.message(), text);
    }
}

fn gave_up(index: usize, text: &str) -> Answer {
    Answer {
        index,
        result: Err(text.to_owned()),
    }
}

#[test]
fn one_key_is_used_at_once_and_none_is_missing() {
    assert!(matches!(select(0, 0, vec![]), Err(FidoError::NoDevice)));
    let only = select(1, 0, vec![]).unwrap();
    assert_eq!((only.index, only.cancel), (0, vec![]));
}

#[test]
fn the_first_key_touched_is_used_and_the_others_are_cancelled() {
    let answers = vec![
        gave_up(0, "0x3A CTAP2_ERR_ACTION_TIMEOUT"),
        Answer {
            index: 2,
            result: Ok(()),
        },
        Answer {
            index: 1,
            result: Ok(()),
        },
    ];
    let touched = select(4, 4, answers).unwrap();
    assert_eq!(touched.index, 2);
    assert_eq!(touched.cancel, vec![0, 1, 3]);
}

#[test]
fn without_a_touch_the_last_error_decides() {
    let timeout = "0x3A CTAP2_ERR_ACTION_TIMEOUT";
    let last = select(2, 2, vec![gave_up(0, "x"), gave_up(1, timeout)]);
    assert!(matches!(last, Err(FidoError::Timeout)));
    let first = select(2, 2, vec![gave_up(0, timeout), gave_up(1, "x")]);
    assert!(matches!(first, Err(FidoError::MultipleDevices)));
    assert!(matches!(
        select(2, 0, vec![]),
        Err(FidoError::MultipleDevices)
    ));
}

#[test]
fn an_omitted_credential_is_the_only_allowed_one() {
    let assertion = |cred_id: Vec<u8>| Assertion {
        cred_id,
        outputs: vec![
            None,
            Some(SecretKey::new([4; 32])),
            Some(SecretKey::new([5; 32])),
        ],
    };
    let only = unlock_from(Some(assertion(vec![])), &[&[1, 2]]).unwrap();
    assert_eq!(only.cred_id, [1, 2]);
    assert_eq!(only.output.expose(), &[4; 32]);
    let named = unlock_from(Some(assertion(vec![9])), &[&[1, 2]]).unwrap();
    assert_eq!(named.cred_id, [9]);
    let several = unlock_from(Some(assertion(vec![])), &[&[1], &[2]]).unwrap();
    assert!(several.cred_id.is_empty());
}

#[test]
fn an_assertion_without_an_output_is_refused() {
    let none = unlock_from(None, &[]).err().unwrap();
    assert_eq!(none.message(), "The key returned no assertion");
    let empty = Assertion {
        cred_id: vec![1],
        outputs: vec![None],
    };
    assert_eq!(
        unlock_from(Some(empty), &[]).err().unwrap().message(),
        "The key returned no hmac-secret output"
    );
}

#[test]
fn a_key_must_confirm_hmac_secret() {
    assert!(check_attestation(&[None, Some(true)]).is_ok());
    for refused in [vec![], vec![None], vec![Some(false)]] {
        assert_eq!(
            check_attestation(&refused).unwrap_err().message(),
            "This key does not support hmac-secret"
        );
    }
}

#[test]
fn challenges_differ() {
    assert_ne!(challenge().unwrap(), challenge().unwrap());
    assert_ne!(challenge().unwrap(), [0; 32]);
}

#[test]
fn a_drawn_challenge_is_used_as_it_is() {
    let bytes: Vec<u8> = (0..32).collect();
    assert_eq!(challenge_with(Ok(bytes.clone())).unwrap().to_vec(), bytes);
    let error = challenge_with(Err("no entropy".to_owned())).unwrap_err();
    assert_eq!(error.message(), "The random source failed: no entropy");
}
