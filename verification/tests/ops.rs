use fido2kpxc::config::{Autofill, Config};
use fido2kpxc::crypto::SecretKey;
use fido2kpxc::ops::{check_exists, check_label, check_new, describe, keys_to_touch, list, report};
use fido2kpxc::vault::{Check, Unlock, Vault, ANY};

fn check(opened: &[&str], failed: &[&str]) -> Check {
    Check {
        label: "backup".to_owned(),
        opened: opened.iter().map(|s| s.to_string()).collect(),
        failed: failed.iter().map(|s| s.to_string()).collect(),
    }
}

#[test]
fn report_names_every_opened_password() {
    assert_eq!(
        report(&check(&["pdb.kdbx", "*"], &[])),
        "This key is enrolled as \"backup\". It opens all 2 stored passwords: pdb.kdbx, any other database (*)."
    );
}

#[test]
fn report_for_a_single_password() {
    assert_eq!(
        report(&check(&["*"], &[])),
        "This key is enrolled as \"backup\". It opens the stored password for any other database (*)."
    );
}

#[test]
fn report_names_passwords_that_fail() {
    assert_eq!(
        report(&check(&["*"], &["pdb.kdbx"])),
        "This key is enrolled as \"backup\". It opens any other database (*), but the password for pdb.kdbx fails to decrypt. Store it again."
    );
}

#[test]
fn report_for_a_vault_without_passwords() {
    assert_eq!(
        report(&check(&[], &[])),
        "This key is enrolled as \"backup\". The vault holds no passwords yet."
    );
}

#[test]
fn report_without_an_opened_password() {
    assert_eq!(
        report(&check(&[], &["a", "b"])),
        "This key is enrolled as \"backup\". It opens no stored password, and the passwords for a, b fail to decrypt. Store them again."
    );
}

#[test]
fn the_catch_all_is_named_in_words() {
    assert_eq!(describe(ANY), "any other database (*)");
    assert_eq!(describe("a.kdbx"), "a.kdbx");
    assert_eq!(
        list(&["a.kdbx".to_owned(), ANY.to_owned()]),
        "a.kdbx, any other database (*)"
    );
    assert_eq!(list(&[]), "");
}

fn config() -> Config {
    Config {
        folder: "/s".to_owned(),
        vault: "/s/vault.toml".to_owned(),
        clear_seconds: 20,
        autofill: Autofill::Off,
        copy_password: false,
    }
}

#[test]
fn a_new_vault_needs_a_folder_and_no_vault() {
    assert!(check_new(&config(), true, false, false).is_ok());
    assert!(check_new(&config(), false, true, false).is_ok());
    assert_eq!(
        check_new(&config(), true, true, true).unwrap_err().message(),
        "A vault already exists at /s/vault.toml"
    );
    assert_eq!(
        check_new(&config(), false, false, true).unwrap_err().message(),
        "Neither /s nor its parent folder exists. Check folder in the config."
    );
    assert!(check_exists(&config(), true).is_ok());
    assert_eq!(
        check_exists(&config(), false).unwrap_err().message(),
        "No vault at /s/vault.toml. Run `fido2kpxc enroll`."
    );
}

fn unlock(id: u8) -> Unlock {
    Unlock {
        cred_id: vec![id; 2],
        output: SecretKey::new([id; 32]),
    }
}

#[test]
fn every_other_key_must_be_touched() {
    let mut vault = Vault::create([7; 32], "a", &unlock(1), ANY, b"x").unwrap();
    assert_eq!(
        keys_to_touch(&vault, "a").unwrap_err().message(),
        "The last key cannot be removed"
    );
    vault.add_key(&unlock(1), "b", &unlock(2)).unwrap();
    vault.add_key(&unlock(1), "c", &unlock(3)).unwrap();
    assert_eq!(
        keys_to_touch(&vault, "b").unwrap(),
        [
            ("a".to_owned(), vec![1, 1]),
            ("c".to_owned(), vec![3, 3])
        ]
    );
    assert_eq!(
        keys_to_touch(&vault, "d").unwrap_err().message(),
        "No key is labeled \"d\""
    );
    assert!(check_label(&vault, "d").is_ok());
    assert_eq!(
        check_label(&vault, "c").unwrap_err().message(),
        "Label \"c\" already exists"
    );
}
