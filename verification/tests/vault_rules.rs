use fido2kpxc::crypto::{encrypt, SecretKey};
use fido2kpxc::error::VaultError;
use fido2kpxc::vault::file::{Layout, VaultFileV1};
use fido2kpxc::vault::{secret_aad, Unlock, Vault, ANY, VERSION};

fn unlock(id: u8, output: u8) -> Unlock {
    Unlock {
        cred_id: vec![id; 16],
        output: SecretKey::new([output; 32]),
    }
}

fn vault() -> Vault {
    let mut vault = Vault::create([7; 32], "primary", &unlock(1, 10), ANY, b"any").unwrap();
    vault
        .add_key(&unlock(1, 10), "backup", &unlock(2, 20))
        .unwrap();
    vault
        .set_secret(&unlock(2, 20), "work.kdbx", b"work")
        .unwrap();
    vault
}

fn open(vault: &Vault, key: &Unlock, database: Option<&str>) -> Result<Vec<u8>, String> {
    match vault.open(key, database) {
        Ok(secret) => Ok(secret.expose().to_vec()),
        Err(error) => Err(error.message()),
    }
}

fn message<T>(result: Result<T, VaultError>) -> String {
    match result {
        Ok(_) => panic!("it succeeded"),
        Err(error) => error.message(),
    }
}

fn nonce(byte: u8) -> Result<Vec<u8>, VaultError> {
    Ok(vec![byte; 24])
}

fn no_luck<T>() -> Result<T, VaultError> {
    Err(VaultError::Random {
        reason: "no luck".to_owned(),
    })
}

#[test]
fn given_randomness_the_vault_is_exact() {
    let vault = Vault::create_with(
        [7; 32],
        "primary",
        &unlock(1, 10),
        "a.kdbx",
        b"secret",
        Ok(SecretKey::new([5; 32])),
        nonce(1),
        nonce(2),
    )
    .unwrap();
    assert_eq!(vault.version, VERSION);
    assert_eq!(vault.version, 2);
    assert_eq!(vault.salt, [7; 32]);
    assert_eq!(vault.secrets.len(), 1);
    assert_eq!(vault.secrets[0].database, "a.kdbx");
    assert_eq!(vault.secrets[0].nonce, [1; 24]);
    assert_eq!(
        vault.secrets[0].ciphertext,
        encrypt(&[5; 32], &[1; 24], b"secret", b"fido2kpxc-secret:a.kdbx").unwrap()
    );
    assert_eq!(vault.keys.len(), 1);
    assert_eq!(vault.keys[0].label, "primary");
    assert_eq!(vault.keys[0].cred_id, [1; 16]);
    assert_eq!(
        vault.keys[0].wrapped_key,
        encrypt(&[10; 32], &[2; 24], &[5; 32], &[1; 16]).unwrap()
    );
}

#[test]
fn names_bind_passwords() {
    assert_eq!(secret_aad(ANY), b"fido2kpxc-vault-v1");
    assert_eq!(secret_aad("a"), b"fido2kpxc-secret:a");
    assert_eq!(secret_aad(""), b"fido2kpxc-secret:");
}

#[test]
fn random_draws_differ() {
    assert_ne!(Vault::new_salt().unwrap(), Vault::new_salt().unwrap());
    let one = vault();
    let two = vault();
    assert_ne!(one.secrets[0].nonce, two.secrets[0].nonce);
    assert_ne!(one.keys[0].nonce, one.keys[1].nonce);
    assert_ne!(
        one.unwrap(&unlock(1, 10)).unwrap().expose(),
        two.unwrap(&unlock(1, 10)).unwrap().expose()
    );
}

#[test]
fn a_failed_draw_creates_nothing() {
    let create = |key, seal, wrap| {
        message(Vault::create_with(
            [7; 32],
            "a",
            &unlock(1, 10),
            ANY,
            b"x",
            key,
            seal,
            wrap,
        ))
    };
    let words = "The random source failed: no luck";
    assert_eq!(create(no_luck(), nonce(1), nonce(2)), words);
    let key = || Ok(SecretKey::new([5; 32]));
    assert_eq!(create(key(), no_luck(), nonce(2)), words);
    assert_eq!(create(key(), nonce(1), no_luck()), words);
}

#[test]
fn lists_stand_in_vault_order() {
    let vault = vault();
    assert_eq!(vault.databases(), [ANY, "work.kdbx"]);
    assert_eq!(vault.cred_ids(), [&[1; 16], &[2; 16]]);
    assert_eq!(
        vault.entries(),
        [("primary", &[1u8; 16][..]), ("backup", &[2; 16][..])]
    );
}

#[test]
fn a_key_that_is_not_enrolled_opens_nothing() {
    let error = open(&vault(), &unlock(9, 10), None).unwrap_err();
    assert_eq!(error, "This security key is not enrolled in the vault");
}

#[test]
fn a_wrong_output_opens_nothing() {
    let error = open(&vault(), &unlock(1, 11), None).unwrap_err();
    assert_eq!(error, "Key entry \"primary\" failed authentication");
}

#[test]
fn a_wrapped_key_has_thirty_two_bytes() {
    let mut vault = vault();
    vault.keys[0].wrapped_key = encrypt(&[10; 32], &[9; 24], &[5; 31], &[1; 16]).unwrap();
    vault.keys[0].nonce = vec![9; 24];
    let error = open(&vault, &unlock(1, 10), None).unwrap_err();
    assert_eq!(error, "The wrapped key has the wrong length");
}

#[test]
fn a_database_without_a_password_is_named() {
    let vault = Vault::create([7; 32], "primary", &unlock(1, 10), "a.kdbx", b"x").unwrap();
    assert!(vault.has_secret_for(Some("a.kdbx")));
    assert!(!vault.has_secret_for(Some("b.kdbx")));
    assert!(!vault.has_secret_for(None));
    assert_eq!(
        open(&vault, &unlock(1, 10), Some("b.kdbx")).unwrap_err(),
        "No password is stored for b.kdbx"
    );
    assert_eq!(
        open(&vault, &unlock(1, 10), None).unwrap_err(),
        "No password is stored for this database"
    );
}

#[test]
fn a_damaged_password_is_named() {
    let mut vault = vault();
    vault.secrets[1].ciphertext[0] ^= 1;
    assert_eq!(
        open(&vault, &unlock(1, 10), Some("work.kdbx")).unwrap_err(),
        "The password for \"work.kdbx\" failed authentication"
    );
    let check = vault.check(&unlock(2, 20)).unwrap();
    assert_eq!(check.label, "backup");
    assert_eq!(check.opened, [ANY]);
    assert_eq!(check.failed, ["work.kdbx"]);
    assert_eq!(
        message(vault.check(&unlock(3, 30))),
        "This security key is not enrolled in the vault"
    );
}

#[test]
fn an_added_key_opens_the_same_passwords() {
    let mut vault = vault();
    vault
        .add_key_with(&unlock(2, 20), "third", &unlock(3, 30), nonce(8))
        .unwrap();
    for database in [None, Some("work.kdbx"), Some("home.kdbx")] {
        let expected = open(&vault, &unlock(1, 10), database).unwrap();
        assert_eq!(open(&vault, &unlock(3, 30), database).unwrap(), expected);
        assert_eq!(open(&vault, &unlock(2, 20), database).unwrap(), expected);
    }
}

#[test]
fn a_refused_key_changes_nothing() {
    let mut vault = vault();
    let before = format!("{vault:?}");
    assert_eq!(
        message(vault.add_key(&unlock(1, 10), "backup", &unlock(3, 30))),
        "Label \"backup\" already exists"
    );
    assert_eq!(
        message(vault.add_key(&unlock(1, 10), "third", &unlock(2, 99))),
        "This security key is already enrolled"
    );
    assert_eq!(
        message(vault.add_key(&unlock(4, 10), "third", &unlock(3, 30))),
        "This security key is not enrolled in the vault"
    );
    assert!(vault
        .add_key_with(&unlock(1, 10), "third", &unlock(3, 30), no_luck())
        .is_err());
    assert_eq!(format!("{vault:?}"), before);
}

#[test]
fn setting_one_password_leaves_the_others() {
    let mut vault = vault();
    vault
        .set_secret_with(&unlock(1, 10), "work.kdbx", b"new", nonce(8))
        .unwrap();
    assert_eq!(vault.databases(), [ANY, "work.kdbx"]);
    for key in [unlock(1, 10), unlock(2, 20)] {
        assert_eq!(open(&vault, &key, Some("work.kdbx")).unwrap(), b"new");
        assert_eq!(open(&vault, &key, Some("home.kdbx")).unwrap(), b"any");
    }
}

#[test]
fn a_password_that_cannot_be_stored() {
    let mut vault = vault();
    let before = format!("{vault:?}");
    assert_eq!(
        message(vault.set_secret(&unlock(1, 99), ANY, b"x")),
        "Key entry \"primary\" failed authentication"
    );
    assert_eq!(format!("{vault:?}"), before);
    // A failed draw comes after the old password was dropped.
    assert_eq!(
        message(vault.set_secret_with(&unlock(1, 10), ANY, b"x", no_luck())),
        "The random source failed: no luck"
    );
    assert_eq!(vault.databases(), ["work.kdbx"]);
}

#[test]
fn a_password_that_cannot_be_removed() {
    let mut vault = vault();
    assert_eq!(
        message(vault.remove_secret("b.kdbx")),
        "No password is stored for \"b.kdbx\""
    );
    vault.remove_secret(ANY).unwrap();
    assert_eq!(vault.databases(), ["work.kdbx"]);
    assert_eq!(
        message(vault.remove_secret("work.kdbx")),
        "The last password cannot be removed"
    );
    assert_eq!(
        open(&vault, &unlock(1, 10), Some("home.kdbx")).unwrap_err(),
        "No password is stored for home.kdbx"
    );
}

#[test]
fn a_key_that_cannot_be_removed() {
    let mut vault = vault();
    let before = format!("{vault:?}");
    assert_eq!(
        message(vault.remove_key("third", &[unlock(1, 10)])),
        "No key is labeled \"third\""
    );
    assert_eq!(
        message(vault.remove_key("backup", &[])),
        "Key \"primary\" must be present"
    );
    assert_eq!(
        message(vault.remove_key("backup", &[unlock(1, 11)])),
        "Key entry \"primary\" failed authentication"
    );
    assert!(!vault.only_label("backup"));
    vault.secrets[0].ciphertext[0] ^= 1;
    assert_eq!(
        message(vault.remove_key("backup", &[unlock(1, 10)])),
        "The password for \"*\" failed authentication"
    );
    vault.secrets[0].ciphertext[0] ^= 1;
    assert_eq!(format!("{vault:?}"), before);
    vault.keys[1].label = "primary".to_owned();
    assert!(vault.only_label("primary"));
}

#[test]
fn a_removal_moves_to_the_drawn_key() {
    let mut moved = vault();
    let old = moved.unwrap(&unlock(1, 10)).unwrap();
    moved
        .remove_key_with(
            "primary",
            &[unlock(2, 20)],
            Ok(SecretKey::new([6; 32])),
            vec![nonce(1), nonce(2), nonce(3), nonce(4)],
        )
        .unwrap();
    assert_eq!(moved.unwrap(&unlock(2, 20)).unwrap().expose(), &[6; 32]);
    assert_ne!(old.expose(), &[6; 32]);
    assert_eq!(moved.databases(), [ANY, "work.kdbx"]);
    assert_eq!(
        moved.secrets[1].ciphertext,
        encrypt(&[6; 32], &[2; 24], b"work", b"fido2kpxc-secret:work.kdbx").unwrap()
    );
    assert_eq!(moved.keys.len(), 1);
    assert_eq!(moved.keys[0].nonce, [3; 24]);
    assert_eq!(
        open(&moved, &unlock(1, 10), None).unwrap_err(),
        "This security key is not enrolled in the vault"
    );
}

#[test]
fn a_removal_stops_where_a_draw_fails() {
    let draws = || vec![nonce(1), nonce(2), no_luck(), nonce(4)];
    let mut late = vault();
    let result = late.remove_key_with(
        "primary",
        &[unlock(2, 20)],
        Ok(SecretKey::new([6; 32])),
        draws(),
    );
    assert_eq!(message(result), "The random source failed: no luck");
    assert_eq!(late.secrets.len(), 2);
    assert!(late.keys.is_empty());
    let mut early = vault();
    let before = format!("{early:?}");
    assert!(early
        .remove_key_with("primary", &[unlock(2, 20)], no_luck(), draws())
        .is_err());
    assert_eq!(format!("{early:?}"), before);
}

#[test]
fn a_file_holds_the_vault() {
    let vault = vault();
    let file = vault.to_file();
    assert_eq!(file.version, 2);
    assert_eq!(file.salt, "BwcHBwcHBwcHBwcHBwcHBwcHBwcHBwcHBwcHBwcHBwc=");
    let back = Vault::from_file(&file).unwrap();
    assert_eq!(format!("{back:?}"), format!("{vault:?}"));
}

#[test]
fn a_file_that_does_not_load() {
    let load = |change: fn(&mut Vault)| {
        let mut broken = vault();
        change(&mut broken);
        message(Vault::from_file(&broken.to_file()))
    };
    assert_eq!(
        load(|v| v.salt = vec![7; 31]),
        "The vault salt has the wrong length"
    );
    assert_eq!(load(|v| v.keys.clear()), "The vault has no enrolled keys");
    assert_eq!(load(|v| v.secrets.clear()), "The vault holds no password");
    assert_eq!(
        load(|v| v.keys[1].nonce = vec![1; 23]),
        "A vault nonce has the wrong length"
    );
    assert_eq!(
        load(|v| v.secrets[1].nonce = vec![1; 25]),
        "A vault nonce has the wrong length"
    );
    assert_eq!(
        load(|v| v.secrets[1].database = ANY.to_owned()),
        "The vault stores a database name twice"
    );
    let mut file = vault().to_file();
    file.keys[1].nonce = "not base64".to_owned();
    match Vault::from_file(&file) {
        Err(VaultError::Unreadable { reason }) => {
            assert_eq!(reason, "Invalid symbol 32, offset 3.")
        }
        other => panic!("{other:?}"),
    }
}

#[test]
fn the_version_decides_the_layout() {
    assert_eq!(Layout::read("version = 1\n").unwrap(), Layout::Version1);
    assert_eq!(Layout::read("a = 1\nversion = 2").unwrap(), Layout::Version2);
    assert_eq!(
        message(Layout::read("version = 3")),
        "Unsupported vault version 3"
    );
    assert_eq!(
        message(Layout::read("version = -1")),
        "Unsupported vault version -1"
    );
    assert_eq!(message(Layout::read("")), "The vault has no version");
    assert_eq!(
        message(Layout::read("version = \"1\"")),
        "The vault has no version"
    );
    assert!(matches!(
        Layout::read("version ="),
        Err(VaultError::Unreadable { .. })
    ));
    assert_eq!(Layout::of(Some(1)).unwrap(), Layout::Version1);
}

#[test]
fn a_version_1_file_becomes_the_catch_all() {
    let source = vault().to_file();
    let old = VaultFileV1 {
        salt: source.salt,
        nonce: source.secrets[0].nonce.clone(),
        ciphertext: source.secrets[0].ciphertext.clone(),
        keys: source.keys,
    };
    let vault = Vault::from_file(&old.upgrade()).unwrap();
    assert_eq!(vault.version, 2);
    assert_eq!(vault.databases(), [ANY]);
    assert_eq!(open(&vault, &unlock(2, 20), Some("x")).unwrap(), b"any");
}

#[test]
fn a_drawn_salt_is_used_as_it_is() {
    let bytes: Vec<u8> = (0..32).collect();
    assert_eq!(Vault::new_salt_with(Ok(bytes.clone())).unwrap().to_vec(), bytes);
    let error = Vault::new_salt_with(Err("no entropy".to_owned())).unwrap_err();
    assert_eq!(error.message(), "The random source failed: no entropy");
}

#[test]
fn what_opens_seals_back_under_its_name_alone() {
    let vault = vault();
    let key = vault.unwrap(&unlock(1, 10)).unwrap();
    let entry = &vault.secrets[1];
    let seal = |name: &str| encrypt(key.expose(), &entry.nonce, b"work", &secret_aad(name)).unwrap();
    assert_eq!(entry.database, "work.kdbx");
    assert_eq!(seal("work.kdbx"), entry.ciphertext);
    assert_ne!(seal(ANY), entry.ciphertext);
}
