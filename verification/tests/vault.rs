use base64::engine::general_purpose::STANDARD;
use base64::Engine;
use fido2kpxc::crypto::{decrypt, encrypt, SecretKey};
use fido2kpxc::vault::file::{KeyFile, Layout, SecretFile, VaultFile, VaultFileV1};
use fido2kpxc::vault::{secret_aad, Unlock, Vault, ANY};
use std::io::{Read, Write};

fn unlock(id: u8, output: u8) -> Unlock {
    Unlock {
        cred_id: vec![id; 16],
        output: SecretKey::new([output; 32]),
    }
}

fn two_key_vault(secret: &[u8]) -> Vault {
    let mut vault = Vault::create([7; 32], "primary", &unlock(1, 10), ANY, secret).unwrap();
    vault
        .add_key(&unlock(1, 10), "backup", &unlock(2, 20))
        .unwrap();
    vault
}

fn open(vault: &Vault, key: &Unlock, database: &str) -> Vec<u8> {
    vault.open(key, Some(database)).unwrap().expose().to_vec()
}

/// The text of a vault file.
fn write(vault: &Vault) -> String {
    let file = vault.to_file();
    let mut text = format!("version = {}\nsalt = {:?}\n", file.version, file.salt);
    for key in &file.keys {
        text += &format!(
            "\n[[keys]]\nlabel = {:?}\ncred_id = {:?}\nnonce = {:?}\nwrapped_key = {:?}\n",
            key.label, key.cred_id, key.nonce, key.wrapped_key
        );
    }
    for secret in &file.secrets {
        text += &format!(
            "\n[[secrets]]\ndatabase = {:?}\nnonce = {:?}\nciphertext = {:?}\n",
            secret.database, secret.nonce, secret.ciphertext
        );
    }
    text
}

fn field(table: &toml::Table, name: &str) -> String {
    table[name].as_str().unwrap().to_owned()
}

fn tables(table: &toml::Table, name: &str) -> Vec<toml::Table> {
    table[name]
        .as_array()
        .unwrap()
        .iter()
        .map(|item| item.as_table().unwrap().clone())
        .collect()
}

fn key_files(table: &toml::Table) -> Vec<KeyFile> {
    tables(table, "keys")
        .iter()
        .map(|key| KeyFile {
            label: field(key, "label"),
            cred_id: field(key, "cred_id"),
            nonce: field(key, "nonce"),
            wrapped_key: field(key, "wrapped_key"),
        })
        .collect()
}

/// The vault that a text holds.
fn read(text: &str) -> Vault {
    let table: toml::Table = toml::from_str(text).unwrap();
    let file = match Layout::read(text).unwrap() {
        Layout::Version1 => VaultFileV1 {
            salt: field(&table, "salt"),
            nonce: field(&table, "nonce"),
            ciphertext: field(&table, "ciphertext"),
            keys: key_files(&table),
        }
        .upgrade(),
        Layout::Version2 => VaultFile {
            version: table["version"].as_integer().unwrap() as u32,
            salt: field(&table, "salt"),
            keys: key_files(&table),
            secrets: tables(&table, "secrets")
                .iter()
                .map(|secret| SecretFile {
                    database: field(secret, "database"),
                    nonce: field(secret, "nonce"),
                    ciphertext: field(secret, "ciphertext"),
                })
                .collect(),
        },
    };
    Vault::from_file(&file).unwrap()
}

/// Writes a text to `vault.toml` in a folder and reads it back.
fn through_disk(dir: &tempfile::TempDir, text: &str) -> String {
    let mut file = tempfile::Builder::new()
        .prefix("vault")
        .suffix(".toml")
        .rand_bytes(0)
        .tempfile_in(dir.path())
        .unwrap();
    file.write_all(text.as_bytes()).unwrap();
    let mut back = String::new();
    file.reopen().unwrap().read_to_string(&mut back).unwrap();
    back
}

#[test]
fn vault_either_key_opens_the_vault_after_a_save_and_load() {
    let dir = tempfile::tempdir().unwrap();
    let vault = read(&through_disk(&dir, &write(&two_key_vault(b"hunter2"))));
    assert_eq!(vault.salt(), [7; 32]);
    assert_eq!(open(&vault, &unlock(1, 10), "pdb.kdbx"), b"hunter2");
    assert_eq!(open(&vault, &unlock(2, 20), "pdb.kdbx"), b"hunter2");
}

#[test]
fn vault_exact_database_name_beats_the_catch_all() {
    let mut vault = two_key_vault(b"default");
    vault
        .set_secret(&unlock(1, 10), "work.kdbx", b"work")
        .unwrap();
    assert_eq!(open(&vault, &unlock(2, 20), "work.kdbx"), b"work");
    assert_eq!(open(&vault, &unlock(2, 20), "home.kdbx"), b"default");
}

#[test]
fn vault_unknown_database_without_a_catch_all_has_no_secret() {
    let vault = Vault::create([7; 32], "primary", &unlock(1, 10), "work.kdbx", b"work").unwrap();
    assert!(!vault.has_secret_for(Some("home.kdbx")));
    assert!(vault.open(&unlock(1, 10), Some("home.kdbx")).is_err());
    assert_eq!(open(&vault, &unlock(1, 10), "work.kdbx"), b"work");
}

#[test]
fn vault_set_secret_keeps_every_key_working() {
    let mut vault = two_key_vault(b"old");
    vault.set_secret(&unlock(1, 10), ANY, b"new").unwrap();
    assert_eq!(open(&vault, &unlock(2, 20), "pdb.kdbx"), b"new");
    assert_eq!(vault.databases(), vec![ANY]);
}

#[test]
fn vault_remove_secret_falls_back_to_the_catch_all() {
    let mut vault = two_key_vault(b"default");
    vault
        .set_secret(&unlock(1, 10), "work.kdbx", b"work")
        .unwrap();
    vault.remove_secret("work.kdbx").unwrap();
    assert_eq!(open(&vault, &unlock(1, 10), "work.kdbx"), b"default");
    assert!(vault.remove_secret(ANY).is_err());
}

#[test]
fn vault_remove_key_keeps_the_other_keys_working() {
    let mut vault = two_key_vault(b"hunter2");
    vault
        .set_secret(&unlock(1, 10), "work.kdbx", b"work")
        .unwrap();
    vault
        .add_key(&unlock(1, 10), "third", &unlock(3, 30))
        .unwrap();
    vault
        .remove_key("backup", &[unlock(1, 10), unlock(3, 30)])
        .unwrap();
    assert!(vault.open(&unlock(2, 20), None).is_err());
    assert_eq!(open(&vault, &unlock(1, 10), "pdb.kdbx"), b"hunter2");
    assert_eq!(open(&vault, &unlock(3, 30), "work.kdbx"), b"work");
}

#[test]
fn vault_removed_key_cannot_read_vaults_written_after_removal() {
    let mut vault = two_key_vault(b"hunter2");
    let old_copy = read(&write(&vault));
    vault.remove_key("backup", &[unlock(1, 10)]).unwrap();
    vault.set_secret(&unlock(1, 10), ANY, b"rotated").unwrap();
    // The removed key still opens its old copy, so it knows the old data key.
    let old_key = old_copy.unwrap(&unlock(2, 20)).unwrap();
    let secret = &vault.secrets[0];
    assert!(decrypt(
        old_key.expose(),
        &secret.nonce,
        &secret.ciphertext,
        &secret_aad(ANY)
    )
    .is_none());
}

#[test]
fn vault_remove_key_refuses_the_last_key() {
    let mut vault = Vault::create([7; 32], "primary", &unlock(1, 10), ANY, b"hunter2").unwrap();
    assert!(vault.remove_key("primary", &[]).is_err());
    assert_eq!(open(&vault, &unlock(1, 10), "pdb.kdbx"), b"hunter2");
}

#[test]
fn vault_tampered_ciphertext_fails_to_open() {
    let mut vault = two_key_vault(b"hunter2");
    vault.secrets[0].ciphertext[0] ^= 1;
    assert!(vault.open(&unlock(1, 10), None).is_err());
}

#[test]
fn vault_swapped_database_names_fail_to_open() {
    let mut vault = two_key_vault(b"home");
    vault
        .set_secret(&unlock(1, 10), "work.kdbx", b"work")
        .unwrap();
    let first = vault.secrets[0].database.clone();
    vault.secrets[0].database = vault.secrets[1].database.clone();
    vault.secrets[1].database = first;
    assert!(vault.open(&unlock(1, 10), Some("work.kdbx")).is_err());
}

#[test]
fn vault_swapped_cred_ids_fail_to_unwrap() {
    // Both keys share one output, so only the cred_id binding can reject the swap.
    let mut vault = Vault::create([7; 32], "primary", &unlock(1, 10), ANY, b"hunter2").unwrap();
    vault
        .add_key(&unlock(1, 10), "backup", &unlock(2, 10))
        .unwrap();
    let first = vault.keys[0].cred_id.clone();
    vault.keys[0].cred_id = vault.keys[1].cred_id.clone();
    vault.keys[1].cred_id = first;
    assert!(vault.open(&unlock(2, 10), None).is_err());
}

#[test]
fn vault_version_1_vault_opens_as_the_catch_all_and_saves_as_version_2() {
    let key = [5; 32];
    let b = |bytes: &[u8]| STANDARD.encode(bytes);
    let seal = |with: &[u8; 32], msg: &[u8], aad: &[u8], n: [u8; 24]| {
        encrypt(with, &n, msg, aad).unwrap()
    };
    let old = unlock(1, 10);
    let v1 = format!(
        "version = 1\nsalt = \"{}\"\nnonce = \"{}\"\nciphertext = \"{}\"\n\n[[keys]]\nlabel = \"primary\"\ncred_id = \"{}\"\nnonce = \"{}\"\nwrapped_key = \"{}\"\n",
        b(&[7; 32]),
        b(&[1; 24]),
        b(&seal(&key, b"hunter2", b"fido2kpxc-vault-v1", [1; 24])),
        b(&old.cred_id),
        b(&[2; 24]),
        b(&seal(old.output.expose(), &key, &old.cred_id, [2; 24])),
    );
    let dir = tempfile::tempdir().unwrap();
    let saved = write(&read(&through_disk(&dir, &v1)));
    assert!(through_disk(&dir, &saved).starts_with("version = 2"));
    assert_eq!(open(&read(&saved), &old, "any.kdbx"), b"hunter2");
}
