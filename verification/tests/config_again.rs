use fido2kpxc::config::{Autofill, Config, ConfigError, ConfigFile, DEFAULT_CLEAR_SECONDS, TEMPLATE};
use std::path::Path;

/// The settings that the text of a config file stands for.
fn parse(text: &str, home: &Path) -> Result<Config, ConfigError> {
    let table: toml::Table = toml::from_str(text).unwrap();
    let autofill = table.get("autofill").map(|value| {
        let name = value.as_str().unwrap();
        Autofill::ALL
            .into_iter()
            .find(|choice| choice.name() == name)
            .unwrap()
    });
    let file = ConfigFile {
        folder: table["folder"].as_str().unwrap().to_owned(),
        clear_seconds: table
            .get("clear_seconds")
            .map(|value| value.as_integer().unwrap() as u64),
        autofill,
        copy_password: table.get("copy_password").map(|value| value.as_bool().unwrap()),
    };
    Config::parse(file, home.to_str().unwrap())
}

#[test]
fn tests_vault_lives_in_the_configured_folder() {
    let config = parse(r#"folder = "/s""#, Path::new("/h")).unwrap();
    assert_eq!(Path::new(&config.vault), Path::new("/s/vault.toml"));
    assert_eq!(config.clear_seconds, 20);
    assert_eq!(config.autofill, Autofill::FillAndUnlock);
    assert!(!config.copy_password);
}

#[test]
fn tests_template_documents_every_key_with_its_default() {
    let uncommented = TEMPLATE
        .replace("# copy_password", "copy_password")
        .replace("# folder", "folder")
        .replace("# clear", "clear")
        .replace("# autofill", "autofill");
    let config = parse(&uncommented, Path::new("/Users/me")).unwrap();
    assert_eq!(
        Path::new(&config.vault),
        Path::new("/Users/me/Synced/fido2kpxc/vault.toml")
    );
    assert_eq!(config.clear_seconds, DEFAULT_CLEAR_SECONDS);
    assert_eq!(config.autofill, Autofill::default());
    assert!(!config.copy_password);
}

#[test]
fn tests_clear_delay_beyond_an_hour_is_rejected() {
    let text = "folder = \"/s\"\nclear_seconds = 9223372036854775807";
    assert!(parse(text, Path::new("/h")).is_err());
}

#[test]
fn tests_tilde_expands_to_home() {
    let config = parse(
        "folder = \"~/Synced\"\nautofill = \"fill\"",
        Path::new("/Users/me"),
    )
    .unwrap();
    assert_eq!(
        Path::new(&config.vault),
        Path::new("/Users/me/Synced/vault.toml")
    );
    assert_eq!(config.autofill, Autofill::Fill);
}

#[test]
fn rendered_settings_load_back() {
    let text = Config::render("~/Sync/My \"Vault\"", Autofill::Fill, true, 60);
    let config = parse(&text, Path::new("/Users/me")).unwrap();
    assert_eq!(
        Path::new(&config.vault),
        Path::new("/Users/me/Sync/My \"Vault\"/vault.toml")
    );
    assert_eq!(config.autofill, Autofill::Fill);
    assert!(config.copy_password);
    assert_eq!(config.clear_seconds, 60);
}

#[test]
fn conflicts_lists_sync_copies_of_the_vault_only() {
    let dir = tempfile::tempdir().unwrap();
    let names = [
        "vault.toml",
        "vault.sync-conflict-20260925-120000-ABCDEFG.toml",
        "vault (Jessica's conflicted copy 2026-09-25).toml",
        "vault 2.toml",
        ".fido2kpxc-abc.tmp",
        "notes.toml",
        "vault.toml.bak",
    ]
    .map(str::to_owned);
    let text = format!("folder = {:?}", dir.path());
    let config = parse(&text, Path::new("/h")).unwrap();
    assert_eq!(Path::new(&config.folder), dir.path());
    assert_eq!(
        Config::conflicts(&names),
        [
            "vault (Jessica's conflicted copy 2026-09-25).toml",
            "vault 2.toml",
            "vault.sync-conflict-20260925-120000-ABCDEFG.toml",
        ]
    );
}

#[test]
fn conflicts_is_empty_for_a_missing_folder() {
    let config = parse(r#"folder = "/nonexistent/fido2kpxc""#, Path::new("/h")).unwrap();
    assert_eq!(config.folder, "/nonexistent/fido2kpxc");
    assert!(Config::conflicts(&[]).is_empty());
}

#[test]
fn the_config_lives_in_the_library() {
    assert_eq!(
        Config::path(Some("/Users/me")).unwrap(),
        "/Users/me/Library/Application Support/fido2kpxc/config.toml"
    );
    assert_eq!(Config::path(None).unwrap_err().message(), "HOME is not set");
}

#[test]
fn a_relative_folder_is_rejected() {
    for folder in ["vaults", "", "~me/vaults", "./~", "."] {
        let error = parse(&format!("folder = {folder:?}"), Path::new("/h")).unwrap_err();
        assert!(matches!(error, ConfigError::RelativeFolder), "{folder}");
        assert_eq!(
            error.message(),
            "folder must be an absolute path or start with ~/"
        );
    }
    // Without an absolute home the folder stays relative.
    assert!(parse("folder = \"~/x\"", Path::new("h")).is_err());
}

#[test]
fn the_longest_delay_is_an_hour() {
    let config = parse("folder = \"/s\"\nclear_seconds = 3600", Path::new("/h")).unwrap();
    assert_eq!(config.clear_seconds, 3600);
    let error = parse("folder = \"/s\"\nclear_seconds = 3601", Path::new("/h")).unwrap_err();
    assert_eq!(error.message(), "clear_seconds must be at most 3600");
}

#[test]
fn the_folder_or_its_parent_must_exist() {
    let config = parse("folder = \"/s/v\"", Path::new("/h")).unwrap();
    assert!(config.check_folder(true, false).is_ok());
    assert!(config.check_folder(false, true).is_ok());
    assert_eq!(
        config.check_folder(false, false).unwrap_err().message(),
        "Neither /s/v nor its parent folder exists. Check folder in the config."
    );
}

#[test]
fn rendered_settings_are_exact() {
    assert_eq!(
        Config::render("/s", Autofill::Off, false, 20),
        "folder = \"/s\"\nclear_seconds = 20\nautofill = \"off\"\ncopy_password = false\n"
    );
    assert_eq!(
        Config::render_quoted("'/s'", Autofill::FillAndUnlock, true, 0),
        "folder = '/s'\nclear_seconds = 0\nautofill = \"fill-and-unlock\"\ncopy_password = true\n"
    );
    let text = Config::render("/a \\ b\n\u{e9}", Autofill::Off, false, 1);
    let table: toml::Table = toml::from_str(&text).unwrap();
    assert_eq!(table["folder"].as_str(), Some("/a \\ b\n\u{e9}"));
}

#[test]
fn every_autofill_choice_has_its_place() {
    for (i, choice) in Autofill::ALL.into_iter().enumerate() {
        assert_eq!(choice.position(), i);
    }
    assert_eq!(
        Autofill::ALL.map(Autofill::name),
        ["fill-and-unlock", "fill", "off"]
    );
}
