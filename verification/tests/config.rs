use fido2kpxc::config::{Autofill, Config, ConfigError, ConfigFile, DEFAULT_CLEAR_SECONDS, TEMPLATE};
use std::path::Path;

/// The settings that the text of a config file stands for.
fn parse(text: &str, home: &Path) -> Result<Config, ConfigError> {
    let table: toml::Table = toml::from_str(text).unwrap();
    let autofill = table.get("autofill").map(|value| {
        let name = value.as_str().unwrap();
        Autofill::ALL
            .into_iter()
            .find(|choice| choice.name() == name)
            .unwrap()
    });
    let file = ConfigFile {
        folder: table["folder"].as_str().unwrap().to_owned(),
        clear_seconds: table
            .get("clear_seconds")
            .map(|value| value.as_integer().unwrap() as u64),
        autofill,
        copy_password: table.get("copy_password").map(|value| value.as_bool().unwrap()),
    };
    Config::parse(file, home.to_str().unwrap())
}

#[test]
fn config_vault_lives_in_the_configured_folder() {
    let config = parse(r#"folder = "/s""#, Path::new("/h")).unwrap();
    assert_eq!(Path::new(&config.vault), Path::new("/s/vault.toml"));
    assert_eq!(config.clear_seconds, 20);
    assert_eq!(config.autofill, Autofill::FillAndUnlock);
    assert!(!config.copy_password);
}

#[test]
fn config_template_documents_every_key_with_its_default() {
    let uncommented = TEMPLATE
        .replace("# copy_password", "copy_password")
        .replace("# folder", "folder")
        .replace("# clear", "clear")
        .replace("# autofill", "autofill");
    let config = parse(&uncommented, Path::new("/Users/me")).unwrap();
    assert_eq!(
        Path::new(&config.vault),
        Path::new("/Users/me/Synced/fido2kpxc/vault.toml")
    );
    assert_eq!(config.clear_seconds, DEFAULT_CLEAR_SECONDS);
    assert_eq!(config.autofill, Autofill::default());
    assert!(!config.copy_password);
}

#[test]
fn config_clear_delay_beyond_an_hour_is_rejected() {
    let text = "folder = \"/s\"\nclear_seconds = 9223372036854775807";
    assert!(parse(text, Path::new("/h")).is_err());
}

#[test]
fn config_tilde_expands_to_home() {
    let config = parse(
        "folder = \"~/Synced\"\nautofill = \"fill\"",
        Path::new("/Users/me"),
    )
    .unwrap();
    assert_eq!(
        Path::new(&config.vault),
        Path::new("/Users/me/Synced/vault.toml")
    );
    assert_eq!(config.autofill, Autofill::Fill);
}
