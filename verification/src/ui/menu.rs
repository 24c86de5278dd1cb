//! The settings form's values, the menu, and the diagnostics report.

use vstd::prelude::*;
use vstd::string::*;

use super::{opt_draft, Notice, NoticeM, SettingsM, SettingsValues};
use crate::config::{
    rendered, settings_of, toml_string, Autofill, Config, ConfigFault, ConfigFile, ConfigModel,
    ConfigText,
};
use crate::error::opt_str;
use crate::kpxc::{truth, truth_word};
use crate::path::{strip_prefix, stripped};
use crate::text::{
    concat, decimal, decimal_text, join, joined, parse_u64, parsed_u64, text_eq, texts, trim,
    trimmed,
};
use crate::vault::{KeyModel, SecretModel, Vault, VaultModel, ANY};

verus! {

/// Labels for the autofill choice, in the order of [`Autofill::ALL`].
pub const AUTOFILL_LABELS: [&'static str; 3] = ["Fill and unlock", "Fill only", "Off"];

/// The choice that a label stands for. An unknown label stands for the default.
pub open spec fn choice_of(label: Seq<char>) -> Autofill {
    if label == "Fill and unlock"@ {
        Autofill::FillAndUnlock
    } else if label == "Fill only"@ {
        Autofill::Fill
    } else if label == "Off"@ {
        Autofill::Off
    } else {
        Autofill::FillAndUnlock
    }
}

/// The choice that a label stands for. An unknown label stands for the default.
pub fn autofill_of(label: &str) -> (autofill: Autofill)
    ensures
        autofill == choice_of(label@),
{
    if text_eq(label, AUTOFILL_LABELS[0]) {
        Autofill::FillAndUnlock
    } else if text_eq(label, AUTOFILL_LABELS[1]) {
        Autofill::Fill
    } else if text_eq(label, AUTOFILL_LABELS[2]) {
        Autofill::Off
    } else {
        Autofill::default()
    }
}

/// The folder as the user would type it, with `~` for the home folder.
pub open spec fn shortened(folder: Seq<char>, home: Option<Seq<char>>) -> Seq<char> {
    match home {
        Some(home) => match stripped(folder, home, true) {
            Some(rest) => "~/"@ + rest,
            None => folder,
        },
        None => folder,
    }
}

/// Values that the settings form starts with: a rejected draft, else the current config, else
/// defaults.
pub open spec fn starting_values(
    draft: Option<Seq<Seq<char>>>,
    config: Option<ConfigModel>,
    home: Option<Seq<char>>,
) -> SettingsM {
    match draft {
        Some(draft) => SettingsM {
            folder: draft[0],
            clear: draft[3],
            autofill: choice_of(draft[1]).place() as usize,
            copy: if draft[2] == "On"@ {
                1
            } else {
                0
            },
        },
        None => match config {
            None => SettingsM { folder: ""@, clear: "20"@, autofill: 0, copy: 0 },
            Some(config) => SettingsM {
                folder: shortened(config.folder, home),
                clear: decimal_text(config.clear_seconds as nat),
                autofill: config.autofill.place() as usize,
                copy: if config.copy_password {
                    1
                } else {
                    0
                },
            },
        },
    }
}

/// A config that may be absent, as characters.
pub open spec fn opt_config(config: Option<&Config>) -> Option<ConfigModel> {
    match config {
        Some(config) => Some(config@),
        None => None,
    }
}

/// Values that the settings form starts with.
pub fn settings_values(
    draft: &Option<Vec<String>>,
    config: Option<&Config>,
    home: Option<&str>,
) -> (values: SettingsValues)
    requires
        opt_draft(*draft) matches Some(d) ==> d.len() >= 4,
    ensures
        values@ == starting_values(opt_draft(*draft), opt_config(config), opt_str(home)),
{
    if let Some(draft) = draft {
        assert(texts(draft@)[0] == draft@[0]@);
        assert(texts(draft@)[1] == draft@[1]@);
        assert(texts(draft@)[2] == draft@[2]@);
        assert(texts(draft@)[3] == draft@[3]@);
        let copy: usize = if text_eq(draft[2].as_str(), "On") {
            1
        } else {
            0
        };
        return SettingsValues {
            folder: draft[0].clone(),
            clear: draft[3].clone(),
            autofill: autofill_of(draft[1].as_str()).position(),
            copy,
        };
    }
    match config {
        None => SettingsValues {
            folder: "".to_owned(),
            clear: "20".to_owned(),
            autofill: 0,
            copy: 0,
        },
        Some(config) => {
            let rest = match home {
                Some(home) => strip_prefix(config.folder.as_str(), home),
                None => None,
            };
            let folder = match rest {
                Some(rest) => {
                    let mut s = "~/".to_owned();
                    s.append(rest.as_str());
                    s
                },
                None => config.folder.clone(),
            };
            let copy: usize = if config.copy_password {
                1
            } else {
                0
            };
            SettingsValues {
                folder,
                clear: decimal(config.clear_seconds),
                autofill: config.autofill.position(),
                copy,
            }
        },
    }
}

/// What the settings form says, as a config file would, if its delay is a number.
pub open spec fn drafted(draft: Seq<Seq<char>>) -> Option<ConfigText> {
    match parsed_u64(trimmed(draft[3])) {
        None => None,
        Some(clear) => Some(
            ConfigText {
                folder: trimmed(draft[0]),
                clear_seconds: Some(clear),
                autofill: Some(choice_of(draft[1])),
                copy_password: Some(draft[2] == "On"@),
            },
        ),
    }
}

/// The config file that the settings form asks for, or why it cannot be written.
pub open spec fn draft_text(draft: Seq<Seq<char>>, home: Option<Seq<char>>) -> Result<
    Seq<char>,
    NoticeM,
> {
    match drafted(draft) {
        None => Err(NoticeM::ClearNotANumber),
        Some(file) => match home {
            None => Err(NoticeM::Error { error: ConfigFault::NoHome.words() }),
            Some(home) => match settings_of(file, home) {
                Err(fault) => Err(NoticeM::Error { error: fault.words() }),
                Ok(_) => Ok(
                    rendered(
                        toml_string(file.folder),
                        file.autofill->0,
                        file.copy_password->0,
                        file.clear_seconds->0,
                    ),
                ),
            },
        },
    }
}

/// Checks the settings form and makes the config file that it asks for.
pub fn settings_text(draft: &[String], home: Option<&str>) -> (r: Result<String, Notice>)
    requires
        draft@.len() >= 4,
    ensures
        r matches Ok(text) ==> draft_text(texts(draft@), opt_str(home)) == Ok::<Seq<char>, NoticeM>(
            text@,
        ),
        r matches Err(n) ==> draft_text(texts(draft@), opt_str(home)) == Err::<Seq<char>, NoticeM>(
            n@,
        ),
{
    assert(texts(draft@)[0] == draft@[0]@);
    assert(texts(draft@)[1] == draft@[1]@);
    assert(texts(draft@)[2] == draft@[2]@);
    assert(texts(draft@)[3] == draft@[3]@);
    let autofill = autofill_of(draft[1].as_str());
    let copy = text_eq(draft[2].as_str(), "On");
    let clear: u64 = match parse_u64(trim(draft[3].as_str()).as_str()) {
        Some(clear) => clear,
        None => return Err(Notice::ClearNotANumber),
    };
    let folder = trim(draft[0].as_str());
    let home = match home {
        Some(home) => home,
        None => {
            return Err(Notice::Error { error: crate::config::ConfigError::NoHome.message() });
        },
    };
    let file = ConfigFile {
        folder: folder.clone(),
        clear_seconds: Some(clear),
        autofill: Some(autofill),
        copy_password: Some(copy),
    };
    assert(drafted(texts(draft@)) == Some(file@));
    match Config::parse(file, home) {
        Ok(_) => Ok(Config::render(folder.as_str(), autofill, copy, clear)),
        Err(error) => Err(Notice::Error { error: error.message() }),
    }
}

/// The "Copy Password" item: one action for a single password, or a submenu with one item per
/// database.
#[derive(Debug)]
pub enum CopyMenu {
    Single { database: String },
    Several { items: Vec<CopyItem> },
}

/// One item of the "Copy Password" submenu.
#[derive(Debug)]
pub struct CopyItem {
    pub title: String,
    pub database: String,
}

/// The title of a database in the submenu.
pub open spec fn copy_title(database: Seq<char>) -> Seq<char> {
    if database == ANY@ {
        "Any other database"@
    } else {
        database
    }
}

/// The titles and names of items.
pub open spec fn copy_models(items: Seq<CopyItem>) -> Seq<(Seq<char>, Seq<char>)> {
    items.map_values(|item: CopyItem| (item.title@, item.database@))
}

/// The "Copy Password" item for the stored databases.
pub fn copy_menu(databases: &[String]) -> (menu: CopyMenu)
    ensures
        match menu {
            CopyMenu::Single { database } => texts(databases@) == seq![database@],
            CopyMenu::Several { items } => databases@.len() != 1 && copy_models(items@) == texts(
                databases@,
            ).map_values(|name: Seq<char>| (copy_title(name), name)),
        },
{
    if databases.len() == 1 {
        let database = databases[0].clone();
        assert(texts(databases@) =~= seq![database@]);
        return CopyMenu::Single { database };
    }
    let ghost all = texts(databases@).map_values(|name: Seq<char>| (copy_title(name), name));
    let mut items: Vec<CopyItem> = Vec::new();
    for i in 0..databases.len()
        invariant
            all == texts(databases@).map_values(|name: Seq<char>| (copy_title(name), name)),
            copy_models(items@) =~= all.take(i as int),
    {
        let database = databases[i].clone();
        let title = if text_eq(database.as_str(), ANY) {
            "Any other database".to_owned()
        } else {
            database.clone()
        };
        let ghost had = copy_models(items@);
        let ghost item = (title@, database@);
        items.push(CopyItem { title, database });
        assert(copy_models(items@) =~= had.push(item));
    }
    assert(all.take(all.len() as int) =~= all);
    CopyMenu::Several { items }
}

/// How the menu looks.
#[derive(Debug)]
pub struct MenuState {
    pub status: String,
    pub copy_hidden: bool,
    pub set_up_enabled: bool,
    pub manage_enabled: bool,
    pub grant_hidden: bool,
    pub login_on: bool,
}

/// The last check of the config and the vault, as characters.
pub open spec fn health_of(health: Option<&Result<Config, String>>) -> Option<
    Result<ConfigModel, Seq<char>>,
> {
    match health {
        Some(result) => Some(super::loaded_config(*result)),
        None => None,
    }
}

/// How the menu looks after a check of the config and the vault. The status line shows what keeps the
/// app idle.
pub fn menu_state(
    health: Option<&Result<Config, String>>,
    configured: bool,
    vault_exists: bool,
    trusted: bool,
    login: bool,
) -> (menu: MenuState)
    ensures
        menu.status@ == "fido2kpxc - "@ + (match health_of(health) {
            Some(Err(error)) => error,
            _ => "Ready"@,
        }),
        menu.copy_hidden == !(health_of(health) matches Some(Ok(config)) && config.copy_password),
        menu.set_up_enabled == (configured && !vault_exists),
        menu.manage_enabled == (health_of(health) matches Some(Ok(_))),
        menu.grant_hidden == trusted,
        menu.login_on == login,
{
    let mut status = "fido2kpxc - ".to_owned();
    let mut copy_hidden = true;
    let mut manage_enabled = false;
    match health {
        Some(result) => match result {
            Ok(config) => {
                status.append("Ready");
                copy_hidden = !config.copy_password;
                manage_enabled = true;
            },
            Err(error) => status.append(error.as_str()),
        },
        None => status.append("Ready"),
    }
    MenuState {
        status,
        copy_hidden,
        set_up_enabled: configured && !vault_exists,
        manage_enabled,
        grant_hidden: trusted,
        login_on: login,
    }
}

/// What a menu item does.
#[derive(Debug, Clone, Copy, PartialEq, Eq, Structural)]
pub enum MenuAction {
    /// Shows the status.
    Status,
    CopyPassword,
    SetUp,
    AddKey,
    RemoveKey,
    SetPassword,
    Settings,
    OpenConfig,
    ShowVault,
    CopyDiagnostics,
    Help,
    GrantAccessibility,
    ToggleLogin,
    About,
    Quit,
}

/// One line of the menu.
#[derive(Debug, Clone, Copy)]
pub enum MenuLine {
    Separator,
    Item { title: &'static str, action: MenuAction },
}

/// One line of the menu as characters.
pub enum MenuLineM {
    Separator,
    Item { title: Seq<char>, action: MenuAction },
}

impl View for MenuLine {
    type V = MenuLineM;

    open spec fn view(&self) -> MenuLineM {
        match *self {
            MenuLine::Separator => MenuLineM::Separator,
            MenuLine::Item { title, action } => MenuLineM::Item { title: title@, action },
        }
    }
}

/// The menu, from the top.
pub open spec fn menu_model() -> Seq<MenuLineM> {
    seq![
        MenuLineM::Item { title: "fido2kpxc - Starting…"@, action: MenuAction::Status },
        MenuLineM::Separator,
        MenuLineM::Item { title: "Copy Password"@, action: MenuAction::CopyPassword },
        MenuLineM::Separator,
        MenuLineM::Item { title: "Set Up…"@, action: MenuAction::SetUp },
        MenuLineM::Item { title: "Add Security Key…"@, action: MenuAction::AddKey },
        MenuLineM::Item { title: "Remove Security Key…"@, action: MenuAction::RemoveKey },
        MenuLineM::Item { title: "Set Database Password…"@, action: MenuAction::SetPassword },
        MenuLineM::Separator,
        MenuLineM::Item { title: "Settings…"@, action: MenuAction::Settings },
        MenuLineM::Item { title: "Open Config…"@, action: MenuAction::OpenConfig },
        MenuLineM::Item { title: "Show Vault in Finder"@, action: MenuAction::ShowVault },
        MenuLineM::Item { title: "Copy Diagnostics"@, action: MenuAction::CopyDiagnostics },
        MenuLineM::Item { title: "Help…"@, action: MenuAction::Help },
        MenuLineM::Separator,
        MenuLineM::Item {
            title: "Grant Accessibility…"@,
            action: MenuAction::GrantAccessibility,
        },
        MenuLineM::Item { title: "Start at Login"@, action: MenuAction::ToggleLogin },
        MenuLineM::Separator,
        MenuLineM::Item { title: "About fido2kpxc"@, action: MenuAction::About },
        MenuLineM::Item { title: "Quit"@, action: MenuAction::Quit },
    ]
}

/// The menu, from the top.
pub fn menu_lines() -> (lines: Vec<MenuLine>)
    ensures
        lines@.map_values(|l: MenuLine| l@) == menu_model(),
{
    let lines: Vec<MenuLine> = vec![
        MenuLine::Item { title: "fido2kpxc - Starting…", action: MenuAction::Status },
        MenuLine::Separator,
        MenuLine::Item { title: "Copy Password", action: MenuAction::CopyPassword },
        MenuLine::Separator,
        MenuLine::Item { title: "Set Up…", action: MenuAction::SetUp },
        MenuLine::Item { title: "Add Security Key…", action: MenuAction::AddKey },
        MenuLine::Item { title: "Remove Security Key…", action: MenuAction::RemoveKey },
        MenuLine::Item { title: "Set Database Password…", action: MenuAction::SetPassword },
        MenuLine::Separator,
        MenuLine::Item { title: "Settings…", action: MenuAction::Settings },
        MenuLine::Item { title: "Open Config…", action: MenuAction::OpenConfig },
        MenuLine::Item { title: "Show Vault in Finder", action: MenuAction::ShowVault },
        MenuLine::Item { title: "Copy Diagnostics", action: MenuAction::CopyDiagnostics },
        MenuLine::Item { title: "Help…", action: MenuAction::Help },
        MenuLine::Separator,
        MenuLine::Item { title: "Grant Accessibility…", action: MenuAction::GrantAccessibility },
        MenuLine::Item { title: "Start at Login", action: MenuAction::ToggleLogin },
        MenuLine::Separator,
        MenuLine::Item { title: "About fido2kpxc", action: MenuAction::About },
        MenuLine::Item { title: "Quit", action: MenuAction::Quit },
    ];
    assert(lines@.map_values(|l: MenuLine| l@) =~= menu_model());
    lines
}

/// The system symbol that stands in for a missing icon, and the icon's description.
pub fn icon(healthy: bool) -> (symbol: (&'static str, &'static str))
    ensures
        symbol.0@ == (if healthy {
            "key.fill"@
        } else {
            "exclamationmark.triangle.fill"@
        }),
        symbol.1@ == (if healthy {
            "fido2kpxc"@
        } else {
            "fido2kpxc: needs attention"@
        }),
{
    if healthy {
        ("key.fill", "fido2kpxc")
    } else {
        ("exclamationmark.triangle.fill", "fido2kpxc: needs attention")
    }
}

/// The choice as diagnostics name it.
pub open spec fn autofill_word(autofill: Autofill) -> Seq<char> {
    match autofill {
        Autofill::Off => "Off"@,
        Autofill::Fill => "Fill"@,
        Autofill::FillAndUnlock => "FillAndUnlock"@,
    }
}

/// The labels of keys.
pub open spec fn key_labels(keys: Seq<KeyModel>) -> Seq<Seq<char>> {
    keys.map_values(|key: KeyModel| key.label)
}

/// The names of databases.
pub open spec fn database_names(secrets: Seq<SecretModel>) -> Seq<Seq<char>> {
    secrets.map_values(|secret: SecretModel| secret.database)
}

/// The labels of the enrolled keys, in vault order.
pub fn labels(vault: &Vault) -> (found: Vec<String>)
    ensures
        texts(found@) == key_labels(vault@.keys),
{
    let ghost all = key_labels(vault@.keys);
    let mut found: Vec<String> = Vec::new();
    for i in 0..vault.keys.len()
        invariant
            all == key_labels(vault@.keys),
            texts(found@) =~= all.take(i as int),
    {
        let label = vault.keys[i].label.clone();
        let ghost had = texts(found@);
        found.push(label);
        assert(texts(found@) =~= had.push(label@));
    }
    assert(all.take(all.len() as int) =~= all);
    found
}

/// The names of the stored databases, in vault order.
pub fn names(vault: &Vault) -> (found: Vec<String>)
    ensures
        texts(found@) == database_names(vault@.secrets),
{
    let ghost all = database_names(vault@.secrets);
    let mut found: Vec<String> = Vec::new();
    for i in 0..vault.secrets.len()
        invariant
            all == database_names(vault@.secrets),
            texts(found@) =~= all.take(i as int),
    {
        let name = vault.secrets[i].database.clone();
        let ghost had = texts(found@);
        found.push(name);
        assert(texts(found@) =~= had.push(name@));
    }
    assert(all.take(all.len() as int) =~= all);
    found
}

/// The lines about the config and the vault.
pub open spec fn file_lines(
    path: Seq<char>,
    config: Result<ConfigModel, Seq<char>>,
    vault: Result<VaultModel, Seq<char>>,
) -> Seq<Seq<char>> {
    match config {
        Err(error) => seq!["Config: "@ + error],
        Ok(config) => seq![
            "Config: "@ + path + " (loads)"@,
            "Autofill: "@ + autofill_word(config.autofill) + ", Copy Password: "@ + truth(
                config.copy_password,
            ) + ", clear after "@ + decimal_text(config.clear_seconds as nat) + " s"@,
        ] + (match vault {
            Err(error) => seq!["Vault: "@ + error],
            Ok(vault) => seq![
                "Vault: "@ + config.vault + " (loads)"@,
                "Keys: "@ + joined(key_labels(vault.keys), ", "@),
                "Stored passwords: "@ + joined(database_names(vault.secrets), ", "@),
            ],
        }),
    }
}

/// A plain-text report for bug reports. It lists names and states, never secrets.
pub open spec fn report_text(
    version: Seq<char>,
    system: Seq<char>,
    files: Seq<Seq<char>>,
    trusted: bool,
    login: bool,
    keepassxc: Seq<Seq<char>>,
) -> Seq<char> {
    joined(
        seq!["fido2kpxc "@ + version + " diagnostics"@, "macOS: "@ + system] + files + seq![
            "Accessibility: "@ + (if trusted {
                "granted"@
            } else {
                "not granted"@
            }),
            "Start at Login: "@ + truth(login),
        ] + keepassxc,
        "\n"@,
    ) + "\n"@
}

/// The lines about the config and the vault.
fn describe_files(
    path: &str,
    config: &Result<Config, String>,
    vault: &Result<Vault, String>,
) -> (lines: Vec<String>)
    ensures
        texts(lines@) == file_lines(
            path@,
            super::loaded_config(*config),
            super::loaded_vault(*vault),
        ),
{
    let mut lines: Vec<String> = Vec::new();
    match config {
        Err(error) => {
            lines.push(concat("Config: ", error.as_str(), ""));
            proof {
                reveal_strlit("");
                assert(lines@[0]@ =~= "Config: "@ + error@);
            }
        },
        Ok(config) => {
            lines.push(concat("Config: ", path, " (loads)"));
            let mut line = "Autofill: ".to_owned();
            line.append(match config.autofill {
                Autofill::Off => "Off",
                Autofill::Fill => "Fill",
                Autofill::FillAndUnlock => "FillAndUnlock",
            });
            line.append(", Copy Password: ");
            line.append(truth_word(config.copy_password));
            line.append(", clear after ");
            line.append(decimal(config.clear_seconds).as_str());
            line.append(" s");
            lines.push(line);
            match vault {
                Err(error) => {
                    lines.push(concat("Vault: ", error.as_str(), ""));
                    proof {
                        reveal_strlit("");
                        assert(lines@[2]@ =~= "Vault: "@ + error@);
                    }
                },
                Ok(vault) => {
                    lines.push(concat("Vault: ", config.vault.as_str(), " (loads)"));
                    let keys = join(&labels(vault), ", ");
                    lines.push(concat("Keys: ", keys.as_str(), ""));
                    let stored = join(&names(vault), ", ");
                    lines.push(concat("Stored passwords: ", stored.as_str(), ""));
                    proof {
                        reveal_strlit("");
                        assert(lines@[3]@ =~= "Keys: "@ + keys@);
                        assert(lines@[4]@ =~= "Stored passwords: "@ + stored@);
                    }
                },
            }
        },
    }
    assert(texts(lines@) =~= file_lines(
        path@,
        super::loaded_config(*config),
        super::loaded_vault(*vault),
    ));
    lines
}

/// A plain-text report for bug reports. It lists names and states, never secrets.
pub fn diagnostics(
    version: &str,
    system: &str,
    path: &str,
    config: &Result<Config, String>,
    vault: &Result<Vault, String>,
    trusted: bool,
    login: bool,
    keepassxc: Vec<String>,
) -> (report: String)
    ensures
        report@ == report_text(
            version@,
            system@,
            file_lines(path@, super::loaded_config(*config), super::loaded_vault(*vault)),
            trusted,
            login,
            texts(keepassxc@),
        ),
{
    let mut lines: Vec<String> = Vec::new();
    lines.push(concat("fido2kpxc ", version, " diagnostics"));
    lines.push(concat("macOS: ", system, ""));
    proof {
        reveal_strlit("");
        assert(lines@[1]@ =~= "macOS: "@ + system@);
    }
    let ghost head = texts(lines@);
    let mut files = describe_files(path, config, vault);
    let ghost about_files = texts(files@);
    lines.append(&mut files);
    assert(texts(lines@) =~= head + about_files);
    let access = if trusted {
        "granted"
    } else {
        "not granted"
    };
    lines.push(concat("Accessibility: ", access, ""));
    lines.push(concat("Start at Login: ", truth_word(login), ""));
    proof {
        let n = lines@.len() as int;
        assert(lines@[n - 2]@ =~= "Accessibility: "@ + access@);
        assert(lines@[n - 1]@ =~= "Start at Login: "@ + truth(login));
    }
    let ghost middle = seq!["Accessibility: "@ + access@, "Start at Login: "@ + truth(login)];
    assert(texts(lines@) =~= head + about_files + middle);
    let mut more = keepassxc;
    let ghost tail = texts(more@);
    lines.append(&mut more);
    assert(texts(lines@) =~= head + about_files + middle + tail);
    let mut report = join(&lines, "\n");
    report.append("\n");
    assert(head =~= seq!["fido2kpxc "@ + version@ + " diagnostics"@, "macOS: "@ + system@]);
    report
}

} // verus!
