//! The settings, and what a config file may say.

use vstd::prelude::*;
use vstd::string::*;

use crate::path::{
    a_leading_tilde_comes_off, another_start_stays, dark_ends, is_absolute, join_path, joined_path,
    strip_prefix, stripped,
};
use crate::text::{
    a_part_stands_between, concat, decimal, decimal_text, ends_with, has_part, in_order,
    insert_in_order, starts_with, text_eq, texts,
};

verus! {

/// What happens when KeePassXC asks for its password.
#[derive(Debug, Clone, Copy, PartialEq, Eq, Structural)]
pub enum Autofill {
    Off,
    Fill,
    FillAndUnlock,
}

impl Default for Autofill {
    fn default() -> (autofill: Self)
        ensures
            autofill == Autofill::FillAndUnlock,
    {
        Autofill::FillAndUnlock
    }
}

impl Autofill {
    /// Every choice, in the order in which the settings offer them.
    pub const ALL: [Autofill; 3] = [Autofill::FillAndUnlock, Autofill::Fill, Autofill::Off];

    /// The choice in a config file.
    pub open spec fn word(self) -> Seq<char> {
        match self {
            Autofill::Off => "off"@,
            Autofill::Fill => "fill"@,
            Autofill::FillAndUnlock => "fill-and-unlock"@,
        }
    }

    /// The choice in a config file.
    pub fn name(self) -> (name: &'static str)
        ensures
            name@ == self.word(),
    {
        match self {
            Autofill::Off => "off",
            Autofill::Fill => "fill",
            Autofill::FillAndUnlock => "fill-and-unlock",
        }
    }

    /// The position of the choice in [`Autofill::ALL`].
    pub open spec fn place(self) -> int {
        match self {
            Autofill::FillAndUnlock => 0,
            Autofill::Fill => 1,
            Autofill::Off => 2,
        }
    }

    /// The position of the choice in [`Autofill::ALL`].
    pub fn position(self) -> (i: usize)
        ensures
            i == self.place(),
            i < 3,
    {
        match self {
            Autofill::FillAndUnlock => 0,
            Autofill::Fill => 1,
            Autofill::Off => 2,
        }
    }
}

/// Each choice stands in [`Autofill::ALL`] at its place.
pub proof fn every_choice_has_its_place(autofill: Autofill)
    ensures
        Autofill::ALL@[autofill.place()] == autofill,
{
}

/// The settings.
#[derive(Debug)]
pub struct Config {
    /// The folder that holds the vault.
    pub folder: String,
    /// `<folder>/vault.toml`.
    pub vault: String,
    pub clear_seconds: u64,
    pub autofill: Autofill,
    /// Shows "Copy Password" in the menu. Off by default, so the password never reaches the clipboard.
    pub copy_password: bool,
}

/// [`Config`] with its texts as characters.
#[verifier::ext_equal]
pub struct ConfigModel {
    pub folder: Seq<char>,
    pub vault: Seq<char>,
    pub clear_seconds: u64,
    pub autofill: Autofill,
    pub copy_password: bool,
}

impl View for Config {
    type V = ConfigModel;

    open spec fn view(&self) -> ConfigModel {
        ConfigModel {
            folder: self.folder@,
            vault: self.vault@,
            clear_seconds: self.clear_seconds,
            autofill: self.autofill,
            copy_password: self.copy_password,
        }
    }
}

impl Clone for Config {
    fn clone(&self) -> (config: Self)
        ensures
            config@ == self@,
    {
        Config {
            folder: self.folder.clone(),
            vault: self.vault.clone(),
            clear_seconds: self.clear_seconds,
            autofill: self.autofill,
            copy_password: self.copy_password,
        }
    }
}

/// What a config file says. Only the folder is required.
#[derive(Debug)]
pub struct ConfigFile {
    pub folder: String,
    pub clear_seconds: Option<u64>,
    pub autofill: Option<Autofill>,
    pub copy_password: Option<bool>,
}

/// Written when no config exists. Every key is commented out until the user edits it.
pub const TEMPLATE: &'static str = "# fido2kpxc settings. The app rereads this file every 2 seconds.

# Required: the folder that holds vault.toml.
# folder = \"~/Synced/fido2kpxc\"

# Seconds before Copy Password clears the clipboard, at most 3600.
# clear_seconds = 20

# What happens when KeePassXC asks for its password: \"off\", \"fill\", or \"fill-and-unlock\".
# autofill = \"fill-and-unlock\"

# Show \"Copy Password\" in the menu. It puts the password on the clipboard for clear_seconds.
# copy_password = false
";

/// The longest delay before the clipboard is cleared.
pub const MAX_CLEAR_SECONDS: u64 = 3600;

/// The delay before the clipboard is cleared, when the config does not say.
pub const DEFAULT_CLEAR_SECONDS: u64 = 20;

/// Why the settings cannot be used.
#[derive(Debug)]
pub enum ConfigError {
    NoHome,
    ClearSeconds,
    RelativeFolder,
    NoFolder { folder: String },
    VaultExists { vault: String },
    NoVault { vault: String },
}

/// A [`ConfigError`] with its texts as characters.
pub enum ConfigFault {
    NoHome,
    ClearSeconds,
    RelativeFolder,
    NoFolder { folder: Seq<char> },
    VaultExists { vault: Seq<char> },
    NoVault { vault: Seq<char> },
}

impl View for ConfigError {
    type V = ConfigFault;

    open spec fn view(&self) -> ConfigFault {
        match *self {
            ConfigError::NoHome => ConfigFault::NoHome,
            ConfigError::ClearSeconds => ConfigFault::ClearSeconds,
            ConfigError::RelativeFolder => ConfigFault::RelativeFolder,
            ConfigError::NoFolder { folder } => ConfigFault::NoFolder { folder: folder@ },
            ConfigError::VaultExists { vault } => ConfigFault::VaultExists { vault: vault@ },
            ConfigError::NoVault { vault } => ConfigFault::NoVault { vault: vault@ },
        }
    }
}

impl ConfigFault {
    /// The error in words, as the user sees it.
    pub open spec fn words(self) -> Seq<char> {
        match self {
            ConfigFault::NoHome => "HOME is not set"@,
            ConfigFault::ClearSeconds => "clear_seconds must be at most 3600"@,
            ConfigFault::RelativeFolder => "folder must be an absolute path or start with ~/"@,
            ConfigFault::NoFolder { folder } => "Neither "@ + folder
                + " nor its parent folder exists. Check folder in the config."@,
            ConfigFault::VaultExists { vault } => "A vault already exists at "@ + vault + ""@,
            ConfigFault::NoVault { vault } => "No vault at "@ + vault
                + ". Run `fido2kpxc enroll`."@,
        }
    }
}

impl ConfigError {
    /// The error in words, as the user sees it.
    pub fn message(&self) -> (s: String)
        ensures
            s@ == self@.words(),
    {
        match self {
            ConfigError::NoHome => "HOME is not set".to_owned(),
            ConfigError::ClearSeconds => "clear_seconds must be at most 3600".to_owned(),
            ConfigError::RelativeFolder => {
                "folder must be an absolute path or start with ~/".to_owned()
            },
            ConfigError::NoFolder { folder } => concat(
                "Neither ",
                folder.as_str(),
                " nor its parent folder exists. Check folder in the config.",
            ),
            ConfigError::VaultExists { vault } => concat(
                "A vault already exists at ",
                vault.as_str(),
                "",
            ),
            ConfigError::NoVault { vault } => concat(
                "No vault at ",
                vault.as_str(),
                ". Run `fido2kpxc enroll`.",
            ),
        }
    }
}

/// The folder with a leading `~` replaced by the home folder.
pub open spec fn expanded(folder: Seq<char>, home: Seq<char>) -> Seq<char> {
    match stripped(folder, "~"@, true) {
        Some(rest) => joined_path(home, rest),
        None => folder,
    }
}

/// A setting, or its default.
pub open spec fn or_default<T>(setting: Option<T>, default: T) -> T {
    match setting {
        Some(value) => value,
        None => default,
    }
}

/// [`ConfigFile`] with its text as characters.
pub struct ConfigText {
    pub folder: Seq<char>,
    pub clear_seconds: Option<u64>,
    pub autofill: Option<Autofill>,
    pub copy_password: Option<bool>,
}

impl View for ConfigFile {
    type V = ConfigText;

    open spec fn view(&self) -> ConfigText {
        ConfigText {
            folder: self.folder@,
            clear_seconds: self.clear_seconds,
            autofill: self.autofill,
            copy_password: self.copy_password,
        }
    }
}

/// The settings that a config file stands for, or why it stands for none.
pub open spec fn settings_of(file: ConfigText, home: Seq<char>) -> Result<
    ConfigModel,
    ConfigFault,
> {
    let folder = expanded(file.folder, home);
    let clear_seconds = or_default(file.clear_seconds, DEFAULT_CLEAR_SECONDS);
    if clear_seconds > MAX_CLEAR_SECONDS {
        Err(ConfigFault::ClearSeconds)
    } else if !(folder.len() > 0 && folder[0] == '/') {
        Err(ConfigFault::RelativeFolder)
    } else {
        Ok(
            ConfigModel {
                folder,
                vault: joined_path(folder, "vault.toml"@),
                clear_seconds,
                autofill: or_default(file.autofill, Autofill::FillAndUnlock),
                copy_password: or_default(file.copy_password, false),
            },
        )
    }
}

/// A copy of the vault that a sync tool left beside it.
pub open spec fn is_conflict(name: Seq<char>) -> bool {
    &&& "vault"@.is_prefix_of(name)
    &&& ".toml"@.is_suffix_of(name)
    &&& name != "vault.toml"@
}

/// The names of the sync copies among the names in a folder.
pub open spec fn conflict_names(names: Seq<Seq<char>>) -> Seq<Seq<char>>
    decreases names.len(),
{
    if names.len() == 0 {
        Seq::empty()
    } else if is_conflict(names.last()) {
        conflict_names(names.drop_last()).push(names.last())
    } else {
        conflict_names(names.drop_last())
    }
}

/// The text as a TOML string, with its quotes.
pub uninterp spec fn toml_string(text: Seq<char>) -> Seq<char>;

/// `toml::Value::to_string` of a `toml::Value::String`.
#[verifier::external_body]
fn quote_toml(text: &str) -> (s: String)
    ensures
        s@ == toml_string(text@),
{
    toml::Value::String(text.to_owned()).to_string()
}

/// The text of a config file with the given settings, and the folder as a TOML string.
pub open spec fn rendered(
    folder: Seq<char>,
    autofill: Autofill,
    copy_password: bool,
    clear_seconds: u64,
) -> Seq<char> {
    "folder = "@ + folder + "\nclear_seconds = "@ + decimal_text(clear_seconds as nat)
        + "\nautofill = \""@ + autofill.word() + "\"\ncopy_password = "@ + (if copy_password {
        "true\n"@
    } else {
        "false\n"@
    })
}

impl Config {
    /// Where the config file is.
    pub fn path(home: Option<&str>) -> (r: Result<String, ConfigError>)
        ensures
            match home {
                Some(home) => r matches Ok(path) && path@ == joined_path(
                    home@,
                    "Library/Application Support/fido2kpxc/config.toml"@,
                ),
                None => r matches Err(e) && e@ == ConfigFault::NoHome,
            },
    {
        match home {
            Some(home) => Ok(
                join_path(home, "Library/Application Support/fido2kpxc/config.toml"),
            ),
            None => Err(ConfigError::NoHome),
        }
    }

    /// Fails unless the folder exists or its parent does, so `enroll` can create it.
    pub fn check_folder(&self, folder_exists: bool, parent_exists: bool) -> (r: Result<
        (),
        ConfigError,
    >)
        ensures
            r is Ok <==> folder_exists || parent_exists,
            r matches Err(e) ==> e@ == (ConfigFault::NoFolder { folder: self@.folder }),
    {
        if folder_exists || parent_exists {
            Ok(())
        } else {
            Err(ConfigError::NoFolder { folder: self.folder.clone() })
        }
    }

    /// The settings that a config file stands for. Each Mac keeps the folder under a different home,
    /// so the folder may start with `~/`.
    pub fn parse(file: ConfigFile, home: &str) -> (r: Result<Config, ConfigError>)
        ensures
            r matches Ok(config) ==> settings_of(file@, home@) == Ok::<ConfigModel, ConfigFault>(
                config@,
            ),
            r matches Err(e) ==> settings_of(file@, home@) == Err::<ConfigModel, ConfigFault>(e@),
    {
        let folder = match strip_prefix(file.folder.as_str(), "~") {
            Some(rest) => join_path(home, rest.as_str()),
            None => file.folder,
        };
        let clear_seconds: u64 = match file.clear_seconds {
            Some(seconds) => seconds,
            None => DEFAULT_CLEAR_SECONDS,
        };
        if clear_seconds > MAX_CLEAR_SECONDS {
            return Err(ConfigError::ClearSeconds);
        }
        if !is_absolute(folder.as_str()) {
            return Err(ConfigError::RelativeFolder);
        }
        let vault = join_path(folder.as_str(), "vault.toml");
        let autofill = match file.autofill {
            Some(autofill) => autofill,
            None => Autofill::default(),
        };
        let copy_password = match file.copy_password {
            Some(copy_password) => copy_password,
            None => false,
        };
        Ok(Config { folder, vault, clear_seconds, autofill, copy_password })
    }

    /// The text of a config file with the given settings, whose folder is already a TOML string.
    pub fn render_quoted(
        folder: &str,
        autofill: Autofill,
        copy_password: bool,
        clear_seconds: u64,
    ) -> (s: String)
        ensures
            s@ == rendered(folder@, autofill, copy_password, clear_seconds),
    {
        let mut s = "folder = ".to_owned();
        s.append(folder);
        s.append("\nclear_seconds = ");
        s.append(decimal(clear_seconds).as_str());
        s.append("\nautofill = \"");
        s.append(autofill.name());
        s.append("\"\ncopy_password = ");
        s.append(if copy_password {
            "true\n"
        } else {
            "false\n"
        });
        s
    }

    /// The text of a config file with the given settings.
    pub fn render(
        folder: &str,
        autofill: Autofill,
        copy_password: bool,
        clear_seconds: u64,
    ) -> (s: String)
        ensures
            s@ == rendered(toml_string(folder@), autofill, copy_password, clear_seconds),
    {
        let quoted = quote_toml(folder);
        Config::render_quoted(quoted.as_str(), autofill, copy_password, clear_seconds)
    }

    /// The sync copies of the vault among the names in its folder, in order.
    pub fn conflicts(names: &[String]) -> (found: Vec<String>)
        ensures
            in_order(texts(found@)),
            texts(found@).to_multiset() == conflict_names(texts(names@)).to_multiset(),
    {
        let ghost all = texts(names@);
        let mut found: Vec<String> = Vec::new();
        assert(texts(found@) =~= Seq::empty());
        assert(all.take(0) =~= Seq::empty());
        for i in 0..names.len()
            invariant
                all == texts(names@),
                in_order(texts(found@)),
                texts(found@).to_multiset() == conflict_names(all.take(i as int)).to_multiset(),
        {
            let name = names[i].as_str();
            assert(all.take(i + 1).drop_last() =~= all.take(i as int));
            assert(all.take(i + 1).last() == name@);
            if starts_with(name, "vault") && ends_with(name, ".toml") && !text_eq(
                name,
                "vault.toml",
            ) {
                insert_in_order(&mut found, name.to_owned());
                proof {
                    vstd::seq_lib::to_multiset_build(conflict_names(all.take(i as int)), name@);
                }
            }
        }
        assert(all.take(all.len() as int) =~= all);
        found
    }
}

/// Every usable config names an absolute folder and keeps the vault in it.
pub proof fn the_vault_lives_in_the_folder(file: ConfigText, home: Seq<char>)
    ensures
        settings_of(file, home) matches Ok(config) ==> config.folder.len() > 0 && config.folder[0]
            == '/' && config.folder.is_prefix_of(config.vault) && "vault.toml"@.is_suffix_of(
            config.vault,
        ) && config.clear_seconds <= MAX_CLEAR_SECONDS,
{
    reveal_strlit("vault.toml");
    if let Ok(config) = settings_of(file, home) {
        let name = "vault.toml"@;
        assert(name[0] == 'v');
        assert(config.vault.skip(config.vault.len() - name.len()) =~= name);
        assert(config.vault.take(config.folder.len() as int) =~= config.folder);
    }
}

/// A config file is used exactly when its delay is at most 3600 seconds and its folder is absolute, once
/// a leading `~` stands for the home folder. The delay is looked at first.
pub proof fn a_config_is_refused_only_for_its_faults(
    file: ConfigText,
    home: Seq<char>,
    folder: Seq<char>,
)
    requires
        folder == (match stripped(file.folder, seq!['~'], true) {
            Some(rest) => joined_path(home, rest),
            None => file.folder,
        }),
    ensures
        ({
            let late = file.clear_seconds matches Some(n) && n > 3600;
            let absolute = folder.len() > 0 && folder[0] == '/';
            &&& settings_of(file, home) is Ok <==> !late && absolute
            &&& late ==> settings_of(file, home) == Err::<ConfigModel, ConfigFault>(
                ConfigFault::ClearSeconds,
            )
            &&& !late && !absolute ==> settings_of(file, home) == Err::<ConfigModel, ConfigFault>(
                ConfigFault::RelativeFolder,
            )
            &&& settings_of(file, home) matches Ok(config) ==> config.folder == folder
        }),
{
    reveal_strlit("~");
    assert("~"@ =~= seq!['~']);
}

/// Every setting that a config file states is kept, and each one that it does not state has its
/// default: 20 seconds, filling and unlocking, and no copying.
pub proof fn every_stated_setting_is_kept(file: ConfigText, home: Seq<char>)
    requires
        settings_of(file, home) is Ok,
    ensures
        ({
            let config = settings_of(file, home)->Ok_0;
            &&& file.autofill matches Some(autofill) ==> config.autofill == autofill
            &&& file.autofill is None ==> config.autofill == Autofill::FillAndUnlock
            &&& file.clear_seconds matches Some(seconds) ==> config.clear_seconds == seconds
            &&& file.clear_seconds is None ==> config.clear_seconds == 20
            &&& file.copy_password matches Some(copy) ==> config.copy_password == copy
            &&& file.copy_password is None ==> !config.copy_password
        }),
{
}

/// An absolute folder is kept as it is, a folder below `~` lies below the home folder, and the vault is
/// `vault.toml` in the folder.
pub proof fn the_folder_is_the_one_that_is_stated(file: ConfigText, home: Seq<char>, rest: Seq<char>)
    ensures
        settings_of(file, home) matches Ok(config) ==> {
            &&& file.folder.len() > 0 && file.folder[0] == '/' ==> config.folder == file.folder
            &&& dark_ends(rest) && file.folder == seq!['~', '/'] + rest && home.len() > 0
                && home.last() != '/' ==> config.folder == home + seq!['/'] + rest
            &&& config.folder.last() != '/' ==> config.vault == config.folder + "/vault.toml"@
        },
{
    reveal_strlit("~");
    reveal_strlit("vault.toml");
    reveal_strlit("/vault.toml");
    assert("~"@ =~= seq!['~']);
    if file.folder.len() > 0 && file.folder[0] == '/' {
        another_start_stays(file.folder);
    }
    if dark_ends(rest) && file.folder == seq!['~', '/'] + rest {
        a_leading_tilde_comes_off(rest);
        assert(home.push('/') + rest =~= home + seq!['/'] + rest);
    }
    if let Ok(config) = settings_of(file, home) {
        assert("vault.toml"@[0] == 'v');
        assert(config.folder.push('/') + "vault.toml"@ =~= config.folder + "/vault.toml"@);
    }
}

/// A rendered config states the folder first, then each setting on a line of its own, as a config file
/// writes it.
pub proof fn a_rendered_config_states_its_settings(
    folder: Seq<char>,
    autofill: Autofill,
    copy_password: bool,
    clear_seconds: u64,
)
    ensures
        ({
            let text = rendered(folder, autofill, copy_password, clear_seconds);
            &&& ("folder = "@ + folder + "\n"@).is_prefix_of(text)
            &&& has_part(
                text,
                "\nclear_seconds = "@ + decimal_text(clear_seconds as nat) + "\n"@,
            )
            &&& autofill == Autofill::Off ==> has_part(text, "\nautofill = \"off\"\n"@)
            &&& autofill == Autofill::Fill ==> has_part(text, "\nautofill = \"fill\"\n"@)
            &&& autofill == Autofill::FillAndUnlock ==> has_part(
                text,
                "\nautofill = \"fill-and-unlock\"\n"@,
            )
            &&& copy_password ==> "\ncopy_password = true\n"@.is_suffix_of(text)
            &&& !copy_password ==> "\ncopy_password = false\n"@.is_suffix_of(text)
        }),
{
    let text = rendered(folder, autofill, copy_password, clear_seconds);
    let first = "folder = "@ + folder;
    let number = "\nclear_seconds = "@ + decimal_text(clear_seconds as nat);
    let choice = "\nautofill = \""@ + autofill.word() + "\""@;
    let last = if copy_password {
        "\ncopy_password = true\n"@
    } else {
        "\ncopy_password = false\n"@
    };
    rendered_in_lines(folder, autofill, copy_password, clear_seconds);
    reveal_strlit("\n");
    assert(number.len() > 0 && number[0] == '\n') by {
        reveal_strlit("\nclear_seconds = ");
    }
    assert(choice.len() > 0 && choice[0] == '\n') by {
        reveal_strlit("\nautofill = \"");
    }
    assert(last.len() > 0 && last[0] == '\n') by {
        reveal_strlit("\ncopy_password = true\n");
        reveal_strlit("\ncopy_password = false\n");
    }
    assert("\n"@ =~= seq!['\n']);
    assert(text.take(first.len() as int + 1) =~= first + "\n"@);
    assert(text =~= first + (number + "\n"@) + (choice + last).skip(1));
    a_part_stands_between(first, number + "\n"@, (choice + last).skip(1));
    let line = choice + "\n"@;
    assert(text =~= (first + number) + line + last.skip(1));
    a_part_stands_between(first + number, line, last.skip(1));
    autofill_line(autofill);
    assert(text.skip(text.len() - last.len()) =~= last);
}

proof fn rendered_in_lines(
    folder: Seq<char>,
    autofill: Autofill,
    copy_password: bool,
    clear_seconds: u64,
)
    ensures
        rendered(folder, autofill, copy_password, clear_seconds) == ("folder = "@ + folder) + (
        "\nclear_seconds = "@ + decimal_text(clear_seconds as nat)) + ("\nautofill = \""@
            + autofill.word() + "\""@) + (if copy_password {
            "\ncopy_password = true\n"@
        } else {
            "\ncopy_password = false\n"@
        }),
{
    let end = if copy_password {
        "true\n"@
    } else {
        "false\n"@
    };
    let last = if copy_password {
        "\ncopy_password = true\n"@
    } else {
        "\ncopy_password = false\n"@
    };
    assert("\"\ncopy_password = "@ + end =~= "\""@ + last) by {
        reveal_strlit("\"");
        reveal_strlit("\"\ncopy_password = ");
        reveal_strlit("true\n");
        reveal_strlit("false\n");
        reveal_strlit("\ncopy_password = true\n");
        reveal_strlit("\ncopy_password = false\n");
    }
    let most = "folder = "@ + folder + "\nclear_seconds = "@ + decimal_text(clear_seconds as nat)
        + "\nautofill = \""@ + autofill.word();
    assert(most + "\"\ncopy_password = "@ + end =~= most + ("\"\ncopy_password = "@ + end));
    assert(most + ("\""@ + last) =~= ("folder = "@ + folder) + ("\nclear_seconds = "@
        + decimal_text(clear_seconds as nat)) + ("\nautofill = \""@ + autofill.word() + "\""@)
        + last);
}

proof fn autofill_line(autofill: Autofill)
    ensures
        "\nautofill = \""@ + autofill.word() + "\""@ + "\n"@ == (match autofill {
            Autofill::Off => "\nautofill = \"off\"\n"@,
            Autofill::Fill => "\nautofill = \"fill\"\n"@,
            Autofill::FillAndUnlock => "\nautofill = \"fill-and-unlock\"\n"@,
        }),
{
    reveal_strlit("\n");
    reveal_strlit("\"");
    reveal_strlit("\nautofill = \"");
    let line = "\nautofill = \""@ + autofill.word() + "\""@ + "\n"@;
    match autofill {
        Autofill::Off => {
            reveal_strlit("off");
            reveal_strlit("\nautofill = \"off\"\n");
            assert(line =~= "\nautofill = \"off\"\n"@);
        },
        Autofill::Fill => {
            reveal_strlit("fill");
            reveal_strlit("\nautofill = \"fill\"\n");
            assert(line =~= "\nautofill = \"fill\"\n"@);
        },
        Autofill::FillAndUnlock => {
            reveal_strlit("fill-and-unlock");
            reveal_strlit("\nautofill = \"fill-and-unlock\"\n");
            assert(line =~= "\nautofill = \"fill-and-unlock\"\n"@);
        },
    }
}

/// Every name of the form `vault….toml` but the vault's own counts as a sync copy, and no other does.
pub proof fn a_sync_copy_is_named_after_the_vault(names: Seq<Seq<char>>, between: Seq<char>)
    ensures
        between.len() > 0 ==> is_conflict("vault"@ + between + ".toml"@),
        !is_conflict("vault.toml"@),
        conflict_names(names) == names.filter(|name: Seq<char>| is_conflict(name)),
        forall|name: Seq<char>| #[trigger]
            is_conflict(name) ==> "vault"@.is_prefix_of(name) && ".toml"@.is_suffix_of(name),
{
    reveal_strlit("vault");
    reveal_strlit(".toml");
    reveal_strlit("vault.toml");
    let name = "vault"@ + between + ".toml"@;
    assert(name.take(5) =~= "vault"@);
    assert(name.skip(name.len() - 5) =~= ".toml"@);
    assert(between.len() > 0 ==> name.len() > "vault.toml"@.len());
    conflicts_are_filtered(names);
}

proof fn conflicts_are_filtered(names: Seq<Seq<char>>)
    ensures
        conflict_names(names) == names.filter(|name: Seq<char>| is_conflict(name)),
    decreases names.len(),
{
    reveal(Seq::filter);
    if names.len() > 0 {
        conflicts_are_filtered(names.drop_last());
    }
    assert(conflict_names(names) =~= names.filter(|name: Seq<char>| is_conflict(name)));
}

/// A config error names the folder or the vault that it is about.
pub proof fn a_config_error_names_its_path(path: Seq<char>)
    ensures
        has_part((ConfigFault::NoFolder { folder: path }).words(), path),
        has_part((ConfigFault::VaultExists { vault: path }).words(), path),
        has_part((ConfigFault::NoVault { vault: path }).words(), path),
{
    a_part_stands_between(
        "Neither "@,
        path,
        " nor its parent folder exists. Check folder in the config."@,
    );
    a_part_stands_between("A vault already exists at "@, path, ""@);
    a_part_stands_between("No vault at "@, path, ". Run `fido2kpxc enroll`."@);
}

/// A config is seen by what its fields hold, and so is a config file.
pub proof fn a_config_is_seen_as_it_is(config: Config, file: ConfigFile)
    ensures
        config@.folder == config.folder@ && config@.vault == config.vault@,
        config@.clear_seconds == config.clear_seconds && config@.autofill == config.autofill,
        config@.copy_password == config.copy_password,
        file@.folder == file.folder@ && file@.clear_seconds == file.clear_seconds,
        file@.autofill == file.autofill && file@.copy_password == file.copy_password,
{
}

} // verus!
