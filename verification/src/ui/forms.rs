//! What the panels say and ask.

use vstd::prelude::*;
use vstd::string::*;

use super::{opt_notice, Notice, NoticeM, Sheet, SheetM, Touch, TouchM};
use crate::error::{around, opt_text, put_quoted};
use crate::ops::{describe, described, list, listed};
use crate::panels::{
    choice_field, field_models, plain_field, secret_field, Action, Button, ButtonModel, Field,
    FieldModel, Key,
};
use crate::text::{concat, texts};
use crate::ui::menu::AUTOFILL_LABELS;

verus! {

/// A panel: a message on top, one row per field, and buttons at the bottom.
#[derive(Debug)]
pub struct Panel {
    pub title: String,
    pub message: String,
    pub fields: Vec<Field>,
    pub buttons: Vec<Button>,
}

/// A [`Panel`] as characters.
#[verifier::ext_equal]
pub struct PanelM {
    pub title: Seq<char>,
    pub message: Seq<char>,
    pub fields: Seq<FieldModel>,
    pub buttons: Seq<ButtonModel>,
}

/// Buttons as characters.
pub open spec fn button_models(buttons: Seq<Button>) -> Seq<ButtonModel> {
    buttons.map_values(|b: Button| b@)
}

impl View for Panel {
    type V = PanelM;

    open spec fn view(&self) -> PanelM {
        PanelM {
            title: self.title@,
            message: self.message@,
            fields: field_models(self.fields@),
            buttons: button_models(self.buttons@),
        }
    }
}

/// The name of a database that may be unknown.
pub open spec fn database_or_this(database: Option<Seq<char>>) -> Seq<char> {
    match database {
        Some(name) => name,
        None => "this database"@,
    }
}

impl NoticeM {
    /// The notice in words.
    pub open spec fn words(self) -> Seq<char> {
        match self {
            NoticeM::Error { error } => error,
            NoticeM::NeedSettings { error } => ""@ + error + "\n\nChoose Settings… first."@,
            NoticeM::NeedSetUp { error } => ""@ + error + "\n\nChoose Set Up… first."@,
            NoticeM::NoPassword { database } => "No password is stored for "@ + database_or_this(
                database,
            ) + ". Add one with Set Database Password… in the menu, or run:\nfido2kpxc set-secret --database "@
                + database_or_this(database),
            NoticeM::Fido { error } => error.words(),
            NoticeM::NotUtf8 => "The stored password is not valid UTF-8."@,
            NoticeM::AutofillFailed { error } => "Autofill failed: "@ + error
                + ". Type the password in KeePassXC, or set copy_password = true for a Copy Password fallback."@,
            NoticeM::Saved => "Saved the settings."@,
            NoticeM::Created { vault } => "Created the vault at "@ + vault + "."@,
            NoticeM::Added { label } => around("Added key "@, label, "."@),
            NoticeM::Removed { label } => around(
                "Removed key "@,
                label,
                " and moved the vault to a new data key. If the key was lost, change the database password in KeePassXC, then choose Set Database Password…."@,
            ),
            NoticeM::Stored { database } => "Stored the password for "@ + described(database)
                + "."@,
            NoticeM::Unexpected => "The operation returned an unexpected result."@,
            NoticeM::CopiedDiagnostics =>
                "Copied diagnostics to the clipboard. They contain no passwords or key material."@,
            NoticeM::CannotOpenConfig { error } => "Cannot open the config: "@ + error + ""@,
            NoticeM::CannotShowVault { error } => "Cannot show the vault: "@ + error + ""@,
            NoticeM::LoginFailed { error } => "Start at Login failed: "@ + error + ""@,
            NoticeM::Help { exe } => HELP_TEXT@ + exe + ""@,
            NoticeM::EnterPassword => "Enter the database password."@,
            NoticeM::PasswordsDiffer => "The passwords differ."@,
            NoticeM::EnterLabel => "Enter a key label."@,
            NoticeM::EnterPin => "Enter the PIN."@,
            NoticeM::EnterLabelAndPin => "Enter a key label and the PIN."@,
            NoticeM::ClearNotANumber => "Clear after must be a whole number of seconds."@,
        }
    }
}

/// The help, up to the path of the executable.
pub const HELP_TEXT: &'static str = "Setup
1. Choose Settings… and set the vault folder.
2. Choose Set Up… and follow the panels, or run in Terminal: fido2kpxc enroll --label primary
3. Choose Grant Accessibility… and allow fido2kpxc.

Then locking KeePassXC opens the PIN panel. The first line of this menu shows any config or vault error.

Menu items
Add Security Key… enrolls a backup key, which may be another brand.
Remove Security Key… removes a key, for example a lost one. Each remaining key needs a touch.
Set Database Password… stores the password for one database file, or for any database when the name is blank.

If autofill does not start, choose Copy Diagnostics and include the report in a bug report.
The same actions exist in Terminal. Run fido2kpxc help for the list.
If fido2kpxc is not on your PATH, use ";

impl Notice {
    /// The notice in words.
    pub fn text(&self) -> (s: String)
        ensures
            s@ == self@.words(),
    {
        match self {
            Notice::Error { error } => error.clone(),
            Notice::NeedSettings { error } => concat(
                "",
                error.as_str(),
                "\n\nChoose Settings… first.",
            ),
            Notice::NeedSetUp { error } => concat("", error.as_str(), "\n\nChoose Set Up… first."),
            Notice::NoPassword { database } => {
                let name = match database {
                    Some(name) => name.as_str(),
                    None => "this database",
                };
                let mut s = concat(
                    "No password is stored for ",
                    name,
                    ". Add one with Set Database Password… in the menu, or run:\nfido2kpxc set-secret --database ",
                );
                s.append(name);
                s
            },
            Notice::Fido { error } => error.message(),
            Notice::NotUtf8 => "The stored password is not valid UTF-8.".to_owned(),
            Notice::AutofillFailed { error } => concat(
                "Autofill failed: ",
                error.as_str(),
                ". Type the password in KeePassXC, or set copy_password = true for a Copy Password fallback.",
            ),
            Notice::Saved => "Saved the settings.".to_owned(),
            Notice::Created { vault } => concat("Created the vault at ", vault.as_str(), "."),
            Notice::Added { label } => put_quoted("Added key ", label.as_str(), "."),
            Notice::Removed { label } => put_quoted(
                "Removed key ",
                label.as_str(),
                " and moved the vault to a new data key. If the key was lost, change the database password in KeePassXC, then choose Set Database Password….",
            ),
            Notice::Stored { database } => concat(
                "Stored the password for ",
                describe(database.as_str()),
                ".",
            ),
            Notice::Unexpected => "The operation returned an unexpected result.".to_owned(),
            Notice::CopiedDiagnostics =>
                "Copied diagnostics to the clipboard. They contain no passwords or key material.".to_owned(),
            Notice::CannotOpenConfig { error } => concat(
                "Cannot open the config: ",
                error.as_str(),
                "",
            ),
            Notice::CannotShowVault { error } => concat(
                "Cannot show the vault: ",
                error.as_str(),
                "",
            ),
            Notice::LoginFailed { error } => concat("Start at Login failed: ", error.as_str(), ""),
            Notice::Help { exe } => concat(HELP_TEXT, exe.as_str(), ""),
            Notice::EnterPassword => "Enter the database password.".to_owned(),
            Notice::PasswordsDiffer => "The passwords differ.".to_owned(),
            Notice::EnterLabel => "Enter a key label.".to_owned(),
            Notice::EnterPin => "Enter the PIN.".to_owned(),
            Notice::EnterLabelAndPin => "Enter a key label and the PIN.".to_owned(),
            Notice::ClearNotANumber => "Clear after must be a whole number of seconds.".to_owned(),
        }
    }
}

impl TouchM {
    /// What the panel says.
    pub open spec fn words(self) -> Seq<char> {
        match self {
            TouchM::Now => "Touch your security key now."@,
            TouchM::Once => "Touch your security key."@,
            TouchM::Twice => "Touch your security key twice."@,
            TouchM::Enrolled => "Touch the enrolled security key."@,
            TouchM::NewTwice => "Touch the new security key twice."@,
            TouchM::Choose => "Touch the security key you want to use."@,
            TouchM::Saving => "Saving the vault…"@,
            TouchM::Named(name) => "Touch the key \""@ + name + "\"."@,
        }
    }
}

impl Touch {
    /// What the panel says.
    pub fn text(&self) -> (s: String)
        ensures
            s@ == self@.words(),
    {
        match self {
            Touch::Now => "Touch your security key now.".to_owned(),
            Touch::Once => "Touch your security key.".to_owned(),
            Touch::Twice => "Touch your security key twice.".to_owned(),
            Touch::Enrolled => "Touch the enrolled security key.".to_owned(),
            Touch::NewTwice => "Touch the new security key twice.".to_owned(),
            Touch::Choose => "Touch the security key you want to use.".to_owned(),
            Touch::Saving => "Saving the vault…".to_owned(),
            Touch::Named(name) => concat("Touch the key \"", name.as_str(), "\"."),
        }
    }

    /// A panel without buttons that stays up while the worker thread waits for a touch.
    pub fn panel(&self) -> (panel: Panel)
        ensures
            panel@ == (PanelM {
                title: "fido2kpxc"@,
                message: self@.words(),
                fields: Seq::empty(),
                buttons: Seq::empty(),
            }),
    {
        let panel = Panel {
            title: "fido2kpxc".to_owned(),
            message: self.text(),
            fields: Vec::new(),
            buttons: Vec::new(),
        };
        assert(panel@ =~= (PanelM {
            title: "fido2kpxc"@,
            message: self@.words(),
            fields: Seq::empty(),
            buttons: Seq::empty(),
        }));
        panel
    }
}

/// The panel that shows a message. With `retry`, it offers Retry and Cancel.
pub open spec fn message_panel(message: Seq<char>, retry: bool) -> PanelM {
    PanelM {
        title: "fido2kpxc"@,
        message,
        fields: Seq::empty(),
        buttons: if retry {
            seq![
                ButtonModel { title: "Retry"@, action: Action::MessageRetry, key: Key::Return },
                ButtonModel { title: "Cancel"@, action: Action::MessageDismiss, key: Key::Escape },
            ]
        } else {
            seq![ButtonModel { title: "OK"@, action: Action::MessageDismiss, key: Key::Return }]
        },
    }
}

/// The panel that shows a notice. With `retry`, it offers Retry and Cancel.
pub fn show(notice: &Notice, retry: bool) -> (panel: Panel)
    ensures
        panel@ == message_panel(notice@.words(), retry),
{
    let mut buttons: Vec<Button> = Vec::new();
    if retry {
        buttons.push(Button::new("Retry", Action::MessageRetry, Key::Return));
        buttons.push(Button::new("Cancel", Action::MessageDismiss, Key::Escape));
    } else {
        buttons.push(Button::new("OK", Action::MessageDismiss, Key::Return));
    }
    let panel = Panel {
        title: "fido2kpxc".to_owned(),
        message: notice.text(),
        fields: Vec::new(),
        buttons,
    };
    assert(panel@ =~= message_panel(notice@.words(), retry));
    panel
}

/// The panel about the app.
pub open spec fn about_panel(version: Seq<char>) -> PanelM {
    PanelM {
        title: "About fido2kpxc"@,
        message: "fido2kpxc "@ + version
            + "\nUnlock KeePassXC with a FIDO2 security key.\n\nCopyright 2026 Jessica Cox <jmcox@posteo.de>\nLicensed under the Apache License, Version 2.0."@,
        fields: Seq::empty(),
        buttons: seq![
            ButtonModel { title: "OK"@, action: Action::MessageDismiss, key: Key::Return },
            ButtonModel {
                title: "Source Code"@,
                action: Action::OpenRepository,
                key: Key::Escape,
            },
        ],
    }
}

/// The panel about the app.
pub fn about(version: &str) -> (panel: Panel)
    ensures
        panel@ == about_panel(version@),
{
    let mut buttons: Vec<Button> = Vec::new();
    buttons.push(Button::new("OK", Action::MessageDismiss, Key::Return));
    buttons.push(Button::new("Source Code", Action::OpenRepository, Key::Escape));
    let panel = Panel {
        title: "About fido2kpxc".to_owned(),
        message: concat(
            "fido2kpxc ",
            version,
            "\nUnlock KeePassXC with a FIDO2 security key.\n\nCopyright 2026 Jessica Cox <jmcox@posteo.de>\nLicensed under the Apache License, Version 2.0.",
        ),
        fields: Vec::new(),
        buttons,
    };
    assert(panel@ =~= about_panel(version@));
    panel
}

/// The PIN panel's message.
pub open spec fn pin_message(note: Option<NoticeM>, database: Option<Seq<char>>) -> Seq<char> {
    match note {
        Some(note) => note.words(),
        None => match database {
            Some(database) => "Enter your security key's FIDO2 PIN to unlock "@ + database + "."@,
            None => "Enter your security key's FIDO2 PIN."@,
        },
    }
}

/// The PIN panel.
pub open spec fn pin_panel(note: Option<NoticeM>, database: Option<Seq<char>>) -> PanelM {
    PanelM {
        title: "Unlock with Security Key"@,
        message: pin_message(note, database),
        fields: seq![secret_field("PIN"@, false)],
        buttons: seq![
            ButtonModel { title: "Unlock"@, action: Action::PinSubmit, key: Key::Return },
            ButtonModel { title: "Cancel"@, action: Action::PinCancel, key: Key::Escape },
        ],
    }
}

/// The PIN panel.
pub fn pin(note: &Option<Notice>, database: &Option<String>) -> (panel: Panel)
    ensures
        panel@ == pin_panel(opt_notice(*note), opt_text(*database)),
{
    let message = match note {
        Some(note) => note.text(),
        None => match database {
            Some(database) => concat(
                "Enter your security key's FIDO2 PIN to unlock ",
                database.as_str(),
                ".",
            ),
            None => "Enter your security key's FIDO2 PIN.".to_owned(),
        },
    };
    let mut fields: Vec<Field> = Vec::new();
    fields.push(Field::secret("PIN"));
    let mut buttons: Vec<Button> = Vec::new();
    buttons.push(Button::new("Unlock", Action::PinSubmit, Key::Return));
    buttons.push(Button::new("Cancel", Action::PinCancel, Key::Escape));
    let panel = Panel { title: "Unlock with Security Key".to_owned(), message, fields, buttons };
    assert(panel@ =~= pin_panel(opt_notice(*note), opt_text(*database)));
    panel
}

/// A form's message.
pub open spec fn sheet_message(sheet: SheetM) -> Seq<char> {
    match sheet {
        SheetM::Create { vault } =>
            "Set up fido2kpxc with this security key. The vault goes to "@ + vault
                + ". Leave the database file blank to use the password for any database. After Set Up, touch the key twice."@,
        SheetM::AddCurrent =>
            "Insert a security key that is already enrolled, and enter its PIN. Then touch it."@,
        SheetM::AddNew =>
            "Remove the enrolled key and insert the new one. Enter a label for it and its PIN, then touch it twice."@,
        SheetM::RemoveChoose { labels } =>
            "Choose the key to remove. Afterwards, each remaining key needs its PIN and a touch."@,
        SheetM::RemoveTouch { name } => "Insert the key \""@ + name
            + "\", enter its PIN, then touch it."@,
        SheetM::SetPassword { stored } =>
            "Enter the database file name, such as pdb.kdbx, and its password. Leave the name blank for any other database. Stored now: "@
                + listed(stored) + ". Then touch your security key."@,
        SheetM::Settings { path, values } =>
            "The vault lives in the vault folder as vault.toml. A path starting with ~/ works on every Mac. Settings are saved to "@
                + (match path {
                Some(path) => path,
                None => "the config file"@,
            }) + "."@,
    }
}

/// The choices for autofill.
pub open spec fn autofill_options() -> Seq<Seq<char>> {
    seq!["Fill and unlock"@, "Fill only"@, "Off"@]
}

/// A form's rows.
pub open spec fn sheet_fields(sheet: SheetM) -> Seq<FieldModel> {
    let pin = secret_field("PIN"@, false);
    let password = secret_field("Password"@, true);
    let repeat = secret_field("Repeat"@, true);
    let database = plain_field("Database file"@, ""@);
    match sheet {
        SheetM::Create { vault } => seq![
            plain_field("Key label"@, "primary"@),
            database,
            password,
            repeat,
            pin,
        ],
        SheetM::AddCurrent => seq![pin],
        SheetM::AddNew => seq![plain_field("Key label"@, ""@), pin],
        SheetM::RemoveChoose { labels } => seq![choice_field("Key"@, labels, 0)],
        SheetM::RemoveTouch { name } => seq![pin],
        SheetM::SetPassword { stored } => seq![database, password, repeat, pin],
        SheetM::Settings { path, values } => seq![
            plain_field("Vault folder"@, values.folder),
            choice_field("Autofill"@, autofill_options(), values.autofill),
            choice_field("Copy Password"@, seq!["Off"@, "On"@], values.copy),
            plain_field("Clear after (s)"@, values.clear),
        ],
    }
}

/// The title of a form's submit button.
pub open spec fn sheet_submit(sheet: SheetM) -> Seq<char> {
    match sheet {
        SheetM::Create { vault } => "Set Up"@,
        SheetM::AddCurrent => "Continue"@,
        SheetM::AddNew => "Add Key"@,
        SheetM::RemoveChoose { labels } => "Continue"@,
        SheetM::RemoveTouch { name } => "Continue"@,
        SheetM::SetPassword { stored } => "Save"@,
        SheetM::Settings { path, values } => "Save"@,
    }
}

/// The panel of a form. A note on top says why the previous input was rejected.
pub open spec fn setup_panel(sheet: SheetM, note: Option<NoticeM>) -> PanelM {
    PanelM {
        title: "fido2kpxc"@,
        message: match note {
            Some(note) => note.words() + "\n\n"@ + sheet_message(sheet),
            None => sheet_message(sheet),
        },
        fields: sheet_fields(sheet),
        buttons: seq![
            ButtonModel {
                title: sheet_submit(sheet),
                action: Action::SetupSubmit,
                key: Key::Return,
            },
            ButtonModel { title: "Cancel"@, action: Action::SetupCancel, key: Key::Escape },
        ],
    }
}

impl Sheet {
    /// The form's message.
    fn message(&self) -> (s: String)
        ensures
            s@ == sheet_message(self@),
    {
        match self {
            Sheet::Create { vault } => concat(
                "Set up fido2kpxc with this security key. The vault goes to ",
                vault.as_str(),
                ". Leave the database file blank to use the password for any database. After Set Up, touch the key twice.",
            ),
            Sheet::AddCurrent =>
                "Insert a security key that is already enrolled, and enter its PIN. Then touch it.".to_owned(),
            Sheet::AddNew =>
                "Remove the enrolled key and insert the new one. Enter a label for it and its PIN, then touch it twice.".to_owned(),
            Sheet::RemoveChoose { labels: _ } =>
                "Choose the key to remove. Afterwards, each remaining key needs its PIN and a touch.".to_owned(),
            Sheet::RemoveTouch { name } => concat(
                "Insert the key \"",
                name.as_str(),
                "\", enter its PIN, then touch it.",
            ),
            Sheet::SetPassword { stored } => concat(
                "Enter the database file name, such as pdb.kdbx, and its password. Leave the name blank for any other database. Stored now: ",
                list(stored).as_str(),
                ". Then touch your security key.",
            ),
            Sheet::Settings { path, values: _ } => {
                let place = match path {
                    Some(path) => path.as_str(),
                    None => "the config file",
                };
                concat(
                    "The vault lives in the vault folder as vault.toml. A path starting with ~/ works on every Mac. Settings are saved to ",
                    place,
                    ".",
                )
            },
        }
    }

    /// The form's rows.
    fn fields(&self) -> (fields: Vec<Field>)
        ensures
            field_models(fields@) == sheet_fields(self@),
    {
        let mut fields: Vec<Field> = Vec::new();
        match self {
            Sheet::Create { vault: _ } => {
                fields.push(Field::plain("Key label", "primary"));
                fields.push(Field::plain("Database file", ""));
                fields.push(Field::revealable("Password"));
                fields.push(Field::revealable("Repeat"));
                fields.push(Field::secret("PIN"));
            },
            Sheet::AddCurrent => {
                fields.push(Field::secret("PIN"));
            },
            Sheet::AddNew => {
                fields.push(Field::plain("Key label", ""));
                fields.push(Field::secret("PIN"));
            },
            Sheet::RemoveChoose { labels } => {
                fields.push(Field::choice("Key", copy_of(labels), 0));
            },
            Sheet::RemoveTouch { name: _ } => {
                fields.push(Field::secret("PIN"));
            },
            Sheet::SetPassword { stored: _ } => {
                fields.push(Field::plain("Database file", ""));
                fields.push(Field::revealable("Password"));
                fields.push(Field::revealable("Repeat"));
                fields.push(Field::secret("PIN"));
            },
            Sheet::Settings { path: _, values } => {
                let mut choices: Vec<String> = Vec::new();
                choices.push(AUTOFILL_LABELS[0].to_owned());
                choices.push(AUTOFILL_LABELS[1].to_owned());
                choices.push(AUTOFILL_LABELS[2].to_owned());
                assert(texts(choices@) =~= autofill_options());
                let mut copies: Vec<String> = Vec::new();
                copies.push("Off".to_owned());
                copies.push("On".to_owned());
                assert(texts(copies@) =~= seq!["Off"@, "On"@]);
                fields.push(Field::plain("Vault folder", values.folder.as_str()));
                fields.push(Field::choice("Autofill", choices, values.autofill));
                fields.push(Field::choice("Copy Password", copies, values.copy));
                fields.push(Field::plain("Clear after (s)", values.clear.as_str()));
            },
        }
        assert(field_models(fields@) =~= sheet_fields(self@));
        fields
    }

    /// The panel of the form. A note on top says why the previous input was rejected.
    pub fn panel(&self, note: &Option<Notice>) -> (panel: Panel)
        ensures
            panel@ == setup_panel(self@, opt_notice(*note)),
    {
        let body = self.message();
        let message = match note {
            Some(note) => concat(note.text().as_str(), "\n\n", body.as_str()),
            None => body,
        };
        let submit = match self {
            Sheet::Create { vault: _ } => "Set Up",
            Sheet::AddCurrent => "Continue",
            Sheet::AddNew => "Add Key",
            Sheet::RemoveChoose { labels: _ } => "Continue",
            Sheet::RemoveTouch { name: _ } => "Continue",
            Sheet::SetPassword { stored: _ } => "Save",
            Sheet::Settings { path: _, values: _ } => "Save",
        };
        let mut buttons: Vec<Button> = Vec::new();
        buttons.push(Button::new(submit, Action::SetupSubmit, Key::Return));
        buttons.push(Button::new("Cancel", Action::SetupCancel, Key::Escape));
        let panel = Panel {
            title: "fido2kpxc".to_owned(),
            message,
            fields: self.fields(),
            buttons,
        };
        assert(panel@ =~= setup_panel(self@, opt_notice(*note)));
        panel
    }
}

/// The same texts again.
pub fn copy_of(items: &[String]) -> (copies: Vec<String>)
    ensures
        texts(copies@) == texts(items@),
{
    let ghost all = texts(items@);
    let mut copies: Vec<String> = Vec::new();
    for i in 0..items.len()
        invariant
            all == texts(items@),
            texts(copies@) =~= all.take(i as int),
    {
        let item = items[i].clone();
        let ghost had = texts(copies@);
        copies.push(item);
        assert(texts(copies@) =~= had.push(item@));
    }
    assert(all.take(all.len() as int) =~= all);
    copies
}

} // verus!
