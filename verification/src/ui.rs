//! The menu-bar app as a state machine: what is open, what runs, and what each event leads to. The
//! parts that draw panels, read files, and talk to security keys perform the effects.

pub mod flow;
pub mod forms;
pub mod laws;
pub mod menu;

use vstd::prelude::*;

use crate::config::{Config, ConfigModel};
use crate::crypto::SecretText;
use crate::error::opt_text;
use crate::fido::{FidoError, FidoFault};
use crate::ops::touch_models;
use crate::text::texts;
use crate::vault::{unlocks, Unlock, UnlockModel, Vault, VaultModel};

verus! {

/// What an unlock attempt is for.
#[derive(Debug)]
pub enum Target {
    Fill,
    /// Copies the password stored for this database name.
    Copy(String),
}

/// A [`Target`] as characters.
pub enum TargetM {
    Fill,
    Copy(Seq<char>),
}

impl View for Target {
    type V = TargetM;

    open spec fn view(&self) -> TargetM {
        match *self {
            Target::Fill => TargetM::Fill,
            Target::Copy(database) => TargetM::Copy(database@),
        }
    }
}

impl Clone for Target {
    fn clone(&self) -> (target: Self)
        ensures
            target@ == self@,
    {
        match self {
            Target::Fill => Target::Fill,
            Target::Copy(database) => Target::Copy(database.clone()),
        }
    }
}

/// An optional target as characters.
pub open spec fn opt_target(target: Option<Target>) -> Option<TargetM> {
    match target {
        Some(target) => Some(target@),
        None => None,
    }
}

/// A key-management step that waits for input in a form.
pub enum Step {
    Create,
    AddCurrent,
    AddNew { current: Unlock },
    RemoveChoose,
    /// Collects an output from each key in `left`, which the new data key must be wrapped for.
    RemoveTouch { label: String, left: Vec<(String, Vec<u8>)>, collected: Vec<Unlock> },
    SetPassword,
    /// `draft` holds the values of a rejected attempt, so the form reopens with them.
    Settings { draft: Option<Vec<String>> },
}

/// A [`Step`] as plain sequences.
pub enum StepM {
    Create,
    AddCurrent,
    AddNew { current: UnlockModel },
    RemoveChoose,
    RemoveTouch {
        label: Seq<char>,
        left: Seq<(Seq<char>, Seq<u8>)>,
        collected: Seq<UnlockModel>,
    },
    SetPassword,
    Settings { draft: Option<Seq<Seq<char>>> },
}

/// An optional draft as characters.
pub open spec fn opt_draft(draft: Option<Vec<String>>) -> Option<Seq<Seq<char>>> {
    match draft {
        Some(values) => Some(texts(values@)),
        None => None,
    }
}

impl View for Step {
    type V = StepM;

    open spec fn view(&self) -> StepM {
        match *self {
            Step::Create => StepM::Create,
            Step::AddCurrent => StepM::AddCurrent,
            Step::AddNew { current } => StepM::AddNew { current: current@ },
            Step::RemoveChoose => StepM::RemoveChoose,
            Step::RemoveTouch { label, left, collected } => StepM::RemoveTouch {
                label: label@,
                left: touch_models(left@),
                collected: unlocks(collected@),
            },
            Step::SetPassword => StepM::SetPassword,
            Step::Settings { draft } => StepM::Settings { draft: opt_draft(draft) },
        }
    }
}

/// What continues once the security key for a flow is known.
pub enum AfterKey {
    Unlock(Target),
    Setup(Step),
}

/// An [`AfterKey`] as plain sequences.
pub enum AfterKeyM {
    Unlock(TargetM),
    Setup(StepM),
}

impl View for AfterKey {
    type V = AfterKeyM;

    open spec fn view(&self) -> AfterKeyM {
        match *self {
            AfterKey::Unlock(target) => AfterKeyM::Unlock(target@),
            AfterKey::Setup(step) => AfterKeyM::Setup(step@),
        }
    }
}

/// Something to tell the user.
#[derive(Debug)]
pub enum Notice {
    /// An error in its own words.
    Error { error: String },
    NeedSettings { error: String },
    NeedSetUp { error: String },
    NoPassword { database: Option<String> },
    Fido { error: FidoError },
    NotUtf8,
    AutofillFailed { error: String },
    Saved,
    Created { vault: String },
    Added { label: String },
    Removed { label: String },
    Stored { database: String },
    Unexpected,
    CopiedDiagnostics,
    CannotOpenConfig { error: String },
    CannotShowVault { error: String },
    LoginFailed { error: String },
    Help { exe: String },
    EnterPassword,
    PasswordsDiffer,
    EnterLabel,
    EnterPin,
    EnterLabelAndPin,
    ClearNotANumber,
}

/// A [`Notice`] as characters.
pub enum NoticeM {
    Error { error: Seq<char> },
    NeedSettings { error: Seq<char> },
    NeedSetUp { error: Seq<char> },
    NoPassword { database: Option<Seq<char>> },
    Fido { error: FidoFault },
    NotUtf8,
    AutofillFailed { error: Seq<char> },
    Saved,
    Created { vault: Seq<char> },
    Added { label: Seq<char> },
    Removed { label: Seq<char> },
    Stored { database: Seq<char> },
    Unexpected,
    CopiedDiagnostics,
    CannotOpenConfig { error: Seq<char> },
    CannotShowVault { error: Seq<char> },
    LoginFailed { error: Seq<char> },
    Help { exe: Seq<char> },
    EnterPassword,
    PasswordsDiffer,
    EnterLabel,
    EnterPin,
    EnterLabelAndPin,
    ClearNotANumber,
}

impl View for Notice {
    type V = NoticeM;

    open spec fn view(&self) -> NoticeM {
        match *self {
            Notice::Error { error } => NoticeM::Error { error: error@ },
            Notice::NeedSettings { error } => NoticeM::NeedSettings { error: error@ },
            Notice::NeedSetUp { error } => NoticeM::NeedSetUp { error: error@ },
            Notice::NoPassword { database } => NoticeM::NoPassword {
                database: opt_text(database),
            },
            Notice::Fido { error } => NoticeM::Fido { error: error@ },
            Notice::NotUtf8 => NoticeM::NotUtf8,
            Notice::AutofillFailed { error } => NoticeM::AutofillFailed { error: error@ },
            Notice::Saved => NoticeM::Saved,
            Notice::Created { vault } => NoticeM::Created { vault: vault@ },
            Notice::Added { label } => NoticeM::Added { label: label@ },
            Notice::Removed { label } => NoticeM::Removed { label: label@ },
            Notice::Stored { database } => NoticeM::Stored { database: database@ },
            Notice::Unexpected => NoticeM::Unexpected,
            Notice::CopiedDiagnostics => NoticeM::CopiedDiagnostics,
            Notice::CannotOpenConfig { error } => NoticeM::CannotOpenConfig { error: error@ },
            Notice::CannotShowVault { error } => NoticeM::CannotShowVault { error: error@ },
            Notice::LoginFailed { error } => NoticeM::LoginFailed { error: error@ },
            Notice::Help { exe } => NoticeM::Help { exe: exe@ },
            Notice::EnterPassword => NoticeM::EnterPassword,
            Notice::PasswordsDiffer => NoticeM::PasswordsDiffer,
            Notice::EnterLabel => NoticeM::EnterLabel,
            Notice::EnterPin => NoticeM::EnterPin,
            Notice::EnterLabelAndPin => NoticeM::EnterLabelAndPin,
            Notice::ClearNotANumber => NoticeM::ClearNotANumber,
        }
    }
}

/// An optional notice as characters.
pub open spec fn opt_notice(notice: Option<Notice>) -> Option<NoticeM> {
    match notice {
        Some(notice) => Some(notice@),
        None => None,
    }
}

/// What follows a job on the worker thread.
pub enum Next {
    /// Counted the plugged-in keys. One key continues at once, several need a touch to choose.
    Devices(AfterKey),
    /// The user touched the key to use.
    Chosen(AfterKey),
    Report(Notice),
    AskNewKey,
    Collect { label: String, left: Vec<(String, Vec<u8>)>, collected: Vec<Unlock> },
}

/// A [`Next`] as plain sequences.
pub enum NextM {
    Devices(AfterKeyM),
    Chosen(AfterKeyM),
    Report(NoticeM),
    AskNewKey,
    Collect {
        label: Seq<char>,
        left: Seq<(Seq<char>, Seq<u8>)>,
        collected: Seq<UnlockModel>,
    },
}

impl View for Next {
    type V = NextM;

    open spec fn view(&self) -> NextM {
        match *self {
            Next::Devices(after) => NextM::Devices(after@),
            Next::Chosen(after) => NextM::Chosen(after@),
            Next::Report(notice) => NextM::Report(notice@),
            Next::AskNewKey => NextM::AskNewKey,
            Next::Collect { label, left, collected } => NextM::Collect {
                label: label@,
                left: touch_models(left@),
                collected: unlocks(collected@),
            },
        }
    }
}

/// What a job yields.
pub enum Outcome {
    Done,
    Unlock(Unlock),
    /// So many keys are plugged in.
    Devices(usize),
    /// A key was touched.
    Key,
}

/// An [`Outcome`] as plain bytes.
pub enum OutcomeM {
    Done,
    Unlock(UnlockModel),
    Devices(usize),
    Key,
}

impl View for Outcome {
    type V = OutcomeM;

    open spec fn view(&self) -> OutcomeM {
        match *self {
            Outcome::Done => OutcomeM::Done,
            Outcome::Unlock(unlock) => OutcomeM::Unlock(unlock@),
            Outcome::Devices(count) => OutcomeM::Devices(count),
            Outcome::Key => OutcomeM::Key,
        }
    }
}

/// How a job ended: what it yields, or its error in words.
pub open spec fn ended(result: Result<Outcome, String>) -> Result<OutcomeM, Seq<char>> {
    match result {
        Ok(outcome) => Ok(outcome@),
        Err(error) => Err(error@),
    }
}

/// Work for the worker thread, with the key that was chosen.
pub enum Work {
    /// Count the plugged-in keys.
    Devices,
    /// Wait until the user touches one of several keys.
    Select,
    Create { label: String, database: String, secret: SecretText, pin: SecretText },
    /// Derive the output of whichever enrolled key is inserted.
    Derive { pin: SecretText },
    AddKey { current: Unlock, label: String, pin: SecretText },
    /// Derive the output of one enrolled key.
    DeriveOne { cred_id: Vec<u8>, pin: SecretText },
    SetSecret { database: String, secret: SecretText, pin: SecretText },
    RemoveKey { label: String, remaining: Vec<Unlock> },
    /// Derive an output and open the password for a database.
    Unlock { database: Option<String>, pin: SecretText },
}

/// A [`Work`] as plain sequences.
pub enum WorkM {
    Devices,
    Select,
    Create { label: Seq<char>, database: Seq<char>, secret: Seq<char>, pin: Seq<char> },
    Derive { pin: Seq<char> },
    AddKey { current: UnlockModel, label: Seq<char>, pin: Seq<char> },
    DeriveOne { cred_id: Seq<u8>, pin: Seq<char> },
    SetSecret { database: Seq<char>, secret: Seq<char>, pin: Seq<char> },
    RemoveKey { label: Seq<char>, remaining: Seq<UnlockModel> },
    Unlock { database: Option<Seq<char>>, pin: Seq<char> },
}

impl View for Work {
    type V = WorkM;

    open spec fn view(&self) -> WorkM {
        match *self {
            Work::Devices => WorkM::Devices,
            Work::Select => WorkM::Select,
            Work::Create { label, database, secret, pin } => WorkM::Create {
                label: label@,
                database: database@,
                secret: secret@,
                pin: pin@,
            },
            Work::Derive { pin } => WorkM::Derive { pin: pin@ },
            Work::AddKey { current, label, pin } => WorkM::AddKey {
                current: current@,
                label: label@,
                pin: pin@,
            },
            Work::DeriveOne { cred_id, pin } => WorkM::DeriveOne { cred_id: cred_id@, pin: pin@ },
            Work::SetSecret { database, secret, pin } => WorkM::SetSecret {
                database: database@,
                secret: secret@,
                pin: pin@,
            },
            Work::RemoveKey { label, remaining } => WorkM::RemoveKey {
                label: label@,
                remaining: unlocks(remaining@),
            },
            Work::Unlock { database, pin } => WorkM::Unlock {
                database: opt_text(database),
                pin: pin@,
            },
        }
    }
}

/// What a panel without buttons says while the worker thread waits for a touch.
#[derive(Debug)]
pub enum Touch {
    Now,
    Once,
    Twice,
    Enrolled,
    NewTwice,
    Choose,
    Saving,
    Named(String),
}

/// A [`Touch`] as characters.
pub enum TouchM {
    Now,
    Once,
    Twice,
    Enrolled,
    NewTwice,
    Choose,
    Saving,
    Named(Seq<char>),
}

impl View for Touch {
    type V = TouchM;

    open spec fn view(&self) -> TouchM {
        match *self {
            Touch::Now => TouchM::Now,
            Touch::Once => TouchM::Once,
            Touch::Twice => TouchM::Twice,
            Touch::Enrolled => TouchM::Enrolled,
            Touch::NewTwice => TouchM::NewTwice,
            Touch::Choose => TouchM::Choose,
            Touch::Saving => TouchM::Saving,
            Touch::Named(name) => TouchM::Named(name@),
        }
    }
}

/// Values that the settings form starts with.
#[derive(Debug)]
pub struct SettingsValues {
    pub folder: String,
    pub clear: String,
    /// The position of the choice in [`crate::config::Autofill::ALL`].
    pub autofill: usize,
    /// Zero for Off, one for On.
    pub copy: usize,
}

/// A [`SettingsValues`] as characters.
pub struct SettingsM {
    pub folder: Seq<char>,
    pub clear: Seq<char>,
    pub autofill: usize,
    pub copy: usize,
}

impl View for SettingsValues {
    type V = SettingsM;

    open spec fn view(&self) -> SettingsM {
        SettingsM {
            folder: self.folder@,
            clear: self.clear@,
            autofill: self.autofill,
            copy: self.copy,
        }
    }
}

/// The form of a step, with what it shows.
#[derive(Debug)]
pub enum Sheet {
    Create { vault: String },
    AddCurrent,
    AddNew,
    RemoveChoose { labels: Vec<String> },
    RemoveTouch { name: String },
    SetPassword { stored: Vec<String> },
    Settings { path: Option<String>, values: SettingsValues },
}

/// A [`Sheet`] as characters.
pub enum SheetM {
    Create { vault: Seq<char> },
    AddCurrent,
    AddNew,
    RemoveChoose { labels: Seq<Seq<char>> },
    RemoveTouch { name: Seq<char> },
    SetPassword { stored: Seq<Seq<char>> },
    Settings { path: Option<Seq<char>>, values: SettingsM },
}

impl View for Sheet {
    type V = SheetM;

    open spec fn view(&self) -> SheetM {
        match *self {
            Sheet::Create { vault } => SheetM::Create { vault: vault@ },
            Sheet::AddCurrent => SheetM::AddCurrent,
            Sheet::AddNew => SheetM::AddNew,
            Sheet::RemoveChoose { labels } => SheetM::RemoveChoose { labels: texts(labels@) },
            Sheet::RemoveTouch { name } => SheetM::RemoveTouch { name: name@ },
            Sheet::SetPassword { stored } => SheetM::SetPassword { stored: texts(stored@) },
            Sheet::Settings { path, values } => SheetM::Settings {
                path: opt_text(path),
                values: values@,
            },
        }
    }
}

/// What to do about an event, in order.
pub enum Effect {
    CloseMessage,
    CloseAsking,
    CloseSetup,
    CloseTouch,
    /// Show a message panel. With `retry`, it offers Retry and Cancel.
    ShowMessage { notice: Notice, retry: bool },
    ShowAbout,
    /// Show the PIN panel for a database, with what went wrong before.
    ShowPin { note: Option<Notice>, database: Option<String> },
    /// Show the form of a step, with why the previous input was rejected.
    ShowSetup { sheet: Sheet, note: Option<Notice> },
    ShowTouch(Touch),
    /// Run work on the worker thread.
    Run(Work),
    /// Give keyboard focus back to KeePassXC.
    Activate,
    /// Put a password on the clipboard.
    Copy { text: SecretText },
    /// Write a password into the last prompt, and with `press` press Unlock.
    Fill { text: SecretText, press: bool },
    /// Check the config and the vault again.
    Recheck,
    /// Write the config file. The draft reopens if that fails.
    WriteConfig { text: String, draft: Vec<String> },
    /// Show in the menu bar whether the config and the vault load.
    Icon { healthy: bool },
}

/// An [`Effect`] as plain sequences.
pub enum EffectM {
    CloseMessage,
    CloseAsking,
    CloseSetup,
    CloseTouch,
    ShowMessage { notice: NoticeM, retry: bool },
    ShowAbout,
    ShowPin { note: Option<NoticeM>, database: Option<Seq<char>> },
    ShowSetup { sheet: SheetM, note: Option<NoticeM> },
    ShowTouch(TouchM),
    Run(WorkM),
    Activate,
    Copy { text: Seq<char> },
    Fill { text: Seq<char>, press: bool },
    Recheck,
    WriteConfig { text: Seq<char>, draft: Seq<Seq<char>> },
    Icon { healthy: bool },
}

impl View for Effect {
    type V = EffectM;

    open spec fn view(&self) -> EffectM {
        match *self {
            Effect::CloseMessage => EffectM::CloseMessage,
            Effect::CloseAsking => EffectM::CloseAsking,
            Effect::CloseSetup => EffectM::CloseSetup,
            Effect::CloseTouch => EffectM::CloseTouch,
            Effect::ShowMessage { notice, retry } => EffectM::ShowMessage {
                notice: notice@,
                retry,
            },
            Effect::ShowAbout => EffectM::ShowAbout,
            Effect::ShowPin { note, database } => EffectM::ShowPin {
                note: opt_notice(note),
                database: opt_text(database),
            },
            Effect::ShowSetup { sheet, note } => EffectM::ShowSetup {
                sheet: sheet@,
                note: opt_notice(note),
            },
            Effect::ShowTouch(touch) => EffectM::ShowTouch(touch@),
            Effect::Run(work) => EffectM::Run(work@),
            Effect::Activate => EffectM::Activate,
            Effect::Copy { text } => EffectM::Copy { text: text@ },
            Effect::Fill { text, press } => EffectM::Fill { text: text@, press },
            Effect::Recheck => EffectM::Recheck,
            Effect::WriteConfig { text, draft } => EffectM::WriteConfig {
                text: text@,
                draft: texts(draft@),
            },
            Effect::Icon { healthy } => EffectM::Icon { healthy },
        }
    }
}

/// Effects as plain sequences.
pub open spec fn effects(out: Seq<Effect>) -> Seq<EffectM> {
    out.map_values(|e: Effect| e@)
}

/// What an event finds outside: the config and the vault as they load now, and what KeePassXC shows.
pub struct Facts {
    /// The config, or why it does not load.
    pub config: Result<Config, String>,
    /// The vault at the place that the config names, or why it does not load.
    pub vault: Result<Vault, String>,
    /// Where the config file is.
    pub path: Option<String>,
    pub home: Option<String>,
    pub folder_exists: bool,
    pub parent_exists: bool,
    pub vault_exists: bool,
    /// The database that KeePassXC's last prompt asks for.
    pub database: Option<String>,
    /// Milliseconds since the app started.
    pub now: u64,
}

/// [`Facts`] as plain sequences.
pub struct FactsM {
    pub config: Result<ConfigModel, Seq<char>>,
    pub vault: Result<VaultModel, Seq<char>>,
    pub path: Option<Seq<char>>,
    pub home: Option<Seq<char>>,
    pub folder_exists: bool,
    pub parent_exists: bool,
    pub vault_exists: bool,
    pub database: Option<Seq<char>>,
    pub now: u64,
}

/// A config that was loaded, or why it was not.
pub open spec fn loaded_config(config: Result<Config, String>) -> Result<ConfigModel, Seq<char>> {
    match config {
        Ok(config) => Ok(config@),
        Err(error) => Err(error@),
    }
}

/// A vault that was loaded, or why it was not.
pub open spec fn loaded_vault(vault: Result<Vault, String>) -> Result<VaultModel, Seq<char>> {
    match vault {
        Ok(vault) => Ok(vault@),
        Err(error) => Err(error@),
    }
}

impl View for Facts {
    type V = FactsM;

    open spec fn view(&self) -> FactsM {
        FactsM {
            config: loaded_config(self.config),
            vault: loaded_vault(self.vault),
            path: opt_text(self.path),
            home: opt_text(self.home),
            folder_exists: self.folder_exists,
            parent_exists: self.parent_exists,
            vault_exists: self.vault_exists,
            database: opt_text(self.database),
            now: self.now,
        }
    }
}

impl FactsM {
    /// The config and the vault both load.
    pub open spec fn loads(self) -> bool {
        self.config is Ok && self.vault_exists && self.vault is Ok
    }
}

} // verus!
