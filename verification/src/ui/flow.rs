//! The state machine: one flow at a time, from an event to what is open, what runs, and what to do.

use vstd::prelude::*;
use vstd::utf8::*;

use super::menu::{
    database_names, draft_text, key_labels, labels, names, settings_text, settings_values,
    starting_values,
};
use super::{
    effects, ended, loaded_config, opt_notice, opt_target, AfterKey, AfterKeyM, Effect,
    EffectM, Facts, FactsM, Next, NextM, Notice, NoticeM, Outcome, OutcomeM, Sheet, SheetM, Step,
    StepM, Target, TargetM, Touch, TouchM, Work, WorkM,
};
use crate::config::{Autofill, Config, ConfigFault, ConfigModel, MAX_CLEAR_SECONDS};
use crate::crypto::{SecretBytes, SecretText};
use crate::error::{around, opt_text};
use crate::fido::{FidoError, FidoFault};
use crate::ops::{check_new, keys_to_touch, touch_models, touches};
use crate::text::{text_eq, texts, trim, trimmed};
use crate::vault::{
    has_label, kept_is_empty_for_one_label, kept_keys, only_label, unlocks, UnlockModel, VaultModel,
    ANY,
};

verus! {

/// Stops the refocus after a closed dialog from reopening it at once, in milliseconds.
pub const SUPPRESS: u64 = 3000;

/// How long a check of the config and the vault holds, in milliseconds.
pub const RECHECK: u64 = 2000;

/// No event comes later than this, in milliseconds.
pub const LATEST: u64 = 0x7fff_ffff_ffff_ffff;

/// The PIN panel, waiting for Unlock or Cancel.
#[derive(Debug)]
struct Asking {
    target: Target,
    database: Option<String>,
}

/// An open PIN panel as characters.
pub struct AskingM {
    pub target: TargetM,
    pub database: Option<Seq<char>>,
}

/// An operation on the worker thread, what follows it, and whether a panel shows meanwhile.
struct Job {
    next: Next,
    touch: bool,
}

/// A job as plain sequences.
pub struct JobM {
    pub next: NextM,
    pub touch: bool,
}

/// When to clear a copied password, and the clipboard's change count right after it was copied.
#[derive(Debug, Clone, Copy, PartialEq, Eq, Structural)]
pub struct Clear {
    pub due: u64,
    pub change_count: i64,
}

/// The last check of the config and the vault. An error keeps the app idle until the files are fixed.
#[derive(Debug)]
struct Health {
    at: u64,
    result: Result<Config, String>,
}

/// The last check as characters.
pub struct HealthM {
    pub at: u64,
    pub config: Result<ConfigModel, Seq<char>>,
}

/// The app's state.
pub struct Ui {
    asking: Option<Asking>,
    pending: Option<Target>,
    message: Option<Option<Target>>,
    setup: Option<Step>,
    job: Option<Job>,
    key: bool,
    suppress_until: Option<u64>,
    clear: Option<Clear>,
    health: Option<Health>,
}

/// The app's state as plain sequences: the open PIN panel, the unlock that waits for a touch, the open
/// message with the attempt it could retry, the open form, the running job, whether the flow's
/// security key was chosen, and the times.
pub struct UiM {
    pub asking: Option<AskingM>,
    pub pending: Option<TargetM>,
    pub message: Option<Option<TargetM>>,
    pub setup: Option<StepM>,
    pub job: Option<JobM>,
    pub key: bool,
    pub suppress_until: Option<u64>,
    pub clear: Option<Clear>,
    pub health: Option<HealthM>,
}

impl View for Ui {
    type V = UiM;

    closed spec fn view(&self) -> UiM {
        UiM {
            asking: match self.asking {
                Some(asking) => Some(
                    AskingM { target: asking.target@, database: opt_text(asking.database) },
                ),
                None => None,
            },
            pending: opt_target(self.pending),
            message: match self.message {
                Some(retry) => Some(opt_target(retry)),
                None => None,
            },
            setup: match self.setup {
                Some(step) => Some(step@),
                None => None,
            },
            job: match self.job {
                Some(job) => Some(JobM { next: job.next@, touch: job.touch }),
                None => None,
            },
            key: self.key,
            suppress_until: self.suppress_until,
            clear: self.clear,
            health: match self.health {
                Some(health) => Some(
                    HealthM { at: health.at, config: loaded_config(health.result) },
                ),
                None => None,
            },
        }
    }
}

/// Steps whose form asks for a PIN, so their key is chosen first.
pub open spec fn asks_for_pin(step: StepM) -> bool {
    match step {
        StepM::RemoveChoose => false,
        StepM::Settings { draft } => false,
        _ => true,
    }
}

/// A step can be shown: a removal has a key left to touch, and a draft has all its values.
pub open spec fn step_fits(step: StepM) -> bool {
    match step {
        StepM::RemoveTouch { label, left, collected } => left.len() > 0,
        StepM::Settings { draft: Some(values) } => values.len() >= 4,
        _ => true,
    }
}

/// The step that a job leads to can be shown.
pub open spec fn next_fits(next: NextM) -> bool {
    match next {
        NextM::Devices(AfterKeyM::Setup(step)) => step_fits(step),
        NextM::Chosen(AfterKeyM::Setup(step)) => step_fits(step),
        _ => true,
    }
}

/// One if there is something.
pub open spec fn one<T>(x: Option<T>) -> nat {
    if x is Some {
        1
    } else {
        0
    }
}

impl UiM {
    /// A flow is under way.
    pub open spec fn busy(self) -> bool {
        self.asking is Some || self.pending is Some || self.setup is Some || self.job is Some
    }

    /// The config, if it and the vault loaded at the last check.
    pub open spec fn config(self) -> Option<ConfigModel> {
        match self.health {
            Some(health) => match health.config {
                Ok(config) => Some(config),
                Err(_) => None,
            },
            None => None,
        }
    }

    /// At most one flow is under way, and every step can be shown.
    pub open spec fn wf(self) -> bool {
        &&& one(self.asking) + one(self.pending) + one(self.setup) + one(self.job) <= 1
        &&& self.setup matches Some(step) ==> step_fits(step)
        &&& self.job matches Some(job) ==> next_fits(job.next)
        &&& self.config() matches Some(config) ==> config.clear_seconds <= MAX_CLEAR_SECONDS
    }
}

/// A state, and the effects so far.
pub struct Turn {
    pub ui: UiM,
    pub out: Seq<EffectM>,
}

/// The state and the effects of a call.
pub open spec fn turn(ui: Ui, out: Seq<Effect>) -> Turn {
    Turn { ui: ui@, out: effects(out) }
}

/// Why a vault cannot be created, if it cannot.
pub open spec fn new_fault(config: ConfigModel, facts: FactsM) -> Option<ConfigFault> {
    if !(facts.folder_exists || facts.parent_exists) {
        Some(ConfigFault::NoFolder { folder: config.folder })
    } else if facts.vault_exists {
        Some(ConfigFault::VaultExists { vault: config.vault })
    } else {
        None
    }
}

/// The form of a step.
pub open spec fn sheet_for(step: StepM, facts: FactsM) -> SheetM {
    match step {
        StepM::Create => SheetM::Create { vault: facts.config->Ok_0.vault },
        StepM::AddCurrent => SheetM::AddCurrent,
        StepM::AddNew { current } => SheetM::AddNew,
        StepM::RemoveChoose => SheetM::RemoveChoose { labels: key_labels(facts.vault->Ok_0.keys) },
        StepM::RemoveTouch { label, left, collected } => SheetM::RemoveTouch { name: left[0].0 },
        StepM::SetPassword => SheetM::SetPassword {
            stored: database_names(facts.vault->Ok_0.secrets),
        },
        StepM::Settings { draft } => SheetM::Settings {
            path: facts.path,
            values: starting_values(
                draft,
                match facts.config {
                    Ok(config) => Some(config),
                    Err(_) => None,
                },
                facts.home,
            ),
        },
    }
}

/// The database that an attempt is for.
pub open spec fn database_for(target: TargetM, facts: FactsM) -> Option<Seq<char>> {
    match target {
        TargetM::Fill => facts.database,
        TargetM::Copy(database) => Some(database),
    }
}

impl Turn {
    /// One more effect.
    pub open spec fn say(self, effect: EffectM) -> Turn {
        Turn { out: self.out.push(effect), ..self }
    }

    /// Closes the message panel.
    pub open spec fn close_message(self) -> Turn {
        if self.ui.message is Some {
            Turn { ui: UiM { message: None, ..self.ui }, ..self }.say(EffectM::CloseMessage)
        } else {
            self
        }
    }

    /// Shows a message panel, which may offer to retry an attempt.
    pub open spec fn show(self, notice: NoticeM, retry: Option<TargetM>) -> Turn {
        let closed = self.close_message();
        Turn { ui: UiM { message: Some(retry), ..closed.ui }, ..closed }.say(
            EffectM::ShowMessage { notice, retry: retry is Some },
        )
    }

    /// Shows a message panel.
    pub open spec fn alert(self, notice: NoticeM) -> Turn {
        self.show(notice, None)
    }

    /// Ends an unlock attempt. For autofill, hands focus back to KeePassXC inside the suppression
    /// window, so its password field does not count as a new prompt.
    pub open spec fn done(self, target: TargetM, now: u64) -> Turn {
        let told = if target is Fill {
            self.say(EffectM::Activate)
        } else {
            self
        };
        Turn { ui: UiM { suppress_until: Some((now + SUPPRESS) as u64), ..told.ui }, ..told }
    }

    /// Runs work on the worker thread, while a panel may ask for a touch.
    pub open spec fn spawn(self, next: NextM, touch: Option<TouchM>, work: WorkM) -> Turn {
        let run = self.say(EffectM::Run(work));
        let told = match touch {
            Some(touch) => run.say(EffectM::ShowTouch(touch)),
            None => run,
        };
        Turn { ui: UiM { job: Some(JobM { next, touch: touch is Some }), ..told.ui }, ..told }
    }

    /// Forgets the key of a previous flow, so a new flow chooses again.
    pub open spec fn begin_flow(self) -> Turn {
        Turn { ui: UiM { key: false, ..self.ui }, ..self }
    }

    /// Remembers that the flow's key was chosen.
    pub open spec fn has_key(self) -> Turn {
        Turn { ui: UiM { key: true, ..self.ui }, ..self }
    }

    /// Chooses the security key before something continues.
    pub open spec fn with_key(self, after: AfterKeyM) -> Turn {
        self.close_message().spawn(NextM::Devices(after), None, WorkM::Devices)
    }

    /// Opens the PIN panel.
    pub open spec fn pin_panel(self, target: TargetM, note: Option<NoticeM>, facts: FactsM) -> Turn {
        if self.ui.busy() {
            self
        } else {
            let database = database_for(target, facts);
            let shown = self.close_message().say(EffectM::ShowPin { note, database });
            Turn { ui: UiM { asking: Some(AskingM { target, database }), ..shown.ui }, ..shown }
        }
    }

    /// Starts an unlock or copy, unless a flow is under way, the config or the vault does not load, or
    /// no password is stored for the database.
    pub open spec fn start(self, target: TargetM, facts: FactsM) -> Turn {
        let database = database_for(target, facts);
        if self.ui.busy() || !facts.loads() {
            self
        } else if facts.vault->Ok_0.secret_for(database) is None {
            self.alert(NoticeM::NoPassword { database }).done(target, facts.now)
        } else {
            self.begin_flow().with_key(AfterKeyM::Unlock(target))
        }
    }

    /// Shows the form for a step. A note explains why the previous input was rejected.
    pub open spec fn open_setup(self, step: StepM, note: Option<NoticeM>, facts: FactsM) -> Turn {
        if self.ui.busy() {
            self
        } else if asks_for_pin(step) && !self.ui.key {
            self.with_key(AfterKeyM::Setup(step))
        } else if !(step is Settings) && facts.config is Err {
            self.alert(NoticeM::NeedSettings { error: facts.config->Err_0 })
        } else if !(step is Settings) && !(step is Create) && facts.vault is Err {
            self.alert(NoticeM::NeedSetUp { error: facts.vault->Err_0 })
        } else if step is Create && new_fault(facts.config->Ok_0, facts) is Some {
            self.alert(NoticeM::Error { error: new_fault(facts.config->Ok_0, facts)->0.words() })
        } else {
            let shown = self.close_message().say(
                EffectM::ShowSetup { sheet: sheet_for(step, facts), note },
            );
            Turn { ui: UiM { setup: Some(step), ..shown.ui }, ..shown }
        }
    }

    /// Goes on once the key is known.
    pub open spec fn continue_with_key(self, after: AfterKeyM, facts: FactsM) -> Turn {
        match after {
            AfterKeyM::Unlock(target) => self.pin_panel(target, None, facts),
            AfterKeyM::Setup(step) => self.open_setup(step, None, facts),
        }
    }

    /// Tells that no key could be chosen. An attempt can be retried.
    pub open spec fn no_key(self, after: AfterKeyM, notice: NoticeM) -> Turn {
        match after {
            AfterKeyM::Unlock(target) => self.show(notice, Some(target)),
            AfterKeyM::Setup(step) => self.alert(notice),
        }
    }
}

/// Why a label cannot be removed, in words.
pub open spec fn keys_refusal(vault: VaultModel, label: Seq<char>) -> Seq<char> {
    if has_label(vault.keys, label) {
        "The last key cannot be removed"@
    } else {
        around("No key is labeled "@, label, ""@)
    }
}

/// What is wrong with a new password, if anything.
pub open spec fn password_fault(password: Seq<char>, repeat: Seq<char>) -> Option<NoticeM> {
    if password.len() == 0 {
        Some(NoticeM::EnterPassword)
    } else if password != repeat {
        Some(NoticeM::PasswordsDiffer)
    } else {
        None
    }
}

/// The name that a password is stored under. A blank name means any database without its own entry.
pub open spec fn stored_name(name: Seq<char>) -> Seq<char> {
    if trimmed(name).len() == 0 {
        ANY@
    } else {
        trimmed(name)
    }
}

/// How many values a step's form has.
pub open spec fn value_count(step: StepM) -> nat {
    match step {
        StepM::Create => 5,
        StepM::AddCurrent => 1,
        StepM::AddNew { current } => 2,
        StepM::RemoveChoose => 1,
        StepM::RemoveTouch { label, left, collected } => 1,
        StepM::SetPassword => 4,
        StepM::Settings { draft } => 4,
    }
}

/// Secret values as characters.
pub open spec fn secret_texts(values: Seq<SecretText>) -> Seq<Seq<char>> {
    values.map_values(|v: SecretText| v@)
}

impl Turn {
    /// Takes the values of a step's form: reopens it with a note, or goes on.
    pub open spec fn submit(self, step: StepM, values: Seq<Seq<char>>, facts: FactsM) -> Turn {
        match step {
            StepM::Settings { draft } => match draft_text(values, facts.home) {
                Ok(text) => self.say(EffectM::WriteConfig { text, draft: values }),
                Err(notice) => self.open_setup(
                    StepM::Settings { draft: Some(values) },
                    Some(notice),
                    facts,
                ),
            },
            _ => match facts.config {
                Err(_) => self,
                Ok(config) => self.submit_with(step, values, config, facts),
            },
        }
    }

    /// Takes the values of a form that works on the vault.
    pub open spec fn submit_with(
        self,
        step: StepM,
        values: Seq<Seq<char>>,
        config: ConfigModel,
        facts: FactsM,
    ) -> Turn {
        match step {
            StepM::Create => {
                let (label, pin) = (trimmed(values[0]), trimmed(values[4]));
                let problem = if password_fault(values[2], values[3]) is Some {
                    password_fault(values[2], values[3])
                } else if label.len() == 0 {
                    Some(NoticeM::EnterLabel)
                } else if pin.len() == 0 {
                    Some(NoticeM::EnterPin)
                } else {
                    None
                };
                if problem is Some {
                    self.open_setup(StepM::Create, problem, facts)
                } else {
                    self.spawn(
                        NextM::Report(NoticeM::Created { vault: config.vault }),
                        Some(TouchM::Twice),
                        WorkM::Create {
                            label,
                            database: stored_name(values[1]),
                            secret: values[2],
                            pin,
                        },
                    )
                }
            },
            StepM::AddCurrent => {
                let pin = trimmed(values[0]);
                if pin.len() == 0 {
                    self.open_setup(step, Some(NoticeM::EnterPin), facts)
                } else {
                    self.spawn(NextM::AskNewKey, Some(TouchM::Enrolled), WorkM::Derive { pin })
                }
            },
            StepM::AddNew { current } => {
                let (label, pin) = (trimmed(values[0]), trimmed(values[1]));
                if label.len() == 0 || pin.len() == 0 {
                    self.open_setup(step, Some(NoticeM::EnterLabelAndPin), facts)
                } else {
                    self.spawn(
                        NextM::Report(NoticeM::Added { label }),
                        Some(TouchM::NewTwice),
                        WorkM::AddKey { current, label, pin },
                    )
                }
            },
            StepM::RemoveChoose => {
                let label = values[0];
                match facts.vault {
                    Err(error) => self.alert(NoticeM::Error { error }),
                    Ok(vault) => if has_label(vault.keys, label) && vault.keys.len() > 1 {
                        self.begin_flow().open_setup(
                            StepM::RemoveTouch {
                                label,
                                left: touches(kept_keys(vault.keys, label)),
                                collected: Seq::empty(),
                            },
                            None,
                            facts,
                        )
                    } else {
                        self.alert(NoticeM::Error { error: keys_refusal(vault, label) })
                    },
                }
            },
            StepM::RemoveTouch { label, left, collected } => {
                let pin = trimmed(values[0]);
                if pin.len() == 0 {
                    self.open_setup(step, Some(NoticeM::EnterPin), facts)
                } else {
                    self.spawn(
                        NextM::Collect { label, left: left.skip(1), collected },
                        Some(TouchM::Named(left[0].0)),
                        WorkM::DeriveOne { cred_id: left[0].1, pin },
                    )
                }
            },
            StepM::SetPassword => {
                let (database, pin) = (stored_name(values[0]), trimmed(values[3]));
                let problem = if password_fault(values[1], values[2]) is Some {
                    password_fault(values[1], values[2])
                } else if pin.len() == 0 {
                    Some(NoticeM::EnterPin)
                } else {
                    None
                };
                if problem is Some {
                    self.open_setup(step, problem, facts)
                } else {
                    self.spawn(
                        NextM::Report(NoticeM::Stored { database }),
                        Some(TouchM::Once),
                        WorkM::SetSecret { database, secret: values[1], pin },
                    )
                }
            },
            StepM::Settings { draft } => self,
        }
    }

    /// Goes on after a job.
    pub open spec fn after_job(
        self,
        next: NextM,
        result: Result<OutcomeM, Seq<char>>,
        facts: FactsM,
    ) -> Turn {
        match (next, result) {
            (NextM::Devices(after), Err(error)) => self.no_key(after, NoticeM::Error { error }),
            (NextM::Chosen(after), Err(error)) => self.no_key(after, NoticeM::Error { error }),
            (_, Err(error)) => self.alert(NoticeM::Error { error }),
            (NextM::Devices(after), Ok(OutcomeM::Devices(count))) => if count > 1 {
                self.spawn(NextM::Chosen(after), Some(TouchM::Choose), WorkM::Select)
            } else if count == 1 {
                self.has_key().continue_with_key(after, facts)
            } else {
                self.no_key(after, NoticeM::Fido { error: FidoFault::NoDevice })
            },
            (NextM::Chosen(after), Ok(OutcomeM::Key)) => self.has_key().continue_with_key(
                after,
                facts,
            ),
            (NextM::Report(notice), Ok(_)) => self.say(EffectM::Recheck).alert(notice),
            (NextM::AskNewKey, Ok(OutcomeM::Unlock(current))) => self.begin_flow().open_setup(
                StepM::AddNew { current },
                None,
                facts,
            ),
            (NextM::Collect { label, left, collected }, Ok(OutcomeM::Unlock(unlock))) => {
                let collected = collected.push(unlock);
                if left.len() > 0 {
                    self.begin_flow().open_setup(
                        StepM::RemoveTouch { label, left, collected },
                        None,
                        facts,
                    )
                } else if facts.config is Err {
                    self
                } else {
                    self.spawn(
                        NextM::Report(NoticeM::Removed { label }),
                        Some(TouchM::Saving),
                        WorkM::RemoveKey { label, remaining: collected },
                    )
                }
            },
            (_, Ok(_)) => self.alert(NoticeM::Unexpected),
        }
    }

    /// Goes on after the worker opened the password, or failed to.
    pub open spec fn finish(
        self,
        target: TargetM,
        result: Result<Seq<u8>, FidoFault>,
        facts: FactsM,
    ) -> Turn {
        match result {
            Err(error) => match error {
                FidoFault::WrongPin { retries } => self.pin_panel(
                    target,
                    Some(NoticeM::Fido { error }),
                    facts,
                ),
                FidoFault::NoDevice => self.show(NoticeM::Fido { error }, Some(target)),
                FidoFault::Timeout => self.show(NoticeM::Fido { error }, Some(target)),
                _ => self.alert(NoticeM::Fido { error }).done(target, facts.now),
            },
            Ok(secret) => if !valid_utf8(secret) {
                self.alert(NoticeM::NotUtf8).done(target, facts.now)
            } else {
                match target {
                    TargetM::Copy(_) => self.say(EffectM::Copy { text: decode_utf8(secret) }),
                    TargetM::Fill => self.say(
                        EffectM::Fill {
                            text: decode_utf8(secret),
                            press: self.ui.config() matches Some(config) && config.autofill
                                == Autofill::FillAndUnlock,
                        },
                    ),
                }
            },
        }
    }
}

/// The database that an attempt is for.
fn target_database(target: &Target, facts: &Facts) -> (database: Option<String>)
    ensures
        opt_text(database) == database_for(target@, facts@),
{
    match target {
        Target::Fill => match &facts.database {
            Some(name) => Some(name.clone()),
            None => None,
        },
        Target::Copy(name) => Some(name.clone()),
    }
}

/// Adds an effect.
fn say(out: &mut Vec<Effect>, effect: Effect)
    ensures
        effects(final(out)@) == effects(old(out)@).push(effect@),
{
    let ghost had = effects(out@);
    out.push(effect);
    assert(effects(out@) =~= had.push(effect@));
}

impl Ui {
    /// Nothing is open and nothing runs.
    pub fn new() -> (ui: Ui)
        ensures
            ui@ == (UiM {
                asking: None,
                pending: None,
                message: None,
                setup: None,
                job: None,
                key: false,
                suppress_until: None,
                clear: None,
                health: None,
            }),
            ui@.wf(),
            forall|now: u64| #[trigger] ui@.prompts(true, now),
    {
        Ui {
            asking: None,
            pending: None,
            message: None,
            setup: None,
            job: None,
            key: false,
            suppress_until: None,
            clear: None,
            health: None,
        }
    }

    /// True while a flow is under way.
    pub fn busy(&self) -> (yes: bool)
        ensures
            yes == self@.busy(),
    {
        self.asking.is_some() || self.pending.is_some() || self.setup.is_some()
            || self.job.is_some()
    }

    /// Closes the message panel and returns the attempt it could have retried.
    fn close_message(&mut self, out: &mut Vec<Effect>) -> (retry: Option<Target>)
        ensures
            turn(*final(self), final(out)@) == turn(*old(self), old(out)@).close_message(),
            opt_target(retry) == (match old(self)@.message {
                Some(retry) => retry,
                None => None,
            }),
    {
        match self.message.take() {
            Some(retry) => {
                say(out, Effect::CloseMessage);
                retry
            },
            None => None,
        }
    }

    /// Shows a message panel. With `retry`, it offers Retry and Cancel for that attempt.
    fn show(&mut self, notice: Notice, retry: Option<Target>, out: &mut Vec<Effect>)
        ensures
            turn(*final(self), final(out)@) == turn(*old(self), old(out)@).show(
                notice@,
                opt_target(retry),
            ),
    {
        self.close_message(out);
        let offers = retry.is_some();
        say(out, Effect::ShowMessage { notice, retry: offers });
        self.message = Some(retry);
    }

    /// Shows a message panel.
    pub fn alert(&mut self, notice: Notice, out: &mut Vec<Effect>)
        ensures
            turn(*final(self), final(out)@) == turn(*old(self), old(out)@).alert(notice@),
            old(self)@.wf() ==> final(self)@.wf(),
    {
        self.show(notice, None, out);
    }

    /// Ends an unlock attempt.
    fn done(&mut self, target: &Target, now: u64, out: &mut Vec<Effect>)
        requires
            now <= LATEST,
        ensures
            turn(*final(self), final(out)@) == turn(*old(self), old(out)@).done(target@, now),
    {
        if let Target::Fill = target {
            say(out, Effect::Activate);
        }
        self.suppress_until = Some(now + SUPPRESS);
    }

    /// Runs work on the worker thread while a panel shows `touch`.
    fn spawn(&mut self, next: Next, touch: Option<Touch>, work: Work, out: &mut Vec<Effect>)
        ensures
            turn(*final(self), final(out)@) == turn(*old(self), old(out)@).spawn(
                next@,
                match touch {
                    Some(touch) => Some(touch@),
                    None => None,
                },
                work@,
            ),
    {
        say(out, Effect::Run(work));
        match touch {
            Some(touch) => {
                say(out, Effect::ShowTouch(touch));
                self.job = Some(Job { next, touch: true });
            },
            None => {
                self.job = Some(Job { next, touch: false });
            },
        }
    }

    /// Chooses the security key, then continues with `after`. One plugged-in key is used at once. With
    /// several, all blink and the first one touched is used.
    fn with_key(&mut self, after: AfterKey, out: &mut Vec<Effect>)
        ensures
            turn(*final(self), final(out)@) == turn(*old(self), old(out)@).with_key(after@),
    {
        self.close_message(out);
        self.spawn(Next::Devices(after), None, Work::Devices, out);
    }

    /// Opens the PIN panel.
    fn pin_panel(
        &mut self,
        target: Target,
        note: Option<Notice>,
        facts: &Facts,
        out: &mut Vec<Effect>,
    )
        ensures
            turn(*final(self), final(out)@) == turn(*old(self), old(out)@).pin_panel(
                target@,
                opt_notice(note),
                facts@,
            ),
            old(self)@.wf() ==> final(self)@.wf(),
    {
        if self.busy() {
            return;
        }
        self.close_message(out);
        let database = target_database(&target, facts);
        let shown = match &database {
            Some(name) => Some(name.clone()),
            None => None,
        };
        say(out, Effect::ShowPin { note, database: shown });
        self.asking = Some(Asking { target, database });
    }

    /// Starts an unlock or copy. A new attempt first chooses the key, as the FIDO flow does.
    pub fn start(&mut self, target: Target, facts: &Facts, out: &mut Vec<Effect>)
        requires
            facts.now <= LATEST,
        ensures
            turn(*final(self), final(out)@) == turn(*old(self), old(out)@).start(target@, facts@),
            old(self)@.wf() ==> final(self)@.wf(),
    {
        if self.busy() {
            return;
        }
        // A broken config or vault keeps the app idle. The menu shows the error.
        let vault = match &facts.vault {
            Ok(vault) => vault,
            Err(_) => return,
        };
        if facts.config.is_err() || !facts.vault_exists {
            return;
        }
        let database = target_database(&target, facts);
        let found = match &database {
            Some(name) => vault.has_secret_for(Some(name.as_str())),
            None => vault.has_secret_for(None),
        };
        if !found {
            self.alert(Notice::NoPassword { database }, out);
            self.done(&target, facts.now, out);
            return;
        }
        self.key = false;
        self.with_key(AfterKey::Unlock(target), out);
    }

    /// The form of a step.
    fn sheet(step: &Step, facts: &Facts) -> (sheet: Sheet)
        requires
            step_fits(step@),
            step@ is Settings || facts@.config is Ok,
            step@ is Settings || step@ is Create || facts@.vault is Ok,
        ensures
            sheet@ == sheet_for(step@, facts@),
    {
        match step {
            Step::Create => {
                let vault = match &facts.config {
                    Ok(config) => config.vault.clone(),
                    Err(_) => String::new(),
                };
                Sheet::Create { vault }
            },
            Step::AddCurrent => Sheet::AddCurrent,
            Step::AddNew { current: _ } => Sheet::AddNew,
            Step::RemoveChoose => {
                let found = match &facts.vault {
                    Ok(vault) => labels(vault),
                    Err(_) => Vec::new(),
                };
                Sheet::RemoveChoose { labels: found }
            },
            Step::RemoveTouch { label: _, left, collected: _ } => {
                assert(touch_models(left@)[0] == (left@[0].0@, left@[0].1@));
                Sheet::RemoveTouch { name: left[0].0.clone() }
            },
            Step::SetPassword => {
                let stored = match &facts.vault {
                    Ok(vault) => names(vault),
                    Err(_) => Vec::new(),
                };
                Sheet::SetPassword { stored }
            },
            Step::Settings { draft } => {
                let path = match &facts.path {
                    Some(path) => Some(path.clone()),
                    None => None,
                };
                let config = match &facts.config {
                    Ok(config) => Some(config),
                    Err(_) => None,
                };
                let home = match &facts.home {
                    Some(home) => Some(home.as_str()),
                    None => None,
                };
                Sheet::Settings { path, values: settings_values(draft, config, home) }
            },
        }
    }

    /// Shows the form for `step`. `note` explains why the previous input was rejected.
    fn open_setup(
        &mut self,
        step: Step,
        note: Option<Notice>,
        facts: &Facts,
        out: &mut Vec<Effect>,
    )
        requires
            step_fits(step@),
        ensures
            turn(*final(self), final(out)@) == turn(*old(self), old(out)@).open_setup(
                step@,
                opt_notice(note),
                facts@,
            ),
            old(self)@.wf() ==> final(self)@.wf(),
    {
        if self.busy() {
            return;
        }
        if needs_key(&step) && !self.key {
            self.with_key(AfterKey::Setup(step), out);
            return;
        }
        let settings = match &step {
            Step::Settings { .. } => true,
            _ => false,
        };
        let creates = match &step {
            Step::Create => true,
            _ => false,
        };
        // Settings must open even without a working config, so they can fix it.
        if !settings {
            match &facts.config {
                Err(error) => {
                    self.alert(Notice::NeedSettings { error: error.clone() }, out);
                    return;
                },
                Ok(config) => {
                    if creates {
                        match check_new(
                            config,
                            facts.folder_exists,
                            facts.parent_exists,
                            facts.vault_exists,
                        ) {
                            Ok(()) => {},
                            Err(error) => {
                                self.alert(Notice::Error { error: error.message() }, out);
                                return;
                            },
                        }
                    } else {
                        match &facts.vault {
                            Err(error) => {
                                self.alert(Notice::NeedSetUp { error: error.clone() }, out);
                                return;
                            },
                            Ok(_) => {},
                        }
                    }
                },
            }
        }
        self.close_message(out);
        let sheet = Ui::sheet(&step, facts);
        say(out, Effect::ShowSetup { sheet, note });
        self.setup = Some(step);
    }
}

/// Steps whose form asks for a PIN, so their key is chosen first.
pub fn needs_key(step: &Step) -> (yes: bool)
    ensures
        yes == asks_for_pin(step@),
{
    match step {
        Step::Create => true,
        Step::AddCurrent => true,
        Step::AddNew { .. } => true,
        Step::RemoveChoose => false,
        Step::RemoveTouch { .. } => true,
        Step::SetPassword => true,
        Step::Settings { .. } => false,
    }
}

/// Why the password fields cannot be used, if they cannot.
pub fn password_notice(password: &str, repeat: &str) -> (problem: Option<Notice>)
    ensures
        opt_notice(problem) == password_fault(password@, repeat@),
{
    let empty = blank(password);
    if empty {
        Some(Notice::EnterPassword)
    } else if !text_eq(password, repeat) {
        Some(Notice::PasswordsDiffer)
    } else {
        None
    }
}

/// Why the password fields cannot be used, in words, if they cannot.
pub fn password_problem(password: &str, repeat: &str) -> (problem: Option<String>)
    ensures
        problem is Some <==> password_fault(password@, repeat@) is Some,
        problem matches Some(words) ==> words@ == password_fault(password@, repeat@)->0.words(),
{
    match password_notice(password, repeat) {
        Some(notice) => Some(notice.text()),
        None => None,
    }
}

/// A blank database name stores the password for any database without its own entry.
pub fn database_or_any(name: &str) -> (database: String)
    ensures
        database@ == stored_name(name@),
{
    let name = trim(name);
    if blank(name.as_str()) {
        ANY.to_owned()
    } else {
        name
    }
}

/// True for a text without characters.
fn blank(text: &str) -> (yes: bool)
    ensures
        yes == (text@.len() == 0),
{
    let empty = text_eq(text, "");
    proof {
        reveal_strlit("");
        if text@.len() == 0 {
            assert(text@ =~= ""@);
        }
    }
    empty
}

/// A secret without the space around it.
fn trimmed_secret(value: &SecretText) -> (secret: SecretText)
    ensures
        secret@ == trimmed(value@),
{
    SecretText::new(trim(value.expose()))
}

/// The same secret again.
fn copied_secret(value: &SecretText) -> (secret: SecretText)
    ensures
        secret@ == value@,
{
    SecretText::new(value.expose().to_owned())
}

/// The values as plain texts.
fn plain_values(values: &[SecretText]) -> (texts_out: Vec<String>)
    ensures
        texts(texts_out@) == secret_texts(values@),
{
    let ghost all = secret_texts(values@);
    let mut found: Vec<String> = Vec::new();
    for i in 0..values.len()
        invariant
            all == secret_texts(values@),
            texts(found@) =~= all.take(i as int),
    {
        let value = values[i].expose().to_owned();
        let ghost had = texts(found@);
        found.push(value);
        assert(texts(found@) =~= had.push(value@));
    }
    assert(all.take(all.len() as int) =~= all);
    found
}

impl Ui {
    /// Goes on once the key is known.
    fn continue_with_key(&mut self, after: AfterKey, facts: &Facts, out: &mut Vec<Effect>)
        requires
            after@ matches AfterKeyM::Setup(step) ==> step_fits(step),
        ensures
            turn(*final(self), final(out)@) == turn(*old(self), old(out)@).continue_with_key(
                after@,
                facts@,
            ),
            old(self)@.wf() ==> final(self)@.wf(),
    {
        match after {
            AfterKey::Unlock(target) => self.pin_panel(target, None, facts, out),
            AfterKey::Setup(step) => self.open_setup(step, None, facts, out),
        }
    }

    /// Tells that no key could be chosen.
    fn no_key(&mut self, after: AfterKey, notice: Notice, out: &mut Vec<Effect>)
        ensures
            turn(*final(self), final(out)@) == turn(*old(self), old(out)@).no_key(after@, notice@),
            old(self)@.wf() ==> final(self)@.wf(),
    {
        match after {
            AfterKey::Unlock(target) => self.show(notice, Some(target), out),
            AfterKey::Setup(_) => self.alert(notice, out),
        }
    }

    /// Takes the values of the open form, and starts its operation or reopens it with a note.
    pub fn submit_setup(&mut self, values: Vec<SecretText>, facts: &Facts, out: &mut Vec<Effect>)
        requires
            old(self)@.wf(),
            old(self)@.setup matches Some(step) ==> values@.len() == value_count(step),
            old(self)@.setup == Some(StepM::RemoveChoose) && facts@.vault is Ok ==> !only_label(
                facts@.vault->Ok_0.keys,
                values@[0]@,
            ),
        ensures
            match old(self)@.setup {
                Some(step) => turn(*final(self), final(out)@) == Turn {
                    ui: UiM { setup: None, ..old(self)@ },
                    out: effects(old(out)@).push(EffectM::CloseSetup),
                }.submit(step, secret_texts(values@), facts@),
                None => turn(*final(self), final(out)@) == turn(*old(self), old(out)@),
            },
            final(self)@.wf(),
    {
        let step = match self.setup.take() {
            Some(step) => step,
            None => return,
        };
        say(out, Effect::CloseSetup);
        if let Step::Settings { .. } = &step {
            let draft = plain_values(&values);
            assert(texts(draft@).len() == values@.len());
            let home = match &facts.home {
                Some(home) => Some(home.as_str()),
                None => None,
            };
            match settings_text(&draft, home) {
                Ok(text) => say(out, Effect::WriteConfig { text, draft }),
                Err(notice) => {
                    self.open_setup(Step::Settings { draft: Some(draft) }, Some(notice), facts, out)
                },
            }
            return;
        }
        let vault = match &facts.config {
            Ok(config) => config.vault.clone(),
            Err(_) => return,
        };
        self.submit_values(step, values, vault, facts, out);
    }

    /// Takes the values of a form that works on the vault.
    fn submit_values(
        &mut self,
        step: Step,
        values: Vec<SecretText>,
        vault: String,
        facts: &Facts,
        out: &mut Vec<Effect>,
    )
        requires
            old(self)@.wf(),
            !old(self)@.busy(),
            step_fits(step@),
            !(step@ is Settings),
            values@.len() == value_count(step@),
            facts@.config matches Ok(config) && config.vault == vault@,
            step@ is RemoveChoose && facts@.vault is Ok ==> !only_label(
                facts@.vault->Ok_0.keys,
                values@[0]@,
            ),
        ensures
            turn(*final(self), final(out)@) == turn(*old(self), old(out)@).submit_with(
                step@,
                secret_texts(values@),
                facts@.config->Ok_0,
                facts@,
            ),
            final(self)@.wf(),
    {
        let ghost typed = secret_texts(values@);
        assert(forall|i: int| 0 <= i < values@.len() ==> typed[i] == (#[trigger] values@[i])@);
        match step {
            Step::Create => {
                let label = trim(values[0].expose());
                let database = database_or_any(values[1].expose());
                let pin = trimmed_secret(&values[4]);
                let secret = copied_secret(&values[2]);
                let mut problem = password_notice(values[2].expose(), values[3].expose());
                if problem.is_none() && blank(label.as_str()) {
                    problem = Some(Notice::EnterLabel);
                }
                if problem.is_none() && blank(pin.expose()) {
                    problem = Some(Notice::EnterPin);
                }
                if problem.is_some() {
                    self.open_setup(Step::Create, problem, facts, out);
                    return;
                }
                self.spawn(
                    Next::Report(Notice::Created { vault }),
                    Some(Touch::Twice),
                    Work::Create { label, database, secret, pin },
                    out,
                );
            },
            Step::AddCurrent => {
                let pin = trimmed_secret(&values[0]);
                if blank(pin.expose()) {
                    self.open_setup(Step::AddCurrent, Some(Notice::EnterPin), facts, out);
                    return;
                }
                self.spawn(Next::AskNewKey, Some(Touch::Enrolled), Work::Derive { pin }, out);
            },
            Step::AddNew { current } => {
                let label = trim(values[0].expose());
                let pin = trimmed_secret(&values[1]);
                if blank(label.as_str()) || blank(pin.expose()) {
                    self.open_setup(
                        Step::AddNew { current },
                        Some(Notice::EnterLabelAndPin),
                        facts,
                        out,
                    );
                    return;
                }
                let named = label.clone();
                self.spawn(
                    Next::Report(Notice::Added { label: named }),
                    Some(Touch::NewTwice),
                    Work::AddKey { current, label, pin },
                    out,
                );
            },
            Step::RemoveChoose => {
                let label = values[0].expose().to_owned();
                let vault = match &facts.vault {
                    Ok(vault) => vault,
                    Err(error) => {
                        self.alert(Notice::Error { error: error.clone() }, out);
                        return;
                    },
                };
                match keys_to_touch(vault, label.as_str()) {
                    Ok(left) => {
                        proof {
                            kept_is_empty_for_one_label(vault@.keys, label@);
                            assert(touch_models(left@).len() > 0);
                        }
                        self.key = false;
                        let collected = Vec::new();
                        assert(unlocks(collected@) =~= Seq::empty());
                        self.open_setup(
                            Step::RemoveTouch { label, left, collected },
                            None,
                            facts,
                            out,
                        );
                    },
                    Err(error) => {
                        let error = error.message();
                        self.alert(Notice::Error { error }, out);
                    },
                }
            },
            Step::RemoveTouch { label, left, collected } => {
                let pin = trimmed_secret(&values[0]);
                if blank(pin.expose()) {
                    self.open_setup(
                        Step::RemoveTouch { label, left, collected },
                        Some(Notice::EnterPin),
                        facts,
                        out,
                    );
                    return;
                }
                let mut left = left;
                let ghost all = touch_models(left@);
                assert(all[0] == (left@[0].0@, left@[0].1@));
                let (name, cred_id) = left.remove(0);
                assert(touch_models(left@) =~= all.skip(1));
                self.spawn(
                    Next::Collect { label, left, collected },
                    Some(Touch::Named(name)),
                    Work::DeriveOne { cred_id, pin },
                    out,
                );
            },
            Step::SetPassword => {
                let database = database_or_any(values[0].expose());
                let pin = trimmed_secret(&values[3]);
                let secret = copied_secret(&values[1]);
                let mut problem = password_notice(values[1].expose(), values[2].expose());
                if problem.is_none() && blank(pin.expose()) {
                    problem = Some(Notice::EnterPin);
                }
                if problem.is_some() {
                    self.open_setup(Step::SetPassword, problem, facts, out);
                    return;
                }
                let named = database.clone();
                self.spawn(
                    Next::Report(Notice::Stored { database: named }),
                    Some(Touch::Once),
                    Work::SetSecret { database, secret, pin },
                    out,
                );
            },
            Step::Settings { .. } => {},
        }
    }

    /// Takes the end of the running job, and goes on.
    pub fn job_done(
        &mut self,
        result: Result<Outcome, String>,
        facts: &Facts,
        out: &mut Vec<Effect>,
    )
        requires
            old(self)@.wf(),
        ensures
            match old(self)@.job {
                Some(job) => turn(*final(self), final(out)@) == Turn {
                    ui: UiM { job: None, ..old(self)@ },
                    out: if job.touch {
                        effects(old(out)@).push(EffectM::CloseTouch)
                    } else {
                        effects(old(out)@)
                    },
                }.after_job(job.next, ended(result), facts@),
                None => turn(*final(self), final(out)@) == turn(*old(self), old(out)@),
            },
            final(self)@.wf(),
    {
        match self.job.take() {
            Some(job) => {
                if job.touch {
                    say(out, Effect::CloseTouch);
                }
                self.after_job(job.next, result, facts, out);
            },
            None => {},
        }
    }

    /// Goes on after a job.
    fn after_job(
        &mut self,
        next: Next,
        result: Result<Outcome, String>,
        facts: &Facts,
        out: &mut Vec<Effect>,
    )
        requires
            old(self)@.wf(),
            !old(self)@.busy(),
            next_fits(next@),
        ensures
            turn(*final(self), final(out)@) == turn(*old(self), old(out)@).after_job(
                next@,
                ended(result),
                facts@,
            ),
            final(self)@.wf(),
    {
        let outcome = match result {
            Ok(outcome) => outcome,
            Err(error) => {
                match next {
                    Next::Devices(after) => self.no_key(after, Notice::Error { error }, out),
                    Next::Chosen(after) => self.no_key(after, Notice::Error { error }, out),
                    _ => self.alert(Notice::Error { error }, out),
                }
                return;
            },
        };
        match (next, outcome) {
            (Next::Devices(after), Outcome::Devices(count)) => {
                if count > 1 {
                    self.spawn(Next::Chosen(after), Some(Touch::Choose), Work::Select, out);
                } else if count == 1 {
                    self.key = true;
                    self.continue_with_key(after, facts, out);
                } else {
                    self.no_key(after, Notice::Fido { error: FidoError::NoDevice }, out);
                }
            },
            (Next::Chosen(after), Outcome::Key) => {
                self.key = true;
                self.continue_with_key(after, facts, out);
            },
            (Next::Report(notice), _) => {
                say(out, Effect::Recheck);
                self.alert(notice, out);
            },
            (Next::AskNewKey, Outcome::Unlock(current)) => {
                // The new key is a different key, so it is chosen again.
                self.key = false;
                self.open_setup(Step::AddNew { current }, None, facts, out);
            },
            (Next::Collect { label, left, collected }, Outcome::Unlock(unlock)) => {
                let mut collected = collected;
                let ghost had = unlocks(collected@);
                collected.push(unlock);
                assert(unlocks(collected@) =~= had.push(unlock@));
                if left.len() > 0 {
                    // Each remaining key is a different key, so it is chosen again.
                    self.key = false;
                    self.open_setup(
                        Step::RemoveTouch { label, left, collected },
                        None,
                        facts,
                        out,
                    );
                    return;
                }
                if facts.config.is_err() {
                    return;
                }
                let named = label.clone();
                self.spawn(
                    Next::Report(Notice::Removed { label: named }),
                    Some(Touch::Saving),
                    Work::RemoveKey { label, remaining: collected },
                    out,
                );
            },
            _ => self.alert(Notice::Unexpected, out),
        }
    }

    /// Takes the end of the running unlock, and goes on.
    pub fn unlock_done(
        &mut self,
        result: Result<SecretBytes, FidoError>,
        facts: &Facts,
        out: &mut Vec<Effect>,
    )
        requires
            old(self)@.wf(),
            facts.now <= LATEST,
        ensures
            match old(self)@.pending {
                Some(target) => turn(*final(self), final(out)@) == Turn {
                    ui: UiM { pending: None, ..old(self)@ },
                    out: effects(old(out)@).push(EffectM::CloseTouch),
                }.finish(target, opened(result), facts@),
                None => turn(*final(self), final(out)@) == turn(*old(self), old(out)@),
            },
            final(self)@.wf(),
    {
        let target = match self.pending.take() {
            Some(target) => target,
            None => return,
        };
        say(out, Effect::CloseTouch);
        self.finish(target, result, facts, out);
    }

    /// Goes on after the worker opened the password, or failed to.
    fn finish(
        &mut self,
        target: Target,
        result: Result<SecretBytes, FidoError>,
        facts: &Facts,
        out: &mut Vec<Effect>,
    )
        requires
            old(self)@.wf(),
            facts.now <= LATEST,
        ensures
            turn(*final(self), final(out)@) == turn(*old(self), old(out)@).finish(
                target@,
                opened(result),
                facts@,
            ),
            final(self)@.wf(),
    {
        let secret = match result {
            Ok(secret) => secret,
            Err(error) => {
                match &error {
                    FidoError::WrongPin { .. } => {
                        self.pin_panel(target, Some(Notice::Fido { error }), facts, out);
                    },
                    FidoError::NoDevice => self.show(Notice::Fido { error }, Some(target), out),
                    FidoError::Timeout => self.show(Notice::Fido { error }, Some(target), out),
                    _ => {
                        self.alert(Notice::Fido { error }, out);
                        self.done(&target, facts.now, out);
                    },
                }
                return;
            },
        };
        let text = match secret.to_text() {
            Some(text) => text,
            None => {
                self.alert(Notice::NotUtf8, out);
                self.done(&target, facts.now, out);
                return;
            },
        };
        match target {
            Target::Copy(_) => say(out, Effect::Copy { text }),
            Target::Fill => {
                let press = match self.config() {
                    Some(config) => config.autofill == Autofill::FillAndUnlock,
                    None => false,
                };
                say(out, Effect::Fill { text, press });
            },
        }
    }

    /// The config, if it and the vault loaded at the last check.
    pub fn config(&self) -> (config: Option<&Config>)
        ensures
            match config {
                Some(config) => self@.config() == Some(config@),
                None => self@.config() is None,
            },
    {
        match &self.health {
            Some(health) => match &health.result {
                Ok(config) => Some(config),
                Err(_) => None,
            },
            None => None,
        }
    }
}

/// The password that the worker opened, or why it failed.
pub open spec fn opened(result: Result<SecretBytes, FidoError>) -> Result<Seq<u8>, FidoFault> {
    match result {
        Ok(secret) => Ok(secret@),
        Err(error) => Err(error@),
    }
}

/// What an unlock that lost its worker says.
pub const UNLOCK_WORKER_STOPPED: &'static str = "The unlock worker stopped";

/// What a job that lost its worker says.
pub const WORKER_STOPPED: &'static str = "The worker stopped";

/// What work that needs a key says without one.
pub const NO_KEY_CHOSEN: &'static str = "No security key was chosen";

impl Turn {
    /// Takes the PIN: runs the unlock, or ends the attempt.
    pub open spec fn take_pin(self, asking: AskingM, pin: Seq<char>, facts: FactsM) -> Turn {
        if !facts.loads() || pin.len() == 0 || !self.ui.key {
            self.done(asking.target, facts.now)
        } else {
            let run = self.say(
                EffectM::Run(WorkM::Unlock { database: asking.database, pin }),
            ).say(EffectM::ShowTouch(TouchM::Now));
            Turn { ui: UiM { pending: Some(asking.target), ..run.ui }, ..run }
        }
    }

    /// The state without the PIN panel.
    pub open spec fn close_asking(self) -> Turn {
        Turn { ui: UiM { asking: None, ..self.ui }, ..self }.say(EffectM::CloseAsking)
    }
}

impl Ui {
    /// Takes the PIN from the PIN panel.
    pub fn pin_submit(&mut self, pin: SecretText, facts: &Facts, out: &mut Vec<Effect>)
        requires
            old(self)@.wf(),
            facts.now <= LATEST,
        ensures
            match old(self)@.asking {
                Some(asking) => turn(*final(self), final(out)@) == turn(
                    *old(self),
                    old(out)@,
                ).close_asking().take_pin(asking, pin@, facts@),
                // Return fires both the field's action and the default button, so the second call
                // finds nothing.
                None => turn(*final(self), final(out)@) == turn(*old(self), old(out)@),
            },
            final(self)@.wf(),
    {
        let asking = match self.asking.take() {
            Some(asking) => asking,
            None => return,
        };
        say(out, Effect::CloseAsking);
        let loads = facts.config.is_ok() && facts.vault_exists && facts.vault.is_ok();
        if !loads || blank(pin.expose()) || !self.key {
            self.done(&asking.target, facts.now, out);
            return;
        }
        say(out, Effect::Run(Work::Unlock { database: asking.database, pin }));
        say(out, Effect::ShowTouch(Touch::Now));
        self.pending = Some(asking.target);
    }

    /// Cancels the PIN panel.
    pub fn pin_cancel(&mut self, now: u64, out: &mut Vec<Effect>)
        requires
            old(self)@.wf(),
            now <= LATEST,
        ensures
            match old(self)@.asking {
                Some(asking) => turn(*final(self), final(out)@) == turn(
                    *old(self),
                    old(out)@,
                ).close_asking().done(asking.target, now),
                None => turn(*final(self), final(out)@) == turn(*old(self), old(out)@),
            },
            final(self)@.wf(),
    {
        match self.asking.take() {
            Some(asking) => {
                say(out, Effect::CloseAsking);
                self.done(&asking.target, now, out);
            },
            None => {},
        }
    }

    /// Dismisses the message panel. An attempt that it could retry ends.
    pub fn message_dismiss(&mut self, now: u64, out: &mut Vec<Effect>)
        requires
            now <= LATEST,
        ensures
            turn(*final(self), final(out)@) == (match old(self)@.message {
                Some(Some(target)) => turn(*old(self), old(out)@).close_message().done(target, now),
                _ => turn(*old(self), old(out)@).close_message(),
            }),
            old(self)@.wf() ==> final(self)@.wf(),
    {
        match self.close_message(out) {
            Some(target) => self.done(&target, now, out),
            None => {},
        }
    }

    /// Retries the attempt of the message panel.
    pub fn message_retry(&mut self, facts: &Facts, out: &mut Vec<Effect>)
        requires
            facts.now <= LATEST,
        ensures
            turn(*final(self), final(out)@) == (match old(self)@.message {
                Some(Some(target)) => turn(*old(self), old(out)@).close_message().start(
                    target,
                    facts@,
                ),
                _ => turn(*old(self), old(out)@).close_message(),
            }),
            old(self)@.wf() ==> final(self)@.wf(),
    {
        match self.close_message(out) {
            Some(target) => self.start(target, facts, out),
            None => {},
        }
    }

    /// Starts a flow from the menu: setting up, adding a key, removing a key, or setting a password.
    pub fn open_flow(&mut self, step: Step, facts: &Facts, out: &mut Vec<Effect>)
        requires
            step_fits(step@),
        ensures
            turn(*final(self), final(out)@) == turn(
                *old(self),
                old(out)@,
            ).begin_flow().open_setup(step@, None, facts@),
            old(self)@.wf() ==> final(self)@.wf(),
    {
        self.key = false;
        self.open_setup(step, None, facts, out);
    }

    /// Opens the settings from the menu.
    pub fn open_settings(&mut self, facts: &Facts, out: &mut Vec<Effect>)
        ensures
            turn(*final(self), final(out)@) == turn(*old(self), old(out)@).open_setup(
                StepM::Settings { draft: None },
                None,
                facts@,
            ),
            old(self)@.wf() ==> final(self)@.wf(),
    {
        self.open_setup(Step::Settings { draft: None }, None, facts, out);
    }

    /// Goes on after the config file was written, or was not. A failure reopens the draft.
    pub fn settings_written(
        &mut self,
        draft: Vec<String>,
        result: Result<(), String>,
        facts: &Facts,
        out: &mut Vec<Effect>,
    )
        requires
            draft@.len() >= 4,
        ensures
            turn(*final(self), final(out)@) == (match result {
                Err(error) => turn(*old(self), old(out)@).open_setup(
                    StepM::Settings { draft: Some(texts(draft@)) },
                    Some(NoticeM::Error { error: error@ }),
                    facts@,
                ),
                Ok(_) => turn(*old(self), old(out)@).say(EffectM::Recheck).alert(NoticeM::Saved),
            }),
            old(self)@.wf() ==> final(self)@.wf(),
    {
        match result {
            Err(error) => self.open_setup(
                Step::Settings { draft: Some(draft) },
                Some(Notice::Error { error }),
                facts,
                out,
            ),
            Ok(()) => {
                say(out, Effect::Recheck);
                self.alert(Notice::Saved, out);
            },
        }
    }

    /// Cancels the open form.
    pub fn setup_cancel(&mut self, out: &mut Vec<Effect>)
        ensures
            turn(*final(self), final(out)@) == (if old(self)@.setup is Some {
                Turn { ui: UiM { setup: None, ..old(self)@ }, out: effects(old(out)@) }.say(
                    EffectM::CloseSetup,
                )
            } else {
                turn(*old(self), old(out)@)
            }),
            old(self)@.wf() ==> final(self)@.wf(),
    {
        if self.setup.take().is_some() {
            say(out, Effect::CloseSetup);
        }
    }

    /// Shows the panel about the app.
    pub fn show_about(&mut self, out: &mut Vec<Effect>)
        ensures
            ({
                let closed = turn(*old(self), old(out)@).close_message();
                turn(*final(self), final(out)@) == Turn {
                    ui: UiM { message: Some(None), ..closed.ui },
                    ..closed
                }.say(EffectM::ShowAbout)
            }),
            old(self)@.wf() ==> final(self)@.wf(),
    {
        self.close_message(out);
        say(out, Effect::ShowAbout);
        self.message = Some(None);
    }

    /// Closes the panel about the app, on the way to the source code.
    pub fn close_about(&mut self, out: &mut Vec<Effect>)
        ensures
            turn(*final(self), final(out)@) == turn(*old(self), old(out)@).close_message(),
            old(self)@.wf() ==> final(self)@.wf(),
    {
        self.close_message(out);
    }

    /// Copies a password from the menu, if the config allows it.
    pub fn copy_password(&mut self, database: String, facts: &Facts, out: &mut Vec<Effect>)
        requires
            facts.now <= LATEST,
        ensures
            turn(*final(self), final(out)@) == (if old(self)@.config() matches Some(config)
                && config.copy_password {
                turn(*old(self), old(out)@).start(TargetM::Copy(database@), facts@)
            } else {
                turn(*old(self), old(out)@)
            }),
            old(self)@.wf() ==> final(self)@.wf(),
    {
        let allowed = match self.config() {
            Some(config) => config.copy_password,
            None => false,
        };
        if allowed {
            self.start(Target::Copy(database), facts, out);
        }
    }

    /// Notes that the password is on the clipboard, and ends the attempt.
    pub fn copied(&mut self, change_count: i64, now: u64)
        requires
            old(self)@.wf(),
            now <= LATEST,
        ensures
            final(self)@ == (UiM {
                clear: Some(
                    Clear {
                        due: (now + 1000 * (match old(self)@.config() {
                            Some(config) => config.clear_seconds as int,
                            None => 20,
                        })) as u64,
                        change_count,
                    },
                ),
                suppress_until: Some((now + SUPPRESS) as u64),
                ..old(self)@
            }),
            final(self)@.wf(),
    {
        let seconds: u64 = match self.config() {
            Some(config) => config.clear_seconds,
            None => 20,
        };
        self.clear = Some(Clear { due: now + 1000 * seconds, change_count });
        self.suppress_until = Some(now + SUPPRESS);
    }

    /// Tells if autofill failed, and ends the attempt.
    pub fn filled(&mut self, error: Option<String>, now: u64, out: &mut Vec<Effect>)
        requires
            now <= LATEST,
        ensures
            turn(*final(self), final(out)@) == (match error {
                Some(error) => turn(*old(self), old(out)@).alert(
                    NoticeM::AutofillFailed { error: error@ },
                ),
                None => turn(*old(self), old(out)@),
            }).done(TargetM::Fill, now),
            old(self)@.wf() ==> final(self)@.wf(),
    {
        if let Some(error) = error {
            self.alert(Notice::AutofillFailed { error }, out);
        }
        self.done(&Target::Fill, now, out);
    }

    /// True when the last check of the config and the vault no longer holds, or with `force`.
    pub fn is_stale(&self, force: bool, now: u64) -> (yes: bool)
        ensures
            yes == (match self@.health {
                Some(health) => force || now - health.at >= RECHECK,
                None => true,
            }),
    {
        match &self.health {
            Some(health) => force || (now >= health.at && now - health.at >= RECHECK),
            None => true,
        }
    }

    /// Notes a check of the config and the vault, and shows in the menu bar how it went.
    pub fn set_health(&mut self, result: Result<Config, String>, now: u64, out: &mut Vec<Effect>)
        requires
            result matches Ok(config) ==> config.clear_seconds <= MAX_CLEAR_SECONDS,
        ensures
            turn(*final(self), final(out)@) == (Turn {
                ui: UiM {
                    health: Some(HealthM { at: now, config: loaded_config(result) }),
                    ..old(self)@
                },
                out: effects(old(out)@).push(EffectM::Icon { healthy: result is Ok }),
            }),
            old(self)@.wf() ==> final(self)@.wf(),
    {
        let healthy = result.is_ok();
        self.health = Some(Health { at: now, result });
        say(out, Effect::Icon { healthy });
    }

    /// The last check of the config and the vault.
    pub fn health(&self) -> (health: Option<&Result<Config, String>>)
        ensures
            match self@.health {
                Some(check) => super::menu::health_of(health) == Some(check.config),
                None => health is None,
            },
    {
        match &self.health {
            Some(health) => Some(&health.result),
            None => None,
        }
    }

    /// True when KeePassXC is to be watched for prompts.
    pub fn watches(&self) -> (yes: bool)
        ensures
            yes == (self@.config() matches Some(config) && config.autofill != Autofill::Off),
    {
        match self.config() {
            Some(config) => config.autofill != Autofill::Off,
            None => false,
        }
    }

    /// True when a prompt that just gained focus starts an unlock. A prompt right after an attempt is
    /// the refocus of the same one.
    pub fn prompts(&self, started: bool, now: u64) -> (yes: bool)
        ensures
            yes == self@.prompts(started, now),
    {
        let suppressed = match self.suppress_until {
            Some(until) => now < until,
            None => false,
        };
        started && !suppressed && self.pending.is_none() && self.asking.is_none()
    }

    /// True when a copied password is due to be cleared, or with `quit`.
    pub fn clear_due(&self, quit: bool, now: u64) -> (yes: bool)
        ensures
            yes == (self@.clear matches Some(clear) && (quit || now >= clear.due)),
    {
        match self.clear {
            Some(clear) => quit || now >= clear.due,
            None => false,
        }
    }

    /// Forgets a copied password. Returns true when it is still on the clipboard, so that the
    /// clipboard must be cleared. It is left alone when something newer replaced the password.
    pub fn cleared(&mut self, change_count: i64) -> (clear: bool)
        ensures
            clear == (old(self)@.clear matches Some(clear) && clear.change_count == change_count),
            final(self)@ == (UiM { clear: None, ..old(self)@ }),
            old(self)@.wf() ==> final(self)@.wf(),
    {
        match self.clear.take() {
            Some(clear) => clear.change_count == change_count,
            None => false,
        }
    }
}

/// The stages of a tick, in order.
#[derive(Debug, Clone, Copy, PartialEq, Eq, Structural)]
pub enum Stage {
    Unlock,
    Job,
    Clipboard,
    Health,
    Watch,
}

/// What a stage of a tick asks for.
#[derive(Debug, Clone, Copy, PartialEq, Eq, Structural)]
pub enum TickAction {
    /// See if the unlock ended.
    TakeUnlock,
    /// See if the job ended.
    TakeJob,
    /// Clear the copied password if it is still on the clipboard.
    ClearClipboard,
    /// Check the config and the vault.
    Check,
    /// Look at KeePassXC's focused element.
    Watch,
}

/// The stage after a stage.
pub open spec fn stage_after(stage: Stage) -> Option<Stage> {
    match stage {
        Stage::Unlock => Some(Stage::Job),
        Stage::Job => Some(Stage::Clipboard),
        Stage::Clipboard => Some(Stage::Health),
        Stage::Health => Some(Stage::Watch),
        Stage::Watch => None,
    }
}

impl Ui {
    /// What a stage of a tick asks for, and the stage after it. Files are read and KeePassXC is asked
    /// only when that is due.
    pub fn on_tick(&self, stage: Stage, now: u64) -> (next: (Option<TickAction>, Option<Stage>))
        ensures
            next.1 == stage_after(stage),
            next.0 == self@.tick_action(stage, now),
    {
        match stage {
            Stage::Unlock => {
                let action = if self.pending.is_some() {
                    Some(TickAction::TakeUnlock)
                } else {
                    None
                };
                (action, Some(Stage::Job))
            },
            Stage::Job => {
                let action = if self.job.is_some() {
                    Some(TickAction::TakeJob)
                } else {
                    None
                };
                (action, Some(Stage::Clipboard))
            },
            Stage::Clipboard => {
                let action = if self.clear_due(false, now) {
                    Some(TickAction::ClearClipboard)
                } else {
                    None
                };
                (action, Some(Stage::Health))
            },
            Stage::Health => {
                let action = if self.is_stale(false, now) {
                    Some(TickAction::Check)
                } else {
                    None
                };
                (action, Some(Stage::Watch))
            },
            Stage::Watch => {
                let action = if self.watches() {
                    Some(TickAction::Watch)
                } else {
                    None
                };
                (action, None)
            },
        }
    }
}

impl UiM {
    /// What a stage of a tick asks for.
    pub open spec fn tick_action(self, stage: Stage, now: u64) -> Option<TickAction> {
        match stage {
            Stage::Unlock => if self.pending is Some {
                Some(TickAction::TakeUnlock)
            } else {
                None
            },
            Stage::Job => if self.job is Some {
                Some(TickAction::TakeJob)
            } else {
                None
            },
            Stage::Clipboard => if self.clear matches Some(clear) && now >= clear.due {
                Some(TickAction::ClearClipboard)
            } else {
                None
            },
            Stage::Health => if self.health matches Some(health) && now - health.at < RECHECK {
                None
            } else {
                Some(TickAction::Check)
            },
            Stage::Watch => if self.config() matches Some(config) && config.autofill
                != Autofill::Off {
                Some(TickAction::Watch)
            } else {
                None
            },
        }
    }

    /// A prompt that just gained focus starts an unlock.
    pub open spec fn prompts(self, started: bool, now: u64) -> bool {
        &&& started
        &&& !(self.suppress_until matches Some(until) && now < until)
        &&& self.pending is None
        &&& self.asking is None
    }
}

/// Once an attempt ended, no prompt starts a new one inside the suppression window.
pub proof fn an_ended_attempt_is_not_reopened(turn: Turn, target: TargetM, now: u64, later: u64)
    requires
        now <= LATEST,
        now <= later < now + SUPPRESS,
    ensures
        !turn.done(target, now).ui.prompts(true, later),
{
}

/// While a flow is under way, no other one starts.
pub proof fn a_flow_blocks_every_other(
    turn: Turn,
    target: TargetM,
    step: StepM,
    note: Option<NoticeM>,
    facts: FactsM,
)
    requires
        turn.ui.busy(),
    ensures
        turn.start(target, facts) == turn,
        turn.open_setup(step, note, facts) == turn,
        turn.pin_panel(target, note, facts) == turn,
{
}

/// A form that asks for a PIN shows only once the flow's key was chosen.
pub proof fn a_pin_is_asked_after_the_key_is_chosen(
    turn: Turn,
    step: StepM,
    note: Option<NoticeM>,
    facts: FactsM,
)
    requires
        asks_for_pin(step),
        turn.ui.setup is None,
        turn.open_setup(step, note, facts).ui.setup is Some,
    ensures
        turn.ui.key,
{
}

/// No key is touched for a database without a password: starting such an attempt runs nothing.
pub proof fn no_touch_without_a_password(turn: Turn, target: TargetM, facts: FactsM)
    requires
        !turn.ui.busy(),
        facts.loads() ==> facts.vault->Ok_0.secret_for(database_for(target, facts)) is None,
    ensures
        !turn.start(target, facts).ui.busy(),
{
}

/// A wrong PIN reopens the PIN panel for the same attempt, which says how many tries are left.
pub proof fn a_wrong_pin_asks_again(
    turn: Turn,
    target: TargetM,
    retries: Option<i32>,
    facts: FactsM,
)
    requires
        !turn.ui.busy(),
    ensures
        ({
            let after = turn.finish(target, Err(FidoFault::WrongPin { retries }), facts);
            after.ui.asking == Some(AskingM { target, database: database_for(target, facts) })
                && after.out.last() == (EffectM::ShowPin {
                note: Some(NoticeM::Fido { error: FidoFault::WrongPin { retries } }),
                database: database_for(target, facts),
            })
        }),
{
}

/// A password that was stored as typed comes back as typed.
pub proof fn a_typed_password_comes_back(
    turn: Turn,
    target: TargetM,
    typed: Seq<char>,
    facts: FactsM,
)
    ensures
        ({
            let after = turn.finish(target, Ok(encode_utf8(typed)), facts);
            after.out.last() == (match target {
                TargetM::Copy(_) => EffectM::Copy { text: typed },
                TargetM::Fill => EffectM::Fill {
                    text: typed,
                    press: turn.ui.config() matches Some(config) && config.autofill
                        == Autofill::FillAndUnlock,
                },
            })
        }),
{
    encode_utf8_valid_utf8(typed);
    encode_utf8_decode_utf8(typed);
}

/// Removing a key asks each remaining key for a touch, one after the other, and only then starts the
/// removal with every output that was collected.
pub proof fn every_remaining_key_is_touched(
    turn: Turn,
    label: Seq<char>,
    left: Seq<(Seq<char>, Seq<u8>)>,
    collected: Seq<UnlockModel>,
    unlock: UnlockModel,
    facts: FactsM,
)
    requires
        !turn.ui.busy(),
        facts.config is Ok,
    ensures
        ({
            let after = turn.after_job(
                NextM::Collect { label, left, collected },
                Ok(OutcomeM::Unlock(unlock)),
                facts,
            );
            if left.len() > 0 {
                after.ui.job matches Some(job) && job.next == NextM::Devices(
                    AfterKeyM::Setup(
                        StepM::RemoveTouch { label, left, collected: collected.push(unlock) },
                    ),
                )
            } else {
                after.out.contains(
                    EffectM::Run(
                        WorkM::RemoveKey { label, remaining: collected.push(unlock) },
                    ),
                )
            }
        }),
{
    let after = turn.after_job(
        NextM::Collect { label, left, collected },
        Ok(OutcomeM::Unlock(unlock)),
        facts,
    );
    if left.len() == 0 {
        let run = EffectM::Run(WorkM::RemoveKey { label, remaining: collected.push(unlock) });
        assert(after.out[turn.out.len() as int] == run);
    }
}

} // verus!
