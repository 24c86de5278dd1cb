//! What KeePassXC shows, and what follows from it.

use vstd::prelude::*;
use vstd::string::*;

use crate::error::{opt_text, quoted, quoted_text};
use crate::path::{a_file_is_named_by_its_last_component, file_name, name_of};
use crate::text::{
    a_part_stands_between, has_part, integer, integer_text, starts_with, text_eq, texts,
};

verus! {

/// KeePassXC's bundle ID.
pub const BUNDLE_ID: &'static str = "org.keepassxc.keepassxc";

/// KeePassXC's Developer ID signature. Any app can claim KeePassXC's bundle ID, so the password goes
/// only to a process whose running code satisfies this requirement.
pub const KEEPASSXC_REQUIREMENT: &'static str =
    "identifier \"org.keepassxc.keepassxc\" and anchor apple generic and certificate leaf[subject.OU] = \"G2S7P7J672\"";

/// The first bytes of a KeePass database.
pub const KDBX: [u8; 4] = [0x03, 0xD9, 0xA2, 0x9A];

/// A text on screen, with the first four bytes of the file that it names, if it names one.
#[derive(Debug)]
pub struct Shown {
    pub text: String,
    pub head: Option<[u8; 4]>,
}

/// A [`Shown`] as plain sequences.
pub struct ShownModel {
    pub text: Seq<char>,
    pub head: Option<Seq<u8>>,
}

impl View for Shown {
    type V = ShownModel;

    open spec fn view(&self) -> ShownModel {
        ShownModel {
            text: self.text@,
            head: match self.head {
                Some(head) => Some(head@),
                None => None,
            },
        }
    }
}

/// Texts on screen as plain sequences.
pub open spec fn shown_models(shown: Seq<Shown>) -> Seq<ShownModel> {
    shown.map_values(|s: Shown| s@)
}

/// An absolute path to a file that starts with the KDBX signature. Any other text, such as an entry
/// titled with a path, does not count.
pub open spec fn is_database(shown: ShownModel) -> bool {
    &&& shown.text.len() > 0
    &&& shown.text[0] == '/'
    &&& shown.head == Some(KDBX@)
}

/// The first text that is the path of a KeePass database.
pub open spec fn first_database(shown: Seq<ShownModel>) -> Option<Seq<char>>
    decreases shown.len(),
{
    if shown.len() == 0 {
        None
    } else if is_database(shown[0]) {
        Some(shown[0].text)
    } else {
        first_database(shown.skip(1))
    }
}

/// The file name of the first text that is the path of a KeePass database.
pub open spec fn database_of(shown: Seq<ShownModel>) -> Option<Seq<char>> {
    match first_database(shown) {
        Some(path) => name_of(path),
        None => None,
    }
}

/// True for a text whose file, if there is one, must be looked into.
pub fn may_name_a_file(text: &str) -> (yes: bool)
    ensures
        yes == (text@.len() > 0 && text@[0] == '/'),
{
    let slash = starts_with(text, "/");
    proof {
        reveal_strlit("/");
        if text@.len() > 0 {
            assert("/"@[0] == '/');
            assert(text@.take(1) =~= seq![text@[0]]);
            assert("/"@ =~= seq!['/']);
        }
    }
    slash
}

/// True for an absolute path to a file that starts with the KDBX signature.
fn is_database_file(shown: &Shown) -> (yes: bool)
    ensures
        yes == is_database(shown@),
{
    match shown.head {
        Some(head) => {
            let same = head[0] == KDBX[0] && head[1] == KDBX[1] && head[2] == KDBX[2] && head[3]
                == KDBX[3];
            assert(same == (head@ == KDBX@)) by {
                if same {
                    assert(head@ =~= KDBX@);
                }
            }
            same && may_name_a_file(shown.text.as_str())
        },
        None => false,
    }
}

/// The file name of the first text that is the path of a KeePass database, which is what the unlock
/// widget's path label shows in both the locked main window and the unlock dialog.
pub fn database_from_texts(shown: &[Shown]) -> (name: Option<String>)
    ensures
        name is Some <==> database_of(shown_models(shown@)) is Some,
        name matches Some(n) ==> database_of(shown_models(shown@)) == Some(n@),
{
    let ghost all = shown_models(shown@);
    assert(all.skip(0) =~= all);
    for i in 0..shown.len()
        invariant
            all == shown_models(shown@),
            first_database(all) == first_database(all.skip(i as int)),
    {
        assert(all.skip(i as int)[0] == shown@[i as int]@);
        if is_database_file(&shown[i]) {
            return file_name(shown[i].text.as_str());
        }
        assert(all.skip(i as int).skip(1) =~= all.skip(i + 1));
    }
    None
}

/// What decides whether KeePassXC asks for the database password.
#[derive(Debug)]
pub struct Focus<'a> {
    pub frontmost: bool,
    /// The focused element's role.
    pub role: &'a str,
    /// Every static text in the focused window.
    pub window_texts: &'a [Shown],
}

/// KeePassXC asks for the database password.
pub open spec fn asks(frontmost: bool, role: Seq<char>, shown: Seq<ShownModel>) -> bool {
    frontmost && role == "AXTextField"@ && database_of(shown) is Some
}

/// True when KeePassXC asks for the database password. Only the unlock screen, in the main window or
/// the unlock dialog, shows the database's absolute path as text. A path reads the same in every UI
/// language, unlike labels and titles.
pub fn is_password_prompt(focus: &Focus) -> (yes: bool)
    ensures
        yes == asks(focus.frontmost, focus.role@, shown_models(focus.window_texts@)),
{
    focus.frontmost && text_eq(focus.role, "AXTextField") && database_from_texts(
        focus.window_texts,
    ).is_some()
}

/// True for a focused element whose window's texts matter.
pub fn reads_texts(role: &str) -> (yes: bool)
    ensures
        yes == (role@ == "AXTextField"@),
{
    text_eq(role, "AXTextField")
}

/// How an unlock attempt ended.
#[derive(Debug, PartialEq, Eq)]
pub enum Verdict {
    Unlocked,
    /// The unlock screen stayed, with this new message.
    Rejected(Option<String>),
}

/// A [`Verdict`] with its text as characters.
pub enum VerdictModel {
    Unlocked,
    Rejected(Option<Seq<char>>),
}

impl View for Verdict {
    type V = VerdictModel;

    open spec fn view(&self) -> VerdictModel {
        match *self {
            Verdict::Unlocked => VerdictModel::Unlocked,
            Verdict::Rejected(Some(message)) => VerdictModel::Rejected(Some(message@)),
            Verdict::Rejected(None) => VerdictModel::Rejected(None),
        }
    }
}

/// One of the texts reads `text`.
pub open spec fn shows(shown: Seq<ShownModel>, text: Seq<char>) -> bool {
    exists|i: int| 0 <= i < shown.len() && (#[trigger] shown[i]).text == text
}

/// The first text that is new and not blank.
pub open spec fn new_message(before: Seq<ShownModel>, after: Seq<ShownModel>) -> Option<Seq<char>>
    decreases after.len(),
{
    if after.len() == 0 {
        None
    } else if after[0].text.len() > 0 && !shows(before, after[0].text) {
        Some(after[0].text)
    } else {
        new_message(before, after.skip(1))
    }
}

/// How an unlock attempt ended, if it did.
pub open spec fn judged(
    database: Seq<char>,
    before: Seq<ShownModel>,
    after: Seq<ShownModel>,
    enabled: bool,
    settled: bool,
) -> Option<VerdictModel> {
    if database_of(after) != Some(database) {
        Some(VerdictModel::Unlocked)
    } else if !enabled {
        None
    } else if new_message(before, after) is Some || settled {
        Some(VerdictModel::Rejected(new_message(before, after)))
    } else {
        None
    }
}

/// True when one of the texts reads `text`.
fn is_shown(shown: &[Shown], text: &str) -> (yes: bool)
    ensures
        yes == shows(shown_models(shown@), text@),
{
    let ghost all = shown_models(shown@);
    for i in 0..shown.len()
        invariant
            all == shown_models(shown@),
            forall|j: int| 0 <= j < i ==> (#[trigger] all[j]).text != text@,
    {
        if text_eq(shown[i].text.as_str(), text) {
            assert(all[i as int].text == text@);
            return true;
        }
    }
    false
}

/// Judges an unlock attempt on `database` by the texts before the press and the texts now. The unlock
/// screen gone, or showing another database, means that it unlocked. While the screen is disabled the
/// attempt still runs. A new message, or a screen that has settled, means that it was rejected.
pub fn judge(
    database: &str,
    before: &[Shown],
    after: &[Shown],
    enabled: bool,
    settled: bool,
) -> (verdict: Option<Verdict>)
    ensures
        verdict is Some <==> judged(
            database@,
            shown_models(before@),
            shown_models(after@),
            enabled,
            settled,
        ) is Some,
        verdict matches Some(v) ==> judged(
            database@,
            shown_models(before@),
            shown_models(after@),
            enabled,
            settled,
        ) == Some(v@),
{
    let same = match database_from_texts(after) {
        Some(name) => text_eq(name.as_str(), database),
        None => false,
    };
    if !same {
        return Some(Verdict::Unlocked);
    }
    if !enabled {
        return None;
    }
    let ghost old_texts = shown_models(before@);
    let ghost all = shown_models(after@);
    assert(all.skip(0) =~= all);
    for i in 0..after.len()
        invariant
            old_texts == shown_models(before@),
            all == shown_models(after@),
            database_of(all) == Some(database@),
            enabled,
            new_message(old_texts, all) == new_message(old_texts, all.skip(i as int)),
    {
        assert(all.skip(i as int)[0] == after@[i as int]@);
        let text = after[i].text.as_str();
        let blank = text_eq(text, "");
        proof {
            reveal_strlit("");
            assert(blank == (text@.len() == 0)) by {
                if text@.len() == 0 {
                    assert(text@ =~= ""@);
                }
            }
        }
        if !blank && !is_shown(before, text) {
            return Some(Verdict::Rejected(Some(text.to_owned())));
        }
        assert(all.skip(i as int).skip(1) =~= all.skip(i + 1));
    }
    if settled {
        Some(Verdict::Rejected(None))
    } else {
        None
    }
}

/// What identifies a focus: the process, its window's title, and the focused field's description.
#[derive(Debug)]
pub struct FocusKey {
    pub pid: i32,
    pub title: String,
    pub description: String,
}

/// The verdict for one focus. Reading a window's texts walks its elements, so it is redone only when
/// the process, window title, or focused field changes, as happens on lock, unlock, or a dialog.
#[derive(Debug)]
pub struct Seen {
    key: FocusKey,
    prompt: bool,
    database: Option<String>,
}

/// A password prompt: its process, and the database it asks for.
#[derive(Debug)]
pub struct Prompt {
    pub pid: i32,
    pub database: Option<String>,
}

/// A [`FocusKey`] as characters.
pub struct KeyText {
    pub pid: i32,
    pub title: Seq<char>,
    pub description: Seq<char>,
}

impl View for FocusKey {
    type V = KeyText;

    open spec fn view(&self) -> KeyText {
        KeyText { pid: self.pid, title: self.title@, description: self.description@ }
    }
}

/// The last focus that was looked at.
pub struct SeenModel {
    pub key: KeyText,
    pub prompt: bool,
    pub database: Option<Seq<char>>,
}

/// A [`Prompt`] as characters.
pub struct PromptModel {
    pub pid: i32,
    pub database: Option<Seq<char>>,
}

impl View for Prompt {
    type V = PromptModel;

    open spec fn view(&self) -> PromptModel {
        PromptModel { pid: self.pid, database: opt_text(self.database) }
    }
}

/// An optional prompt as characters.
pub open spec fn opt_prompt(prompt: Option<Prompt>) -> Option<PromptModel> {
    match prompt {
        Some(prompt) => Some(prompt@),
        None => None,
    }
}

/// Watches KeePassXC's focused element and reports each new password prompt once.
#[derive(Debug)]
pub struct Kpxc {
    prompting: bool,
    prompt: Option<Prompt>,
    seen: Option<Seen>,
}

/// A [`Kpxc`] as characters.
pub struct KpxcModel {
    pub prompting: bool,
    pub prompt: Option<PromptModel>,
    pub seen: Option<SeenModel>,
}

impl View for Kpxc {
    type V = KpxcModel;

    closed spec fn view(&self) -> KpxcModel {
        KpxcModel {
            prompting: self.prompting,
            prompt: opt_prompt(self.prompt),
            seen: match self.seen {
                Some(seen) => Some(
                    SeenModel {
                        key: seen.key@,
                        prompt: seen.prompt,
                        database: opt_text(seen.database),
                    },
                ),
                None => None,
            },
        }
    }
}

impl KpxcModel {
    /// The prompt that a focus is, if the last look found one.
    pub open spec fn focused(self, pid: i32) -> Option<PromptModel> {
        match self.seen {
            Some(seen) => if seen.prompt {
                Some(PromptModel { pid, database: seen.database })
            } else {
                None
            },
            None => None,
        }
    }

    /// A poll that found `prompt` reports it.
    pub open spec fn starts(self, prompt: Option<PromptModel>, genuine: bool) -> bool {
        prompt is Some && !self.prompting && genuine
    }

    /// The state after a poll that found `prompt`.
    pub open spec fn polled(self, prompt: Option<PromptModel>, genuine: bool) -> KpxcModel {
        KpxcModel {
            prompting: prompt is Some,
            prompt: match prompt {
                Some(_) => if !self.prompting && !genuine {
                    None
                } else {
                    prompt
                },
                None => self.prompt,
            },
            seen: self.seen,
        }
    }
}

impl Kpxc {
    /// Knows of no prompt.
    pub fn new() -> (kpxc: Kpxc)
        ensures
            kpxc@ == (KpxcModel { prompting: false, prompt: None, seen: None }),
    {
        Kpxc { prompting: false, prompt: None, seen: None }
    }

    /// True when the focus is not the one that was looked at last.
    pub fn must_look(&self, key: &FocusKey) -> (yes: bool)
        ensures
            yes == !(self@.seen matches Some(seen) && seen.key == key@),
    {
        match &self.seen {
            Some(seen) => !(seen.key.pid == key.pid && text_eq(
                seen.key.title.as_str(),
                key.title.as_str(),
            ) && text_eq(seen.key.description.as_str(), key.description.as_str())),
            None => true,
        }
    }

    /// Notes what a look at a focus found.
    pub fn look(&mut self, key: FocusKey, role: &str, window_texts: &[Shown])
        ensures
            final(self)@ == (KpxcModel {
                seen: Some(
                    SeenModel {
                        key: key@,
                        prompt: asks(true, role@, shown_models(window_texts@)),
                        database: database_of(shown_models(window_texts@)),
                    },
                ),
                ..old(self)@
            }),
    {
        let prompt = is_password_prompt(&Focus { frontmost: true, role, window_texts });
        let database = database_from_texts(window_texts);
        self.seen = Some(Seen { key, prompt, database });
    }

    /// The prompt that the focus of `pid` is, if the last look found one.
    pub fn focused_prompt(&self, pid: i32) -> (prompt: Option<Prompt>)
        ensures
            opt_prompt(prompt) == self@.focused(pid),
    {
        match &self.seen {
            Some(seen) => if seen.prompt {
                let database = match &seen.database {
                    Some(name) => Some(name.clone()),
                    None => None,
                };
                Some(Prompt { pid, database })
            } else {
                None
            },
            None => None,
        }
    }

    /// True when `prompt` would be a new one, so that its process must prove genuine first. The check
    /// runs once per prompt, not per tick.
    pub fn would_start(&self, prompt: &Option<Prompt>) -> (yes: bool)
        ensures
            yes == (prompt is Some && !self@.prompting),
    {
        prompt.is_some() && !self.prompting
    }

    /// Takes the prompt that has focus, if any. Returns true when a genuine one gains focus. A
    /// look-alike window is not reported.
    pub fn poll(&mut self, prompt: Option<Prompt>, genuine: bool) -> (started: bool)
        ensures
            started == old(self)@.starts(opt_prompt(prompt), genuine),
            final(self)@ == old(self)@.polled(opt_prompt(prompt), genuine),
    {
        let started = prompt.is_some() && !self.prompting;
        self.prompting = prompt.is_some();
        match prompt {
            Some(prompt) => {
                if started && !genuine {
                    self.prompt = None;
                    false
                } else {
                    self.prompt = Some(prompt);
                    started
                }
            },
            None => false,
        }
    }

    /// The database that the last prompt asks for.
    pub fn database(&self) -> (name: Option<String>)
        ensures
            opt_text(name) == (match self@.prompt {
                Some(prompt) => prompt.database,
                None => None,
            }),
    {
        match &self.prompt {
            Some(prompt) => match &prompt.database {
                Some(name) => Some(name.clone()),
                None => None,
            },
            None => None,
        }
    }

    /// The process of the last prompt.
    pub fn pid(&self) -> (pid: Option<i32>)
        ensures
            pid == (match self@.prompt {
                Some(prompt) => Some(prompt.pid),
                None => None,
            }),
    {
        match &self.prompt {
            Some(prompt) => Some(prompt.pid),
            None => None,
        }
    }
}

/// A prompt that keeps focus is reported at most once: whatever a poll returned, the next one with a
/// prompt returns false.
pub proof fn a_prompt_is_reported_once(
    before: KpxcModel,
    first: PromptModel,
    second: PromptModel,
    first_genuine: bool,
    second_genuine: bool,
)
    ensures
        !before.polled(Some(first), first_genuine).starts(Some(second), second_genuine),
{
}

/// Once the prompt has lost focus, a genuine one is reported again.
pub proof fn a_prompt_that_returns_is_reported(before: KpxcModel, prompt: PromptModel)
    ensures
        before.polled(None, true).starts(Some(prompt), true),
{
}

/// A prompt that gains focus in a window that is not the signed KeePassXC leaves nothing to fill.
pub proof fn a_look_alike_leaves_no_prompt(before: KpxcModel, prompt: PromptModel)
    requires
        !before.prompting,
    ensures
        before.polled(Some(prompt), false).prompt is None,
{
}

/// Why autofill failed.
#[derive(Debug)]
pub enum FillError {
    NoPrompt,
    NotGenuine,
    WriteRejected { status: String },
    NoButton,
    PressFailed { status: String },
}

impl FillError {
    /// The error in words, as the user sees it.
    pub open spec fn words(self) -> Seq<char> {
        match self {
            FillError::NoPrompt => "No KeePassXC password prompt is known"@,
            FillError::NotGenuine =>
                "The window asking for the password is not the signed KeePassXC"@,
            FillError::WriteRejected { status } => "KeePassXC rejected the password field write ("@
                + status@ + ")"@,
            FillError::NoButton => "The Unlock button is missing"@,
            FillError::PressFailed { status } => "Pressing Unlock failed ("@ + status@ + ")"@,
        }
    }

    /// The error in words, as the user sees it.
    pub fn message(&self) -> (s: String)
        ensures
            s@ == self.words(),
    {
        match self {
            FillError::NoPrompt => "No KeePassXC password prompt is known".to_owned(),
            FillError::NotGenuine =>
                "The window asking for the password is not the signed KeePassXC".to_owned(),
            FillError::WriteRejected { status } => {
                let mut s = "KeePassXC rejected the password field write (".to_owned();
                s.append(status.as_str());
                s.append(")");
                s
            },
            FillError::NoButton => "The Unlock button is missing".to_owned(),
            FillError::PressFailed { status } => {
                let mut s = "Pressing Unlock failed (".to_owned();
                s.append(status.as_str());
                s.append(")");
                s
            },
        }
    }
}

/// What an accessibility call returned.
#[derive(Debug)]
pub enum AxStatus {
    Success,
    /// The call timed out. The status in words.
    CannotComplete(String),
    /// Any other status, in words.
    Other(String),
}

/// What happened last while a prompt is filled.
#[derive(Debug)]
pub enum FillEvent {
    Started { known: bool },
    Checked { genuine: bool },
    Wrote { status: AxStatus },
    Searched { found: bool },
    Pressed { status: AxStatus },
}

/// What to do next while a prompt is filled.
#[derive(Debug)]
pub enum FillAction {
    /// Check the signature of the prompt's process.
    Check,
    /// Write the password into the prompt's field.
    Write,
    /// Look for the Unlock button.
    Search,
    /// Press the Unlock button.
    Press,
    Done,
    Fail(FillError),
}

/// The status in words, unless the call succeeded.
pub open spec fn status_words(status: AxStatus) -> Option<Seq<char>> {
    match status {
        AxStatus::Success => None,
        AxStatus::CannotComplete(words) => Some(words@),
        AxStatus::Other(words) => Some(words@),
    }
}

/// The action that follows an event.
pub open spec fn follows(event: FillEvent, press: bool, action: FillAction) -> bool {
    match event {
        FillEvent::Started { known } => if known {
            action is Check
        } else {
            action == FillAction::Fail(FillError::NoPrompt)
        },
        FillEvent::Checked { genuine } => if genuine {
            action is Write
        } else {
            action == FillAction::Fail(FillError::NotGenuine)
        },
        FillEvent::Wrote { status } => if status is Success {
            if press {
                action is Search
            } else {
                action is Done
            }
        } else {
            action matches FillAction::Fail(FillError::WriteRejected { status: words }) && Some(
                words@,
            ) == status_words(status)
        },
        FillEvent::Searched { found } => if found {
            action is Press
        } else {
            action == FillAction::Fail(FillError::NoButton)
        },
        FillEvent::Pressed { status } => if status is Other {
            action matches FillAction::Fail(FillError::PressFailed { status: words }) && Some(
                words@,
            ) == status_words(status)
        } else {
            action is Done
        },
    }
}

/// Decides what to do next while the last prompt is filled and, with `press`, its Unlock button is
/// pressed.
pub fn fill_step(event: FillEvent, press: bool) -> (action: FillAction)
    ensures
        follows(event, press, action),
{
    match event {
        FillEvent::Started { known } => if known {
            FillAction::Check
        } else {
            FillAction::Fail(FillError::NoPrompt)
        },
        FillEvent::Checked { genuine } => if genuine {
            FillAction::Write
        } else {
            FillAction::Fail(FillError::NotGenuine)
        },
        FillEvent::Wrote { status } => match status {
            AxStatus::Success => if press {
                FillAction::Search
            } else {
                FillAction::Done
            },
            AxStatus::CannotComplete(words) => FillAction::Fail(
                FillError::WriteRejected { status: words },
            ),
            AxStatus::Other(words) => FillAction::Fail(FillError::WriteRejected { status: words }),
        },
        FillEvent::Searched { found } => if found {
            FillAction::Press
        } else {
            FillAction::Fail(FillError::NoButton)
        },
        FillEvent::Pressed { status } => match status {
            AxStatus::Success => FillAction::Done,
            // KeePassXC runs the key derivation before it answers, so a timeout means the press
            // arrived.
            AxStatus::CannotComplete(_) => FillAction::Done,
            AxStatus::Other(words) => FillAction::Fail(FillError::PressFailed { status: words }),
        },
    }
}

/// The password is written only right after the prompt's process proved genuine, and Unlock is pressed
/// only when that was asked for.
pub proof fn only_the_genuine_keepassxc_is_filled(
    event: FillEvent,
    press: bool,
    action: FillAction,
)
    requires
        follows(event, press, action),
    ensures
        action is Write <==> event == (FillEvent::Checked { genuine: true }),
        action is Search ==> press,
{
}

/// What is seen of a running KeePassXC.
#[derive(Debug)]
pub struct Running {
    pub version: Option<String>,
    pub pid: i32,
    pub genuine: bool,
    pub frontmost: bool,
    pub window: Option<Window>,
}

/// What is seen of KeePassXC's focused window.
#[derive(Debug)]
pub struct Window {
    pub title: String,
    pub role: String,
    pub texts: Vec<Shown>,
}

/// `true` or `false`.
pub open spec fn truth(value: bool) -> Seq<char> {
    if value {
        "true"@
    } else {
        "false"@
    }
}

/// `true` or `false`.
pub fn truth_word(value: bool) -> (word: &'static str)
    ensures
        word@ == truth(value),
{
    if value {
        "true"
    } else {
        "false"
    }
}

/// The lines about a focused window.
pub open spec fn window_lines(window: Option<Window>) -> Seq<Seq<char>> {
    match window {
        None => seq!["Focused window: none"@],
        Some(window) => {
            let shown = shown_models(window.texts@);
            seq![
                "Focused window: "@ + quoted_text(window.title@),
                "Focused element role: "@ + window.role@,
                "Database path label: "@ + (match database_of(shown) {
                    Some(name) => name,
                    None => "not found"@,
                }),
                "Password prompt when frontmost: "@ + truth(asks(true, window.role@, shown)),
            ]
        },
    }
}

/// The lines about KeePassXC.
pub open spec fn diagnosis(running: Option<Running>) -> Seq<Seq<char>> {
    match running {
        None => seq!["KeePassXC: not running"@],
        Some(app) => seq![
            "KeePassXC: running, version "@ + (match app.version {
                Some(version) => version@,
                None => "unknown"@,
            }) + ", pid "@ + integer_text(app.pid as int),
            "KeePassXC signature check: "@ + (if app.genuine {
                "passed"@
            } else {
                "FAILED"@
            }),
            "KeePassXC frontmost: "@ + truth(app.frontmost),
        ] + window_lines(app.window),
    }
}

/// `start` followed by `rest`.
fn line(start: &str, rest: &str) -> (s: String)
    ensures
        s@ == start@ + rest@,
{
    let mut s = start.to_owned();
    s.append(rest);
    s
}

/// The lines about a focused window.
fn diagnose_window(window: &Option<Window>) -> (lines: Vec<String>)
    ensures
        texts(lines@) == window_lines(*window),
{
    let mut lines: Vec<String> = Vec::new();
    match window {
        None => {
            lines.push("Focused window: none".to_owned());
            assert(texts(lines@) =~= window_lines(*window));
        },
        Some(window_seen) => {
            let database = match database_from_texts(&window_seen.texts) {
                Some(name) => name,
                None => "not found".to_owned(),
            };
            let asked = is_password_prompt(
                &Focus {
                    frontmost: true,
                    role: window_seen.role.as_str(),
                    window_texts: &window_seen.texts,
                },
            );
            lines.push(line("Focused window: ", quoted(window_seen.title.as_str()).as_str()));
            lines.push(line("Focused element role: ", window_seen.role.as_str()));
            lines.push(line("Database path label: ", database.as_str()));
            lines.push(line("Password prompt when frontmost: ", truth_word(asked)));
            assert(texts(lines@) =~= window_lines(*window));
        },
    }
    lines
}

/// What detection sees right now, in lines for a bug report. Holds no secrets.
pub fn diagnose(running: &Option<Running>) -> (lines: Vec<String>)
    ensures
        texts(lines@) == diagnosis(*running),
{
    let mut lines: Vec<String> = Vec::new();
    match running {
        None => {
            lines.push("KeePassXC: not running".to_owned());
            assert(texts(lines@) =~= diagnosis(*running));
        },
        Some(app) => {
            let mut first = "KeePassXC: running, version ".to_owned();
            match &app.version {
                Some(version) => first.append(version.as_str()),
                None => first.append("unknown"),
            }
            first.append(", pid ");
            first.append(integer(app.pid as i64).as_str());
            lines.push(first);
            lines.push(
                line(
                    "KeePassXC signature check: ",
                    if app.genuine {
                        "passed"
                    } else {
                        "FAILED"
                    },
                ),
            );
            lines.push(line("KeePassXC frontmost: ", truth_word(app.frontmost)));
            let ghost head = texts(lines@);
            let mut more = diagnose_window(&app.window);
            let ghost tail = texts(more@);
            let ghost whole = lines@ + more@;
            lines.append(&mut more);
            assert(lines@ =~= whole);
            assert(texts(lines@) =~= head + tail);
            assert(texts(lines@) =~= diagnosis(*running));
        },
    }
    lines
}

/// The database is named by the first text that is the absolute path of a file with the KDBX
/// signature, whatever the other texts are.
pub proof fn the_first_database_path_names_it(
    shown: Seq<ShownModel>,
    folder: Seq<char>,
    name: Seq<char>,
    i: int,
)
    requires
        0 <= i < shown.len(),
        shown[i].text == folder + seq!['/'] + name,
        shown[i].head == Some(seq![0x03u8, 0xD9u8, 0xA2u8, 0x9Au8]),
        folder.len() > 0 ==> folder[0] == '/',
        name.len() > 0,
        forall|k: int| 0 <= k < name.len() ==> #[trigger] name[k] != '/',
        name != seq!['.'],
        name != seq!['.', '.'],
        forall|j: int|
            0 <= j < i ==> ((#[trigger] shown[j]).text.len() == 0 || shown[j].text[0] != '/'
                || shown[j].head != Some(seq![0x03u8, 0xD9u8, 0xA2u8, 0x9Au8])),
    ensures
        database_of(shown) == Some(name),
        asks(true, "AXTextField"@, shown),
{
    first_path_found(shown, i);
    a_file_is_named_by_its_last_component(folder, name);
}

proof fn first_path_found(shown: Seq<ShownModel>, i: int)
    requires
        0 <= i < shown.len(),
        shown[i].text.len() > 0,
        shown[i].text[0] == '/',
        shown[i].head == Some(seq![0x03u8, 0xD9u8, 0xA2u8, 0x9Au8]),
        forall|j: int|
            0 <= j < i ==> ((#[trigger] shown[j]).text.len() == 0 || shown[j].text[0] != '/'
                || shown[j].head != Some(seq![0x03u8, 0xD9u8, 0xA2u8, 0x9Au8])),
    ensures
        first_database(shown) == Some(shown[i].text),
    decreases shown.len(),
{
    assert(KDBX@ =~= seq![0x03u8, 0xD9u8, 0xA2u8, 0x9Au8]);
    if i > 0 {
        assert(!is_database(shown[0]));
        let rest = shown.skip(1);
        assert(rest[i - 1] == shown[i]);
        assert forall|j: int| 0 <= j < i - 1 implies ((#[trigger] rest[j]).text.len() == 0
            || rest[j].text[0] != '/' || rest[j].head != Some(
            seq![0x03u8, 0xD9u8, 0xA2u8, 0x9Au8],
        )) by {
            assert(rest[j] == shown[j + 1]);
        }
        first_path_found(rest, i - 1);
    }
}

/// Without an absolute path of a file with the KDBX signature, nothing asks for a password. Nor does
/// anything while KeePassXC is not in front, or while no text field has focus.
pub proof fn nothing_else_asks(shown: Seq<ShownModel>, role: Seq<char>, frontmost: bool)
    ensures
        (forall|j: int|
            0 <= j < shown.len() ==> ((#[trigger] shown[j]).text.len() == 0 || shown[j].text[0]
                != '/' || shown[j].head != Some(seq![0x03u8, 0xD9u8, 0xA2u8, 0x9Au8])))
            ==> database_of(shown) is None && !asks(frontmost, role, shown),
        !asks(false, role, shown),
        role != "AXTextField"@ ==> !asks(frontmost, role, shown),
    decreases shown.len(),
{
    assert(KDBX@ =~= seq![0x03u8, 0xD9u8, 0xA2u8, 0x9Au8]);
    if shown.len() > 0 && (forall|j: int|
        0 <= j < shown.len() ==> ((#[trigger] shown[j]).text.len() == 0 || shown[j].text[0] != '/'
            || shown[j].head != Some(seq![0x03u8, 0xD9u8, 0xA2u8, 0x9Au8]))) {
        assert(!is_database(shown[0]));
        let rest = shown.skip(1);
        assert forall|j: int| 0 <= j < rest.len() implies ((#[trigger] rest[j]).text.len() == 0
            || rest[j].text[0] != '/' || rest[j].head != Some(
            seq![0x03u8, 0xD9u8, 0xA2u8, 0x9Au8],
        )) by {
            assert(rest[j] == shown[j + 1]);
        }
        nothing_else_asks(rest, role, frontmost);
    }
}

/// An attempt unlocked as soon as the screen no longer shows its database. Before that it runs while
/// the screen is disabled, and it was rejected with the first text that was not there before.
pub proof fn a_verdict_follows_the_screen(
    database: Seq<char>,
    before: Seq<ShownModel>,
    after: Seq<ShownModel>,
    enabled: bool,
    settled: bool,
    i: int,
)
    ensures
        database_of(after) != Some(database) ==> judged(database, before, after, enabled, settled)
            == Some(VerdictModel::Unlocked),
        database_of(after) == Some(database) && !enabled ==> judged(
            database,
            before,
            after,
            enabled,
            settled,
        ) is None,
        database_of(after) == Some(database) && enabled && is_first_new(before, after, i)
            ==> judged(database, before, after, enabled, settled) == Some(
            VerdictModel::Rejected(Some(after[i].text)),
        ),
        database_of(after) == Some(database) && enabled && (forall|j: int|
            0 <= j < after.len() ==> !is_new(before, #[trigger] after[j].text)) ==> judged(
            database,
            before,
            after,
            enabled,
            settled,
        ) == (if settled {
            Some(VerdictModel::Rejected(None))
        } else {
            None
        }),
{
    if is_first_new(before, after, i) {
        first_new_found(before, after, i);
    }
    if forall|j: int| 0 <= j < after.len() ==> !is_new(before, #[trigger] after[j].text) {
        nothing_new(before, after);
    }
}

/// A text that is not blank and that none of the earlier texts reads.
pub open spec fn is_new(before: Seq<ShownModel>, text: Seq<char>) -> bool {
    text.len() > 0 && forall|k: int| 0 <= k < before.len() ==> (#[trigger] before[k]).text != text
}

/// The text at position `i` is the first new one.
pub open spec fn is_first_new(
    before: Seq<ShownModel>,
    after: Seq<ShownModel>,
    i: int,
) -> bool {
    &&& 0 <= i < after.len()
    &&& is_new(before, after[i].text)
    &&& forall|j: int| 0 <= j < i ==> !is_new(before, #[trigger] after[j].text)
}

proof fn first_new_found(before: Seq<ShownModel>, after: Seq<ShownModel>, i: int)
    requires
        is_first_new(before, after, i),
    ensures
        new_message(before, after) == Some(after[i].text),
    decreases after.len(),
{
    if i > 0 {
        assert(!is_new(before, after[0].text));
        let rest = after.skip(1);
        assert(rest[i - 1] == after[i]);
        assert forall|j: int| 0 <= j < i - 1 implies !is_new(before, #[trigger] rest[j].text) by {
            assert(rest[j] == after[j + 1]);
        }
        first_new_found(before, rest, i - 1);
    }
}

proof fn nothing_new(before: Seq<ShownModel>, after: Seq<ShownModel>)
    requires
        forall|j: int| 0 <= j < after.len() ==> !is_new(before, #[trigger] after[j].text),
    ensures
        new_message(before, after) is None,
    decreases after.len(),
{
    if after.len() > 0 {
        assert(!is_new(before, after[0].text));
        let rest = after.skip(1);
        assert forall|j: int| 0 <= j < rest.len() implies !is_new(
            before,
            #[trigger] rest[j].text,
        ) by {
            assert(rest[j] == after[j + 1]);
        }
        nothing_new(before, rest);
    }
}

/// A genuine prompt that gains focus is reported and remembered with its process and its database. A
/// later poll refreshes it, and one without a prompt forgets only that it has focus.
pub proof fn a_genuine_prompt_is_remembered(
    before: KpxcModel,
    seen: SeenModel,
    pid: i32,
    prompt: PromptModel,
    genuine: bool,
)
    ensures
        !before.prompting ==> before.starts(Some(prompt), true) && before.polled(Some(prompt), true)
            == (KpxcModel { prompting: true, prompt: Some(prompt), ..before }),
        before.prompting ==> before.polled(Some(prompt), genuine) == (KpxcModel {
            prompting: true,
            prompt: Some(prompt),
            ..before
        }),
        before.polled(None, genuine) == (KpxcModel { prompting: false, ..before }),
        !before.starts(None, genuine),
        !before.starts(Some(prompt), false),
        (KpxcModel { seen: Some(seen), ..before }).focused(pid) == (if seen.prompt {
            Some(PromptModel { pid, database: seen.database })
        } else {
            None
        }),
        (KpxcModel { seen: None, ..before }).focused(pid) is None,
{
}

/// Filling goes on after every step that succeeds, and it stops with the reason of the first that does
/// not. A press that times out has arrived.
pub proof fn filling_goes_on_until_a_step_fails(press: bool, status: String, action: FillAction)
    ensures
        follows(FillEvent::Started { known: true }, press, action) ==> action is Check,
        follows(FillEvent::Checked { genuine: true }, press, action) ==> action is Write,
        follows(FillEvent::Wrote { status: AxStatus::Success }, true, action) ==> action is Search,
        follows(FillEvent::Wrote { status: AxStatus::Success }, false, action) ==> action is Done,
        follows(FillEvent::Searched { found: true }, press, action) ==> action is Press,
        follows(FillEvent::Pressed { status: AxStatus::Success }, press, action) ==> action is Done,
        follows(
            FillEvent::Pressed { status: AxStatus::CannotComplete(status) },
            press,
            action,
        ) ==> action is Done,
        follows(FillEvent::Started { known: false }, press, action) ==> action == FillAction::Fail(
            FillError::NoPrompt,
        ),
        follows(FillEvent::Checked { genuine: false }, press, action) ==> action
            == FillAction::Fail(FillError::NotGenuine),
        follows(FillEvent::Searched { found: false }, press, action) ==> action
            == FillAction::Fail(FillError::NoButton),
        follows(FillEvent::Wrote { status: AxStatus::Other(status) }, press, action) ==> (action
            matches FillAction::Fail(FillError::WriteRejected { status: told }) && told@ == status@),
        follows(
            FillEvent::Wrote { status: AxStatus::CannotComplete(status) },
            press,
            action,
        ) ==> (action matches FillAction::Fail(FillError::WriteRejected { status: told }) && told@
            == status@),
        follows(FillEvent::Pressed { status: AxStatus::Other(status) }, press, action) ==> (action
            matches FillAction::Fail(FillError::PressFailed { status: told }) && told@ == status@),
{
}

/// A diagnosis tells what is seen: whether KeePassXC runs, its version and signature, and what its
/// focused window asks for.
pub proof fn a_diagnosis_tells_what_is_seen(app: Running, window: Window)
    ensures
        diagnosis(None) == seq!["KeePassXC: not running"@],
        app.window is None ==> diagnosis(Some(app)).len() == 4 && diagnosis(Some(app))[3]
            == "Focused window: none"@,
        app.version matches Some(version) ==> has_part(diagnosis(Some(app))[0], version@),
        has_part(diagnosis(Some(app))[0], ", pid "@ + integer_text(app.pid as int)),
        diagnosis(Some(app))[1] == (if app.genuine {
            "KeePassXC signature check: "@ + "passed"@
        } else {
            "KeePassXC signature check: "@ + "FAILED"@
        }),
        diagnosis(Some(app))[2] == (if app.frontmost {
            "KeePassXC frontmost: "@ + "true"@
        } else {
            "KeePassXC frontmost: "@ + "false"@
        }),
        app.window == Some(window) ==> {
            let lines = diagnosis(Some(app));
            let shown = shown_models(window.texts@);
            &&& lines.len() == 7
            &&& lines[3] == "Focused window: "@ + quoted_text(window.title@)
            &&& lines[4] == "Focused element role: "@ + window.role@
            &&& database_of(shown) matches Some(name) ==> lines[5] == "Database path label: "@ + name
            &&& database_of(shown) is None ==> lines[5] == "Database path label: "@ + "not found"@
            &&& asks(true, window.role@, shown) ==> lines[6] == "Password prompt when frontmost: "@
                + "true"@
            &&& !asks(true, window.role@, shown) ==> lines[6] == "Password prompt when frontmost: "@
                + "false"@
        },
{
    let first = diagnosis(Some(app))[0];
    let pid = integer_text(app.pid as int);
    match app.version {
        Some(version) => {
            let start = "KeePassXC: running, version "@;
            assert(first =~= start + version@ + (", pid "@ + pid));
            a_part_stands_between(start, version@, ", pid "@ + pid);
            assert(first =~= (start + version@) + (", pid "@ + pid) + Seq::<char>::empty());
            a_part_stands_between(start + version@, ", pid "@ + pid, Seq::empty());
        },
        None => {
            let start = "KeePassXC: running, version "@ + "unknown"@;
            assert(first =~= start + (", pid "@ + pid) + Seq::<char>::empty());
            a_part_stands_between(start, ", pid "@ + pid, Seq::empty());
        },
    }
}

} // verus!
