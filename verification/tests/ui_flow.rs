use fido2kpxc::config::{Autofill, Config};
use fido2kpxc::crypto::{SecretBytes, SecretKey, SecretText};
use fido2kpxc::fido::FidoError;
use fido2kpxc::ui::flow::{Stage, TickAction, Ui};
use fido2kpxc::ui::forms::{about, pin, show};
use fido2kpxc::ui::menu::{
    autofill_of, copy_menu, diagnostics, icon, menu_lines, menu_state, settings_text,
    settings_values, CopyMenu, MenuAction, MenuLine, AUTOFILL_LABELS,
};
use fido2kpxc::ui::{Effect, Facts, Notice, Outcome, Sheet, Step, Target, Touch, Work};
use fido2kpxc::vault::{Unlock, Vault, ANY};

fn unlock(id: u8) -> Unlock {
    Unlock {
        cred_id: vec![id; 2],
        output: SecretKey::new([id; 32]),
    }
}

fn config() -> Config {
    Config {
        folder: "/Users/me/Sync".to_owned(),
        vault: "/Users/me/Sync/vault.toml".to_owned(),
        clear_seconds: 60,
        autofill: Autofill::FillAndUnlock,
        copy_password: true,
    }
}

fn vault() -> Vault {
    let mut vault = Vault::create([7; 32], "a", &unlock(1), "pdb.kdbx", b"x").unwrap();
    vault.add_key(&unlock(1), "b", &unlock(2)).unwrap();
    vault.add_key(&unlock(1), "c", &unlock(3)).unwrap();
    vault
}

fn facts() -> Facts {
    Facts {
        config: Ok(config()),
        vault: Ok(vault()),
        path: Some("/Users/me/config.toml".to_owned()),
        home: Some("/Users/me".to_owned()),
        folder_exists: true,
        parent_exists: true,
        vault_exists: true,
        database: Some("pdb.kdbx".to_owned()),
        now: 1000,
    }
}

fn secret(text: &str) -> SecretText {
    SecretText::new(text.to_owned())
}

fn values(list: &[&str]) -> Vec<SecretText> {
    list.iter().map(|text| secret(text)).collect()
}

fn work(work: &Work) -> String {
    let t = |s: &SecretText| s.expose().to_owned();
    match work {
        Work::Devices => "devices".to_owned(),
        Work::Select => "select".to_owned(),
        Work::Create { label, database, secret, pin } => {
            format!("create {label} {database} {} {}", t(secret), t(pin))
        }
        Work::Derive { pin } => format!("derive {}", t(pin)),
        Work::AddKey { current, label, pin } => {
            format!("add {:?} {label} {}", current.cred_id, t(pin))
        }
        Work::DeriveOne { cred_id, pin } => format!("derive-one {cred_id:?} {}", t(pin)),
        Work::SetSecret { database, secret, pin } => {
            format!("set {database} {} {}", t(secret), t(pin))
        }
        Work::RemoveKey { label, remaining } => {
            let ids: Vec<u8> = remaining.iter().map(|u| u.cred_id[0]).collect();
            format!("remove {label} {ids:?}")
        }
        Work::Unlock { database, pin } => format!("unlock {database:?} {}", t(pin)),
    }
}

fn line(effect: &Effect) -> String {
    match effect {
        Effect::CloseMessage => "close message".to_owned(),
        Effect::CloseAsking => "close pin".to_owned(),
        Effect::CloseSetup => "close form".to_owned(),
        Effect::CloseTouch => "close touch".to_owned(),
        Effect::ShowMessage { notice, retry } => format!("message {} {retry}", notice.text()),
        Effect::ShowAbout => "about".to_owned(),
        Effect::ShowPin { note, database } => format!("pin {}", pin(note, database).message),
        Effect::ShowSetup { sheet, note } => {
            format!("form {}", sheet.panel(note).message)
        }
        Effect::ShowTouch(touch) => format!("touch {}", touch.text()),
        Effect::Run(job) => format!("run {}", work(job)),
        Effect::Activate => "activate".to_owned(),
        Effect::Copy { text } => format!("copy {}", text.expose()),
        Effect::Fill { text, press } => format!("fill {} {press}", text.expose()),
        Effect::Recheck => "recheck".to_owned(),
        Effect::WriteConfig { text, draft } => format!("write {text}{}", draft.len()),
        Effect::Icon { healthy } => format!("icon {healthy}"),
    }
}

/// Drives a [`Ui`] and tells what it does.
struct Driver {
    ui: Ui,
}

impl Driver {
    fn new() -> Self {
        let mut driver = Self { ui: Ui::new() };
        driver.step(|ui, out| ui.set_health(Ok(config()), 0, out));
        driver
    }

    fn step(&mut self, event: impl FnOnce(&mut Ui, &mut Vec<Effect>)) -> Vec<String> {
        let mut out = Vec::new();
        event(&mut self.ui, &mut out);
        out.iter().map(line).collect()
    }

    fn job(&mut self, outcome: Outcome) -> Vec<String> {
        self.step(|ui, out| ui.job_done(Ok(outcome), &facts(), out))
    }

    fn flow(&mut self, step: Step) -> Vec<String> {
        self.step(|ui, out| ui.open_flow(step, &facts(), out))
    }

    fn submit(&mut self, list: &[&str]) -> Vec<String> {
        self.step(|ui, out| ui.submit_setup(values(list), &facts(), out))
    }

    /// Starts an unlock, with the PIN panel open.
    fn asking(target: Target) -> Self {
        let mut driver = Self::new();
        assert_eq!(
            driver.step(|ui, out| ui.start(target, &facts(), out)),
            ["run devices"]
        );
        assert_eq!(
            driver.job(Outcome::Devices(1)),
            ["pin Enter your security key's FIDO2 PIN to unlock pdb.kdbx."]
        );
        driver
    }

    /// Waits for the touch of an unlock.
    fn pending(target: Target) -> Self {
        let mut driver = Self::asking(target);
        assert_eq!(
            driver.step(|ui, out| ui.pin_submit(secret("1234"), &facts(), out)),
            [
                "close pin",
                "run unlock Some(\"pdb.kdbx\") 1234",
                "touch Touch your security key now."
            ]
        );
        driver
    }

    fn unlocked(&mut self, result: Result<&[u8], FidoError>) -> Vec<String> {
        let result = result.map(|bytes| SecretBytes::new(bytes.to_vec()));
        self.step(|ui, out| ui.unlock_done(result, &facts(), out))
    }
}

#[test]
fn an_unlock_fills_the_prompt() {
    let mut driver = Driver::pending(Target::Fill);
    assert!(driver.ui.busy());
    assert_eq!(
        driver.unlocked(Ok(b"hunter2")),
        ["close touch", "fill hunter2 true"]
    );
    assert_eq!(driver.step(|ui, out| ui.filled(None, 5000, out)), ["activate"]);
    assert!(!driver.ui.busy());
    assert!(!driver.ui.prompts(true, 7999));
    assert!(driver.ui.prompts(true, 8000));
    assert!(!driver.ui.prompts(false, 8000));
}

#[test]
fn a_failed_fill_is_told() {
    let mut driver = Driver::pending(Target::Fill);
    driver.unlocked(Ok(b"hunter2"));
    assert_eq!(
        driver.step(|ui, out| ui.filled(Some("no".to_owned()), 5000, out)),
        [
            "message Autofill failed: no. Type the password in KeePassXC, or set copy_password = true for a Copy Password fallback. false",
            "activate"
        ]
    );
}

#[test]
fn a_copied_password_is_cleared_unless_replaced() {
    for (count, cleared) in [(9, true), (10, false)] {
        let mut driver = Driver::pending(Target::Copy("pdb.kdbx".to_owned()));
        assert_eq!(
            driver.unlocked(Ok(b"hunter2")),
            ["close touch", "copy hunter2"]
        );
        driver.ui.copied(9, 5000);
        assert!(!driver.ui.clear_due(false, 64_999));
        assert!(driver.ui.clear_due(false, 65_000));
        assert!(driver.ui.clear_due(true, 5000));
        assert_eq!(driver.ui.cleared(count), cleared);
        assert!(!driver.ui.clear_due(true, 99_000));
        assert!(!driver.ui.prompts(true, 7999));
    }
}

#[test]
fn without_a_config_the_clipboard_is_cleared_after_the_default() {
    let mut ui = Ui::new();
    ui.copied(1, 0);
    assert!(!ui.clear_due(false, 19_999));
    assert!(ui.clear_due(false, 20_000));
}

#[test]
fn a_wrong_pin_asks_again() {
    let mut driver = Driver::pending(Target::Fill);
    let wrong = FidoError::WrongPin { retries: Some(7) };
    assert_eq!(
        driver.unlocked(Err(wrong)),
        ["close touch", "pin Wrong PIN. 7 tries left."]
    );
    assert_eq!(
        driver.step(|ui, out| ui.pin_submit(secret("4321"), &facts(), out)),
        [
            "close pin",
            "run unlock Some(\"pdb.kdbx\") 4321",
            "touch Touch your security key now."
        ]
    );
}

#[test]
fn a_missing_touch_can_be_retried() {
    let mut driver = Driver::pending(Target::Fill);
    assert_eq!(
        driver.unlocked(Err(FidoError::Timeout)),
        ["close touch", "message No touch detected. Try again. true"]
    );
    assert_eq!(
        driver.step(|ui, out| ui.message_retry(&facts(), out)),
        ["close message", "run devices"]
    );
    assert_eq!(
        driver.job(Outcome::Devices(0)),
        ["message Insert your security key. true"]
    );
    assert_eq!(
        driver.step(|ui, out| ui.message_dismiss(2000, out)),
        ["close message", "activate"]
    );
    assert!(driver.step(|ui, out| ui.message_dismiss(2000, out)).is_empty());
}

#[test]
fn other_errors_end_the_attempt() {
    let mut driver = Driver::pending(Target::Copy("pdb.kdbx".to_owned()));
    assert_eq!(
        driver.unlocked(Err(FidoError::PinAuthBlocked)),
        [
            "close touch",
            "message Too many wrong PINs in a row. Remove and reinsert the security key. false"
        ]
    );
    let mut driver = Driver::pending(Target::Fill);
    assert_eq!(
        driver.unlocked(Ok(&[0xff])),
        [
            "close touch",
            "message The stored password is not valid UTF-8. false",
            "activate"
        ]
    );
    assert!(driver.unlocked(Ok(b"late")).is_empty());
}

#[test]
fn an_attempt_ends_without_a_pin() {
    let mut driver = Driver::asking(Target::Fill);
    assert_eq!(
        driver.step(|ui, out| ui.pin_submit(secret(""), &facts(), out)),
        ["close pin", "activate"]
    );
    let mut driver = Driver::asking(Target::Copy("pdb.kdbx".to_owned()));
    assert_eq!(
        driver.step(|ui, out| ui.pin_cancel(1000, out)),
        ["close pin"]
    );
    assert!(driver.step(|ui, out| ui.pin_cancel(1000, out)).is_empty());
    // A menu item that begins a flow forgets the key of the open panel.
    let mut driver = Driver::asking(Target::Fill);
    assert!(driver.flow(Step::AddCurrent).is_empty());
    assert_eq!(
        driver.step(|ui, out| ui.pin_submit(secret("1"), &facts(), out)),
        ["close pin", "activate"]
    );
}

#[test]
fn no_key_is_touched_without_a_password() {
    let mut driver = Driver::new();
    let mut other = facts();
    other.database = Some("home.kdbx".to_owned());
    assert_eq!(
        driver.step(|ui, out| ui.start(Target::Fill, &other, out)),
        [
            "message No password is stored for home.kdbx. Add one with Set Database Password… in the menu, or run:\nfido2kpxc set-secret --database home.kdbx false",
            "activate"
        ]
    );
    other.database = None;
    let told = driver.step(|ui, out| ui.start(Target::Fill, &other, out));
    assert_eq!(told[0], "close message");
    assert!(told[1].contains("for this database."));
    let mut broken = facts();
    broken.vault = Err("broken".to_owned());
    assert!(driver
        .step(|ui, out| ui.start(Target::Fill, &broken, out))
        .is_empty());
    broken = facts();
    broken.vault_exists = false;
    assert!(driver
        .step(|ui, out| ui.start(Target::Fill, &broken, out))
        .is_empty());
}

#[test]
fn several_keys_need_a_touch_to_choose() {
    let mut driver = Driver::new();
    assert_eq!(driver.flow(Step::AddCurrent), ["run devices"]);
    assert_eq!(
        driver.job(Outcome::Devices(2)),
        ["run select", "touch Touch the security key you want to use."]
    );
    assert_eq!(
        driver.job(Outcome::Key),
        [
            "close touch",
            "form Insert a security key that is already enrolled, and enter its PIN. Then touch it."
        ]
    );
}

#[test]
fn a_vault_is_created() {
    let mut fresh = facts();
    fresh.vault_exists = false;
    let mut driver = Driver::new();
    driver.flow(Step::Create);
    let shown = driver.step(|ui, out| ui.job_done(Ok(Outcome::Devices(1)), &fresh, out));
    assert!(shown[0].starts_with("form Set up fido2kpxc with this security key. The vault goes to /Users/me/Sync/vault.toml. "));
    let submit = |driver: &mut Driver, list: &[&str], fresh: &Facts| {
        driver.step(|ui, out| ui.submit_setup(values(list), fresh, out))
    };
    for (list, note) in [
        (["l", "", "", "", "1"], "Enter the database password."),
        (["l", "", "p", "q", "1"], "The passwords differ."),
        ([" ", "", "p", "p", "1"], "Enter a key label."),
        (["l", "", "p", "p", " "], "Enter the PIN."),
    ] {
        let told = submit(&mut driver, &list, &fresh);
        assert_eq!(told[0], "close form");
        assert!(told[1].starts_with(&format!("form {note}\n\nSet up")), "{told:?}");
    }
    assert_eq!(
        submit(&mut driver, &[" l ", " ", " p ", " p ", " 1 "], &fresh),
        [
            "close form",
            "run create l *  p  1",
            "touch Touch your security key twice."
        ]
    );
    assert_eq!(
        driver.job(Outcome::Done),
        [
            "close touch",
            "recheck",
            "message Created the vault at /Users/me/Sync/vault.toml. false"
        ]
    );
}

#[test]
fn a_vault_is_not_created_twice() {
    let mut driver = Driver::new();
    driver.flow(Step::Create);
    assert_eq!(
        driver.job(Outcome::Devices(1)),
        ["message A vault already exists at /Users/me/Sync/vault.toml false"]
    );
}

#[test]
fn a_key_is_added() {
    let mut driver = Driver::new();
    driver.flow(Step::AddCurrent);
    driver.job(Outcome::Devices(1));
    assert!(driver.submit(&[" "])[1].starts_with("form Enter the PIN.\n\n"));
    assert_eq!(
        driver.submit(&["1"]),
        [
            "close form",
            "run derive 1",
            "touch Touch the enrolled security key."
        ]
    );
    // The new key is chosen again.
    assert_eq!(
        driver.job(Outcome::Unlock(unlock(1))),
        ["close touch", "run devices"]
    );
    assert_eq!(
        driver.job(Outcome::Devices(1)),
        ["form Remove the enrolled key and insert the new one. Enter a label for it and its PIN, then touch it twice."]
    );
    assert!(driver.submit(&["", "2"])[1].starts_with("form Enter a key label and the PIN.\n\n"));
    assert_eq!(
        driver.submit(&["new", "2"]),
        [
            "close form",
            "run add [1, 1] new 2",
            "touch Touch the new security key twice."
        ]
    );
    assert_eq!(
        driver.job(Outcome::Done),
        ["close touch", "recheck", "message Added key \"new\". false"]
    );
}

#[test]
fn a_key_is_removed_after_every_other_was_touched() {
    let mut driver = Driver::new();
    assert_eq!(
        driver.flow(Step::RemoveChoose),
        ["form Choose the key to remove. Afterwards, each remaining key needs its PIN and a touch."]
    );
    assert_eq!(driver.submit(&["b"]), ["close form", "run devices"]);
    for (name, id, last) in [("a", 1, false), ("c", 3, true)] {
        assert_eq!(
            driver.job(Outcome::Devices(1)),
            [format!("form Insert the key \"{name}\", enter its PIN, then touch it.")]
        );
        assert_eq!(
            driver.submit(&["1"]),
            [
                "close form".to_owned(),
                format!("run derive-one [{id}, {id}] 1"),
                format!("touch Touch the key \"{name}\".")
            ]
        );
        let told = driver.job(Outcome::Unlock(unlock(id)));
        if last {
            assert_eq!(
                told,
                ["close touch", "run remove b [1, 3]", "touch Saving the vault…"]
            );
        } else {
            assert_eq!(told, ["close touch", "run devices"]);
        }
    }
    let told = driver.job(Outcome::Done);
    assert_eq!(told[..2], ["close touch", "recheck"]);
    assert!(told[2].starts_with("message Removed key \"b\" and moved the vault to a new data key."));
}

#[test]
fn a_label_that_cannot_be_removed() {
    let mut driver = Driver::new();
    driver.flow(Step::RemoveChoose);
    assert_eq!(
        driver.submit(&["z"]),
        ["close form", "message No key is labeled \"z\" false"]
    );
    driver.flow(Step::RemoveChoose);
    let mut gone = facts();
    gone.vault = Err("gone".to_owned());
    assert_eq!(
        driver.step(|ui, out| ui.submit_setup(values(&["b"]), &gone, out)),
        ["close form", "message gone false"]
    );
}

#[test]
fn a_password_is_set() {
    let mut driver = Driver::new();
    driver.flow(Step::SetPassword);
    assert!(driver.job(Outcome::Devices(1))[0].contains("Stored now: pdb.kdbx. "));
    assert!(driver.submit(&["", "p", "q", "1"])[1].starts_with("form The passwords differ."));
    assert!(driver.submit(&["", "p", "p", ""])[1].starts_with("form Enter the PIN."));
    assert_eq!(
        driver.submit(&["", "p", "p", "1"]),
        ["close form", "run set * p 1", "touch Touch your security key."]
    );
    assert_eq!(
        driver.job(Outcome::Done),
        [
            "close touch",
            "recheck",
            "message Stored the password for any other database (*). false"
        ]
    );
}

#[test]
fn a_failed_job_is_told() {
    let fail = |driver: &mut Driver| {
        driver.step(|ui, out| ui.job_done(Err("no".to_owned()), &facts(), out))
    };
    let mut driver = Driver::new();
    driver.step(|ui, out| ui.start(Target::Fill, &facts(), out));
    assert_eq!(fail(&mut driver), ["message no true"]);
    driver.flow(Step::AddCurrent);
    assert_eq!(fail(&mut driver), ["message no false"]);
    driver.flow(Step::AddCurrent);
    driver.job(Outcome::Devices(1));
    driver.submit(&["1"]);
    assert_eq!(fail(&mut driver), ["close touch", "message no false"]);
    driver.flow(Step::AddCurrent);
    assert_eq!(
        driver.job(Outcome::Done),
        ["message The operation returned an unexpected result. false"]
    );
    assert!(fail(&mut driver).is_empty());
}

#[test]
fn settings_open_without_a_config() {
    let mut broken = facts();
    broken.config = Err("no config".to_owned());
    broken.vault = Err("no config".to_owned());
    let mut driver = Driver::new();
    assert_eq!(
        driver.step(|ui, out| ui.open_settings(&broken, out)),
        ["form The vault lives in the vault folder as vault.toml. A path starting with ~/ works on every Mac. Settings are saved to /Users/me/config.toml."]
    );
    assert_eq!(driver.step(|ui, out| ui.setup_cancel(out)), ["close form"]);
    assert!(driver.step(|ui, out| ui.setup_cancel(out)).is_empty());
    assert_eq!(
        driver.step(|ui, out| ui.open_flow(Step::RemoveChoose, &broken, out)),
        ["message no config\n\nChoose Settings… first. false"]
    );
    broken.config = Ok(config());
    assert_eq!(
        driver.step(|ui, out| ui.open_flow(Step::RemoveChoose, &broken, out)),
        [
            "close message",
            "message no config\n\nChoose Set Up… first. false"
        ]
    );
}

#[test]
fn settings_are_saved_or_reopen() {
    let mut driver = Driver::new();
    driver.step(|ui, out| ui.open_settings(&facts(), out));
    let told = driver.submit(&["~/x", "Off", "On", "soon"]);
    assert!(told[1].starts_with("form Clear after must be a whole number of seconds.\n\n"));
    let told = driver.submit(&["x", "Off", "On", "5"]);
    assert!(told[1].starts_with("form folder must be an absolute path or start with ~/\n\n"));
    let told = driver.submit(&[" ~/x ", "Off", "On", " 5 "]);
    assert_eq!(
        told[1],
        "write folder = \"~/x\"\nclear_seconds = 5\nautofill = \"off\"\ncopy_password = true\n4"
    );
    let draft = || ["~/x", "Off", "On", "5"].map(str::to_owned).to_vec();
    assert_eq!(
        driver.step(|ui, out| ui.settings_written(draft(), Ok(()), &facts(), out)),
        ["recheck", "message Saved the settings. false"]
    );
    let told = driver
        .step(|ui, out| ui.settings_written(draft(), Err("full".to_owned()), &facts(), out));
    assert!(told[1].starts_with("form full\n\n"));
}

#[test]
fn a_flow_blocks_every_other() {
    let mut driver = Driver::asking(Target::Fill);
    assert!(driver
        .step(|ui, out| ui.start(Target::Fill, &facts(), out))
        .is_empty());
    assert!(driver.flow(Step::SetPassword).is_empty());
    assert!(driver.step(|ui, out| ui.open_settings(&facts(), out)).is_empty());
    assert!(!driver.ui.prompts(true, 99_000));
}

#[test]
fn copying_needs_the_setting() {
    let mut driver = Driver::new();
    assert_eq!(
        driver.step(|ui, out| ui.copy_password("pdb.kdbx".to_owned(), &facts(), out)),
        ["run devices"]
    );
    let mut driver = Driver::new();
    let mut off = config();
    off.copy_password = false;
    assert_eq!(driver.step(|ui, out| ui.set_health(Ok(off), 0, out)), ["icon true"]);
    assert!(driver
        .step(|ui, out| ui.copy_password("pdb.kdbx".to_owned(), &facts(), out))
        .is_empty());
}

#[test]
fn a_check_holds_for_two_seconds() {
    let mut driver = Driver { ui: Ui::new() };
    assert!(driver.ui.is_stale(false, 0));
    assert!(driver.ui.config().is_none() && driver.ui.health().is_none());
    assert_eq!(
        driver.step(|ui, out| ui.set_health(Err("bad".to_owned()), 1000, out)),
        ["icon false"]
    );
    assert!(driver.ui.config().is_none());
    assert!(!driver.ui.is_stale(false, 2999));
    assert!(driver.ui.is_stale(false, 3000));
    assert!(driver.ui.is_stale(true, 1000));
    assert!(!driver.ui.is_stale(false, 0));
    assert!(!driver.ui.watches());
    driver.step(|ui, out| ui.set_health(Ok(config()), 4000, out));
    assert!(driver.ui.watches());
    assert_eq!(driver.ui.config().unwrap().clear_seconds, 60);
    let mut off = config();
    off.autofill = Autofill::Off;
    driver.step(|ui, out| ui.set_health(Ok(off), 4000, out));
    assert!(!driver.ui.watches());
}

#[test]
fn a_tick_goes_through_its_stages() {
    let plan = |ui: &Ui, now| {
        let mut stage = Some(Stage::Unlock);
        let mut actions = Vec::new();
        while let Some(current) = stage {
            let (action, next) = ui.on_tick(current, now);
            actions.extend(action);
            stage = next;
        }
        actions
    };
    assert_eq!(plan(&Ui::new(), 0), [TickAction::Check]);
    let mut driver = Driver::pending(Target::Copy("pdb.kdbx".to_owned()));
    assert_eq!(
        plan(&driver.ui, 1999),
        [TickAction::TakeUnlock, TickAction::Watch]
    );
    driver.unlocked(Ok(b"x"));
    driver.ui.copied(1, 0);
    assert_eq!(
        plan(&driver.ui, 60_000),
        [TickAction::ClearClipboard, TickAction::Check, TickAction::Watch]
    );
    driver.flow(Step::AddCurrent);
    assert_eq!(plan(&driver.ui, 1), [TickAction::TakeJob, TickAction::Watch]);
}

#[test]
fn about_replaces_the_message() {
    let mut driver = Driver::new();
    driver.step(|ui, out| ui.alert(Notice::Saved, out));
    assert_eq!(
        driver.step(|ui, out| ui.show_about(out)),
        ["close message", "about"]
    );
    assert_eq!(driver.step(|ui, out| ui.close_about(out)), ["close message"]);
    let panel = about("1.2");
    assert_eq!(panel.title, "About fido2kpxc");
    assert!(panel.message.starts_with("fido2kpxc 1.2\nUnlock KeePassXC"));
    assert_eq!(panel.buttons.len(), 2);
}

#[test]
fn panels_hold_their_rows_and_buttons() {
    let titles = |panel: &fido2kpxc::ui::forms::Panel| {
        panel.buttons.iter().map(|b| b.title.clone()).collect::<Vec<_>>()
    };
    let labels = |panel: &fido2kpxc::ui::forms::Panel| {
        panel.fields.iter().map(|f| f.label.clone()).collect::<Vec<_>>()
    };
    assert_eq!(titles(&show(&Notice::Saved, true)), ["Retry", "Cancel"]);
    assert_eq!(titles(&show(&Notice::Saved, false)), ["OK"]);
    let asked = pin(&None, &None);
    assert_eq!(asked.title, "Unlock with Security Key");
    assert_eq!(asked.message, "Enter your security key's FIDO2 PIN.");
    assert_eq!(labels(&asked), ["PIN"]);
    assert_eq!(titles(&asked), ["Unlock", "Cancel"]);
    assert!(titles(&Touch::Once.panel()).is_empty());
    let sheets: [(Sheet, &[&str], &str); 7] = [
        (
            Sheet::Create { vault: "/v".to_owned() },
            &["Key label", "Database file", "Password", "Repeat", "PIN"],
            "Set Up",
        ),
        (Sheet::AddCurrent, &["PIN"], "Continue"),
        (Sheet::AddNew, &["Key label", "PIN"], "Add Key"),
        (
            Sheet::RemoveChoose { labels: vec!["a".to_owned()] },
            &["Key"],
            "Continue",
        ),
        (Sheet::RemoveTouch { name: "a".to_owned() }, &["PIN"], "Continue"),
        (
            Sheet::SetPassword { stored: vec![] },
            &["Database file", "Password", "Repeat", "PIN"],
            "Save",
        ),
        (
            Sheet::Settings {
                path: None,
                values: settings_values(&None, None, None),
            },
            &["Vault folder", "Autofill", "Copy Password", "Clear after (s)"],
            "Save",
        ),
    ];
    for (sheet, rows, submit) in sheets {
        let panel = sheet.panel(&None);
        assert_eq!(labels(&panel), rows);
        assert_eq!(titles(&panel), [submit, "Cancel"]);
        assert_eq!(panel.title, "fido2kpxc");
    }
}

#[test]
fn notices_have_words() {
    let error = || "e".to_owned();
    for (notice, words) in [
        (Notice::CopiedDiagnostics, "Copied diagnostics to the clipboard. They contain no passwords or key material."),
        (Notice::CannotOpenConfig { error: error() }, "Cannot open the config: e"),
        (Notice::CannotShowVault { error: error() }, "Cannot show the vault: e"),
        (Notice::LoginFailed { error: error() }, "Start at Login failed: e"),
        (Notice::Fido { error: FidoError::Timeout }, "No touch detected. Try again."),
    ] {
        assert_eq!(notice.text(), words);
    }
    let help = Notice::Help { exe: "/x/fido2kpxc".to_owned() }.text();
    assert!(help.starts_with("Setup\n1. Choose Settings… and set the vault folder.\n"));
    assert!(help.ends_with("\nIf fido2kpxc is not on your PATH, use /x/fido2kpxc"));
}

#[test]
fn settings_start_with_the_draft_or_the_config() {
    let values = settings_values(&None, Some(&config()), Some("/Users/me"));
    assert_eq!(values.folder, "~/Sync");
    assert_eq!(values.clear, "60");
    assert_eq!((values.autofill, values.copy), (0, 1));
    let other = settings_values(&None, Some(&config()), Some("/Users/you"));
    assert_eq!(other.folder, "/Users/me/Sync");
    assert_eq!(settings_values(&None, Some(&config()), None).folder, "/Users/me/Sync");
    let none = settings_values(&None, None, None);
    assert_eq!((&*none.folder, &*none.clear, none.autofill, none.copy), ("", "20", 0, 0));
    let draft = Some(["f", "Fill only", "Off", "x"].map(str::to_owned).to_vec());
    let kept = settings_values(&draft, Some(&config()), None);
    assert_eq!((&*kept.folder, &*kept.clear, kept.autofill, kept.copy), ("f", "x", 1, 0));
    for (i, label) in AUTOFILL_LABELS.into_iter().enumerate() {
        assert_eq!(autofill_of(label), Autofill::ALL[i]);
    }
    assert_eq!(autofill_of("?"), Autofill::FillAndUnlock);
    let unset = ["/s", "Off", "Off", "1"].map(str::to_owned);
    assert_eq!(settings_text(&unset, None).unwrap_err().text(), "HOME is not set");
}

#[test]
fn the_menu_shows_the_state() {
    let ready = menu_state(Some(&Ok(config())), true, true, true, false);
    assert_eq!(ready.status, "fido2kpxc - Ready");
    assert!(!ready.copy_hidden && !ready.set_up_enabled && ready.manage_enabled);
    assert!(ready.grant_hidden && !ready.login_on);
    let error = Err("No vault".to_owned());
    let broken = menu_state(Some(&error), true, false, false, true);
    assert_eq!(broken.status, "fido2kpxc - No vault");
    assert!(broken.copy_hidden && broken.set_up_enabled && !broken.manage_enabled);
    assert!(!broken.grant_hidden && broken.login_on);
    assert_eq!(menu_state(None, false, false, false, false).status, "fido2kpxc - Ready");
    assert_eq!(icon(true), ("key.fill", "fido2kpxc"));
    assert_eq!(
        icon(false),
        ("exclamationmark.triangle.fill", "fido2kpxc: needs attention")
    );
    let lines = menu_lines();
    assert_eq!(lines.len(), 20);
    assert!(matches!(lines[1], MenuLine::Separator));
    assert!(matches!(
        lines[4],
        MenuLine::Item { title: "Set Up…", action: MenuAction::SetUp }
    ));
}

#[test]
fn one_password_is_copied_at_once() {
    match copy_menu(&["a".to_owned()]) {
        CopyMenu::Single { database } => assert_eq!(database, "a"),
        other => panic!("{other:?}"),
    }
    match copy_menu(&["a".to_owned(), ANY.to_owned()]) {
        CopyMenu::Several { items } => {
            let titles: Vec<_> = items.iter().map(|i| (&*i.title, &*i.database)).collect();
            assert_eq!(titles, [("a", "a"), ("Any other database", "*")]);
        }
        other => panic!("{other:?}"),
    }
    assert!(matches!(copy_menu(&[]), CopyMenu::Several { items } if items.is_empty()));
}

#[test]
fn diagnostics_list_names_and_states() {
    let lines = || vec!["KeePassXC: not running".to_owned()];
    assert_eq!(
        diagnostics("1.2", "14.0", "/c.toml", &Ok(config()), &Ok(vault()), true, false, lines()),
        "fido2kpxc 1.2 diagnostics\nmacOS: 14.0\nConfig: /c.toml (loads)\nAutofill: FillAndUnlock, Copy Password: true, clear after 60 s\nVault: /Users/me/Sync/vault.toml (loads)\nKeys: a, b, c\nStored passwords: pdb.kdbx\nAccessibility: granted\nStart at Login: false\nKeePassXC: not running\n"
    );
    assert_eq!(
        diagnostics("1.2", "14.0", "", &Err("bad".to_owned()), &Err("worse".to_owned()), false, true, lines()),
        "fido2kpxc 1.2 diagnostics\nmacOS: 14.0\nConfig: bad\nAccessibility: not granted\nStart at Login: true\nKeePassXC: not running\n"
    );
    let no_vault = diagnostics("1", "2", "/c", &Ok(config()), &Err("worse".to_owned()), false, true, vec![]);
    assert!(no_vault.contains("\nVault: worse\nAccessibility: not granted\nStart at Login: true\n"));
}
