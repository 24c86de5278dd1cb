use fido2kpxc::kpxc::{
    diagnose, fill_step, may_name_a_file, reads_texts, AxStatus, FillAction, FillError, FillEvent,
    FocusKey, Kpxc, Prompt, Running, Shown, Window, KDBX,
};

fn key(title: &str) -> FocusKey {
    FocusKey {
        pid: 7,
        title: title.to_owned(),
        description: "field".to_owned(),
    }
}

fn locked() -> Vec<Shown> {
    vec![Shown {
        text: "/d/pdb.kdbx".to_owned(),
        head: Some(KDBX),
    }]
}

fn prompt() -> Option<Prompt> {
    Some(Prompt {
        pid: 7,
        database: Some("pdb.kdbx".to_owned()),
    })
}

#[test]
fn a_focus_is_looked_at_once() {
    let mut kpxc = Kpxc::new();
    assert!(kpxc.must_look(&key("a")));
    assert!(kpxc.focused_prompt(7).is_none());
    kpxc.look(key("a"), "AXTextField", &locked());
    assert!(!kpxc.must_look(&key("a")));
    assert!(kpxc.must_look(&key("b")));
    let found = kpxc.focused_prompt(7).unwrap();
    assert_eq!(found.database.as_deref(), Some("pdb.kdbx"));
    kpxc.look(key("b"), "AXButton", &locked());
    assert!(kpxc.focused_prompt(7).is_none());
}

#[test]
fn each_prompt_is_reported_once() {
    let mut kpxc = Kpxc::new();
    assert!(kpxc.would_start(&prompt()));
    assert!(kpxc.poll(prompt(), true));
    assert!(!kpxc.would_start(&prompt()));
    assert!(!kpxc.poll(prompt(), true));
    assert_eq!(kpxc.database().as_deref(), Some("pdb.kdbx"));
    assert_eq!(kpxc.pid(), Some(7));
    assert!(!kpxc.poll(None, true));
    // The last prompt stays known while the PIN panel has focus.
    assert_eq!(kpxc.pid(), Some(7));
    assert!(kpxc.poll(prompt(), true));
}

#[test]
fn a_look_alike_is_not_reported() {
    let mut kpxc = Kpxc::new();
    assert!(!kpxc.poll(prompt(), false));
    assert_eq!(kpxc.database(), None);
    assert_eq!(kpxc.pid(), None);
}

#[test]
fn filling_goes_step_by_step() {
    let start = |known| fill_step(FillEvent::Started { known }, true);
    assert!(matches!(start(true), FillAction::Check));
    assert!(matches!(start(false), FillAction::Fail(FillError::NoPrompt)));
    let checked = |genuine| fill_step(FillEvent::Checked { genuine }, true);
    assert!(matches!(checked(true), FillAction::Write));
    assert!(matches!(checked(false), FillAction::Fail(FillError::NotGenuine)));
    let wrote = |status, press| fill_step(FillEvent::Wrote { status }, press);
    assert!(matches!(wrote(AxStatus::Success, true), FillAction::Search));
    assert!(matches!(wrote(AxStatus::Success, false), FillAction::Done));
    let found = |found| fill_step(FillEvent::Searched { found }, true);
    assert!(matches!(found(true), FillAction::Press));
    assert!(matches!(found(false), FillAction::Fail(FillError::NoButton)));
    let pressed = |status| fill_step(FillEvent::Pressed { status }, true);
    assert!(matches!(pressed(AxStatus::Success), FillAction::Done));
    assert!(matches!(
        pressed(AxStatus::CannotComplete("late".to_owned())),
        FillAction::Done
    ));
}

#[test]
fn failed_fills_have_words() {
    let words = |action| match action {
        FillAction::Fail(error) => error.message(),
        other => panic!("{other:?}"),
    };
    let wrote = |status| words(fill_step(FillEvent::Wrote { status }, false));
    assert_eq!(
        wrote(AxStatus::Other("AXError(-25201)".to_owned())),
        "KeePassXC rejected the password field write (AXError(-25201))"
    );
    assert_eq!(
        wrote(AxStatus::CannotComplete("AXError(-25204)".to_owned())),
        "KeePassXC rejected the password field write (AXError(-25204))"
    );
    let status = AxStatus::Other("AXError(-25205)".to_owned());
    assert_eq!(
        words(fill_step(FillEvent::Pressed { status }, true)),
        "Pressing Unlock failed (AXError(-25205))"
    );
    assert_eq!(
        FillError::NoPrompt.message(),
        "No KeePassXC password prompt is known"
    );
    assert_eq!(
        FillError::NotGenuine.message(),
        "The window asking for the password is not the signed KeePassXC"
    );
    assert_eq!(
        FillError::NoButton.message(),
        "The Unlock button is missing"
    );
}

#[test]
fn only_absolute_paths_in_text_fields_matter() {
    assert!(may_name_a_file("/a"));
    assert!(!may_name_a_file("a/b"));
    assert!(!may_name_a_file(""));
    assert!(reads_texts("AXTextField"));
    assert!(!reads_texts("AXStaticText"));
}

#[test]
fn diagnosis_tells_what_is_seen() {
    assert_eq!(diagnose(&None), ["KeePassXC: not running"]);
    let mut app = Running {
        version: None,
        pid: 42,
        genuine: false,
        frontmost: true,
        window: None,
    };
    assert_eq!(
        diagnose(&Some(app)),
        [
            "KeePassXC: running, version unknown, pid 42",
            "KeePassXC signature check: FAILED",
            "KeePassXC frontmost: true",
            "Focused window: none",
        ]
    );
    app = Running {
        version: Some("2.7.9".to_owned()),
        pid: -1,
        genuine: true,
        frontmost: false,
        window: Some(Window {
            title: "a \"b\"".to_owned(),
            role: "AXTextField".to_owned(),
            texts: locked(),
        }),
    };
    assert_eq!(
        diagnose(&Some(app)),
        [
            "KeePassXC: running, version 2.7.9, pid -1",
            "KeePassXC signature check: passed",
            "KeePassXC frontmost: false",
            "Focused window: \"a \\\"b\\\"\"",
            "Focused element role: AXTextField",
            "Database path label: pdb.kdbx",
            "Password prompt when frontmost: true",
        ]
    );
}
