use fido2kpxc::kpxc::{
    database_from_texts, is_password_prompt, judge, Focus, Shown, Verdict, KDBX,
};
use std::io::{Read, Write};

/// The files that the tests show on screen.
struct Files {
    dir: tempfile::TempDir,
    files: Vec<tempfile::NamedTempFile>,
}

impl Files {
    fn add(&mut self, stem: &str, suffix: &str, bytes: &[u8]) -> String {
        let mut file = tempfile::Builder::new()
            .prefix(stem)
            .suffix(suffix)
            .rand_bytes(0)
            .tempfile_in(self.dir.path())
            .unwrap();
        file.write_all(bytes).unwrap();
        let path = file.path().to_string_lossy().into_owned();
        self.files.push(file);
        path
    }

    /// A text with the first bytes of the file that it names.
    fn shown(&self, text: &str) -> Shown {
        let head = self
            .files
            .iter()
            .find(|file| file.path().to_str() == Some(text))
            .and_then(|file| {
                let mut head = [0; 4];
                file.reopen().unwrap().read_exact(&mut head).ok()?;
                Some(head)
            });
        Shown {
            text: text.to_owned(),
            head,
        }
    }

    fn texts(&self, items: &[&str]) -> Vec<Shown> {
        items.iter().map(|text| self.shown(text)).collect()
    }
}

fn focus<'a>(frontmost: bool, role: &'a str, window_texts: &'a [Shown]) -> Focus<'a> {
    Focus {
        frontmost,
        role,
        window_texts,
    }
}

/// A folder with `pdb.kdbx`, which starts with the KDBX signature, and `notes.txt`, which does not.
fn files() -> (Files, String, String) {
    let mut files = Files {
        dir: tempfile::tempdir().unwrap(),
        files: Vec::new(),
    };
    let database = files.add(
        "pdb",
        ".kdbx",
        &[0x03, 0xD9, 0xA2, 0x9A, 0x67, 0xFB, 0x4B, 0xB5],
    );
    let other = files.add("notes", ".txt", b"/etc/hosts");
    (files, database, other)
}

#[test]
fn database_file_comes_from_the_path_label() {
    let (dir, database, other) = files();
    let shown = dir.texts(&[
        "Unlock KeePassXC Database",
        other.as_str(),
        database.as_str(),
        "Enter Password:",
    ]);
    assert_eq!(database_from_texts(&shown).as_deref(), Some("pdb.kdbx"));
    assert_eq!(
        database_from_texts(&dir.texts(&["/etc/hosts", other.as_str()])),
        None
    );
}

#[test]
fn unlock_screen_is_a_prompt_in_any_language() {
    let (dir, database, _) = files();
    let german = dir.texts(&[
        "KeePassXC-Datenbank entsperren",
        &database,
        "Passwort eingeben:",
    ]);
    assert!(is_password_prompt(&focus(true, "AXTextField", &german)));
}

#[test]
fn unlocked_window_is_not_a_prompt() {
    // An entry titled with a path must not count as the unlock screen's path label.
    let (dir, _, other) = files();
    let unlocked = dir.texts(&["Root", "/etc/hosts", &other]);
    assert!(!is_password_prompt(&focus(true, "AXTextField", &unlocked)));
}

#[test]
fn focus_outside_a_text_field_is_not_a_prompt() {
    let (dir, database, _) = files();
    let locked = dir.texts(&[&database]);
    assert!(!is_password_prompt(&focus(true, "AXButton", &locked)));
}

#[test]
fn background_keepassxc_is_not_a_prompt() {
    let (dir, database, _) = files();
    let locked = dir.texts(&[&database]);
    assert!(!is_password_prompt(&focus(false, "AXTextField", &locked)));
}

#[test]
fn unlock_screen_gone_means_unlocked() {
    let (dir, database, _) = files();
    let before = dir.texts(&["Unlock KeePassXC Database", &database, "Password"]);
    let after = dir.texts(&["Entries", "Title", "Username"]);
    assert_eq!(
        judge("pdb.kdbx", &before, &after, true, true),
        Some(Verdict::Unlocked)
    );
}

#[test]
fn unlock_screen_still_there_quotes_the_new_message() {
    let (dir, database, _) = files();
    let before = dir.texts(&["Unlock KeePassXC Database", &database, "Password"]);
    let after = dir.texts(&[
        "Unlock KeePassXC Database",
        &database,
        "Invalid credentials were provided, please try again.",
        "Password",
    ]);
    assert_eq!(
        judge("pdb.kdbx", &before, &after, true, false),
        Some(Verdict::Rejected(Some(
            "Invalid credentials were provided, please try again.".to_owned()
        )))
    );
}

#[test]
fn a_message_shown_before_the_press_is_not_quoted() {
    let (dir, database, _) = files();
    let before = dir.texts(&[&database, "Invalid credentials", ""]);
    let after = dir.texts(&[&database, "Invalid credentials", ""]);
    assert_eq!(
        judge("pdb.kdbx", &before, &after, true, true),
        Some(Verdict::Rejected(None))
    );
}

#[test]
fn another_database_on_screen_means_this_one_unlocked() {
    let (mut dir, database, _) = files();
    let other = dir.add(
        "work",
        ".kdbx",
        &[0x03, 0xD9, 0xA2, 0x9A, 0x67, 0xFB, 0x4B, 0xB5],
    );
    let before = dir.texts(&[&database]);
    let after = dir.texts(&[&other]);
    assert_eq!(
        judge("pdb.kdbx", &before, &after, true, true),
        Some(Verdict::Unlocked)
    );
}

#[test]
fn a_running_unlock_is_not_judged() {
    // KeePassXC answers during a long key derivation with the unlock screen still up.
    let (dir, database, _) = files();
    let before = dir.texts(&["Unlock KeePassXC Database", &database, "Password"]);
    assert_eq!(judge("pdb.kdbx", &before, &before, true, false), None);
}

#[test]
fn a_running_unlock_ends_as_unlocked_when_the_screen_goes() {
    let (dir, database, _) = files();
    let before = dir.texts(&[&database]);
    assert_eq!(
        judge("pdb.kdbx", &before, &dir.texts(&["Entries"]), true, false),
        Some(Verdict::Unlocked)
    );
}

#[test]
fn a_message_while_the_screen_is_disabled_is_not_a_failure() {
    // KeePassXC can show a status message of its own while it unlocks.
    let (dir, database, _) = files();
    let before = dir.texts(&[&database]);
    let now = dir.texts(&[&database, "Touch your hardware key to continue"]);
    assert_eq!(judge("pdb.kdbx", &before, &now, false, false), None);
}

#[test]
fn a_path_that_ends_in_dots_names_no_database() {
    let shown = |text: &str| Shown {
        text: text.to_owned(),
        head: Some(KDBX),
    };
    assert_eq!(
        database_from_texts(&[shown("/a/b.kdbx/")]).as_deref(),
        Some("b.kdbx")
    );
    assert_eq!(database_from_texts(&[shown("/a/..")]), None);
    assert_eq!(database_from_texts(&[shown("a/b.kdbx")]), None);
    assert_eq!(database_from_texts(&[]), None);
}
