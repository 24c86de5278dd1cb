use fido2kpxc::cli::{
    parse, secret_problem, usage_error, Command, SecretProblem, COMPLETIONS, HELP, USAGE,
};

#[test]
fn completion_script_offers_every_command_in_the_usage() {
    let commands = USAGE
        .split(['[', '|', ']'])
        .skip(1)
        .filter_map(|part| part.split_whitespace().next())
        // Nested `[--option VALUE]` groups are options, not commands.
        .filter(|word| !word.starts_with('-'));
    for command in commands {
        assert!(
            COMPLETIONS.contains(&format!("'{command}:")),
            "{command} is missing"
        );
    }
}

#[test]
fn completion_script_offers_every_option() {
    let options = USAGE
        .split_whitespace()
        .map(|word| word.trim_matches(['[', ']', '|']))
        .filter(|word| word.starts_with("--"))
        .chain(["--help", "-h"]);
    for option in options {
        assert!(
            COMPLETIONS.contains(&format!(" {option}")),
            "{option} is missing"
        );
    }
}

fn words(line: &str) -> Vec<String> {
    line.split_whitespace().map(str::to_owned).collect()
}

#[test]
fn every_command_line_is_understood() {
    assert!(matches!(parse(&[]), Some(Command::App)));
    match parse(&words("enroll --label a")) {
        Some(Command::Enroll { label, database }) => assert_eq!((&*label, &*database), ("a", "*")),
        other => panic!("{other:?}"),
    }
    match parse(&words("enroll --label a --database d")) {
        Some(Command::Enroll { label, database }) => assert_eq!((&*label, &*database), ("a", "d")),
        other => panic!("{other:?}"),
    }
    match parse(&words("enroll-key --label a")) {
        Some(Command::EnrollKey { label }) => assert_eq!(label, "a"),
        other => panic!("{other:?}"),
    }
    match parse(&words("remove-key --label a")) {
        Some(Command::RemoveKey { label }) => assert_eq!(label, "a"),
        other => panic!("{other:?}"),
    }
    match parse(&words("set-secret")) {
        Some(Command::SetSecret { database }) => assert_eq!(database, "*"),
        other => panic!("{other:?}"),
    }
    match parse(&words("set-secret --database d")) {
        Some(Command::SetSecret { database }) => assert_eq!(database, "d"),
        other => panic!("{other:?}"),
    }
    match parse(&words("remove-secret --database d")) {
        Some(Command::RemoveSecret { database }) => assert_eq!(database, "d"),
        other => panic!("{other:?}"),
    }
    assert!(matches!(parse(&words("list-keys")), Some(Command::ListKeys)));
    assert!(matches!(
        parse(&words("list-databases")),
        Some(Command::ListDatabases)
    ));
    for help in ["help", "--help", "-h"] {
        assert!(matches!(parse(&words(help)), Some(Command::Help)));
    }
    assert!(matches!(
        parse(&words("completions zsh")),
        Some(Command::Completions)
    ));
}

#[test]
fn other_command_lines_are_refused() {
    for line in [
        "enroll",
        "enroll --label",
        "enroll a b",
        "enroll --label a --database",
        "enroll --label a --label b",
        "enroll-key a b",
        "remove-secret",
        "completions bash",
        "list-keys now",
        "enroll --label a --database b c",
    ] {
        assert!(parse(&words(line)).is_none(), "{line}");
    }
    assert_eq!(
        usage_error(),
        format!("{USAGE}\nRun `fido2kpxc help` for details.")
    );
    assert!(HELP.contains("enroll-key --label NAME"));
}

#[test]
fn a_new_password_is_not_empty_and_repeated() {
    assert_eq!(secret_problem("", None), Some(SecretProblem::Empty));
    assert_eq!(secret_problem("", Some("")), Some(SecretProblem::Empty));
    assert_eq!(secret_problem("a", None), None);
    assert_eq!(secret_problem("a", Some("a")), None);
    assert_eq!(secret_problem("a", Some("b")), Some(SecretProblem::Differs));
    assert_eq!(SecretProblem::Empty.message(), "The password is empty");
    assert_eq!(SecretProblem::Differs.message(), "The passwords differ");
}
