//! The terminal commands.

use vstd::prelude::*;
use vstd::string::*;

use crate::text::{text_eq, texts};
use crate::vault::ANY;

verus! {

/// The commands in one line.
pub const USAGE: &'static str =
    "usage: fido2kpxc [enroll --label NAME [--database FILE] | enroll-key --label NAME | remove-key --label NAME | set-secret [--database FILE] | remove-secret --database FILE | list-keys | list-databases | completions zsh | help]";

/// The commands explained.
pub const HELP: &'static str = "fido2kpxc: unlock KeePassXC with a FIDO2 security key

Run without arguments to start the menu-bar app.

Commands:
  enroll --label NAME [--database FILE]  Create the vault with the first security key
  enroll-key --label NAME                Add a backup security key
  remove-key --label NAME                Remove a key and move the vault to a new data key
  set-secret [--database FILE]           Store the password for a database file, such as pdb.kdbx
  remove-secret --database FILE          Remove the stored password for a database file
  list-keys                              List the labels of the enrolled keys
  list-databases                         List the databases with a stored password
  completions zsh                        Print the zsh completion script
  help, --help, -h                       Show this help

Without --database, a password applies to any database that has no entry of its own (*).
Config: ~/Library/Application Support/fido2kpxc/config.toml
";

/// The zsh completion script.
pub const COMPLETIONS: &'static str = "#compdef fido2kpxc

_fido2kpxc() {
  local -a commands labels databases
  commands=(
    'enroll:Create the vault with the first security key'
    'enroll-key:Add a backup security key'
    'remove-key:Remove a key and move the vault to a new data key'
    'set-secret:Store the password for a database file'
    'remove-secret:Remove the stored password for a database file'
    'list-keys:List the labels of the enrolled keys'
    'list-databases:List the databases with a stored password'
    'completions:Print the zsh completion script'
    'help:Show the commands'
  )
  if (( CURRENT == 2 )); then
    _describe 'command' commands
    compadd -- --help -h
    return
  fi
  case $words[2] in
    enroll)
      case $words[CURRENT-1] in
        --label|--database) ;;
        *) compadd -- --label --database ;;
      esac
      ;;
    enroll-key)
      (( CURRENT == 3 )) && compadd -- --label
      ;;
    remove-key)
      if (( CURRENT == 3 )); then
        compadd -- --label
      elif (( CURRENT == 4 )); then
        labels=(${(f)\"$(fido2kpxc list-keys 2>/dev/null)\"})
        compadd -a labels
      fi
      ;;
    set-secret)
      (( CURRENT == 3 )) && compadd -- --database
      ;;
    remove-secret)
      if (( CURRENT == 3 )); then
        compadd -- --database
      elif (( CURRENT == 4 )); then
        databases=(${(f)\"$(fido2kpxc list-databases 2>/dev/null)\"})
        compadd -a databases
      fi
      ;;
    completions)
      (( CURRENT == 3 )) && compadd zsh
      ;;
  esac
}

_fido2kpxc \"$@\"
";

/// What to run.
#[derive(Debug)]
pub enum Command {
    /// The menu-bar app.
    App,
    Enroll { label: String, database: String },
    EnrollKey { label: String },
    RemoveKey { label: String },
    SetSecret { database: String },
    RemoveSecret { database: String },
    ListKeys,
    ListDatabases,
    Help,
    Completions,
}

/// A [`Command`] as characters.
pub enum CommandM {
    App,
    Enroll { label: Seq<char>, database: Seq<char> },
    EnrollKey { label: Seq<char> },
    RemoveKey { label: Seq<char> },
    SetSecret { database: Seq<char> },
    RemoveSecret { database: Seq<char> },
    ListKeys,
    ListDatabases,
    Help,
    Completions,
}

impl View for Command {
    type V = CommandM;

    open spec fn view(&self) -> CommandM {
        match *self {
            Command::App => CommandM::App,
            Command::Enroll { label, database } => CommandM::Enroll {
                label: label@,
                database: database@,
            },
            Command::EnrollKey { label } => CommandM::EnrollKey { label: label@ },
            Command::RemoveKey { label } => CommandM::RemoveKey { label: label@ },
            Command::SetSecret { database } => CommandM::SetSecret { database: database@ },
            Command::RemoveSecret { database } => CommandM::RemoveSecret { database: database@ },
            Command::ListKeys => CommandM::ListKeys,
            Command::ListDatabases => CommandM::ListDatabases,
            Command::Help => CommandM::Help,
            Command::Completions => CommandM::Completions,
        }
    }
}

/// The command that the arguments stand for, if they stand for one.
pub open spec fn command_of(args: Seq<Seq<char>>) -> Option<CommandM> {
    if args.len() == 0 {
        Some(CommandM::App)
    } else if args.len() == 1 {
        if args[0] == "set-secret"@ {
            Some(CommandM::SetSecret { database: ANY@ })
        } else if args[0] == "list-keys"@ {
            Some(CommandM::ListKeys)
        } else if args[0] == "list-databases"@ {
            Some(CommandM::ListDatabases)
        } else if args[0] == "help"@ || args[0] == "--help"@ || args[0] == "-h"@ {
            Some(CommandM::Help)
        } else {
            None
        }
    } else if args.len() == 2 {
        if args[0] == "completions"@ && args[1] == "zsh"@ {
            Some(CommandM::Completions)
        } else {
            None
        }
    } else if args.len() == 3 {
        if args[0] == "enroll"@ && args[1] == "--label"@ {
            Some(CommandM::Enroll { label: args[2], database: ANY@ })
        } else if args[0] == "enroll-key"@ && args[1] == "--label"@ {
            Some(CommandM::EnrollKey { label: args[2] })
        } else if args[0] == "remove-key"@ && args[1] == "--label"@ {
            Some(CommandM::RemoveKey { label: args[2] })
        } else if args[0] == "set-secret"@ && args[1] == "--database"@ {
            Some(CommandM::SetSecret { database: args[2] })
        } else if args[0] == "remove-secret"@ && args[1] == "--database"@ {
            Some(CommandM::RemoveSecret { database: args[2] })
        } else {
            None
        }
    } else if args.len() == 5 {
        if args[0] == "enroll"@ && args[1] == "--label"@ && args[3] == "--database"@ {
            Some(CommandM::Enroll { label: args[2], database: args[4] })
        } else {
            None
        }
    } else {
        None
    }
}

/// The command that the arguments stand for, if they stand for one.
pub fn parse(args: &[String]) -> (command: Option<Command>)
    ensures
        command is Some <==> command_of(texts(args@)) is Some,
        command matches Some(c) ==> command_of(texts(args@)) == Some(c@),
{
    let ghost words = texts(args@);
    assert(forall|i: int| 0 <= i < args@.len() ==> words[i] == (#[trigger] args@[i])@);
    if args.len() == 0 {
        return Some(Command::App);
    }
    let first = args[0].as_str();
    if args.len() == 1 {
        if text_eq(first, "set-secret") {
            Some(Command::SetSecret { database: ANY.to_owned() })
        } else if text_eq(first, "list-keys") {
            Some(Command::ListKeys)
        } else if text_eq(first, "list-databases") {
            Some(Command::ListDatabases)
        } else if text_eq(first, "help") || text_eq(first, "--help") || text_eq(first, "-h") {
            Some(Command::Help)
        } else {
            None
        }
    } else if args.len() == 2 {
        if text_eq(first, "completions") && text_eq(args[1].as_str(), "zsh") {
            Some(Command::Completions)
        } else {
            None
        }
    } else if args.len() == 3 {
        let option = args[1].as_str();
        if text_eq(first, "enroll") && text_eq(option, "--label") {
            Some(Command::Enroll { label: args[2].clone(), database: ANY.to_owned() })
        } else if text_eq(first, "enroll-key") && text_eq(option, "--label") {
            Some(Command::EnrollKey { label: args[2].clone() })
        } else if text_eq(first, "remove-key") && text_eq(option, "--label") {
            Some(Command::RemoveKey { label: args[2].clone() })
        } else if text_eq(first, "set-secret") && text_eq(option, "--database") {
            Some(Command::SetSecret { database: args[2].clone() })
        } else if text_eq(first, "remove-secret") && text_eq(option, "--database") {
            Some(Command::RemoveSecret { database: args[2].clone() })
        } else {
            None
        }
    } else if args.len() == 5 {
        if text_eq(first, "enroll") && text_eq(args[1].as_str(), "--label") && text_eq(
            args[3].as_str(),
            "--database",
        ) {
            Some(Command::Enroll { label: args[2].clone(), database: args[4].clone() })
        } else {
            None
        }
    } else {
        None
    }
}

/// What a wrong command line is answered.
pub fn usage_error() -> (text: String)
    ensures
        text@ == USAGE@ + "\nRun `fido2kpxc help` for details."@,
{
    let mut text = USAGE.to_owned();
    text.append("\nRun `fido2kpxc help` for details.");
    text
}

/// Why a new password is refused.
#[derive(Debug, Clone, Copy, PartialEq, Eq, Structural)]
pub enum SecretProblem {
    Empty,
    Differs,
}

impl SecretProblem {
    /// The problem in words.
    pub open spec fn words(self) -> Seq<char> {
        match self {
            SecretProblem::Empty => "The password is empty"@,
            SecretProblem::Differs => "The passwords differ"@,
        }
    }

    /// The problem in words.
    pub fn message(self) -> (text: &'static str)
        ensures
            text@ == self.words(),
    {
        match self {
            SecretProblem::Empty => "The password is empty",
            SecretProblem::Differs => "The passwords differ",
        }
    }
}

/// What is wrong with a new password, before (`None`) or after it was repeated.
pub fn secret_problem(secret: &str, repeat: Option<&str>) -> (problem: Option<SecretProblem>)
    ensures
        problem == (if secret@.len() == 0 {
            Some(SecretProblem::Empty)
        } else {
            match repeat {
                Some(repeat) => if repeat@ == secret@ {
                    None
                } else {
                    Some(SecretProblem::Differs)
                },
                None => None,
            }
        }),
{
    let empty = text_eq(secret, "");
    proof {
        reveal_strlit("");
        if secret@.len() == 0 {
            assert(secret@ =~= ""@);
        }
    }
    if empty {
        return Some(SecretProblem::Empty);
    }
    match repeat {
        Some(repeat) => if text_eq(repeat, secret) {
            None
        } else {
            Some(SecretProblem::Differs)
        },
        None => None,
    }
}

/// Each command line runs its command, with the label and the database exactly as they were typed, and
/// with `*` where no database was.
pub proof fn a_command_line_runs_its_command(label: Seq<char>, database: Seq<char>)
    ensures
        command_of(Seq::empty()) == Some(CommandM::App),
        command_of(seq!["enroll"@, "--label"@, label]) == Some(
            CommandM::Enroll { label, database: "*"@ },
        ),
        command_of(seq!["enroll"@, "--label"@, label, "--database"@, database]) == Some(
            CommandM::Enroll { label, database },
        ),
        command_of(seq!["enroll-key"@, "--label"@, label]) == Some(CommandM::EnrollKey { label }),
        command_of(seq!["remove-key"@, "--label"@, label]) == Some(CommandM::RemoveKey { label }),
        command_of(seq!["set-secret"@]) == Some(CommandM::SetSecret { database: "*"@ }),
        command_of(seq!["set-secret"@, "--database"@, database]) == Some(
            CommandM::SetSecret { database },
        ),
        command_of(seq!["remove-secret"@, "--database"@, database]) == Some(
            CommandM::RemoveSecret { database },
        ),
        command_of(seq!["list-keys"@]) == Some(CommandM::ListKeys),
        command_of(seq!["list-databases"@]) == Some(CommandM::ListDatabases),
        command_of(seq!["completions"@, "zsh"@]) == Some(CommandM::Completions),
        command_of(seq!["help"@]) == Some(CommandM::Help),
        command_of(seq!["--help"@]) == Some(CommandM::Help),
        command_of(seq!["-h"@]) == Some(CommandM::Help),
{
    reveal_strlit("enroll");
    reveal_strlit("enroll-key");
    reveal_strlit("remove-key");
    reveal_strlit("set-secret");
    reveal_strlit("remove-secret");
    reveal_strlit("list-keys");
    reveal_strlit("list-databases");
    reveal_strlit("help");
    reveal_strlit("--help");
    reveal_strlit("-h");
    reveal_strlit("--label");
    reveal_strlit("--database");
    assert("enroll-key"@[0] == 'e');
    assert("remove-key"@[0] == 'r');
    assert("set-secret"@[0] == 's');
    assert("--label"@.len() == 7);
    assert("--database"@.len() == 10);
    assert("remove-secret"@.len() == 13);
    assert("enroll"@.len() == 6);
    assert("--help"@.len() == 6 && "--help"@[0] == '-');
    assert("list-keys"@.len() == 9);
    assert("list-databases"@.len() == 14);
}

/// A command comes from its own command lines alone.
pub proof fn a_command_comes_from_its_command_line(args: Seq<Seq<char>>)
    ensures
        match command_of(args) {
            None => true,
            Some(CommandM::App) => args.len() == 0,
            Some(CommandM::Enroll { label, database }) => args == seq![
                "enroll"@,
                "--label"@,
                label,
                "--database"@,
                database,
            ] || (database == "*"@ && args == seq!["enroll"@, "--label"@, label]),
            Some(CommandM::EnrollKey { label }) => args == seq!["enroll-key"@, "--label"@, label],
            Some(CommandM::RemoveKey { label }) => args == seq!["remove-key"@, "--label"@, label],
            Some(CommandM::SetSecret { database }) => args == seq![
                "set-secret"@,
                "--database"@,
                database,
            ] || (database == "*"@ && args == seq!["set-secret"@]),
            Some(CommandM::RemoveSecret { database }) => args == seq![
                "remove-secret"@,
                "--database"@,
                database,
            ],
            Some(CommandM::ListKeys) => args == seq!["list-keys"@],
            Some(CommandM::ListDatabases) => args == seq!["list-databases"@],
            Some(CommandM::Help) => args == seq!["help"@] || args == seq!["--help"@] || args == seq![
                "-h"@,
            ],
            Some(CommandM::Completions) => args == seq!["completions"@, "zsh"@],
        },
{
    if args.len() == 1 {
        assert(args =~= seq![args[0]]);
    } else if args.len() == 2 {
        assert(args =~= seq![args[0], args[1]]);
    } else if args.len() == 3 {
        assert(args =~= seq![args[0], args[1], args[2]]);
    } else if args.len() == 5 {
        assert(args =~= seq![args[0], args[1], args[2], args[3], args[4]]);
    }
}

} // verus!
