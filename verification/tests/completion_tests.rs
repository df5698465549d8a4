//! The completion command's shell decision.

use denver::cli::Completion;
use denver::completion::{completion, completion_error, CompletionError, Shell};
use denver::denver::DenverError;

fn args(shell: &str) -> Completion {
    Completion {
        shell: shell.to_string(),
    }
}

#[test]
fn known_shells_case_insensitively() {
    assert_eq!(completion(&args("zsh")).unwrap(), Shell::Zsh);
    assert_eq!(completion(&args("ZSH")).unwrap(), Shell::Zsh);
    assert_eq!(completion(&args("bash")).unwrap(), Shell::Bash);
    assert_eq!(completion(&args("Bash")).unwrap(), Shell::Bash);
}

#[test]
fn unknown_shell_is_reported() {
    let e = completion(&args("Fish")).unwrap_err();
    let CompletionError::UnkownShell(ref s) = e;
    assert_eq!(s, "fish");
    let d = completion_error(&e);
    match d {
        DenverError::CompletionError(m) => {
            assert_eq!(m, "No completion available for fish");
        }
        _ => panic!("expected a completion error"),
    }
}
