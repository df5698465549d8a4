//! The completion command's decision: which shell a name denotes.
//!
//! Emitting the completion script itself is generator plumbing outside this
//! crate; the library decides, case-insensitively, which shell was asked
//! for, and rejects the rest.

use vstd::prelude::*;
use vstd::string::StringExecFns;

use crate::cli::Completion;
use crate::denver::DenverError;
use crate::textutil::lower_of;
use crate::textutil::to_lower;

verus! {

/// The shells completions exist for.
#[derive(Clone, Copy, PartialEq, Eq, Structural, Debug)]
pub enum Shell {
    Bash,
    Zsh,
}

/// Failure of the completion command.
#[derive(Debug)]
pub enum CompletionError {
    /// No completion is available for the named shell; carries the
    /// lower-cased name asked for.
    UnkownShell(String),
}

/// The shell name an unknown-shell error carries.
pub open spec fn spec_unknown_shell(e: CompletionError) -> Seq<char> {
    match e {
        CompletionError::UnkownShell(s) => s@,
    }
}

/// Which shell an already lower-cased name denotes.
pub fn shell_of_name(name: &str) -> (r: Option<Shell>)
    ensures
        r == Some(Shell::Zsh) <==> name@ == "zsh"@,
        r == Some(Shell::Bash) <==> name@ == "bash"@,
        r is None <==> (name@ != "zsh"@ && name@ != "bash"@),
{
    proof {
        reveal_strlit("zsh");
        reveal_strlit("bash");
        assert("zsh"@.len() == 3);
        assert("bash"@.len() == 4);
        assert("zsh"@ != "bash"@);
    }
    let n = String::from_str(name);
    if n == String::from_str("zsh") {
        Some(Shell::Zsh)
    } else if n == String::from_str("bash") {
        Some(Shell::Bash)
    } else {
        None
    }
}

/// Decides the completion command: the asked-for shell, matched
/// case-insensitively; any other name is an unknown-shell error carrying
/// the lower-cased name.
pub fn completion(args: &Completion) -> (r: Result<Shell, CompletionError>)
    ensures
        r == Ok::<Shell, CompletionError>(Shell::Zsh) <==> lower_of(args.shell@) == "zsh"@,
        r == Ok::<Shell, CompletionError>(Shell::Bash) <==> lower_of(args.shell@) == "bash"@,
        r matches Err(e) ==> spec_unknown_shell(e) == lower_of(args.shell@),
        r is Err <==> (lower_of(args.shell@) != "zsh"@ && lower_of(args.shell@) != "bash"@),
{
    let lowered = to_lower(args.shell.as_str());
    match shell_of_name(lowered.as_str()) {
        Some(shell) => Ok(shell),
        None => Err(CompletionError::UnkownShell(lowered)),
    }
}

/// The invocation error an unknown completion shell surfaces as.
pub fn completion_error(e: &CompletionError) -> (r: DenverError)
    ensures
        r matches DenverError::CompletionError(m) && m@ == "No completion available for "@
            + spec_unknown_shell(*e),
{
    match e {
        CompletionError::UnkownShell(s) => {
            let mut msg = String::from_str("No completion available for ");
            msg.append(s.as_str());
            DenverError::CompletionError(msg)
        },
    }
}

} // verus!
