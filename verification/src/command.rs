//! Messages for external commands that fail.

use crate::text::{chars_of, concat3, string_of, trim, trim_chars};
use vstd::prelude::*;
use vstd::string::*;

verus! {

/// What a failed command reported: its trimmed standard error, or else its trimmed
/// standard output; `None` when both are blank (the exit status is reported instead).
pub open spec fn spec_failure_detail(stderr: Seq<char>, stdout: Seq<char>) -> Option<Seq<char>> {
    if trim(stderr).len() > 0 {
        Some(trim(stderr))
    } else if trim(stdout).len() > 0 {
        Some(trim(stdout))
    } else {
        None
    }
}

/// The detail to report for a command that exited unsuccessfully.
pub fn failure_detail(stderr: &str, stdout: &str) -> (r: Option<String>)
    ensures
        match r {
            Some(d) => spec_failure_detail(stderr@, stdout@) == Some(d@),
            None => spec_failure_detail(stderr@, stdout@) is None,
        },
{
    let e = trim_chars(&chars_of(stderr));
    if e.len() > 0 {
        return Some(string_of(&e));
    }
    let o = trim_chars(&chars_of(stdout));
    if o.len() > 0 {
        return Some(string_of(&o));
    }
    None
}

/// `{command}: {detail}`.
pub fn command_error_message(command: &str, detail: &str) -> (r: String)
    ensures
        r@ == command@ + ": "@ + detail@,
{
    concat3(command, ": ", detail)
}

/// The message for a command that is not installed.
pub fn missing_executable_message(command: &str) -> (r: String)
    ensures
        r@ == "Executable '"@ + command@ + "' not found in PATH. Please make sure it is installed."@,
{
    concat3("Executable '", command, "' not found in PATH. Please make sure it is installed.")
}

/// The message when both `git remote add` and the `set-url` fallback fail.
pub fn fallback_failure_message(add_error: &str, set_error: &str) -> (r: String)
    ensures
        r@ == add_error@ + "; fallback set-url also failed: "@ + set_error@,
{
    concat3(add_error, "; fallback set-url also failed: ", set_error)
}

} // verus!
