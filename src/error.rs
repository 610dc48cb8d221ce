//! Failures of a status query or a playback command, and the outcome of
//! running one script.

use vstd::prelude::*;

verus! {

/// Why a status query or a playback command failed.
#[derive(Clone, Debug, PartialEq, Eq)]
pub enum SpotifyError {
    /// The script could not be launched (with the launcher's message), or it
    /// exited with a failure status.
    Execution(String),
    /// The script succeeded but its output did not hold six fields.
    MalformedOutput,
    /// The action name is not one of the recognised ones.
    InvalidAction,
}

/// The message given when a script exits with a failure status.
pub open spec fn script_failed_text() -> Seq<char> {
    "Failed to execute AppleScript"@
}

pub open spec fn malformed_text() -> Seq<char> {
    "Invalid output format from AppleScript"@
}

pub open spec fn invalid_action_text() -> Seq<char> {
    "Invalid action"@
}

/// The text that describes an error.
pub open spec fn error_text(e: SpotifyError) -> Seq<char> {
    match e {
        SpotifyError::Execution(m) => m@,
        SpotifyError::MalformedOutput => malformed_text(),
        SpotifyError::InvalidAction => invalid_action_text(),
    }
}

impl SpotifyError {
    /// The error as a line of text.
    pub fn message(&self) -> (r: String)
        ensures
            r@ == error_text(*self),
    {
        match self {
            SpotifyError::Execution(m) => m.clone(),
            SpotifyError::MalformedOutput => String::from_str("Invalid output format from AppleScript"),
            SpotifyError::InvalidAction => String::from_str("Invalid action"),
        }
    }
}

/// What running one script gave: whether it exited with success, and the
/// bytes it wrote to standard output.
pub struct ScriptRun {
    pub success: bool,
    pub stdout: Vec<u8>,
}

/// `r` is an execution error with message `msg`.
pub open spec fn is_execution_error<T>(r: Result<T, SpotifyError>, msg: Seq<char>) -> bool {
    r matches Err(SpotifyError::Execution(m)) && m@ == msg
}

/// What `check_run` makes of the outcome of running a script.
pub open spec fn run_checked(run: Result<ScriptRun, String>, r: Result<Vec<u8>, SpotifyError>) -> bool {
    match run {
        Err(m) => is_execution_error(r, m@),
        Ok(out) => if out.success {
            r matches Ok(b) && b@ == out.stdout@
        } else {
            is_execution_error(r, script_failed_text())
        },
    }
}

/// Accepts the output of a script that was launched and exited with success;
/// a launch failure or a failure status becomes an execution error, whatever
/// the script printed.
pub fn check_run(run: Result<ScriptRun, String>) -> (r: Result<Vec<u8>, SpotifyError>)
    ensures
        run_checked(run, r),
{
    match run {
        Err(m) => Err(SpotifyError::Execution(m)),
        Ok(out) => {
            if out.success {
                Ok(out.stdout)
            } else {
                Err(SpotifyError::Execution(String::from_str("Failed to execute AppleScript")))
            }
        },
    }
}

} // verus!
