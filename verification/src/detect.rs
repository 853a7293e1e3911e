//! The `ddcutil detect --brief` command: its arguments and what its outcome
//! means.
use vstd::prelude::*;
use vstd::string::*;

use crate::brightness::{failure_message, launch_error_message, launch_error_spec};
use crate::monitor::{Monitor, MonitorView, monitors_view};
use crate::parser::{detect_report, parse_detect_output};
use crate::text::{decode_lossy, lossy_utf8, strings_view, trimmed};

verus! {

/// The arguments of `ddcutil detect --brief`.
pub open spec fn detect_args_spec() -> Seq<Seq<char>> {
    seq!["detect"@, "--brief"@]
}

/// The arguments that list the monitors.
pub fn detect_args() -> (args: Vec<String>)
    ensures
        strings_view(args@) == detect_args_spec(),
{
    let mut args: Vec<String> = Vec::new();
    args.push(String::from_str("detect"));
    args.push(String::from_str("--brief"));
    assert(strings_view(args@) =~= detect_args_spec());
    args
}

/// The message when `ddcutil` is missing.
pub open spec fn missing_message() -> Seq<char> {
    "ddcutil is not installed or could not be found."@
}

/// The message when `ddcutil detect` could not be started: `not_found` where
/// the program does not exist, else the system's description `detail`.
pub open spec fn detect_launch_spec(not_found: bool, detail: Seq<char>) -> Seq<char> {
    if not_found {
        missing_message()
    } else {
        launch_error_spec(detail)
    }
}

/// Law: where `ddcutil` is missing, the message says so, whatever the
/// system's description; else it is that description after a fixed prefix.
pub proof fn law_detect_launch_error(detail: Seq<char>)
    ensures
        detect_launch_spec(true, detail) == "ddcutil is not installed or could not be found."@,
        detect_launch_spec(false, detail) == "Failed to run ddcutil: "@ + detail,
{
}

/// What a finished `detect` command means.
pub open spec fn detect_outcome_spec(success: bool, stdout: Seq<u8>, stderr: Seq<u8>) -> Result<
    Seq<MonitorView>,
    Seq<char>,
> {
    if !success {
        Err(failure_message(stderr))
    } else {
        detect_report(lossy_utf8(stdout))
    }
}

/// The message when `ddcutil detect` could not be started.
pub fn detect_launch_error(not_found: bool, detail: &str) -> (m: String)
    ensures
        m@ == detect_launch_spec(not_found, detail@),
{
    if not_found {
        String::from_str("ddcutil is not installed or could not be found.")
    } else {
        launch_error_message(detail)
    }
}

/// The monitors that a finished `detect` command reports; its trimmed
/// standard error where it failed.
pub fn detect_outcome(success: bool, stdout: &[u8], stderr: &[u8]) -> (r: Result<
    Vec<Monitor>,
    String,
>)
    ensures
        match detect_outcome_spec(success, stdout@, stderr@) {
            Ok(ms) => r matches Ok(v) && monitors_view(v@) == ms,
            Err(e) => r matches Err(x) && x@ == e,
        },
{
    if !success {
        let err = decode_lossy(stderr);
        return Err(trimmed(err.as_str()));
    }
    let out = decode_lossy(stdout);
    parse_detect_output(out.as_str())
}

} // verus!
