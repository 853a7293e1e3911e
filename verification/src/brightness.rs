//! The `ddcutil getvcp` and `ddcutil setvcp` commands for the brightness
//! feature (VCP code 0x10): their arguments and what their outcome means.
use vstd::prelude::*;
use vstd::string::*;

use crate::parser::{brightness_report, parse_brightness_output};
use crate::text::{
    decimal, decode_lossy, lemma_parse_decimal, lossy_utf8, parse_u8, strings_view, trim, trimmed,
    u8_to_decimal,
};

verus! {

/// The program that every command runs.
pub const DDCUTIL: &'static str = "ddcutil";

/// The arguments of `ddcutil getvcp 10 --display N`.
pub open spec fn getvcp_args_spec(display: u8) -> Seq<Seq<char>> {
    seq!["getvcp"@, "10"@, "--display"@, decimal(display as nat)]
}

/// The arguments of `ddcutil setvcp 10 VALUE --display N`.
pub open spec fn setvcp_args_spec(display: u8, value: u8) -> Seq<Seq<char>> {
    seq!["setvcp"@, "10"@, decimal(value as nat), "--display"@, decimal(display as nat)]
}

/// The arguments that read the brightness of display `display`.
pub fn getvcp_args(display: u8) -> (args: Vec<String>)
    ensures
        strings_view(args@) == getvcp_args_spec(display),
{
    let mut args: Vec<String> = Vec::new();
    args.push(String::from_str("getvcp"));
    args.push(String::from_str("10"));
    args.push(String::from_str("--display"));
    args.push(u8_to_decimal(display));
    assert(strings_view(args@) =~= getvcp_args_spec(display));
    args
}

/// The arguments that set the brightness of display `display` to `value`.
pub fn setvcp_args(display: u8, value: u8) -> (args: Vec<String>)
    ensures
        strings_view(args@) == setvcp_args_spec(display, value),
{
    let mut args: Vec<String> = Vec::new();
    args.push(String::from_str("setvcp"));
    args.push(String::from_str("10"));
    args.push(u8_to_decimal(value));
    args.push(String::from_str("--display"));
    args.push(u8_to_decimal(display));
    assert(strings_view(args@) =~= setvcp_args_spec(display, value));
    args
}

/// Law: the arguments name the brightness feature (VCP code `10`) and the
/// display after `--display`; the display and the value written into them
/// read back, as `u8`, as the display and the value they were written from.
pub proof fn law_arguments_read_back(display: u8, value: u8)
    ensures
        getvcp_args_spec(display).len() == 4,
        getvcp_args_spec(display)[0] == "getvcp"@,
        getvcp_args_spec(display)[1] == "10"@,
        getvcp_args_spec(display)[2] == "--display"@,
        setvcp_args_spec(display, value).len() == 5,
        setvcp_args_spec(display, value)[0] == "setvcp"@,
        setvcp_args_spec(display, value)[1] == "10"@,
        setvcp_args_spec(display, value)[3] == "--display"@,
        parse_u8(getvcp_args_spec(display)[3]) == Some(display),
        parse_u8(setvcp_args_spec(display, value)[2]) == Some(value),
        parse_u8(setvcp_args_spec(display, value)[4]) == Some(display),
{
    lemma_parse_decimal(display);
    lemma_parse_decimal(value);
}

/// Law: a failed start of `ddcutil` is reported with the system's
/// description after a fixed prefix.
pub proof fn law_launch_error(detail: Seq<char>)
    ensures
        launch_error_spec(detail) == "Failed to run ddcutil: "@ + detail,
        launch_error_spec(detail).len() == "Failed to run ddcutil: "@.len() + detail.len(),
{
}

/// The message of a command that exited with failure: its standard error,
/// decoded and trimmed.
pub open spec fn failure_message(stderr: Seq<u8>) -> Seq<char> {
    trim(lossy_utf8(stderr))
}

/// The message when `ddcutil` could not be started, with the system's
/// description `detail` of why.
pub open spec fn launch_error_spec(detail: Seq<char>) -> Seq<char> {
    "Failed to run ddcutil: "@ + detail
}

/// What a finished `getvcp` command means.
pub open spec fn read_outcome_spec(success: bool, stdout: Seq<u8>, stderr: Seq<u8>) -> Result<
    (u8, u8),
    Seq<char>,
> {
    if !success {
        Err(failure_message(stderr))
    } else {
        brightness_report(lossy_utf8(stdout))
    }
}

/// What a finished `setvcp` command means.
pub open spec fn set_outcome_spec(success: bool, stderr: Seq<u8>) -> Result<(), Seq<char>> {
    if !success {
        Err(failure_message(stderr))
    } else {
        Ok(())
    }
}

/// The message when `ddcutil` could not be started.
pub fn launch_error_message(detail: &str) -> (m: String)
    ensures
        m@ == launch_error_spec(detail@),
{
    let mut m = String::from_str("Failed to run ddcutil: ");
    m.append(detail);
    m
}

/// The current and maximum brightness that a finished `getvcp` command
/// reports; its trimmed standard error where it failed.
pub fn read_brightness_outcome(success: bool, stdout: &[u8], stderr: &[u8]) -> (r: Result<
    (u8, u8),
    String,
>)
    ensures
        match read_outcome_spec(success, stdout@, stderr@) {
            Ok(pair) => r == Ok::<(u8, u8), String>(pair),
            Err(e) => r matches Err(x) && x@ == e,
        },
{
    if !success {
        let err = decode_lossy(stderr);
        return Err(trimmed(err.as_str()));
    }
    let out = decode_lossy(stdout);
    parse_brightness_output(out.as_str())
}

/// `Ok` where a `setvcp` command succeeded; its trimmed standard error where
/// it failed.
pub fn set_brightness_outcome(success: bool, stderr: &[u8]) -> (r: Result<(), String>)
    ensures
        match set_outcome_spec(success, stderr@) {
            Ok(()) => r is Ok,
            Err(e) => r matches Err(x) && x@ == e,
        },
{
    if !success {
        let err = decode_lossy(stderr);
        return Err(trimmed(err.as_str()));
    }
    Ok(())
}

} // verus!
