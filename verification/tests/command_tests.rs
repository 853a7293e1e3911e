use ddc_brightness::brightness::{
    getvcp_args, launch_error_message, read_brightness_outcome, set_brightness_outcome,
    setvcp_args, DDCUTIL,
};
use ddc_brightness::detect::{detect_args, detect_launch_error, detect_outcome};
use ddc_brightness::text::u8_to_decimal;

#[test]
fn getvcp_arguments() {
    assert_eq!(DDCUTIL, "ddcutil");
    assert_eq!(getvcp_args(1), vec!["getvcp", "10", "--display", "1"]);
    assert_eq!(getvcp_args(12), vec!["getvcp", "10", "--display", "12"]);
}

#[test]
fn setvcp_example_from_docs() {
    assert_eq!(setvcp_args(1, 80), vec!["setvcp", "10", "80", "--display", "1"]);
    assert_eq!(setvcp_args(255, 0), vec!["setvcp", "10", "0", "--display", "255"]);
}

#[test]
fn detect_arguments() {
    assert_eq!(detect_args(), vec!["detect", "--brief"]);
}

#[test]
fn decimal_writing() {
    assert_eq!(u8_to_decimal(0), "0");
    assert_eq!(u8_to_decimal(9), "9");
    assert_eq!(u8_to_decimal(10), "10");
    assert_eq!(u8_to_decimal(100), "100");
    assert_eq!(u8_to_decimal(205), "205");
    for n in 0..=255u8 {
        assert_eq!(u8_to_decimal(n), n.to_string());
    }
}

#[test]
fn read_outcome_success() {
    let out = b"VCP code 0x10 (Brightness): current value = 70, max value = 100\n";
    assert_eq!(read_brightness_outcome(true, out, b""), Ok((70, 100)));
}

#[test]
fn read_outcome_failure_trims_stderr() {
    let err = b"  Display not found\n";
    assert_eq!(
        read_brightness_outcome(false, b"", err),
        Err("Display not found".to_string())
    );
}

#[test]
fn read_outcome_decodes_invalid_utf8() {
    let err = b"bad \xff byte\n";
    assert_eq!(
        read_brightness_outcome(false, b"", err),
        Err("bad \u{FFFD} byte".to_string())
    );
}

#[test]
fn set_outcome() {
    assert_eq!(set_brightness_outcome(true, b"ignored"), Ok(()));
    assert_eq!(
        set_brightness_outcome(false, b"\tVCP write failed \r\n"),
        Err("VCP write failed".to_string())
    );
}

#[test]
fn launch_messages() {
    assert_eq!(
        launch_error_message("Permission denied (os error 13)"),
        "Failed to run ddcutil: Permission denied (os error 13)"
    );
    assert_eq!(
        detect_launch_error(true, "No such file or directory (os error 2)"),
        "ddcutil is not installed or could not be found."
    );
    assert_eq!(
        detect_launch_error(false, "Permission denied (os error 13)"),
        "Failed to run ddcutil: Permission denied (os error 13)"
    );
}

#[test]
fn detect_outcome_cases() {
    let out = b"Display 1\n   I2C bus: /dev/i2c-7\n   Monitor: LG UltraGear\n";
    let monitors = detect_outcome(true, out, b"").unwrap();
    assert_eq!(monitors.len(), 1);
    assert_eq!(monitors[0].name, "LG UltraGear");
    assert_eq!(
        detect_outcome(false, out, b" no permission \n").unwrap_err(),
        "no permission"
    );
    assert_eq!(
        detect_outcome(true, b"", b"").unwrap_err(),
        "No DDC/CI compatible monitors found."
    );
}

#[test]
fn arguments_read_back() {
    for d in 0..=255u8 {
        let v = 255 - d;
        let get = getvcp_args(d);
        assert_eq!(get[3].parse::<u8>(), Ok(d));
        let set = setvcp_args(d, v);
        assert_eq!(set[2].parse::<u8>(), Ok(v));
        assert_eq!(set[4].parse::<u8>(), Ok(d));
    }
}
