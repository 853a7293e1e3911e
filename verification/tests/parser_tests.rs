use ddc_brightness::parser::{parse_brightness_output, parse_detect_output};

#[test]
fn detect_example_from_docs() {
    let out = "Display 1\n   I2C bus: /dev/i2c-7\n   Monitor: LG UltraGear\n\nDisplay 2\n   I2C bus: /dev/i2c-9\n   Monitor: Dell U2720Q\n";
    let monitors = parse_detect_output(out).unwrap();
    assert_eq!(monitors.len(), 2);
    assert_eq!(monitors[0].display_number, 1);
    assert_eq!(monitors[0].i2c_bus.as_deref(), Some("/dev/i2c-7"));
    assert_eq!(monitors[0].name, "LG UltraGear");
    assert_eq!(monitors[1].display_number, 2);
    assert_eq!(monitors[1].i2c_bus.as_deref(), Some("/dev/i2c-9"));
    assert_eq!(monitors[1].name, "Dell U2720Q");
}

#[test]
fn detect_brief_report_uses_model() {
    let out = "Display 1\n   I2C bus:  /dev/i2c-4\n   DRM connector:           card1-DP-1\n   Monitor:             GSM:LG ULTRAGEAR:\n\n";
    let monitors = parse_detect_output(out).unwrap();
    assert_eq!(monitors.len(), 1);
    assert_eq!(monitors[0].display_number, 1);
    assert_eq!(monitors[0].i2c_bus.as_deref(), Some(" /dev/i2c-4"));
    assert_eq!(monitors[0].name, "LG ULTRAGEAR");
}

#[test]
fn detect_empty_model_falls_back_to_manufacturer() {
    let out = "Display 3\n   Monitor:   ACME::serial\n";
    let monitors = parse_detect_output(out).unwrap();
    assert_eq!(monitors[0].display_number, 3);
    assert_eq!(monitors[0].i2c_bus, None);
    assert_eq!(monitors[0].name, "  ACME");
}

#[test]
fn detect_crlf_lines() {
    let out = "Display 2\r\n   I2C bus: /dev/i2c-1\r\n   Monitor: DEL:DELL U2720Q:XYZ\r\n";
    let monitors = parse_detect_output(out).unwrap();
    assert_eq!(monitors[0].display_number, 2);
    assert_eq!(monitors[0].i2c_bus.as_deref(), Some("/dev/i2c-1"));
    assert_eq!(monitors[0].name, "DELL U2720Q");
}

#[test]
fn detect_skips_invalid_display_and_blocks_without_monitor() {
    let out = "Invalid display\n   I2C bus: /dev/i2c-5\n   Monitor: X:Broken:1\n\nDisplay 1\n   I2C bus: /dev/i2c-6\n\nDisplay 2\n   Monitor: A:Good:2\n";
    let monitors = parse_detect_output(out).unwrap();
    assert_eq!(monitors.len(), 1);
    assert_eq!(monitors[0].display_number, 2);
    assert_eq!(monitors[0].name, "Good");
}

#[test]
fn detect_later_line_wins() {
    let out = "Display 4\n   Monitor: A:First:1\n   I2C bus: /dev/a\n   Monitor: B:Second:2\n   I2C bus: /dev/b\n";
    let monitors = parse_detect_output(out).unwrap();
    assert_eq!(monitors[0].name, "Second");
    assert_eq!(monitors[0].i2c_bus.as_deref(), Some("/dev/b"));
}

#[test]
fn detect_plus_sign_display_number() {
    let out = "Display +7\n";
    assert_eq!(
        parse_detect_output(out).unwrap_err(),
        "No DDC/CI compatible monitors found."
    );
    let out = "Display 07 \n   Monitor: Q\n";
    let monitors = parse_detect_output(out).unwrap();
    assert_eq!(monitors[0].display_number, 7);
    assert_eq!(monitors[0].name, "Q");
}

#[test]
fn detect_bad_display_number() {
    let out = "Display 1a\n   Monitor: A:B:C\n";
    assert_eq!(
        parse_detect_output(out).unwrap_err(),
        "Failed to parse display number: 1a"
    );
    let out = "Display 256\n   Monitor: A:B:C\n";
    assert_eq!(
        parse_detect_output(out).unwrap_err(),
        "Failed to parse display number: 256"
    );
}

#[test]
fn detect_error_of_first_bad_block_wins() {
    let out = "Display 1\n   Monitor: A:One:1\nDisplay 9x\n   Monitor: B\nDisplay 8y\n";
    assert_eq!(
        parse_detect_output(out).unwrap_err(),
        "Failed to parse display number: 9x"
    );
}

#[test]
fn detect_nothing_found() {
    assert_eq!(
        parse_detect_output("").unwrap_err(),
        "No DDC/CI compatible monitors found."
    );
    assert_eq!(
        parse_detect_output("No displays found.\n").unwrap_err(),
        "No DDC/CI compatible monitors found."
    );
}

#[test]
fn brightness_example_from_docs() {
    let out = "VCP code 0x10 (Brightness): current value = 70, max value = 100";
    assert_eq!(parse_brightness_output(out), Ok((70, 100)));
}

#[test]
fn brightness_ddcutil_spacing() {
    let out = "VCP code 0x10 (Brightness                    ): current value =    50, max value =   100\n";
    assert_eq!(parse_brightness_output(out), Ok((50, 100)));
}

#[test]
fn brightness_plus_sign_and_leading_zeros() {
    let out = "current value = +007, max value = 0255 more";
    assert_eq!(parse_brightness_output(out), Ok((7, 255)));
}

#[test]
fn brightness_missing_current() {
    let out = "VCP code 0x10 (Brightness): max value = 100";
    assert_eq!(
        parse_brightness_output(out).unwrap_err(),
        format!("Failed to parse current brightness from:\n{}", out)
    );
}

#[test]
fn brightness_current_too_large() {
    let out = "current value = 300, max value = 100";
    assert_eq!(
        parse_brightness_output(out).unwrap_err(),
        format!("Failed to parse current brightness from:\n{}", out)
    );
}

#[test]
fn brightness_missing_max() {
    let out = "current value = 30, max value =    ";
    assert_eq!(
        parse_brightness_output(out).unwrap_err(),
        format!("Failed to parse max brightness from:\n{}", out)
    );
    let out = "current value = 30";
    assert_eq!(
        parse_brightness_output(out).unwrap_err(),
        format!("Failed to parse max brightness from:\n{}", out)
    );
}

#[test]
fn brightness_current_piece_stops_at_second_marker() {
    let out = "current value = 5 current value = 6, max value = 9";
    assert_eq!(parse_brightness_output(out), Ok((5, 9)));
}

#[test]
fn detect_report_reads_back_every_monitor() {
    let out = "Display 1\n   I2C bus: /dev/i2c-3\n   Monitor: GSM:LG HDR 4K:ABC123\nDisplay 12\n   I2C bus: /dev/i2c-10\n   Monitor: DEL:Dell U2720Q:\n";
    let monitors = parse_detect_output(out).unwrap();
    assert_eq!(monitors.len(), 2);
    assert_eq!(monitors[0].display_number, 1);
    assert_eq!(monitors[0].i2c_bus.as_deref(), Some("/dev/i2c-3"));
    assert_eq!(monitors[0].name, "LG HDR 4K");
    assert_eq!(monitors[1].display_number, 12);
    assert_eq!(monitors[1].i2c_bus.as_deref(), Some("/dev/i2c-10"));
    assert_eq!(monitors[1].name, "Dell U2720Q");
}

#[test]
fn brightness_line_reads_back_whatever_padding() {
    for (c, m) in [(0u8, 0u8), (7, 100), (255, 255), (42, 9)] {
        let line = format!(
            "VCP code 0x10 (Brightness  ):    current value = {:>5}, max value = {:>6}\n",
            c, m
        );
        assert_eq!(parse_brightness_output(&line), Ok((c, m)));
    }
}

#[test]
fn detect_reports_concatenate() {
    let a = "Display 1\n   Monitor: A:First:1\n";
    let b = "Display 2\n   I2C bus: /dev/i2c-2\n   Monitor: B:Second:2\n";
    let joined = format!("{}{}", a, b);
    let all = parse_detect_output(&joined).unwrap();
    let x = parse_detect_output(a).unwrap();
    let y = parse_detect_output(b).unwrap();
    assert_eq!(all.len(), x.len() + y.len());
    assert_eq!(all[0].name, x[0].name);
    assert_eq!(all[1].name, y[0].name);
    assert_eq!(all[1].i2c_bus, y[0].i2c_bus);
}
