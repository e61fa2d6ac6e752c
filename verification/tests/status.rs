//! Reading, showing and setting the data points of the dehumidifier.

use hearth::dps::{
    build_child_lock_dps, build_countdown_dps, build_mode_dps, build_power_dps,
    build_target_humidity_dps, decode_faults, format_status, parse_countdown, parse_mode,
    parse_status, Countdown, DehumidifierStatus, DpsError, Mode, FAULT_LABELS,
    MAX_TARGET_HUMIDITY, MIN_TARGET_HUMIDITY, TARGET_HUMIDITY_STEP,
};
use hearth::json::JsonValue;

fn report(members: Vec<(&str, JsonValue)>) -> JsonValue {
    JsonValue::Object(members.into_iter().map(|(k, v)| (k.to_string(), v)).collect())
}

fn text(value: &str) -> JsonValue {
    JsonValue::Text(value.to_string())
}

fn only_member(value: &JsonValue) -> (&str, &JsonValue) {
    match value {
        JsonValue::Object(members) => {
            assert_eq!(members.len(), 1);
            (members[0].0.as_str(), &members[0].1)
        }
        _ => panic!("expected an object"),
    }
}

fn bare(power: bool, target_humidity: u32) -> DehumidifierStatus {
    DehumidifierStatus {
        power,
        target_humidity,
        mode: None,
        current_humidity: None,
        child_lock: None,
        countdown: None,
        countdown_left: None,
        fault: None,
    }
}

#[test]
fn full_report_is_read() {
    let dps = report(vec![
        ("1", JsonValue::Bool(true)),
        ("2", JsonValue::Number(50)),
        ("4", text("manual")),
        ("14", JsonValue::Bool(false)),
        ("16", JsonValue::Number(61)),
        ("17", text("2h")),
        ("18", JsonValue::Number(2)),
        ("19", JsonValue::Number(5)),
        ("101", text("cancel")),
    ]);
    let status = parse_status(&dps).unwrap();
    assert!(status.power);
    assert_eq!(status.target_humidity, 50);
    assert_eq!(status.mode, Some(Mode::Manual));
    assert_eq!(status.child_lock, Some(false));
    assert_eq!(status.current_humidity, Some(61));
    assert_eq!(status.countdown, Some(Countdown::TwoHours));
    assert_eq!(status.countdown_left, Some(2));
    assert_eq!(status.fault, Some(5));
}

#[test]
fn smallest_report_is_read() {
    let dps = report(vec![("1", JsonValue::Bool(false)), ("2", JsonValue::Number(35))]);
    let status = parse_status(&dps).unwrap();
    assert!(!status.power);
    assert_eq!(status.target_humidity, 35);
    assert_eq!(status.mode, None);
    assert_eq!(status.current_humidity, None);
    assert_eq!(status.child_lock, None);
    assert_eq!(status.countdown, None);
    assert_eq!(status.countdown_left, None);
    assert_eq!(status.fault, None);
}

#[test]
fn report_without_power_is_rejected() {
    let dps = report(vec![("2", JsonValue::Number(50))]);
    match parse_status(&dps).unwrap_err() {
        DpsError::MissingField(field) => assert_eq!(field, "1 (switch)"),
        _ => panic!("expected a missing field"),
    }
    // Power of the wrong kind is as good as none.
    let dps = report(vec![("1", JsonValue::Number(1)), ("2", JsonValue::Number(50))]);
    assert!(matches!(parse_status(&dps), Err(DpsError::MissingField("1 (switch)"))));
    let dps = report(vec![("1", text("true")), ("2", JsonValue::Number(50))]);
    assert!(matches!(parse_status(&dps), Err(DpsError::MissingField("1 (switch)"))));
}

#[test]
fn report_without_target_humidity_is_rejected() {
    let dps = report(vec![("1", JsonValue::Bool(true))]);
    assert!(matches!(
        parse_status(&dps),
        Err(DpsError::MissingField("2 (dehumidify_set_value)"))
    ));
    let dps = report(vec![("1", JsonValue::Bool(true)), ("2", text("50"))]);
    assert!(matches!(
        parse_status(&dps),
        Err(DpsError::MissingField("2 (dehumidify_set_value)"))
    ));
    let dps = report(vec![("1", JsonValue::Bool(true)), ("2", JsonValue::Other)]);
    assert!(matches!(
        parse_status(&dps),
        Err(DpsError::MissingField("2 (dehumidify_set_value)"))
    ));
}

#[test]
fn what_is_no_object_has_no_power() {
    for value in [JsonValue::Null, JsonValue::Bool(true), JsonValue::Number(1), text("x")] {
        assert!(matches!(parse_status(&value), Err(DpsError::MissingField("1 (switch)"))));
    }
    assert!(matches!(
        parse_status(&JsonValue::Object(Vec::new())),
        Err(DpsError::MissingField("1 (switch)"))
    ));
}

#[test]
fn unknown_mode_is_rejected() {
    let dps = report(vec![
        ("1", JsonValue::Bool(true)),
        ("2", JsonValue::Number(50)),
        ("4", text("turbo")),
    ]);
    match parse_status(&dps).unwrap_err() {
        DpsError::InvalidValue { field, raw } => {
            assert_eq!(field, "4 (mode)");
            assert_eq!(raw, "turbo");
        }
        _ => panic!("expected an invalid value"),
    }
}

#[test]
fn unknown_countdown_is_rejected() {
    let dps = report(vec![
        ("1", JsonValue::Bool(true)),
        ("2", JsonValue::Number(50)),
        ("17", text("4h")),
    ]);
    match parse_status(&dps).unwrap_err() {
        DpsError::InvalidValue { field, raw } => {
            assert_eq!(field, "17 (countdown_set)");
            assert_eq!(raw, "4h");
        }
        _ => panic!("expected an invalid value"),
    }
}

#[test]
fn mode_is_judged_before_countdown() {
    let dps = report(vec![
        ("17", text("never")),
        ("4", text("MANUAL")),
        ("1", JsonValue::Bool(true)),
        ("2", JsonValue::Number(50)),
    ]);
    match parse_status(&dps).unwrap_err() {
        DpsError::InvalidValue { field, raw } => {
            assert_eq!(field, "4 (mode)");
            assert_eq!(raw, "MANUAL");
        }
        _ => panic!("expected an invalid value"),
    }
}

#[test]
fn optional_points_of_the_wrong_kind_are_passed_over() {
    let dps = report(vec![
        ("1", JsonValue::Bool(true)),
        ("2", JsonValue::Number(50)),
        ("4", JsonValue::Number(1)),
        ("14", text("yes")),
        ("16", text("61")),
        ("17", JsonValue::Bool(true)),
        ("18", JsonValue::Other),
        ("19", JsonValue::Null),
    ]);
    let status = parse_status(&dps).unwrap();
    assert_eq!(status.mode, None);
    assert_eq!(status.child_lock, None);
    assert_eq!(status.current_humidity, None);
    assert_eq!(status.countdown, None);
    assert_eq!(status.countdown_left, None);
    assert_eq!(status.fault, None);
}

#[test]
fn numbers_are_cut_to_32_bits() {
    let dps = report(vec![
        ("1", JsonValue::Bool(true)),
        ("2", JsonValue::Number(0x1_0000_0032)),
        ("16", JsonValue::Number(u64::MAX)),
        ("19", JsonValue::Number(0x2_0000_0000)),
    ]);
    let status = parse_status(&dps).unwrap();
    assert_eq!(status.target_humidity, 0x32);
    assert_eq!(status.current_humidity, Some(u32::MAX));
    assert_eq!(status.fault, Some(0));
}

#[test]
fn names_of_modes() {
    assert_eq!(parse_mode("manual").unwrap(), Mode::Manual);
    assert_eq!(parse_mode("auto").unwrap(), Mode::Auto);
    assert_eq!(parse_mode("drying").unwrap(), Mode::Drying);
    assert_eq!(parse_mode("continuous").unwrap(), Mode::Continuous);
    for wrong in ["", "Manual", "manual ", "auto\n", "dry", "continuous1", "cancel"] {
        match parse_mode(wrong).unwrap_err() {
            DpsError::InvalidValue { field, raw } => {
                assert_eq!(field, "4 (mode)");
                assert_eq!(raw, wrong);
            }
            _ => panic!("expected an invalid value"),
        }
    }
}

#[test]
fn names_of_countdowns() {
    assert_eq!(parse_countdown("cancel").unwrap(), Countdown::Cancel);
    assert_eq!(parse_countdown("1h").unwrap(), Countdown::OneHour);
    assert_eq!(parse_countdown("2h").unwrap(), Countdown::TwoHours);
    assert_eq!(parse_countdown("3h").unwrap(), Countdown::ThreeHours);
    for wrong in ["", "0h", "4h", "1H", "1", "h", "Cancel", "manual"] {
        match parse_countdown(wrong).unwrap_err() {
            DpsError::InvalidValue { field, raw } => {
                assert_eq!(field, "17 (countdown_set)");
                assert_eq!(raw, wrong);
            }
            _ => panic!("expected an invalid value"),
        }
    }
}

#[test]
fn power_command() {
    let dps = build_power_dps(true);
    let (name, value) = only_member(&dps);
    assert_eq!(name, "1");
    assert_eq!(value.as_bool(), Some(true));
    let dps = build_power_dps(false);
    assert_eq!(only_member(&dps).1.as_bool(), Some(false));
}

#[test]
fn target_humidity_command_for_every_step() {
    assert_eq!((MIN_TARGET_HUMIDITY, MAX_TARGET_HUMIDITY, TARGET_HUMIDITY_STEP), (35, 70, 5));
    for value in [35u32, 40, 45, 50, 55, 60, 65, 70] {
        let dps = build_target_humidity_dps(value).unwrap();
        let (name, number) = only_member(&dps);
        assert_eq!(name, "2");
        assert_eq!(number.as_u64(), Some(value as u64));
    }
}

#[test]
fn target_humidity_out_of_range_is_rejected() {
    for value in 0..=200u32 {
        let valid = (35..=70).contains(&value) && value % 5 == 0;
        match build_target_humidity_dps(value) {
            Ok(_) => assert!(valid, "value {value}"),
            Err(DpsError::HumidityOutOfRange(v)) => {
                assert!(!valid, "value {value}");
                assert_eq!(v, value);
            }
            Err(_) => panic!("expected a humidity out of range"),
        }
    }
    for value in [30u32, 34, 36, 52, 71, 75, u32::MAX] {
        assert!(matches!(
            build_target_humidity_dps(value),
            Err(DpsError::HumidityOutOfRange(v)) if v == value
        ));
    }
}

#[test]
fn mode_command_for_every_mode() {
    for (mode, wire) in [
        (Mode::Manual, "manual"),
        (Mode::Auto, "auto"),
        (Mode::Drying, "drying"),
        (Mode::Continuous, "continuous"),
    ] {
        let dps = build_mode_dps(&mode);
        let (name, value) = only_member(&dps);
        assert_eq!(name, "4");
        assert_eq!(value.as_str(), Some(wire));
        assert_eq!(parse_mode(wire).unwrap(), mode);
    }
}

#[test]
fn child_lock_command() {
    let dps = build_child_lock_dps(true);
    let (name, value) = only_member(&dps);
    assert_eq!(name, "14");
    assert_eq!(value.as_bool(), Some(true));
    assert_eq!(only_member(&build_child_lock_dps(false)).1.as_bool(), Some(false));
}

#[test]
fn countdown_command_for_every_setting() {
    for (countdown, wire) in [
        (Countdown::Cancel, "cancel"),
        (Countdown::OneHour, "1h"),
        (Countdown::TwoHours, "2h"),
        (Countdown::ThreeHours, "3h"),
    ] {
        let dps = build_countdown_dps(&countdown);
        let (name, value) = only_member(&dps);
        assert_eq!(name, "17");
        assert_eq!(value.as_str(), Some(wire));
        assert_eq!(parse_countdown(wire).unwrap(), countdown);
    }
}

#[test]
fn faults_by_bit() {
    assert_eq!(FAULT_LABELS, ["tankfull", "defrost", "E1", "E2", "L2", "L3", "L4", "wet"]);
    assert_eq!(decode_faults(0), Vec::<&str>::new());
    assert_eq!(decode_faults(1), vec!["tankfull"]);
    assert_eq!(decode_faults(2), vec!["defrost"]);
    assert_eq!(decode_faults(0b101), vec!["tankfull", "E1"]);
    assert_eq!(decode_faults(0x80), vec!["wet"]);
    assert_eq!(
        decode_faults(0xFF),
        vec!["tankfull", "defrost", "E1", "E2", "L2", "L3", "L4", "wet"]
    );
    // Bits above the eighth stand for nothing.
    assert_eq!(decode_faults(0x100), Vec::<&str>::new());
    assert_eq!(decode_faults(0xFFFF_FF00), Vec::<&str>::new());
    assert_eq!(decode_faults(0xFFFF_FF48), vec!["E2", "L4"]);
    for bit in 0..8 {
        assert_eq!(decode_faults(1 << bit), vec![FAULT_LABELS[bit]]);
    }
}

#[test]
fn summary_of_a_bare_status() {
    assert_eq!(format_status(&bare(true, 50)), "Power: ON\nTarget humidity: 50%");
    assert_eq!(format_status(&bare(false, 0)), "Power: OFF\nTarget humidity: 0%");
    assert_eq!(
        format_status(&bare(false, u32::MAX)),
        "Power: OFF\nTarget humidity: 4294967295%"
    );
}

#[test]
fn summary_of_a_full_status() {
    let status = DehumidifierStatus {
        power: true,
        target_humidity: 50,
        mode: Some(Mode::Auto),
        current_humidity: Some(45),
        child_lock: Some(false),
        countdown: Some(Countdown::OneHour),
        countdown_left: Some(2),
        fault: Some(0b101),
    };
    assert_eq!(
        format_status(&status),
        "Power: ON\nCurrent humidity: 45%\nTarget humidity: 50%\nMode: Auto\nTimer: OneHour\n\
         Time remaining: 2h\nChild lock: OFF\nFAULTS: tankfull, E1"
    );
}

#[test]
fn summary_leaves_out_what_is_zero() {
    let mut status = bare(true, 60);
    status.countdown_left = Some(0);
    status.fault = Some(0);
    assert_eq!(format_status(&status), "Power: ON\nTarget humidity: 60%");
    status.countdown_left = Some(1);
    assert_eq!(format_status(&status), "Power: ON\nTarget humidity: 60%\nTime remaining: 1h");
    status.fault = Some(0x100);
    assert_eq!(
        format_status(&status),
        "Power: ON\nTarget humidity: 60%\nTime remaining: 1h\nFAULTS: "
    );
    status.fault = Some(0x82);
    assert_eq!(
        format_status(&status),
        "Power: ON\nTarget humidity: 60%\nTime remaining: 1h\nFAULTS: defrost, wet"
    );
}

#[test]
fn summary_names_modes_and_timers_as_they_print() {
    for mode in [Mode::Manual, Mode::Auto, Mode::Drying, Mode::Continuous] {
        let mut status = bare(false, 40);
        status.mode = Some(mode);
        assert_eq!(
            format_status(&status),
            format!("Power: OFF\nTarget humidity: 40%\nMode: {mode:?}")
        );
    }
    for countdown in
        [Countdown::Cancel, Countdown::OneHour, Countdown::TwoHours, Countdown::ThreeHours]
    {
        let mut status = bare(false, 40);
        status.countdown = Some(countdown);
        assert_eq!(
            format_status(&status),
            format!("Power: OFF\nTarget humidity: 40%\nTimer: {countdown:?}")
        );
    }
    let mut status = bare(true, 40);
    status.child_lock = Some(true);
    assert_eq!(format_status(&status), "Power: ON\nTarget humidity: 40%\nChild lock: ON");
}

#[test]
fn dps_errors_in_words() {
    assert_eq!(
        DpsError::MissingField("1 (switch)").to_string(),
        "Missing required DPS field: 1 (switch)"
    );
    assert_eq!(
        DpsError::InvalidValue { field: "4 (mode)", raw: "turbo".to_string() }.to_string(),
        "Invalid value for DPS 4 (mode): turbo"
    );
    assert_eq!(
        DpsError::HumidityOutOfRange(33).to_string(),
        "Humidity 33 out of range (35-70, step 5)"
    );
    assert_eq!(
        DpsError::HumidityOutOfRange(0).to_string(),
        "Humidity 0 out of range (35-70, step 5)"
    );
}
