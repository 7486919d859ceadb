use roof_control_hub::telemetry::{
    apply_log_row_to_snapshot, format_csv_opt_i32, format_csv_opt_u32, format_csv_opt_u8,
    is_command_echo, parse_csv_f32, parse_csv_u32, parse_telemetry_line, process_telemetry_line,
    ControllerLogRow, LineOutcome, LogEvent, ParsedTelemetry, TelemetryParseResult,
};
use roof_control_hub::types::ControllerTelemetrySnapshot;

fn parsed(line: &str) -> (Option<ParsedTelemetry>, ControllerLogRow) {
    match parse_telemetry_line(line) {
        TelemetryParseResult::Parsed { snapshot, log_row } => (snapshot, log_row),
        other => panic!("expected a reading from {line:?}, got {other:?}"),
    }
}

fn is_invalid(line: &str) -> bool {
    matches!(parse_telemetry_line(line), TelemetryParseResult::Invalid)
}

fn is_ignored(line: &str) -> bool {
    matches!(parse_telemetry_line(line), TelemetryParseResult::Ignore)
}

fn s(v: &str) -> Option<String> {
    Some(v.to_string())
}

#[test]
fn key_value_controller_reading() {
    let (snap, row) = parsed(">time:1000, steer:1600,throttle: 1400 ,speed:0.5,error:-0.25,kalman2:3e-2,drive_mode:2,wall_left_deg:1.5");
    let snap = snap.unwrap();
    assert_eq!(snap.timestamp_us, 1000);
    assert_eq!(snap.steer_us, 1600);
    assert_eq!(snap.throttle_us, 1400);
    assert_eq!(snap.speed_mps, "0.5");
    assert_eq!(row.event, LogEvent::Controller);
    assert_eq!(row.setpoint_mps, s("0.5"));
    assert_eq!(row.error_value, s("-0.25"));
    assert_eq!(row.kalman2, s("3e-2"));
    assert_eq!(row.kalman0, None);
    assert_eq!(row.drive_mode, Some(2));
    assert_eq!(row.wall_left_correction_deg, s("1.5"));
    assert_eq!(row.delta_t_us, None);
    assert_eq!(row.distance0_cm, None);
}

#[test]
fn key_value_defaults_for_missing_drive_state() {
    let (snap, row) = parsed("timestamp_us:5,setpoint_mps:0.75");
    let snap = snap.unwrap();
    assert_eq!((snap.steer_us, snap.throttle_us), (1500, 1500));
    assert_eq!(snap.speed_mps, "0.75");
    assert_eq!(row.steer_us, None);
    let (snap, _) = parsed("time:5,steer:1450");
    assert_eq!(snap.unwrap().speed_mps, "0");
}

#[test]
fn key_value_other_events() {
    let (snap, row) = parsed("time:7,delta_t_us:1234");
    assert!(snap.is_none());
    assert_eq!(row.event, LogEvent::HallDeltaT);
    assert_eq!(row.delta_t_us, Some(1234));
    let (snap, row) = parsed("time:8,distance1_cm:42");
    assert!(snap.is_none());
    assert_eq!(row.event, LogEvent::Ultrasound);
    assert_eq!(row.distance1_cm, Some(42));
    assert_eq!(row.distance0_cm, None);
    assert!(is_ignored("time:9,battery:11.1"));
    assert!(is_invalid("steer:1600"));
    assert!(is_invalid("time:9,garbage"));
    assert!(is_invalid("time:abc,steer:1600"));
}

#[test]
fn key_value_later_pairs_replace_earlier_ones() {
    let (snap, _) = parsed("time:1,steer:1600,steer:1700");
    assert_eq!(snap.unwrap().steer_us, 1700);
    let (snap, row) = parsed("time:1,steer:1600,steer:x,throttle:1400");
    assert!(row.steer_us.is_none());
    assert_eq!(snap.unwrap().steer_us, 1500);
}

#[test]
fn four_column_stream() {
    let (snap, row) = parsed("1000, 1600,1400, 0.25");
    let snap = snap.unwrap();
    assert_eq!((snap.timestamp_us, snap.steer_us, snap.throttle_us), (1000, 1600, 1400));
    assert_eq!(snap.speed_mps, "0.25");
    assert_eq!(row.setpoint_mps, s("0.25"));
    assert_eq!(row.event, LogEvent::Controller);
    assert!(is_invalid("1000,abc,1400,0.25"));
    assert!(is_invalid("1000,1600,1400"));
    assert!(is_invalid("1000,1600,1400,0.2,1"));
}

#[test]
fn fourteen_column_stream() {
    let (snap, row) =
        parsed("2000,controller,1600,1400,0.3,0.01,null,1.0,2.0,NULL,4.0,10,20,");
    let snap = snap.unwrap();
    assert_eq!((snap.timestamp_us, snap.steer_us), (2000, 1600));
    assert_eq!(row.error_value, s("0.01"));
    assert_eq!(row.kalman0, s("1.0"));
    assert_eq!(row.kalman2, None);
    assert_eq!(row.kalman3, s("4.0"));
    assert_eq!((row.distance0_cm, row.distance1_cm, row.distance2_cm), (Some(10), Some(20), None));
    assert_eq!(row.drive_mode, None);

    let (_, row) = parsed("2000,controller,1600,1400,0.3,,,,,,,,,,1");
    assert_eq!(row.drive_mode, Some(1));
    let (_, row) = parsed("2000,controller,1600,1400,0.3,,,,,,,,,,257");
    assert_eq!(row.drive_mode, Some(1));

    let (snap, row) = parsed("3000,ultrasound,,,,,,,,,,5,6,7");
    assert!(snap.is_none());
    assert_eq!(row.event, LogEvent::Ultrasound);
    assert_eq!((row.distance0_cm, row.distance1_cm, row.distance2_cm), (Some(5), Some(6), Some(7)));

    let (_, row) = parsed("4000, hall_delta_t ,,,,,321,,,,,,,");
    assert_eq!(row.event, LogEvent::HallDeltaT);
    assert_eq!(row.delta_t_us, Some(321));

    assert!(is_invalid("2000,controller,x,1400,0.3,,,,,,,,,"));
    assert!(is_invalid("2000,other,1600,1400,0.3,,,,,,,,,"));
    assert!(is_invalid("abc,controller,1600,1400,0.3,,,,,,,,,"));
}

#[test]
fn eighteen_column_stream() {
    let (snap, row) = parsed(
        "5000,controller,1550,1450,0.4,0.02,1.1,-1.2,0.5,null,0.1,0.2,0.3,0.4,null,null,null,2",
    );
    let snap = snap.unwrap();
    assert_eq!((snap.timestamp_us, snap.steer_us, snap.throttle_us), (5000, 1550, 1450));
    assert_eq!(snap.speed_mps, "0.4");
    assert_eq!(row.wall_left_correction_deg, s("1.1"));
    assert_eq!(row.wall_right_correction_deg, s("-1.2"));
    assert_eq!(row.wall_combined_correction_deg, s("0.5"));
    assert_eq!(row.kalman0, s("0.1"));
    assert_eq!(row.kalman3, s("0.4"));
    assert_eq!(row.drive_mode, Some(2));
    assert_eq!(row.distance0_cm, None);

    let (snap, row) = parsed("6000,hall_delta_t,null,null,null,null,null,null,null,999,null,null,null,null,null,null,null");
    assert!(snap.is_none());
    assert_eq!(row.delta_t_us, Some(999));

    assert!(is_invalid("6000,hall_delta_t,,,,,,,,999,,,,,,,,"));
    assert!(is_invalid("6000,controller,1,2,3,,,,,,,,,,,,"));
    assert!(is_invalid("x"));
    assert!(is_invalid(""));
}

#[test]
fn csv_cells() {
    assert_eq!(parse_csv_u32(" 42 "), Some(42));
    assert_eq!(parse_csv_u32("null"), None);
    assert_eq!(parse_csv_u32(" NuLl "), None);
    assert_eq!(parse_csv_u32(""), None);
    assert_eq!(parse_csv_u32("-1"), None);
    assert_eq!(parse_csv_u32("4294967296"), None);
    assert_eq!(parse_csv_f32(" 1.5e3 "), s("1.5e3"));
    assert_eq!(parse_csv_f32("NULL"), None);
    assert_eq!(parse_csv_f32("nan"), s("nan"));
    assert_eq!(parse_csv_f32("1.2.3"), None);
    assert_eq!(format_csv_opt_i32(Some(-1500)), "-1500");
    assert_eq!(format_csv_opt_i32(Some(i32::MIN)), i32::MIN.to_string());
    assert_eq!(format_csv_opt_i32(None), "null");
    assert_eq!(format_csv_opt_u32(Some(u32::MAX)), "4294967295");
    assert_eq!(format_csv_opt_u32(None), "null");
    assert_eq!(format_csv_opt_u8(Some(2)), "2");
    assert_eq!(format_csv_opt_u8(None), "null");
}

#[test]
fn csv_cells_read_back() {
    for v in [None, Some(0u32), Some(7), Some(1234567), Some(u32::MAX)] {
        assert_eq!(parse_csv_u32(&format_csv_opt_u32(v)), v);
    }
    for v in [None, Some(0u8), Some(2), Some(255)] {
        let cell = format_csv_opt_u8(v);
        assert_eq!(parse_csv_u32(&cell).map(|x| x as u8), v);
    }
    for v in [i32::MIN, -1500, 0, 1500, i32::MAX] {
        assert_eq!(format_csv_opt_i32(Some(v)).trim().parse::<i32>(), Ok(v));
    }
}

#[test]
fn event_names() {
    assert_eq!(LogEvent::Controller.as_str(), "controller");
    assert_eq!(LogEvent::HallDeltaT.as_str(), "hall_delta_t");
    assert_eq!(LogEvent::Ultrasound.as_str(), "ultrasound");
}

#[test]
fn log_rows_overlay_the_snapshot() {
    let mut snapshot = ControllerTelemetrySnapshot::default();
    snapshot.kalman1 = s("9");
    snapshot.distance2_cm = Some(3);
    let (_, row) = parsed("2000,controller,1600,1400,0.3,0.01,,1.0,,,,10,,,1");
    apply_log_row_to_snapshot(&mut snapshot, &row);
    assert_eq!(snapshot.timestamp_us, 2000);
    assert_eq!(snapshot.last_update_us, 2000);
    assert_eq!((snapshot.steer_us, snapshot.throttle_us), (1600, 1400));
    assert_eq!(snapshot.speed_mps, "0.3");
    assert_eq!(snapshot.setpoint_mps, s("0.3"));
    assert_eq!(snapshot.error_value, s("0.01"));
    assert_eq!(snapshot.kalman0, s("1.0"));
    assert_eq!(snapshot.kalman1, s("9"));
    assert_eq!(snapshot.distance0_cm, Some(10));
    assert_eq!(snapshot.distance2_cm, Some(3));
    assert_eq!(snapshot.drive_mode, Some(1));
    assert!(!snapshot.connected);
}

#[test]
fn lines_that_are_skipped() {
    let mut snapshot = ControllerTelemetrySnapshot::default();
    for line in ["", "OK", "# boot", "ERR unknown", "pwm-a 1500", "mode auto", "const k 1"] {
        assert!(matches!(process_telemetry_line(&mut snapshot, line), LineOutcome::Skipped));
    }
    assert_eq!(snapshot.parse_errors, 0);
    assert!(is_command_echo("speed 0.2"));
    assert!(!is_command_echo("1000,1500,1500,0.0"));
}

#[test]
fn lines_that_count_as_parse_errors() {
    let mut snapshot = ControllerTelemetrySnapshot::default();
    assert!(matches!(process_telemetry_line(&mut snapshot, "garbage"), LineOutcome::Unlogged));
    assert!(matches!(process_telemetry_line(&mut snapshot, "1,2"), LineOutcome::Unlogged));
    assert_eq!(snapshot.parse_errors, 2);
    assert!(matches!(
        process_telemetry_line(&mut snapshot, "time:1,battery:3"),
        LineOutcome::Unlogged
    ));
    assert_eq!(snapshot.parse_errors, 2);
}

#[test]
fn readings_are_taken_over() {
    let mut snapshot = ControllerTelemetrySnapshot::default();
    match process_telemetry_line(&mut snapshot, "1000,1600,1400,0.25") {
        LineOutcome::Logged(row) => assert_eq!(row.timestamp_us, 1000),
        other => panic!("expected a logged row, got {other:?}"),
    }
    assert!(snapshot.connected);
    assert_eq!((snapshot.steer_us, snapshot.throttle_us), (1600, 1400));
    assert_eq!(snapshot.speed_mps, "0.25");
    match process_telemetry_line(&mut snapshot, "time:2000,delta_t_us:55") {
        LineOutcome::Logged(row) => assert_eq!(row.event, LogEvent::HallDeltaT),
        other => panic!("expected a logged row, got {other:?}"),
    }
    assert_eq!(snapshot.hall_delta_t_us, Some(55));
    assert_eq!(snapshot.timestamp_us, 2000);
    assert_eq!(snapshot.steer_us, 1600);
}

#[test]
fn snapshot_floats_stay_parseable() {
    let mut snapshot = ControllerTelemetrySnapshot::default();
    for line in [
        "time:1,steer:1600,speed:-0.5e1,error:inf,kalman0:nan",
        "2000,controller,1600,1400,0.3,1e9,,1.0,.5,5.,+2,10,20,30",
        "5000,controller,1550,1450,0.4,0.02,1.1,-1.2,0.5,null,0.1,0.2,0.3,0.4,null,null,null,2",
    ] {
        process_telemetry_line(&mut snapshot, line);
    }
    let texts = [
        Some(snapshot.speed_mps.clone()),
        snapshot.setpoint_mps.clone(),
        snapshot.error_value.clone(),
        snapshot.kalman0.clone(),
        snapshot.kalman1.clone(),
        snapshot.kalman2.clone(),
        snapshot.kalman3.clone(),
        snapshot.wall_left_correction_deg.clone(),
        snapshot.wall_right_correction_deg.clone(),
        snapshot.wall_combined_correction_deg.clone(),
        Some(snapshot.steering_sensitivity.clone()),
        Some(snapshot.throttle_sensitivity.clone()),
    ];
    for text in texts.into_iter().flatten() {
        assert!(text.parse::<f32>().is_ok(), "{text:?}");
    }
}
