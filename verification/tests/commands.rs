use roof_control_hub::controller::{
    apply_command_snapshot, apply_connect, apply_disconnect, apply_settings, check_connect,
    command_allowed, connect_baud, parse_command_request, parse_mode_command, reader_step,
    record_serial_error, send_mode, send_serial_command, send_serial_commands, validate_command, CommandRejection,
    CommandRequest, ConnectRejection, ModeTarget, ReadEvent, ReaderAction, SendRejection,
};
use roof_control_hub::controller_commands::{
    format_mode_command, is_known_command_echo, mode_keyword, strip_value, MODE_PREFIX,
    PWM_STEERING_PREFIX,
};
use roof_control_hub::types::{ControllerMode, ControllerTelemetrySnapshot};

fn connected(mode: ControllerMode) -> ControllerTelemetrySnapshot {
    let mut s = ControllerTelemetrySnapshot::default();
    s.connected = true;
    s.mode = mode;
    s
}

#[test]
fn strip_value_trims_what_follows_the_prefix() {
    assert_eq!(strip_value("pwm-a  1600  ", "pwm-a "), Some("1600"));
    assert_eq!(strip_value("pwm-a 1600", "pwm-b "), None);
    assert_eq!(strip_value("mode ", "mode "), Some(""));
    assert_eq!(strip_value(" pwm-a 1600", "pwm-a "), None);
}

#[test]
fn known_echoes_are_recognised_after_trimming() {
    assert!(is_known_command_echo("  pwm-a 1500\r"));
    assert!(is_known_command_echo("pwm-b 1525"));
    assert!(is_known_command_echo("speed 0.35"));
    assert!(is_known_command_echo("const ekf_q_angle 0.003"));
    assert!(is_known_command_echo("mode auto"));
    assert!(!is_known_command_echo("align 1.0 0.5"));
    assert!(!is_known_command_echo("1000,1500,1500,0.0"));
    assert!(!is_known_command_echo("modeauto"));
}

#[test]
fn mode_keywords() {
    assert_eq!(mode_keyword(ControllerMode::Manual), "manual");
    assert_eq!(mode_keyword(ControllerMode::Auto), "auto");
    assert_eq!(ModeTarget::Steering.keyword(), "steering");
    assert_eq!(ModeTarget::Throttle.keyword(), "throttle");
    assert_eq!(ModeTarget::Both.keyword(), "both");
    assert_eq!(ModeTarget::default(), ModeTarget::Both);
    assert_eq!(ControllerMode::default(), ControllerMode::Manual);
}

#[test]
fn mode_commands_are_formatted() {
    assert_eq!(format_mode_command(None, ControllerMode::Auto), "mode auto");
    assert_eq!(format_mode_command(Some("both"), ControllerMode::Manual), "mode manual");
    assert_eq!(format_mode_command(Some(""), ControllerMode::Manual), "mode manual");
    assert_eq!(
        format_mode_command(Some("steering"), ControllerMode::Auto),
        "mode steering auto"
    );
    assert_eq!(
        format_mode_command(Some("throttle"), ControllerMode::Manual),
        "mode throttle manual"
    );
}

#[test]
fn mode_commands_are_parsed() {
    assert_eq!(parse_mode_command("mode auto"), Some(ControllerMode::Auto));
    assert_eq!(parse_mode_command("mode   manual  "), Some(ControllerMode::Manual));
    assert_eq!(parse_mode_command("mode steering auto"), Some(ControllerMode::Auto));
    assert_eq!(parse_mode_command("mode x manual"), Some(ControllerMode::Manual));
    assert_eq!(parse_mode_command("mode a b manual"), None);
    assert_eq!(parse_mode_command("mode fast"), None);
    assert_eq!(parse_mode_command("mode "), None);
    assert_eq!(parse_mode_command("mode AUTO"), None);
    assert_eq!(parse_mode_command("pwm-a 1500"), None);
}

#[test]
fn every_ui_mode_request_round_trips() {
    for target in [ModeTarget::Steering, ModeTarget::Throttle, ModeTarget::Both] {
        for mode in [ControllerMode::Manual, ControllerMode::Auto] {
            let command = format_mode_command(Some(target.keyword()), mode);
            assert_eq!(parse_mode_command(&command), Some(mode));
            assert_eq!(validate_command(&command), Ok(()));
            assert!(is_known_command_echo(&command));
        }
    }
}

#[test]
fn commands_are_validated() {
    assert_eq!(validate_command("const ekf_q_angle 0.003"), Ok(()));
    assert_eq!(validate_command("const ekf_q_angle"), Err(CommandRejection::ConstFormat));
    assert_eq!(validate_command("const "), Err(CommandRejection::ConstFormat));
    assert_eq!(validate_command("mode turbo"), Err(CommandRejection::ModeFormat));
    assert_eq!(validate_command("mode auto"), Ok(()));
    assert_eq!(validate_command("pwm-a 1600"), Ok(()));
    assert_eq!(validate_command("anything else"), Ok(()));
    assert_eq!(
        CommandRejection::ConstFormat.message(),
        "const command must be: const <name> <value>"
    );
    assert_eq!(
        CommandRejection::ModeFormat.message(),
        "mode command must be: mode <manual|auto> or mode <steering|throttle|both> <manual|auto>"
    );
}

#[test]
fn command_requests_are_trimmed_and_checked() {
    let request = CommandRequest {
        command: Some("  pwm-a 1600 ".to_string()),
        commands: Some(vec![
            "const a 1".to_string(),
            "   ".to_string(),
            "\tconst b 2\n".to_string(),
        ]),
    };
    assert_eq!(
        parse_command_request(&request),
        Ok(vec!["pwm-a 1600".to_string(), "const a 1".to_string(), "const b 2".to_string()])
    );

    let blank = CommandRequest { command: Some("  ".to_string()), commands: None };
    assert_eq!(parse_command_request(&blank), Ok(Vec::new()));

    let none = CommandRequest { command: None, commands: None };
    assert_eq!(parse_command_request(&none), Ok(Vec::new()));

    let bad = CommandRequest {
        command: None,
        commands: Some(vec!["const a 1".to_string(), "mode x".to_string(), "const b".to_string()]),
    };
    assert_eq!(parse_command_request(&bad), Err(CommandRejection::ModeFormat));
}

#[test]
fn auto_mode_allows_only_neutral_pwm() {
    let auto = connected(ControllerMode::Auto);
    assert!(!command_allowed(&auto, "pwm-a 1600"));
    assert!(!command_allowed(&auto, "pwm-b 1400"));
    assert!(command_allowed(&auto, "pwm-a 1500"));
    assert!(command_allowed(&auto, "pwm-b  1500 "));
    assert!(command_allowed(&auto, "mode manual"));
    assert!(command_allowed(&auto, "speed 0.3"));
    let manual = connected(ControllerMode::Manual);
    assert!(command_allowed(&manual, "pwm-a 1600"));
}

#[test]
fn sending_needs_a_link() {
    let mut s = ControllerTelemetrySnapshot::default();
    assert_eq!(send_serial_command(&mut s, "pwm-a 1600"), Err(SendRejection::NotConnected));
    assert_eq!(s.steer_us, 1500);
    assert_eq!(SendRejection::NotConnected.message(), "not connected");
}

#[test]
fn sending_in_manual_mode_updates_the_snapshot() {
    let mut s = connected(ControllerMode::Manual);
    assert_eq!(send_serial_command(&mut s, "pwm-a 1600"), Ok("pwm-a 1600\n".to_string()));
    assert_eq!(s.steer_us, 1600);
    assert_eq!(send_serial_command(&mut s, "pwm-b -20"), Ok("pwm-b -20\n".to_string()));
    assert_eq!(s.throttle_us, -20);
    assert_eq!(send_serial_command(&mut s, "pwm-b fast"), Ok("pwm-b fast\n".to_string()));
    assert_eq!(s.throttle_us, -20);
    assert_eq!(send_serial_command(&mut s, "mode auto"), Ok("mode auto\n".to_string()));
    assert_eq!(s.mode, ControllerMode::Auto);
}

#[test]
fn auto_mode_refuses_pwm_and_keeps_the_snapshot() {
    let mut s = connected(ControllerMode::Auto);
    assert_eq!(
        send_serial_command(&mut s, "pwm-a 1600"),
        Err(SendRejection::PwmBlockedInAuto)
    );
    assert_eq!(s.steer_us, 1500);
    assert_eq!(
        SendRejection::PwmBlockedInAuto.message(),
        "manual PWM commands are disabled while auto mode is active"
    );
    assert_eq!(send_serial_command(&mut s, "pwm-a 1500"), Ok("pwm-a 1500\n".to_string()));
    assert_eq!(send_mode(&mut s, ControllerMode::Manual), Ok("mode manual\n".to_string()));
    assert_eq!(s.mode, ControllerMode::Manual);
}

#[test]
fn apply_command_snapshot_reads_pulse_widths() {
    let mut s = ControllerTelemetrySnapshot::default();
    apply_command_snapshot(&mut s, "pwm-a  1450 ");
    assert_eq!(s.steer_us, 1450);
    apply_command_snapshot(&mut s, "pwm-b +1550");
    assert_eq!(s.throttle_us, 1550);
    apply_command_snapshot(&mut s, "mode steering auto");
    assert_eq!(s.mode, ControllerMode::Auto);
    apply_command_snapshot(&mut s, "speed 3");
    assert_eq!((s.steer_us, s.throttle_us, s.mode), (1450, 1550, ControllerMode::Auto));
}

#[test]
fn connecting_and_disconnecting() {
    let mut s = ControllerTelemetrySnapshot::default();
    assert_eq!(check_connect("  ", &s), Err(ConnectRejection::PortRequired));
    assert_eq!(check_connect("/dev/ttyACM0", &s), Ok(()));
    assert_eq!(connect_baud(None), 115_200);
    assert_eq!(connect_baud(Some(9600)), 9600);
    s.parse_errors = 3;
    s.serial_errors = 4;
    s.timestamp_us = 77;
    apply_connect(&mut s, "/dev/ttyACM0".to_string());
    assert!(s.connected);
    assert_eq!((s.parse_errors, s.serial_errors, s.timestamp_us), (0, 0, 0));
    assert_eq!(s.selected_port.as_deref(), Some("/dev/ttyACM0"));
    assert_eq!(check_connect("/dev/ttyACM1", &s), Err(ConnectRejection::AlreadyConnected));
    assert_eq!(send_serial_command(&mut s, "speed 0.35"), Ok("speed 0.35\n".to_string()));
    assert_eq!(ConnectRejection::AlreadyConnected.message(), "already connected");
    assert_eq!(ConnectRejection::PortRequired.message(), "port required");
    apply_disconnect(&mut s);
    assert!(!s.connected);
    assert_eq!(s.selected_port, None);
    assert_eq!(send_serial_command(&mut s, "mode auto"), Err(SendRejection::NotConnected));
}

#[test]
fn settings_and_serial_errors() {
    let mut s = ControllerTelemetrySnapshot::default();
    apply_settings(&mut s, "0.5".to_string(), "2".to_string());
    assert_eq!(s.steering_sensitivity, "0.5");
    assert_eq!(s.throttle_sensitivity, "2");
    record_serial_error(&mut s);
    record_serial_error(&mut s);
    assert_eq!(s.serial_errors, 2);
}

#[test]
fn reader_closes_the_link_on_the_tenth_failure() {
    let mut errors = 0;
    for n in 1..=10u32 {
        let (next, action) = reader_step(errors, ReadEvent::Failed);
        assert_eq!(next, n);
        if n == 10 {
            assert_eq!(action, ReaderAction::CountErrorAndDisconnect);
        } else {
            assert_eq!(action, ReaderAction::CountError);
            errors = next;
        }
    }
    assert_eq!(reader_step(9, ReadEvent::Line), (0, ReaderAction::Process));
    assert_eq!(reader_step(4, ReadEvent::Empty), (4, ReaderAction::Wait));
    assert_eq!(reader_step(4, ReadEvent::TimedOut), (4, ReaderAction::Wait));
}

#[test]
fn prefixes_are_the_documented_ones() {
    assert_eq!(MODE_PREFIX, "mode ");
    assert_eq!(PWM_STEERING_PREFIX, "pwm-a ");
}

#[test]
fn batches_stop_at_the_first_refusal() {
    let mut s = connected(ControllerMode::Manual);
    let batch = vec![
        "pwm-a 1600".to_string(),
        "mode auto".to_string(),
        "pwm-b 1400".to_string(),
        "speed 1".to_string(),
    ];
    let outcome = send_serial_commands(&mut s, &batch);
    assert_eq!(outcome.sent, vec!["pwm-a 1600\n".to_string(), "mode auto\n".to_string()]);
    assert_eq!(outcome.refused, Some((2, SendRejection::PwmBlockedInAuto)));
    assert_eq!((s.steer_us, s.throttle_us, s.mode), (1600, 1500, ControllerMode::Auto));

    let mut s = connected(ControllerMode::Manual);
    let outcome = send_serial_commands(&mut s, &vec!["const a 1".to_string(), "pwm-b 1450".to_string()]);
    assert_eq!(outcome.sent.len(), 2);
    assert_eq!(outcome.refused, None);
    assert_eq!(s.throttle_us, 1450);

    let mut off = ControllerTelemetrySnapshot::default();
    let outcome = send_serial_commands(&mut off, &vec!["speed 1".to_string()]);
    assert!(outcome.sent.is_empty());
    assert_eq!(outcome.refused, Some((0, SendRejection::NotConnected)));
    let outcome = send_serial_commands(&mut off, &Vec::new());
    assert!(outcome.sent.is_empty());
    assert_eq!(outcome.refused, Some((0, SendRejection::NoCommands)));
    assert_eq!(SendRejection::NoCommands.message(), "no commands to send");
}
