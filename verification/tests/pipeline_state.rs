use roof_control_hub::camera::{camera_index_from, fourcc_code_text, fourcc_from_str};
use roof_control_hub::classify::{dominant_axis, ClassifyStage};
use roof_control_hub::consts::{DEFAULT_CAMERA_FOURCC, DEFAULT_CAMERA_INDEX, MAX_CONSECUTIVE_READ_ERRORS, SERIAL_BAUD_RATE};
use roof_control_hub::startup::{
    mark_handoff, reset, set_error, startup_gate_step, update_search_status, GateAction,
    GateEvent, StartupPhase, StartupStatus,
};
use roof_control_hub::startup::StartupPhase::{RoofAlignment, SearchGreen};
use roof_control_hub::types::{AxisClass, ControllerMode, ControllerTelemetrySnapshot};
use roof_control_hub::window::{QuantileTracker, WINDOW};

#[test]
fn startup_status_lifecycle() {
    let mut status = StartupStatus::default();
    assert_eq!(status.phase, StartupPhase::SearchGreen);
    assert_eq!(StartupPhase::default(), StartupPhase::SearchGreen);
    update_search_status(&mut status, true);
    assert!(status.green_detected);
    assert_eq!(status.phase, StartupPhase::SearchGreen);
    set_error(&mut status, "not connected".to_string());
    assert_eq!(status.last_error.as_deref(), Some("not connected"));
    mark_handoff(&mut status, true);
    assert_eq!(status.phase, StartupPhase::RoofAlignment);
    assert_eq!(status.handoff_count, 1);
    assert_eq!(status.last_error, None);
    reset(&mut status);
    assert_eq!(status.phase, StartupPhase::SearchGreen);
    assert!(!status.green_detected);
    assert_eq!(status.handoff_count, 1);
    mark_handoff(&mut status, false);
    assert_eq!(status.handoff_count, 2);
}

#[test]
fn startup_gate_decisions() {
    assert_eq!(
        startup_gate_step(SearchGreen, GateEvent::Frame(RoofAlignment)),
        (RoofAlignment, GateAction::Forward)
    );
    assert_eq!(
        startup_gate_step(SearchGreen, GateEvent::Frame(SearchGreen)),
        (SearchGreen, GateAction::Detect { reset_detector: false })
    );
    assert_eq!(
        startup_gate_step(RoofAlignment, GateEvent::Frame(SearchGreen)),
        (SearchGreen, GateAction::Detect { reset_detector: true })
    );
    assert_eq!(
        startup_gate_step(SearchGreen, GateEvent::Detected(false)),
        (SearchGreen, GateAction::Skip)
    );
    assert_eq!(
        startup_gate_step(SearchGreen, GateEvent::Detected(true)),
        (SearchGreen, GateAction::RequestAuto)
    );
    assert_eq!(
        startup_gate_step(SearchGreen, GateEvent::ModeSent(true)),
        (SearchGreen, GateAction::Forward)
    );
    assert_eq!(
        startup_gate_step(SearchGreen, GateEvent::ModeSent(false)),
        (SearchGreen, GateAction::Display)
    );
}

fn std_fourcc(code: &str) -> i32 {
    let bytes = code.as_bytes();
    if bytes.len() != 4 {
        return 0;
    }
    i32::from_le_bytes([bytes[0], bytes[1], bytes[2], bytes[3]])
}

#[test]
fn fourcc_codes() {
    assert_eq!(fourcc_from_str("MJPG"), 0x47504A4D);
    assert_eq!(fourcc_from_str(DEFAULT_CAMERA_FOURCC), std_fourcc("MJPG"));
    assert_eq!(fourcc_from_str("YUYV"), std_fourcc("YUYV"));
    assert_eq!(fourcc_from_str(&"ÿÿÿ"[..4]), std_fourcc("ÿÿ"));
    assert_eq!(fourcc_from_str("abc"), 0);
    assert_eq!(fourcc_from_str("abcde"), 0);
    assert_eq!(fourcc_from_str("é"), 0);
    assert_eq!(fourcc_code_text(0x47504A4D), "MJPG");
    assert_eq!(fourcc_code_text(0), "0x00000000");
    assert_eq!(fourcc_code_text(0xFFFFFFFF), "0xFFFFFFFF");
    assert_eq!(fourcc_code_text(0x0A504A4D), "0x0A504A4D");
    for tag in ["MJPG", "YUYV", "H264", "  z~"] {
        assert_eq!(fourcc_code_text(fourcc_from_str(tag) as u32), tag);
    }
}

#[test]
fn tracker_keeps_the_latest_window() {
    let mut t: QuantileTracker<u64> = QuantileTracker::new();
    assert_eq!(t.len(), 0);
    for v in 0..(WINDOW as u64 + 25) {
        t.push(v);
    }
    assert_eq!(t.len(), WINDOW);
    assert_eq!(*t.get(0), 25);
    assert_eq!(*t.get(WINDOW - 1), WINDOW as u64 + 24);
    let mut small: QuantileTracker<u64> = QuantileTracker::new();
    small.push(7);
    small.push(9);
    assert_eq!((small.len(), *small.get(0), *small.get(1)), (2, 7, 9));
}

#[test]
fn names_and_defaults() {
    assert_eq!(AxisClass::Vertical.as_str(), "vertical");
    assert_eq!(AxisClass::Horizontal.as_str(), "horizontal");
    assert_eq!(AxisClass::Outlier.as_str(), "outlier");
    let s = ControllerTelemetrySnapshot::default();
    assert_eq!((s.steer_us, s.throttle_us, s.timestamp_us), (1500, 1500, 0));
    assert_eq!(s.speed_mps.parse::<f32>(), Ok(0.0));
    assert_eq!(s.steering_sensitivity.parse::<f32>(), Ok(1.0));
    assert_eq!(s.throttle_sensitivity.parse::<f32>(), Ok(1.0));
    assert_eq!(s.mode, ControllerMode::Manual);
    assert!(!s.connected && s.selected_port.is_none());
    assert_eq!(SERIAL_BAUD_RATE, 115_200);
    assert_eq!(MAX_CONSECUTIVE_READ_ERRORS, 10);
    let _stage = ClassifyStage::new();
}

#[test]
fn camera_index_from_the_environment() {
    assert_eq!(DEFAULT_CAMERA_INDEX, 4);
    assert_eq!(camera_index_from(None), 4);
    assert_eq!(camera_index_from(Some("2")), 2);
    assert_eq!(camera_index_from(Some("-1")), -1);
    assert_eq!(camera_index_from(Some(" 2")), 4);
    assert_eq!(camera_index_from(Some("video2")), 4);
    assert_eq!(camera_index_from(Some("")), 4);
}

#[test]
fn the_estimate_prefers_the_vertical_cluster() {
    assert_eq!(dominant_axis(2, 9), AxisClass::Vertical);
    assert_eq!(dominant_axis(1, 2), AxisClass::Horizontal);
    assert_eq!(dominant_axis(1, 1), AxisClass::Outlier);
    assert_eq!(dominant_axis(0, 0), AxisClass::Outlier);
    assert_eq!(dominant_axis(u32::MAX, 0), AxisClass::Vertical);
}
