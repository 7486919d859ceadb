//! The shared data types of the roof-alignment pipeline and the controller bridge.
use vstd::prelude::*;
use crate::decimal::{is_float_literal, leading_digits};

verus! {

/// Which roof-grid axis a detected line belongs to.
#[derive(Clone, Copy, Debug, PartialEq, Eq, Structural)]
pub enum AxisClass {
    Vertical,
    Horizontal,
    Outlier,
}

impl AxisClass {
    pub open spec fn name(self) -> Seq<char> {
        match self {
            AxisClass::Vertical => "vertical"@,
            AxisClass::Horizontal => "horizontal"@,
            AxisClass::Outlier => "outlier"@,
        }
    }

    /// The lower-case name of the axis, as written to logs.
    pub fn as_str(self) -> (r: &'static str)
        ensures
            r@ == self.name(),
    {
        match self {
            AxisClass::Vertical => "vertical",
            AxisClass::Horizontal => "horizontal",
            AxisClass::Outlier => "outlier",
        }
    }
}

/// Whether the RP2350 applies host PWM commands (manual) or its own control output (auto).
#[derive(Clone, Copy, Debug, PartialEq, Eq, Structural)]
pub enum ControllerMode {
    Manual,
    Auto,
}

impl Default for ControllerMode {
    fn default() -> (m: Self)
        ensures
            m == ControllerMode::Manual,
    {
        ControllerMode::Manual
    }
}

/// The latest state of the controller as the host sees it.
///
/// Floating-point readings are kept as their text, which is always a literal
/// that `f32::from_str` accepts (see `floats_wellformed`).
#[derive(Clone, Debug)]
pub struct ControllerTelemetrySnapshot {
    pub timestamp_us: u64,
    pub steer_us: i32,
    pub throttle_us: i32,
    pub speed_mps: String,
    pub setpoint_mps: Option<String>,
    pub error_value: Option<String>,
    pub hall_delta_t_us: Option<u32>,
    pub kalman0: Option<String>,
    pub kalman1: Option<String>,
    pub kalman2: Option<String>,
    pub kalman3: Option<String>,
    pub distance0_cm: Option<u32>,
    pub distance1_cm: Option<u32>,
    pub distance2_cm: Option<u32>,
    /// 0 = Startup, 1 = Straight, 2 = Turning
    pub drive_mode: Option<u8>,
    pub wall_left_correction_deg: Option<String>,
    pub wall_right_correction_deg: Option<String>,
    pub wall_combined_correction_deg: Option<String>,
    pub connected: bool,
    pub last_update_us: u64,
    pub parse_errors: u64,
    pub serial_errors: u64,
    pub mode: ControllerMode,
    pub steering_sensitivity: String,
    pub throttle_sensitivity: String,
    pub selected_port: Option<String>,
}

/// An optional reading that is absent or a floating-point literal.
pub open spec fn opt_float_ok(o: Option<Seq<char>>) -> bool {
    match o {
        Some(t) => is_float_literal(t),
        None => true,
    }
}

impl ControllerTelemetrySnapshot {
    /// Every floating-point field holds a literal that `f32::from_str` accepts.
    pub open spec fn floats_wellformed(&self) -> bool {
        &&& is_float_literal(self.speed_mps@)
        &&& opt_float_ok(self.setpoint_mps.deep_view())
        &&& opt_float_ok(self.error_value.deep_view())
        &&& opt_float_ok(self.kalman0.deep_view())
        &&& opt_float_ok(self.kalman1.deep_view())
        &&& opt_float_ok(self.kalman2.deep_view())
        &&& opt_float_ok(self.kalman3.deep_view())
        &&& opt_float_ok(self.wall_left_correction_deg.deep_view())
        &&& opt_float_ok(self.wall_right_correction_deg.deep_view())
        &&& opt_float_ok(self.wall_combined_correction_deg.deep_view())
        &&& is_float_literal(self.steering_sensitivity@)
        &&& is_float_literal(self.throttle_sensitivity@)
    }
}

impl Default for ControllerTelemetrySnapshot {
    /// Disconnected, in manual mode, both PWM outputs at neutral (1500 us),
    /// speed 0, sensitivities 1 and nothing counted yet.
    fn default() -> (s: Self)
        ensures
            s.timestamp_us == 0,
            s.steer_us == 1500,
            s.throttle_us == 1500,
            s.speed_mps@ == "0"@,
            s.setpoint_mps is None,
            s.error_value is None,
            s.hall_delta_t_us is None,
            s.kalman0 is None,
            s.kalman1 is None,
            s.kalman2 is None,
            s.kalman3 is None,
            s.distance0_cm is None,
            s.distance1_cm is None,
            s.distance2_cm is None,
            s.drive_mode is None,
            s.wall_left_correction_deg is None,
            s.wall_right_correction_deg is None,
            s.wall_combined_correction_deg is None,
            !s.connected,
            s.last_update_us == 0,
            s.parse_errors == 0,
            s.serial_errors == 0,
            s.mode == ControllerMode::Manual,
            s.steering_sensitivity@ == "1"@,
            s.throttle_sensitivity@ == "1"@,
            s.selected_port is None,
            s.floats_wellformed(),
    {
        let s = ControllerTelemetrySnapshot {
            timestamp_us: 0,
            steer_us: 1500,
            throttle_us: 1500,
            speed_mps: String::from_str("0"),
            setpoint_mps: None,
            error_value: None,
            hall_delta_t_us: None,
            kalman0: None,
            kalman1: None,
            kalman2: None,
            kalman3: None,
            distance0_cm: None,
            distance1_cm: None,
            distance2_cm: None,
            drive_mode: None,
            wall_left_correction_deg: None,
            wall_right_correction_deg: None,
            wall_combined_correction_deg: None,
            connected: false,
            last_update_us: 0,
            parse_errors: 0,
            serial_errors: 0,
            mode: ControllerMode::Manual,
            steering_sensitivity: String::from_str("1"),
            throttle_sensitivity: String::from_str("1"),
            selected_port: None,
        };
        proof {
            lemma_single_digit_is_float_literal();
        }
        s
    }
}

/// `"0"` and `"1"` are floating-point literals.
pub proof fn lemma_single_digit_is_float_literal()
    ensures
        is_float_literal("0"@),
        is_float_literal("1"@),
{
    reveal_strlit("0");
    reveal_strlit("1");
    reveal_strlit("inf");
    reveal_strlit("infinity");
    reveal_strlit("nan");
    let z = "0"@;
    assert(z.skip(1).len() == 0);
    assert(leading_digits(z.drop_first()) == 0);
    assert(leading_digits(z) == 1);
    let o = "1"@;
    assert(leading_digits(o.drop_first()) == 0);
    assert(leading_digits(o) == 1);
}

} // verus!
