//! Reading the controller's serial telemetry: the `key:value` stream, the older
//! 4-column stream and the RP2350 `simple_csv` event streams (14/15 and 17/18
//! columns), and folding each reading into the controller snapshot.
use vstd::prelude::*;
use crate::controller_commands::{is_echo, is_known_command_echo};
use crate::decimal::{
    lemma_decimal_digits, lemma_parse_decimal, lemma_parse_signed_decimal, format_signed, format_unsigned, is_float_literal, is_float_literal_exec, parse_i32,
    parse_u32, parse_u64, parse_u8, signed_decimal, decimal, spec_parse_i32, spec_parse_u32,
    spec_parse_u64, spec_parse_u8,
};
use crate::text::{
    chars_eq_str, contains_char, contains_seq, contains_str, eq_ignore_ascii_case,
    split_chars, split_once, split_once_chars, split_with, starts_with_str, string_from,
    sub_chars, to_chars, to_ascii_lower, trim, trim_chars, views, Sep, lemma_trim_unchanged,
    is_ws,
};
use crate::types::{lemma_single_digit_is_float_literal, opt_float_ok, ControllerTelemetrySnapshot};

verus! {

// ---------------------------------------------------------------------------
// Types
// ---------------------------------------------------------------------------

/// Which kind of controller event a log row records.
#[derive(Clone, Copy, Debug, PartialEq, Eq, Structural)]
pub enum LogEvent {
    Controller,
    HallDeltaT,
    Ultrasound,
}

impl LogEvent {
    pub open spec fn name(self) -> Seq<char> {
        match self {
            LogEvent::Controller => "controller"@,
            LogEvent::HallDeltaT => "hall_delta_t"@,
            LogEvent::Ultrasound => "ultrasound"@,
        }
    }

    /// The event's name in the host-side CSV log.
    pub fn as_str(self) -> (r: &'static str)
        ensures
            r@ == self.name(),
    {
        match self {
            LogEvent::Controller => "controller",
            LogEvent::HallDeltaT => "hall_delta_t",
            LogEvent::Ultrasound => "ultrasound",
        }
    }
}

/// The drive-state part of a controller reading.
#[derive(Clone, Debug)]
pub struct ParsedTelemetry {
    pub timestamp_us: u64,
    pub steer_us: i32,
    pub throttle_us: i32,
    /// An `f32` literal.
    pub speed_mps: String,
}

/// One row of the host-side controller log. Optional texts are `f32` literals.
#[derive(Clone, Debug)]
pub struct ControllerLogRow {
    pub timestamp_us: u64,
    pub event: LogEvent,
    pub steer_us: Option<i32>,
    pub throttle_us: Option<i32>,
    pub setpoint_mps: Option<String>,
    pub error_value: Option<String>,
    pub wall_left_correction_deg: Option<String>,
    pub wall_right_correction_deg: Option<String>,
    pub wall_combined_correction_deg: Option<String>,
    pub delta_t_us: Option<u32>,
    pub kalman0: Option<String>,
    pub kalman1: Option<String>,
    pub kalman2: Option<String>,
    pub kalman3: Option<String>,
    pub distance0_cm: Option<u32>,
    pub distance1_cm: Option<u32>,
    pub distance2_cm: Option<u32>,
    /// 0 = Startup, 1 = Straight, 2 = Turning
    pub drive_mode: Option<u8>,
}

/// What one serial line amounts to.
#[derive(Clone, Debug)]
pub enum TelemetryParseResult {
    Parsed { snapshot: Option<ParsedTelemetry>, log_row: ControllerLogRow },
    Ignore,
    Invalid,
}

// ---------------------------------------------------------------------------
// Models
// ---------------------------------------------------------------------------

pub struct ParsedModel {
    pub timestamp_us: u64,
    pub steer_us: i32,
    pub throttle_us: i32,
    pub speed_mps: Seq<char>,
}

pub struct RowModel {
    pub timestamp_us: u64,
    pub event: LogEvent,
    pub steer_us: Option<i32>,
    pub throttle_us: Option<i32>,
    pub setpoint_mps: Option<Seq<char>>,
    pub error_value: Option<Seq<char>>,
    pub wall_left_correction_deg: Option<Seq<char>>,
    pub wall_right_correction_deg: Option<Seq<char>>,
    pub wall_combined_correction_deg: Option<Seq<char>>,
    pub delta_t_us: Option<u32>,
    pub kalman0: Option<Seq<char>>,
    pub kalman1: Option<Seq<char>>,
    pub kalman2: Option<Seq<char>>,
    pub kalman3: Option<Seq<char>>,
    pub distance0_cm: Option<u32>,
    pub distance1_cm: Option<u32>,
    pub distance2_cm: Option<u32>,
    pub drive_mode: Option<u8>,
}

pub enum ParseModel {
    Parsed { snapshot: Option<ParsedModel>, log_row: RowModel },
    Ignore,
    Invalid,
}

impl ParsedTelemetry {
    pub open spec fn model(&self) -> ParsedModel {
        ParsedModel {
            timestamp_us: self.timestamp_us,
            steer_us: self.steer_us,
            throttle_us: self.throttle_us,
            speed_mps: self.speed_mps@,
        }
    }
}

impl ControllerLogRow {
    pub open spec fn model(&self) -> RowModel {
        RowModel {
            timestamp_us: self.timestamp_us,
            event: self.event,
            steer_us: self.steer_us,
            throttle_us: self.throttle_us,
            setpoint_mps: self.setpoint_mps.deep_view(),
            error_value: self.error_value.deep_view(),
            wall_left_correction_deg: self.wall_left_correction_deg.deep_view(),
            wall_right_correction_deg: self.wall_right_correction_deg.deep_view(),
            wall_combined_correction_deg: self.wall_combined_correction_deg.deep_view(),
            delta_t_us: self.delta_t_us,
            kalman0: self.kalman0.deep_view(),
            kalman1: self.kalman1.deep_view(),
            kalman2: self.kalman2.deep_view(),
            kalman3: self.kalman3.deep_view(),
            distance0_cm: self.distance0_cm,
            distance1_cm: self.distance1_cm,
            distance2_cm: self.distance2_cm,
            drive_mode: self.drive_mode,
        }
    }
}

impl TelemetryParseResult {
    pub open spec fn model(&self) -> ParseModel {
        match self {
            TelemetryParseResult::Parsed { snapshot, log_row } => ParseModel::Parsed {
                snapshot: match snapshot {
                    Some(p) => Some(p.model()),
                    None => None,
                },
                log_row: log_row.model(),
            },
            TelemetryParseResult::Ignore => ParseModel::Ignore,
            TelemetryParseResult::Invalid => ParseModel::Invalid,
        }
    }
}

/// A row with only a timestamp and an event: every reading absent.
pub open spec fn bare_row(timestamp_us: u64, event: LogEvent) -> RowModel {
    RowModel {
        timestamp_us,
        event,
        steer_us: None,
        throttle_us: None,
        setpoint_mps: None,
        error_value: None,
        wall_left_correction_deg: None,
        wall_right_correction_deg: None,
        wall_combined_correction_deg: None,
        delta_t_us: None,
        kalman0: None,
        kalman1: None,
        kalman2: None,
        kalman3: None,
        distance0_cm: None,
        distance1_cm: None,
        distance2_cm: None,
        drive_mode: None,
    }
}

// ---------------------------------------------------------------------------
// Field readers
// ---------------------------------------------------------------------------

/// `v.parse::<f32>().ok()`, the reading kept as its text.
pub open spec fn float_text(v: Seq<char>) -> Option<Seq<char>> {
    if is_float_literal(v) {
        Some(v)
    } else {
        None
    }
}

/// Whether a CSV cell is empty or `null` (in any ASCII case) once trimmed.
pub open spec fn is_null_cell(t: Seq<char>) -> bool {
    eq_ignore_ascii_case(t, "null"@) || t.len() == 0
}

pub open spec fn csv_u32(v: Seq<char>) -> Option<u32> {
    if is_null_cell(trim(v)) {
        None
    } else {
        spec_parse_u32(trim(v))
    }
}

pub open spec fn csv_f32(v: Seq<char>) -> Option<Seq<char>> {
    if is_null_cell(trim(v)) {
        None
    } else {
        float_text(trim(v))
    }
}

/// `csv_u32(v).map(|v| v as u8)`: the low eight bits of the reading.
pub open spec fn csv_u8_truncated(v: Seq<char>) -> Option<u8> {
    match csv_u32(v) {
        Some(x) => Some((x % 256) as u8),
        None => None,
    }
}

fn float_text_chars(v: &[char]) -> (r: Option<String>)
    ensures
        r.deep_view() == float_text(v@),
{
    if is_float_literal_exec(v) {
        Some(string_from(v))
    } else {
        None
    }
}

fn is_null_cell_exec(t: &[char]) -> (r: bool)
    ensures
        r == is_null_cell(t@),
{
    if t.len() == 0 {
        return true;
    }
    let w = to_chars("null");
    if t.len() != w.len() {
        return false;
    }
    let mut i: usize = 0;
    while i < t.len()
        invariant
            i <= t@.len(),
            t@.len() == w@.len(),
            w@ == "null"@,
            forall|j: int|
                0 <= j < i ==> crate::text::ascii_lower(t@[j]) == crate::text::ascii_lower(w@[j]),
        decreases t@.len() - i,
    {
        if to_ascii_lower(t[i]) != to_ascii_lower(w[i]) {
            return false;
        }
        i = i + 1;
    }
    true
}

fn csv_u32_chars(v: &[char]) -> (r: Option<u32>)
    ensures
        r == csv_u32(v@),
{
    let t = trim_chars(v);
    if is_null_cell_exec(t.as_slice()) {
        None
    } else {
        parse_u32(t.as_slice())
    }
}

fn csv_f32_chars(v: &[char]) -> (r: Option<String>)
    ensures
        r.deep_view() == csv_f32(v@),
{
    let t = trim_chars(v);
    if is_null_cell_exec(t.as_slice()) {
        None
    } else {
        float_text_chars(t.as_slice())
    }
}

fn csv_u8_truncated_chars(v: &[char]) -> (r: Option<u8>)
    ensures
        r == csv_u8_truncated(v@),
{
    match csv_u32_chars(v) {
        Some(x) => Some((x % 256) as u8),
        None => None,
    }
}

/// A CSV cell read as a `u32`; `null` or an empty cell reads as absent.
pub fn parse_csv_u32(value: &str) -> (r: Option<u32>)
    ensures
        r == csv_u32(value@),
{
    let v = to_chars(value);
    csv_u32_chars(v.as_slice())
}

/// A CSV cell read as an `f32` (kept as its text); `null` or an empty cell reads as absent.
pub fn parse_csv_f32(value: &str) -> (r: Option<String>)
    ensures
        r.deep_view() == csv_f32(value@),
{
    let v = to_chars(value);
    csv_f32_chars(v.as_slice())
}

/// The CSV cell for an optional integer: its decimal text, or `null`.
pub open spec fn opt_cell(v: Option<int>) -> Seq<char> {
    match v {
        Some(x) => signed_decimal(x),
        None => "null"@,
    }
}

pub fn format_csv_opt_i32(value: Option<i32>) -> (r: String)
    ensures
        r@ == opt_cell(
            match value {
                Some(x) => Some(x as int),
                None => None,
            },
        ),
{
    match value {
        Some(x) => format_signed(x as i64),
        None => String::from_str("null"),
    }
}

pub fn format_csv_opt_u32(value: Option<u32>) -> (r: String)
    ensures
        r@ == opt_cell(
            match value {
                Some(x) => Some(x as int),
                None => None,
            },
        ),
{
    match value {
        Some(x) => format_unsigned(x as u128),
        None => String::from_str("null"),
    }
}

pub fn format_csv_opt_u8(value: Option<u8>) -> (r: String)
    ensures
        r@ == opt_cell(
            match value {
                Some(x) => Some(x as int),
                None => None,
            },
        ),
{
    match value {
        Some(x) => format_unsigned(x as u128),
        None => String::from_str("null"),
    }
}


// ---------------------------------------------------------------------------
// The `key:value` stream
// ---------------------------------------------------------------------------

/// The readings gathered from `key:value` pairs so far; a later pair for the
/// same reading replaces an earlier one.
pub struct KvModel {
    pub timestamp_us: Option<u64>,
    pub steer_us: Option<i32>,
    pub throttle_us: Option<i32>,
    pub setpoint_mps: Option<Seq<char>>,
    pub error_value: Option<Seq<char>>,
    pub kalman0: Option<Seq<char>>,
    pub kalman1: Option<Seq<char>>,
    pub kalman2: Option<Seq<char>>,
    pub kalman3: Option<Seq<char>>,
    pub delta_t_us: Option<u32>,
    pub distance0_cm: Option<u32>,
    pub distance1_cm: Option<u32>,
    pub distance2_cm: Option<u32>,
    pub drive_mode: Option<u8>,
    pub wall_left_correction_deg: Option<Seq<char>>,
    pub wall_right_correction_deg: Option<Seq<char>>,
    pub wall_combined_correction_deg: Option<Seq<char>>,
}

pub open spec fn kv_empty() -> KvModel {
    KvModel {
        timestamp_us: None,
        steer_us: None,
        throttle_us: None,
        setpoint_mps: None,
        error_value: None,
        kalman0: None,
        kalman1: None,
        kalman2: None,
        kalman3: None,
        delta_t_us: None,
        distance0_cm: None,
        distance1_cm: None,
        distance2_cm: None,
        drive_mode: None,
        wall_left_correction_deg: None,
        wall_right_correction_deg: None,
        wall_combined_correction_deg: None,
    }
}

/// One trimmed `key:value` pair applied to the readings so far.
pub open spec fn kv_apply(f: KvModel, key: Seq<char>, value: Seq<char>) -> KvModel {
    if contains_seq(key, "time"@) {
        KvModel { timestamp_us: spec_parse_u64(value), ..f }
    } else if contains_seq(key, "steer"@) {
        KvModel { steer_us: spec_parse_i32(value), ..f }
    } else if contains_seq(key, "throttle"@) {
        KvModel { throttle_us: spec_parse_i32(value), ..f }
    } else if contains_seq(key, "setpoint"@) || contains_seq(key, "speed"@) {
        KvModel { setpoint_mps: float_text(value), ..f }
    } else if key == "error"@ {
        KvModel { error_value: float_text(value), ..f }
    } else if key == "kalman0"@ {
        KvModel { kalman0: float_text(value), ..f }
    } else if key == "kalman1"@ {
        KvModel { kalman1: float_text(value), ..f }
    } else if key == "kalman2"@ {
        KvModel { kalman2: float_text(value), ..f }
    } else if key == "kalman3"@ {
        KvModel { kalman3: float_text(value), ..f }
    } else if key == "delta_t_us"@ {
        KvModel { delta_t_us: spec_parse_u32(value), ..f }
    } else if key == "distance0_cm"@ {
        KvModel { distance0_cm: spec_parse_u32(value), ..f }
    } else if key == "distance1_cm"@ {
        KvModel { distance1_cm: spec_parse_u32(value), ..f }
    } else if key == "distance2_cm"@ {
        KvModel { distance2_cm: spec_parse_u32(value), ..f }
    } else if key == "drive_mode"@ {
        KvModel { drive_mode: spec_parse_u8(value), ..f }
    } else if key == "wall_left_deg"@ {
        KvModel { wall_left_correction_deg: float_text(value), ..f }
    } else if key == "wall_right_deg"@ {
        KvModel { wall_right_correction_deg: float_text(value), ..f }
    } else if key == "wall_combined_deg"@ {
        KvModel { wall_combined_correction_deg: float_text(value), ..f }
    } else {
        f
    }
}

/// The readings of a sequence of pairs, applied in order.
pub open spec fn kv_fold(pairs: Seq<Seq<char>>) -> KvModel
    decreases pairs.len(),
{
    if pairs.len() == 0 {
        kv_empty()
    } else {
        let f = kv_fold(pairs.drop_last());
        match split_once(pairs.last(), ':') {
            Some((k, v)) => kv_apply(f, trim(k), trim(v)),
            None => f,
        }
    }
}

/// Whether every piece is a `key:value` pair.
pub open spec fn all_pairs(pairs: Seq<Seq<char>>) -> bool {
    forall|i: int| 0 <= i < pairs.len() ==> (#[trigger] split_once(pairs[i], ':')) is Some
}

/// What the gathered readings of a `key:value` line amount to.
pub open spec fn kv_result(f: KvModel) -> ParseModel {
    match f.timestamp_us {
        None => ParseModel::Invalid,
        Some(ts) => if f.steer_us is Some || f.throttle_us is Some || f.setpoint_mps is Some {
            ParseModel::Parsed {
                snapshot: Some(
                    ParsedModel {
                        timestamp_us: ts,
                        steer_us: match f.steer_us {
                            Some(x) => x,
                            None => 1500,
                        },
                        throttle_us: match f.throttle_us {
                            Some(x) => x,
                            None => 1500,
                        },
                        speed_mps: match f.setpoint_mps {
                            Some(x) => x,
                            None => "0"@,
                        },
                    },
                ),
                log_row: RowModel {
                    steer_us: f.steer_us,
                    throttle_us: f.throttle_us,
                    setpoint_mps: f.setpoint_mps,
                    error_value: f.error_value,
                    wall_left_correction_deg: f.wall_left_correction_deg,
                    wall_right_correction_deg: f.wall_right_correction_deg,
                    wall_combined_correction_deg: f.wall_combined_correction_deg,
                    kalman0: f.kalman0,
                    kalman1: f.kalman1,
                    kalman2: f.kalman2,
                    kalman3: f.kalman3,
                    drive_mode: f.drive_mode,
                    ..bare_row(ts, LogEvent::Controller)
                },
            }
        } else if f.delta_t_us is Some {
            ParseModel::Parsed {
                snapshot: None,
                log_row: RowModel { delta_t_us: f.delta_t_us, ..bare_row(ts, LogEvent::HallDeltaT) },
            }
        } else if f.distance0_cm is Some || f.distance1_cm is Some || f.distance2_cm is Some {
            ParseModel::Parsed {
                snapshot: None,
                log_row: RowModel {
                    distance0_cm: f.distance0_cm,
                    distance1_cm: f.distance1_cm,
                    distance2_cm: f.distance2_cm,
                    ..bare_row(ts, LogEvent::Ultrasound)
                },
            }
        } else {
            ParseModel::Ignore
        },
    }
}

/// A `key:value` line: an optional leading `>`, then comma-separated pairs.
pub open spec fn parse_key_values(line: Seq<char>) -> ParseModel {
    let body = if line.len() > 0 && line[0] == '>' {
        line.drop_first()
    } else {
        line
    };
    let pairs = split_with(body, Sep::Char(','));
    if all_pairs(pairs) {
        kv_result(kv_fold(pairs))
    } else {
        ParseModel::Invalid
    }
}

struct KvFields {
    timestamp_us: Option<u64>,
    steer_us: Option<i32>,
    throttle_us: Option<i32>,
    setpoint_mps: Option<String>,
    error_value: Option<String>,
    kalman0: Option<String>,
    kalman1: Option<String>,
    kalman2: Option<String>,
    kalman3: Option<String>,
    delta_t_us: Option<u32>,
    distance0_cm: Option<u32>,
    distance1_cm: Option<u32>,
    distance2_cm: Option<u32>,
    drive_mode: Option<u8>,
    wall_left_correction_deg: Option<String>,
    wall_right_correction_deg: Option<String>,
    wall_combined_correction_deg: Option<String>,
}

impl KvFields {
    spec fn model(&self) -> KvModel {
        KvModel {
            timestamp_us: self.timestamp_us,
            steer_us: self.steer_us,
            throttle_us: self.throttle_us,
            setpoint_mps: self.setpoint_mps.deep_view(),
            error_value: self.error_value.deep_view(),
            kalman0: self.kalman0.deep_view(),
            kalman1: self.kalman1.deep_view(),
            kalman2: self.kalman2.deep_view(),
            kalman3: self.kalman3.deep_view(),
            delta_t_us: self.delta_t_us,
            distance0_cm: self.distance0_cm,
            distance1_cm: self.distance1_cm,
            distance2_cm: self.distance2_cm,
            drive_mode: self.drive_mode,
            wall_left_correction_deg: self.wall_left_correction_deg.deep_view(),
            wall_right_correction_deg: self.wall_right_correction_deg.deep_view(),
            wall_combined_correction_deg: self.wall_combined_correction_deg.deep_view(),
        }
    }

    fn apply(&mut self, key: &[char], value: &[char])
        ensures
            final(self).model() == kv_apply(old(self).model(), key@, value@),
    {
        if contains_str(key, "time") {
            self.timestamp_us = parse_u64(value);
        } else if contains_str(key, "steer") {
            self.steer_us = parse_i32(value);
        } else if contains_str(key, "throttle") {
            self.throttle_us = parse_i32(value);
        } else if contains_str(key, "setpoint") || contains_str(key, "speed") {
            self.setpoint_mps = float_text_chars(value);
        } else if chars_eq_str(key, "error") {
            self.error_value = float_text_chars(value);
        } else if chars_eq_str(key, "kalman0") {
            self.kalman0 = float_text_chars(value);
        } else if chars_eq_str(key, "kalman1") {
            self.kalman1 = float_text_chars(value);
        } else if chars_eq_str(key, "kalman2") {
            self.kalman2 = float_text_chars(value);
        } else if chars_eq_str(key, "kalman3") {
            self.kalman3 = float_text_chars(value);
        } else if chars_eq_str(key, "delta_t_us") {
            self.delta_t_us = parse_u32(value);
        } else if chars_eq_str(key, "distance0_cm") {
            self.distance0_cm = parse_u32(value);
        } else if chars_eq_str(key, "distance1_cm") {
            self.distance1_cm = parse_u32(value);
        } else if chars_eq_str(key, "distance2_cm") {
            self.distance2_cm = parse_u32(value);
        } else if chars_eq_str(key, "drive_mode") {
            self.drive_mode = parse_u8(value);
        } else if chars_eq_str(key, "wall_left_deg") {
            self.wall_left_correction_deg = float_text_chars(value);
        } else if chars_eq_str(key, "wall_right_deg") {
            self.wall_right_correction_deg = float_text_chars(value);
        } else if chars_eq_str(key, "wall_combined_deg") {
            self.wall_combined_correction_deg = float_text_chars(value);
        }
    }
}

fn parse_key_values_exec(line: &[char]) -> (r: TelemetryParseResult)
    ensures
        r.model() == parse_key_values(line@),
{
    let body = if line.len() > 0 && line[0] == '>' {
        sub_chars(line, 1, line.len())
    } else {
        sub_chars(line, 0, line.len())
    };
    assert(body@ == (if line@.len() > 0 && line@[0] == '>' {
        line@.drop_first()
    } else {
        line@
    }));
    let pairs = split_chars(body.as_slice(), &Sep::Char(','));
    let ghost ps = split_with(body@, Sep::Char(','));
    let mut f = KvFields {
        timestamp_us: None,
        steer_us: None,
        throttle_us: None,
        setpoint_mps: None,
        error_value: None,
        kalman0: None,
        kalman1: None,
        kalman2: None,
        kalman3: None,
        delta_t_us: None,
        distance0_cm: None,
        distance1_cm: None,
        distance2_cm: None,
        drive_mode: None,
        wall_left_correction_deg: None,
        wall_right_correction_deg: None,
        wall_combined_correction_deg: None,
    };
    let mut i: usize = 0;
    assert(ps.take(0) =~= Seq::<Seq<char>>::empty());
    while i < pairs.len()
        invariant
            i <= pairs@.len(),
            views(pairs@) == ps,
            ps == split_with(body@, Sep::Char(',')),
            body@ == (if line@.len() > 0 && line@[0] == '>' {
                line@.drop_first()
            } else {
                line@
            }),
            f.model() == kv_fold(ps.take(i as int)),
            all_pairs(ps.take(i as int)),
        decreases pairs@.len() - i,
    {
        assert(ps.take(i as int + 1).drop_last() == ps.take(i as int));
        assert(ps.take(i as int + 1).last() == pairs@[i as int]@);
        match split_once_chars(pairs[i].as_slice(), ':') {
            None => {
                assert(!all_pairs(ps)) by {
                    assert(ps[i as int] == pairs@[i as int]@);
                    assert(split_once(ps[i as int], ':') is None);
                }
                return TelemetryParseResult::Invalid;
            },
            Some((k, v)) => {
                let kt = trim_chars(k.as_slice());
                let vt = trim_chars(v.as_slice());
                f.apply(kt.as_slice(), vt.as_slice());
            },
        }
        assert(all_pairs(ps.take(i as int + 1))) by {
            assert forall|j: int| 0 <= j < i + 1 implies (#[trigger] split_once(
                ps.take(i as int + 1)[j],
                ':',
            )) is Some by {
                if j < i {
                    assert(ps.take(i as int + 1)[j] == ps.take(i as int)[j]);
                }
            }
        }
        i = i + 1;
    }
    assert(ps.take(pairs@.len() as int) == ps);
    match f.timestamp_us {
        None => TelemetryParseResult::Invalid,
        Some(ts) => {
            if f.steer_us.is_some() || f.throttle_us.is_some() || f.setpoint_mps.is_some() {
                let speed = match &f.setpoint_mps {
                    Some(x) => string_from(to_chars(x.as_str()).as_slice()),
                    None => String::from_str("0"),
                };
                let steer = match f.steer_us {
                    Some(x) => x,
                    None => 1500,
                };
                let throttle = match f.throttle_us {
                    Some(x) => x,
                    None => 1500,
                };
                TelemetryParseResult::Parsed {
                    snapshot: Some(
                        ParsedTelemetry {
                            timestamp_us: ts,
                            steer_us: steer,
                            throttle_us: throttle,
                            speed_mps: speed,
                        },
                    ),
                    log_row: ControllerLogRow {
                        timestamp_us: ts,
                        event: LogEvent::Controller,
                        steer_us: f.steer_us,
                        throttle_us: f.throttle_us,
                        setpoint_mps: f.setpoint_mps,
                        error_value: f.error_value,
                        wall_left_correction_deg: f.wall_left_correction_deg,
                        wall_right_correction_deg: f.wall_right_correction_deg,
                        wall_combined_correction_deg: f.wall_combined_correction_deg,
                        delta_t_us: None,
                        kalman0: f.kalman0,
                        kalman1: f.kalman1,
                        kalman2: f.kalman2,
                        kalman3: f.kalman3,
                        distance0_cm: None,
                        distance1_cm: None,
                        distance2_cm: None,
                        drive_mode: f.drive_mode,
                    },
                }
            } else if f.delta_t_us.is_some() {
                TelemetryParseResult::Parsed {
                    snapshot: None,
                    log_row: ControllerLogRow {
                        timestamp_us: ts,
                        event: LogEvent::HallDeltaT,
                        steer_us: None,
                        throttle_us: None,
                        setpoint_mps: None,
                        error_value: None,
                        wall_left_correction_deg: None,
                        wall_right_correction_deg: None,
                        wall_combined_correction_deg: None,
                        delta_t_us: f.delta_t_us,
                        kalman0: None,
                        kalman1: None,
                        kalman2: None,
                        kalman3: None,
                        distance0_cm: None,
                        distance1_cm: None,
                        distance2_cm: None,
                        drive_mode: None,
                    },
                }
            } else if f.distance0_cm.is_some() || f.distance1_cm.is_some()
                || f.distance2_cm.is_some() {
                TelemetryParseResult::Parsed {
                    snapshot: None,
                    log_row: ControllerLogRow {
                        timestamp_us: ts,
                        event: LogEvent::Ultrasound,
                        steer_us: None,
                        throttle_us: None,
                        setpoint_mps: None,
                        error_value: None,
                        wall_left_correction_deg: None,
                        wall_right_correction_deg: None,
                        wall_combined_correction_deg: None,
                        delta_t_us: None,
                        kalman0: None,
                        kalman1: None,
                        kalman2: None,
                        kalman3: None,
                        distance0_cm: f.distance0_cm,
                        distance1_cm: f.distance1_cm,
                        distance2_cm: f.distance2_cm,
                        drive_mode: None,
                    },
                }
            } else {
                TelemetryParseResult::Ignore
            }
        },
    }
}


// ---------------------------------------------------------------------------
// The CSV streams
// ---------------------------------------------------------------------------

/// A controller row of the 14/15-column stream: error in column 5, kalman
/// states in columns 7..=10, distances in columns 11..=13.
pub open spec fn csv14_controller(ps: Seq<Seq<char>>, ts: u64, drive: Option<u8>) -> ParseModel {
    match (spec_parse_i32(trim(ps[2])), spec_parse_i32(trim(ps[3])), float_text(trim(ps[4]))) {
        (Some(steer), Some(throttle), Some(speed)) => ParseModel::Parsed {
            snapshot: Some(
                ParsedModel { timestamp_us: ts, steer_us: steer, throttle_us: throttle, speed_mps: speed },
            ),
            log_row: RowModel {
                steer_us: Some(steer),
                throttle_us: Some(throttle),
                setpoint_mps: Some(speed),
                error_value: csv_f32(ps[5]),
                kalman0: csv_f32(ps[7]),
                kalman1: csv_f32(ps[8]),
                kalman2: csv_f32(ps[9]),
                kalman3: csv_f32(ps[10]),
                distance0_cm: csv_u32(ps[11]),
                distance1_cm: csv_u32(ps[12]),
                distance2_cm: csv_u32(ps[13]),
                drive_mode: drive,
                ..bare_row(ts, LogEvent::Controller)
            },
        },
        _ => ParseModel::Invalid,
    }
}

/// A controller row of the 18-column stream: error and the three wall
/// corrections in columns 5..=8, kalman states in 10..=13, drive mode in 17.
pub open spec fn csv18_controller(ps: Seq<Seq<char>>, ts: u64) -> ParseModel {
    match (spec_parse_i32(trim(ps[2])), spec_parse_i32(trim(ps[3])), float_text(trim(ps[4]))) {
        (Some(steer), Some(throttle), Some(speed)) => ParseModel::Parsed {
            snapshot: Some(
                ParsedModel { timestamp_us: ts, steer_us: steer, throttle_us: throttle, speed_mps: speed },
            ),
            log_row: RowModel {
                steer_us: Some(steer),
                throttle_us: Some(throttle),
                setpoint_mps: Some(speed),
                error_value: csv_f32(ps[5]),
                wall_left_correction_deg: csv_f32(ps[6]),
                wall_right_correction_deg: csv_f32(ps[7]),
                wall_combined_correction_deg: csv_f32(ps[8]),
                kalman0: csv_f32(ps[10]),
                kalman1: csv_f32(ps[11]),
                kalman2: csv_f32(ps[12]),
                kalman3: csv_f32(ps[13]),
                drive_mode: csv_u8_truncated(ps[17]),
                ..bare_row(ts, LogEvent::Controller)
            },
        },
        _ => ParseModel::Invalid,
    }
}

/// A comma-separated line, by its number of columns.
pub open spec fn parse_csv_columns(ps: Seq<Seq<char>>) -> ParseModel {
    let n = ps.len();
    if n == 4 {
        match (
            spec_parse_u64(trim(ps[0])),
            spec_parse_i32(trim(ps[1])),
            spec_parse_i32(trim(ps[2])),
            float_text(trim(ps[3])),
        ) {
            (Some(ts), Some(steer), Some(throttle), Some(speed)) => ParseModel::Parsed {
                snapshot: Some(
                    ParsedModel {
                        timestamp_us: ts,
                        steer_us: steer,
                        throttle_us: throttle,
                        speed_mps: speed,
                    },
                ),
                log_row: RowModel {
                    steer_us: Some(steer),
                    throttle_us: Some(throttle),
                    setpoint_mps: Some(speed),
                    ..bare_row(ts, LogEvent::Controller)
                },
            },
            _ => ParseModel::Invalid,
        }
    } else if n == 14 || n == 15 {
        match spec_parse_u64(trim(ps[0])) {
            None => ParseModel::Invalid,
            Some(ts) => {
                let drive = if n == 15 {
                    csv_u8_truncated(ps[14])
                } else {
                    None
                };
                let event = trim(ps[1]);
                if event == "controller"@ {
                    csv14_controller(ps, ts, drive)
                } else if event == "ultrasound"@ {
                    ParseModel::Parsed {
                        snapshot: None,
                        log_row: RowModel {
                            distance0_cm: csv_u32(ps[11]),
                            distance1_cm: csv_u32(ps[12]),
                            distance2_cm: csv_u32(ps[13]),
                            ..bare_row(ts, LogEvent::Ultrasound)
                        },
                    }
                } else if event == "hall_delta_t"@ {
                    ParseModel::Parsed {
                        snapshot: None,
                        log_row: RowModel {
                            delta_t_us: csv_u32(ps[6]),
                            ..bare_row(ts, LogEvent::HallDeltaT)
                        },
                    }
                } else {
                    ParseModel::Invalid
                }
            },
        }
    } else if n == 17 || n == 18 {
        match spec_parse_u64(trim(ps[0])) {
            None => ParseModel::Invalid,
            Some(ts) => {
                let event = trim(ps[1]);
                if event == "controller"@ && n == 18 {
                    csv18_controller(ps, ts)
                } else if event == "hall_delta_t"@ && n == 17 {
                    ParseModel::Parsed {
                        snapshot: None,
                        log_row: RowModel {
                            delta_t_us: csv_u32(ps[9]),
                            ..bare_row(ts, LogEvent::HallDeltaT)
                        },
                    }
                } else {
                    ParseModel::Invalid
                }
            },
        }
    } else {
        ParseModel::Invalid
    }
}

/// What one (trimmed) serial line amounts to: a line with a `:` is read as
/// `key:value` pairs, any other as comma-separated columns.
pub open spec fn parse_telemetry(line: Seq<char>) -> ParseModel {
    if line.contains(':') {
        parse_key_values(line)
    } else {
        parse_csv_columns(split_with(line, Sep::Char(',')))
    }
}

fn empty_row(timestamp_us: u64, event: LogEvent) -> (r: ControllerLogRow)
    ensures
        r.model() == bare_row(timestamp_us, event),
{
    ControllerLogRow {
        timestamp_us,
        event,
        steer_us: None,
        throttle_us: None,
        setpoint_mps: None,
        error_value: None,
        wall_left_correction_deg: None,
        wall_right_correction_deg: None,
        wall_combined_correction_deg: None,
        delta_t_us: None,
        kalman0: None,
        kalman1: None,
        kalman2: None,
        kalman3: None,
        distance0_cm: None,
        distance1_cm: None,
        distance2_cm: None,
        drive_mode: None,
    }
}

fn drive_state(parts: &Vec<Vec<char>>, ts: u64) -> (r: Option<(i32, i32, String)>)
    requires
        parts@.len() >= 5,
    ensures
        match r {
            Some((steer, throttle, speed)) => spec_parse_i32(trim(views(parts@)[2])) == Some(steer)
                && spec_parse_i32(trim(views(parts@)[3])) == Some(throttle) && float_text(
                trim(views(parts@)[4]),
            ) == Some(speed@),
            None => !(spec_parse_i32(trim(views(parts@)[2])) is Some && spec_parse_i32(
                trim(views(parts@)[3]),
            ) is Some && float_text(trim(views(parts@)[4])) is Some),
        },
{
    let p2 = trim_chars(parts[2].as_slice());
    let p3 = trim_chars(parts[3].as_slice());
    let p4 = trim_chars(parts[4].as_slice());
    match (parse_i32(p2.as_slice()), parse_i32(p3.as_slice()), float_text_chars(p4.as_slice())) {
        (Some(steer), Some(throttle), Some(speed)) => Some((steer, throttle, speed)),
        _ => None,
    }
}

fn parse_csv_exec(parts: &Vec<Vec<char>>) -> (r: TelemetryParseResult)
    ensures
        r.model() == parse_csv_columns(views(parts@)),
{
    let ghost ps = views(parts@);
    let n = parts.len();
    if n == 4 {
        let p0 = trim_chars(parts[0].as_slice());
        let p1 = trim_chars(parts[1].as_slice());
        let p2 = trim_chars(parts[2].as_slice());
        let p3 = trim_chars(parts[3].as_slice());
        match (
            parse_u64(p0.as_slice()),
            parse_i32(p1.as_slice()),
            parse_i32(p2.as_slice()),
            float_text_chars(p3.as_slice()),
        ) {
            (Some(ts), Some(steer), Some(throttle), Some(speed)) => {
                let speed_copy = string_from(to_chars(speed.as_str()).as_slice());
                let mut row = empty_row(ts, LogEvent::Controller);
                row.steer_us = Some(steer);
                row.throttle_us = Some(throttle);
                row.setpoint_mps = Some(speed_copy);
                TelemetryParseResult::Parsed {
                    snapshot: Some(
                        ParsedTelemetry {
                            timestamp_us: ts,
                            steer_us: steer,
                            throttle_us: throttle,
                            speed_mps: speed,
                        },
                    ),
                    log_row: row,
                }
            },
            _ => TelemetryParseResult::Invalid,
        }
    } else if n == 14 || n == 15 {
        let p0 = trim_chars(parts[0].as_slice());
        let ts = match parse_u64(p0.as_slice()) {
            None => {
                return TelemetryParseResult::Invalid;
            },
            Some(ts) => ts,
        };
        let drive = if n == 15 {
            csv_u8_truncated_chars(parts[14].as_slice())
        } else {
            None
        };
        let event = trim_chars(parts[1].as_slice());
        if chars_eq_str(event.as_slice(), "controller") {
            match drive_state(parts, ts) {
                Some((steer, throttle, speed)) => {
                    let speed_copy = string_from(to_chars(speed.as_str()).as_slice());
                    let mut row = empty_row(ts, LogEvent::Controller);
                    row.steer_us = Some(steer);
                    row.throttle_us = Some(throttle);
                    row.setpoint_mps = Some(speed_copy);
                    row.error_value = csv_f32_chars(parts[5].as_slice());
                    row.kalman0 = csv_f32_chars(parts[7].as_slice());
                    row.kalman1 = csv_f32_chars(parts[8].as_slice());
                    row.kalman2 = csv_f32_chars(parts[9].as_slice());
                    row.kalman3 = csv_f32_chars(parts[10].as_slice());
                    row.distance0_cm = csv_u32_chars(parts[11].as_slice());
                    row.distance1_cm = csv_u32_chars(parts[12].as_slice());
                    row.distance2_cm = csv_u32_chars(parts[13].as_slice());
                    row.drive_mode = drive;
                    TelemetryParseResult::Parsed {
                        snapshot: Some(
                            ParsedTelemetry {
                                timestamp_us: ts,
                                steer_us: steer,
                                throttle_us: throttle,
                                speed_mps: speed,
                            },
                        ),
                        log_row: row,
                    }
                },
                None => TelemetryParseResult::Invalid,
            }
        } else if chars_eq_str(event.as_slice(), "ultrasound") {
            let mut row = empty_row(ts, LogEvent::Ultrasound);
            row.distance0_cm = csv_u32_chars(parts[11].as_slice());
            row.distance1_cm = csv_u32_chars(parts[12].as_slice());
            row.distance2_cm = csv_u32_chars(parts[13].as_slice());
            TelemetryParseResult::Parsed { snapshot: None, log_row: row }
        } else if chars_eq_str(event.as_slice(), "hall_delta_t") {
            let mut row = empty_row(ts, LogEvent::HallDeltaT);
            row.delta_t_us = csv_u32_chars(parts[6].as_slice());
            TelemetryParseResult::Parsed { snapshot: None, log_row: row }
        } else {
            TelemetryParseResult::Invalid
        }
    } else if n == 17 || n == 18 {
        let p0 = trim_chars(parts[0].as_slice());
        let ts = match parse_u64(p0.as_slice()) {
            None => {
                return TelemetryParseResult::Invalid;
            },
            Some(ts) => ts,
        };
        let event = trim_chars(parts[1].as_slice());
        if chars_eq_str(event.as_slice(), "controller") && n == 18 {
            match drive_state(parts, ts) {
                Some((steer, throttle, speed)) => {
                    let speed_copy = string_from(to_chars(speed.as_str()).as_slice());
                    let mut row = empty_row(ts, LogEvent::Controller);
                    row.steer_us = Some(steer);
                    row.throttle_us = Some(throttle);
                    row.setpoint_mps = Some(speed_copy);
                    row.error_value = csv_f32_chars(parts[5].as_slice());
                    row.wall_left_correction_deg = csv_f32_chars(parts[6].as_slice());
                    row.wall_right_correction_deg = csv_f32_chars(parts[7].as_slice());
                    row.wall_combined_correction_deg = csv_f32_chars(parts[8].as_slice());
                    row.kalman0 = csv_f32_chars(parts[10].as_slice());
                    row.kalman1 = csv_f32_chars(parts[11].as_slice());
                    row.kalman2 = csv_f32_chars(parts[12].as_slice());
                    row.kalman3 = csv_f32_chars(parts[13].as_slice());
                    row.drive_mode = csv_u8_truncated_chars(parts[17].as_slice());
                    TelemetryParseResult::Parsed {
                        snapshot: Some(
                            ParsedTelemetry {
                                timestamp_us: ts,
                                steer_us: steer,
                                throttle_us: throttle,
                                speed_mps: speed,
                            },
                        ),
                        log_row: row,
                    }
                },
                None => TelemetryParseResult::Invalid,
            }
        } else if chars_eq_str(event.as_slice(), "hall_delta_t") && n == 17 {
            let mut row = empty_row(ts, LogEvent::HallDeltaT);
            row.delta_t_us = csv_u32_chars(parts[9].as_slice());
            TelemetryParseResult::Parsed { snapshot: None, log_row: row }
        } else {
            TelemetryParseResult::Invalid
        }
    } else {
        TelemetryParseResult::Invalid
    }
}

/// Reads one (already trimmed) serial line from the controller.
pub fn parse_telemetry_line(line: &str) -> (r: TelemetryParseResult)
    ensures
        r.model() == parse_telemetry(line@),
{
    let v = to_chars(line);
    if contains_char(v.as_slice(), ':') {
        parse_key_values_exec(v.as_slice())
    } else {
        let parts = split_chars(v.as_slice(), &Sep::Char(','));
        parse_csv_exec(&parts)
    }
}


// ---------------------------------------------------------------------------
// Folding readings into the snapshot
// ---------------------------------------------------------------------------

/// `new` is `old` with a controller reading's drive state taken over.
pub open spec fn drive_state_applied(
    old: ControllerTelemetrySnapshot,
    new: ControllerTelemetrySnapshot,
    p: ParsedModel,
) -> bool {
    &&& new.timestamp_us == p.timestamp_us
    &&& new.last_update_us == p.timestamp_us
    &&& new.steer_us == p.steer_us
    &&& new.throttle_us == p.throttle_us
    &&& new.speed_mps@ == p.speed_mps
    &&& new.connected
    &&& new.setpoint_mps == old.setpoint_mps
    &&& new.error_value == old.error_value
    &&& new.hall_delta_t_us == old.hall_delta_t_us
    &&& new.kalman0 == old.kalman0
    &&& new.kalman1 == old.kalman1
    &&& new.kalman2 == old.kalman2
    &&& new.kalman3 == old.kalman3
    &&& new.distance0_cm == old.distance0_cm
    &&& new.distance1_cm == old.distance1_cm
    &&& new.distance2_cm == old.distance2_cm
    &&& new.drive_mode == old.drive_mode
    &&& new.wall_left_correction_deg == old.wall_left_correction_deg
    &&& new.wall_right_correction_deg == old.wall_right_correction_deg
    &&& new.wall_combined_correction_deg == old.wall_combined_correction_deg
    &&& new.parse_errors == old.parse_errors
    &&& new.serial_errors == old.serial_errors
    &&& new.mode == old.mode
    &&& new.steering_sensitivity == old.steering_sensitivity
    &&& new.throttle_sensitivity == old.throttle_sensitivity
    &&& new.selected_port == old.selected_port
}

/// An optional reading replaces the old value when present.
pub open spec fn overlay<T>(old: Option<T>, new: Option<T>) -> Option<T> {
    match new {
        Some(x) => Some(x),
        None => old,
    }
}

/// `new` is `old` with every reading that `row` holds taken over.
pub open spec fn row_applied(
    old: ControllerTelemetrySnapshot,
    new: ControllerTelemetrySnapshot,
    row: RowModel,
) -> bool {
    &&& new.timestamp_us == row.timestamp_us
    &&& new.last_update_us == row.timestamp_us
    &&& new.steer_us == (match row.steer_us {
        Some(x) => x,
        None => old.steer_us,
    })
    &&& new.throttle_us == (match row.throttle_us {
        Some(x) => x,
        None => old.throttle_us,
    })
    &&& new.speed_mps@ == (match row.setpoint_mps {
        Some(x) => x,
        None => old.speed_mps@,
    })
    &&& new.setpoint_mps.deep_view() == overlay(old.setpoint_mps.deep_view(), row.setpoint_mps)
    &&& new.error_value.deep_view() == overlay(old.error_value.deep_view(), row.error_value)
    &&& new.hall_delta_t_us == overlay(old.hall_delta_t_us, row.delta_t_us)
    &&& new.kalman0.deep_view() == overlay(old.kalman0.deep_view(), row.kalman0)
    &&& new.kalman1.deep_view() == overlay(old.kalman1.deep_view(), row.kalman1)
    &&& new.kalman2.deep_view() == overlay(old.kalman2.deep_view(), row.kalman2)
    &&& new.kalman3.deep_view() == overlay(old.kalman3.deep_view(), row.kalman3)
    &&& new.distance0_cm == overlay(old.distance0_cm, row.distance0_cm)
    &&& new.distance1_cm == overlay(old.distance1_cm, row.distance1_cm)
    &&& new.distance2_cm == overlay(old.distance2_cm, row.distance2_cm)
    &&& new.drive_mode == overlay(old.drive_mode, row.drive_mode)
    &&& new.wall_left_correction_deg.deep_view() == overlay(
        old.wall_left_correction_deg.deep_view(),
        row.wall_left_correction_deg,
    )
    &&& new.wall_right_correction_deg.deep_view() == overlay(
        old.wall_right_correction_deg.deep_view(),
        row.wall_right_correction_deg,
    )
    &&& new.wall_combined_correction_deg.deep_view() == overlay(
        old.wall_combined_correction_deg.deep_view(),
        row.wall_combined_correction_deg,
    )
    &&& new.connected == old.connected
    &&& new.parse_errors == old.parse_errors
    &&& new.serial_errors == old.serial_errors
    &&& new.mode == old.mode
    &&& new.steering_sensitivity == old.steering_sensitivity
    &&& new.throttle_sensitivity == old.throttle_sensitivity
    &&& new.selected_port == old.selected_port
}

fn copy_text(s: &String) -> (r: String)
    ensures
        r@ == s@,
{
    s.clone()
}

fn copy_opt_text(s: &Option<String>) -> (r: Option<String>)
    ensures
        r.deep_view() == s.deep_view(),
{
    match s {
        Some(t) => Some(copy_text(t)),
        None => None,
    }
}

fn pick_text(old: &Option<String>, new: &Option<String>) -> (r: Option<String>)
    ensures
        r.deep_view() == overlay(old.deep_view(), new.deep_view()),
{
    match new {
        Some(_) => copy_opt_text(new),
        None => copy_opt_text(old),
    }
}

fn pick<T: Copy>(old: Option<T>, new: Option<T>) -> (r: Option<T>)
    ensures
        r == overlay(old, new),
{
    match new {
        Some(x) => Some(x),
        None => old,
    }
}

/// Takes over every reading that `log_row` holds.
pub fn apply_log_row_to_snapshot(
    snapshot: &mut ControllerTelemetrySnapshot,
    log_row: &ControllerLogRow,
)
    ensures
        row_applied(*old(snapshot), *final(snapshot), log_row.model()),
{
    snapshot.timestamp_us = log_row.timestamp_us;
    snapshot.last_update_us = log_row.timestamp_us;
    if let Some(steer_us) = log_row.steer_us {
        snapshot.steer_us = steer_us;
    }
    if let Some(throttle_us) = log_row.throttle_us {
        snapshot.throttle_us = throttle_us;
    }
    if let Some(setpoint_mps) = &log_row.setpoint_mps {
        snapshot.speed_mps = copy_text(setpoint_mps);
    }
    let x = pick_text(&snapshot.setpoint_mps, &log_row.setpoint_mps);
    snapshot.setpoint_mps = x;
    let x = pick_text(&snapshot.error_value, &log_row.error_value);
    snapshot.error_value = x;
    snapshot.hall_delta_t_us = pick(snapshot.hall_delta_t_us, log_row.delta_t_us);
    let x = pick_text(&snapshot.kalman0, &log_row.kalman0);
    snapshot.kalman0 = x;
    let x = pick_text(&snapshot.kalman1, &log_row.kalman1);
    snapshot.kalman1 = x;
    let x = pick_text(&snapshot.kalman2, &log_row.kalman2);
    snapshot.kalman2 = x;
    let x = pick_text(&snapshot.kalman3, &log_row.kalman3);
    snapshot.kalman3 = x;
    snapshot.distance0_cm = pick(snapshot.distance0_cm, log_row.distance0_cm);
    snapshot.distance1_cm = pick(snapshot.distance1_cm, log_row.distance1_cm);
    snapshot.distance2_cm = pick(snapshot.distance2_cm, log_row.distance2_cm);
    snapshot.drive_mode = pick(snapshot.drive_mode, log_row.drive_mode);
    let x = pick_text(&snapshot.wall_left_correction_deg, &log_row.wall_left_correction_deg);
    snapshot.wall_left_correction_deg = x;
    let x = pick_text(&snapshot.wall_right_correction_deg, &log_row.wall_right_correction_deg);
    snapshot.wall_right_correction_deg = x;
    let x = pick_text(
        &snapshot.wall_combined_correction_deg,
        &log_row.wall_combined_correction_deg,
    );
    snapshot.wall_combined_correction_deg = x;
}

/// Whether the bridge drops a serial line unread: empty, `OK`, a `#` comment,
/// an `ERR...` report, or the echo of one of our commands.
pub open spec fn is_skipped_line(line: Seq<char>) -> bool {
    ||| line.len() == 0
    ||| line == "OK"@
    ||| "#"@.is_prefix_of(line)
    ||| "ERR"@.is_prefix_of(line)
    ||| is_echo(line)
}

/// Whether a serial line is the controller echoing one of our commands.
pub fn is_command_echo(line: &str) -> (r: bool)
    ensures
        r == is_echo(line@),
{
    is_known_command_echo(line)
}

/// What handling one serial line did.
#[derive(Debug)]
pub enum LineOutcome {
    /// The line was dropped unread; nothing changed.
    Skipped,
    /// A reading was taken over; the row belongs in the host-side log.
    Logged(ControllerLogRow),
    /// The line held nothing to take over (it may have counted as a parse error).
    Unlogged,
}

/// The effect of one (trimmed) serial line on the snapshot, and the log row it yields.
pub open spec fn line_effect(
    old: ControllerTelemetrySnapshot,
    new: ControllerTelemetrySnapshot,
    line: Seq<char>,
    out: LineOutcome,
) -> bool {
    if is_skipped_line(line) {
        out is Skipped && new == old
    } else {
        match parse_telemetry(line) {
            ParseModel::Parsed { snapshot, log_row } => out matches LineOutcome::Logged(row) && row.model()
                == log_row && match snapshot {
                Some(p) => exists|mid: ControllerTelemetrySnapshot|
                    drive_state_applied(old, mid, p) && row_applied(mid, new, log_row),
                None => row_applied(old, new, log_row),
            },
            ParseModel::Ignore => out is Unlogged && new == old,
            ParseModel::Invalid => out is Unlogged && new == (ControllerTelemetrySnapshot {
                parse_errors: (old.parse_errors + 1) as u64,
                ..old
            }),
        }
    }
}

/// Handles one (already trimmed) serial line: drops echoes and status lines,
/// takes over what a reading holds, and counts lines that do not parse.
pub fn process_telemetry_line(snapshot: &mut ControllerTelemetrySnapshot, line: &str) -> (r:
    LineOutcome)
    requires
        old(snapshot).parse_errors < u64::MAX,
    ensures
        line_effect(*old(snapshot), *final(snapshot), line@, r),
        old(snapshot).floats_wellformed() ==> final(snapshot).floats_wellformed(),
{
    proof {
        law_parse_keeps_float_literals(line@);
    }
    let v = to_chars(line);
    if v.len() == 0 || chars_eq_str(v.as_slice(), "OK") || starts_with_str(v.as_slice(), "#")
        || starts_with_str(v.as_slice(), "ERR") || is_command_echo(line) {
        return LineOutcome::Skipped;
    }
    match parse_telemetry_line(line) {
        TelemetryParseResult::Parsed { snapshot: parsed, log_row } => {
            if let Some(p) = parsed {
                snapshot.timestamp_us = p.timestamp_us;
                snapshot.last_update_us = p.timestamp_us;
                snapshot.steer_us = p.steer_us;
                snapshot.throttle_us = p.throttle_us;
                snapshot.speed_mps = p.speed_mps;
                snapshot.connected = true;
            }
            let ghost mid = *snapshot;
            apply_log_row_to_snapshot(snapshot, &log_row);
            proof {
                if parsed is Some {
                    assert(drive_state_applied(*old(snapshot), mid, parsed->0.model()));
                }
            }
            LineOutcome::Logged(log_row)
        },
        TelemetryParseResult::Ignore => LineOutcome::Unlogged,
        TelemetryParseResult::Invalid => {
            snapshot.parse_errors = snapshot.parse_errors + 1;
            LineOutcome::Unlogged
        },
    }
}

// ---------------------------------------------------------------------------
// Laws of the telemetry readings
// ---------------------------------------------------------------------------

/// Every reading that a row keeps as text is an `f32` literal.
pub open spec fn row_floats_ok(r: RowModel) -> bool {
    &&& opt_float_ok(r.setpoint_mps)
    &&& opt_float_ok(r.error_value)
    &&& opt_float_ok(r.wall_left_correction_deg)
    &&& opt_float_ok(r.wall_right_correction_deg)
    &&& opt_float_ok(r.wall_combined_correction_deg)
    &&& opt_float_ok(r.kalman0)
    &&& opt_float_ok(r.kalman1)
    &&& opt_float_ok(r.kalman2)
    &&& opt_float_ok(r.kalman3)
}

/// Every reading that a parse result keeps as text is an `f32` literal.
pub open spec fn parse_floats_ok(p: ParseModel) -> bool {
    match p {
        ParseModel::Parsed { snapshot, log_row } => row_floats_ok(log_row) && match snapshot {
            Some(s) => is_float_literal(s.speed_mps),
            None => true,
        },
        _ => true,
    }
}

pub open spec fn kv_floats_ok(f: KvModel) -> bool {
    &&& opt_float_ok(f.setpoint_mps)
    &&& opt_float_ok(f.error_value)
    &&& opt_float_ok(f.wall_left_correction_deg)
    &&& opt_float_ok(f.wall_right_correction_deg)
    &&& opt_float_ok(f.wall_combined_correction_deg)
    &&& opt_float_ok(f.kalman0)
    &&& opt_float_ok(f.kalman1)
    &&& opt_float_ok(f.kalman2)
    &&& opt_float_ok(f.kalman3)
}

proof fn lemma_float_text_ok(v: Seq<char>)
    ensures
        opt_float_ok(float_text(v)),
{
}

#[verifier::rlimit(60)]
#[verifier::spinoff_prover]
proof fn lemma_kv_apply_floats(f: KvModel, key: Seq<char>, value: Seq<char>)
    requires
        kv_floats_ok(f),
    ensures
        kv_floats_ok(kv_apply(f, key, value)),
{
    lemma_float_text_ok(value);
}

proof fn lemma_kv_fold_floats(pairs: Seq<Seq<char>>)
    ensures
        kv_floats_ok(kv_fold(pairs)),
    decreases pairs.len(),
{
    if pairs.len() > 0 {
        lemma_kv_fold_floats(pairs.drop_last());
        let f = kv_fold(pairs.drop_last());
        match split_once(pairs.last(), ':') {
            Some((k, v)) => lemma_kv_apply_floats(f, trim(k), trim(v)),
            None => {},
        }
    }
}

/// Whatever a serial line holds, the readings kept from it as text are
/// `f32` literals.
pub proof fn law_parse_keeps_float_literals(line: Seq<char>)
    ensures
        parse_floats_ok(parse_telemetry(line)),
{
    lemma_single_digit_is_float_literal();
    if line.contains(':') {
        let body = if line.len() > 0 && line[0] == '>' {
            line.drop_first()
        } else {
            line
        };
        lemma_kv_fold_floats(split_with(body, Sep::Char(',')));
    }
}

/// Handling serial lines keeps every floating-point reading of the snapshot
/// an `f32` literal.
pub proof fn law_lines_keep_float_literals(
    old: ControllerTelemetrySnapshot,
    new: ControllerTelemetrySnapshot,
    line: Seq<char>,
    out: LineOutcome,
)
    requires
        old.floats_wellformed(),
        line_effect(old, new, line, out),
    ensures
        new.floats_wellformed(),
{
    law_parse_keeps_float_literals(line);
    if !is_skipped_line(line) {
        match parse_telemetry(line) {
            ParseModel::Parsed { snapshot, log_row } => {
                match snapshot {
                    Some(p) => {
                        let mid = choose|mid: ControllerTelemetrySnapshot|
                            drive_state_applied(old, mid, p) && row_applied(mid, new, log_row);
                        assert(mid.floats_wellformed());
                    },
                    None => {},
                }
            },
            _ => {},
        }
    }
}

proof fn lemma_digits_not_null(n: nat)
    ensures
        trim(decimal(n)) == decimal(n),
        !is_null_cell(decimal(n)),
{
    reveal_strlit("null");
    lemma_decimal_digits(n);
    let d = decimal(n);
    assert(crate::decimal::is_digit(d[0]));
    assert(crate::decimal::is_digit(d.last()));
    lemma_trim_unchanged(d);
    if d.len() == 4 {
        assert(crate::text::ascii_lower(d[0]) != crate::text::ascii_lower("null"@[0]));
    }
}

proof fn lemma_null_cell()
    ensures
        trim("null"@) == "null"@,
        is_null_cell("null"@),
{
    reveal_strlit("null");
    lemma_trim_unchanged("null"@);
}

/// A log cell written for an optional `u32` reading reads back as that reading.
pub proof fn law_csv_u32_round_trip(value: Option<u32>)
    ensures
        csv_u32(
            opt_cell(
                match value {
                    Some(x) => Some(x as int),
                    None => None,
                },
            ),
        ) == value,
{
    match value {
        Some(x) => {
            lemma_digits_not_null(x as nat);
            lemma_parse_decimal(x as nat);
        },
        None => {
            lemma_null_cell();
        },
    }
}

/// A log cell written for an optional `u8` drive mode reads back as that drive mode.
pub proof fn law_csv_u8_round_trip(value: Option<u8>)
    ensures
        csv_u8_truncated(
            opt_cell(
                match value {
                    Some(x) => Some(x as int),
                    None => None,
                },
            ),
        ) == value,
{
    match value {
        Some(x) => {
            lemma_digits_not_null(x as nat);
            lemma_parse_decimal(x as nat);
        },
        None => {
            lemma_null_cell();
        },
    }
}

/// A log cell written for an `i32` pulse width reads back as that pulse width.
pub proof fn law_csv_i32_round_trip(value: i32)
    ensures
        spec_parse_i32(trim(opt_cell(Some(value as int)))) == Some(value),
{
    lemma_parse_signed_decimal(value as int);
    if value < 0 {
        let m = (-value) as nat;
        lemma_decimal_digits(m);
        let s = seq!['-'] + decimal(m);
        assert(s[0] == '-');
        assert(s.last() == decimal(m).last());
        assert(crate::decimal::is_digit(decimal(m).last()));
        lemma_trim_unchanged(s);
    } else {
        lemma_digits_not_null(value as nat);
    }
}

// ---------------------------------------------------------------------------
// Laws of the CSV column layouts
// ---------------------------------------------------------------------------

/// Whether the first five columns of a CSV controller row read as a
/// timestamp, the word `controller`, two pulse widths and a speed.
pub open spec fn controller_head(ps: Seq<Seq<char>>) -> bool {
    &&& spec_parse_u64(trim(ps[0])) is Some
    &&& trim(ps[1]) == "controller"@
    &&& spec_parse_i32(trim(ps[2])) is Some
    &&& spec_parse_i32(trim(ps[3])) is Some
    &&& is_float_literal(trim(ps[4]))
}

/// An 18-column controller row is read with the layout
/// `ts,controller,steer,throttle,setpoint,error,wall_left,wall_right,wall_combined,-,k0,k1,k2,k3,-,-,-,drive_mode`:
/// every reading comes from its own column.
pub proof fn law_eighteen_column_layout(line: Seq<char>)
    requires
        !line.contains(':'),
        split_with(line, Sep::Char(',')).len() == 18,
        controller_head(split_with(line, Sep::Char(','))),
    ensures
        ({
            let ps = split_with(line, Sep::Char(','));
            parse_telemetry(line) matches ParseModel::Parsed { snapshot, log_row } && {
                &&& snapshot == Some(ParsedModel {
                    timestamp_us: spec_parse_u64(trim(ps[0]))->0,
                    steer_us: spec_parse_i32(trim(ps[2]))->0,
                    throttle_us: spec_parse_i32(trim(ps[3]))->0,
                    speed_mps: trim(ps[4]),
                })
                &&& log_row.event == LogEvent::Controller
                &&& log_row.timestamp_us == spec_parse_u64(trim(ps[0]))->0
                &&& log_row.steer_us == spec_parse_i32(trim(ps[2]))
                &&& log_row.throttle_us == spec_parse_i32(trim(ps[3]))
                &&& log_row.setpoint_mps == Some(trim(ps[4]))
                &&& log_row.error_value == csv_f32(ps[5])
                &&& log_row.wall_left_correction_deg == csv_f32(ps[6])
                &&& log_row.wall_right_correction_deg == csv_f32(ps[7])
                &&& log_row.wall_combined_correction_deg == csv_f32(ps[8])
                &&& log_row.kalman0 == csv_f32(ps[10])
                &&& log_row.kalman1 == csv_f32(ps[11])
                &&& log_row.kalman2 == csv_f32(ps[12])
                &&& log_row.kalman3 == csv_f32(ps[13])
                &&& log_row.drive_mode == csv_u8_truncated(ps[17])
                &&& log_row.delta_t_us is None
                &&& log_row.distance0_cm is None
                &&& log_row.distance1_cm is None
                &&& log_row.distance2_cm is None
            }
        }),
{
    reveal_strlit("controller");
    reveal_strlit("ultrasound");
    reveal_strlit("hall_delta_t");
}

/// A 14- or 15-column controller row is read with the layout
/// `ts,controller,steer,throttle,setpoint,error,-,k0,k1,k2,k3,d0,d1,d2[,drive_mode]`:
/// every reading comes from its own column.
pub proof fn law_fourteen_column_layout(line: Seq<char>)
    requires
        !line.contains(':'),
        split_with(line, Sep::Char(',')).len() == 14 || split_with(line, Sep::Char(',')).len()
            == 15,
        controller_head(split_with(line, Sep::Char(','))),
    ensures
        ({
            let ps = split_with(line, Sep::Char(','));
            parse_telemetry(line) matches ParseModel::Parsed { snapshot, log_row } && {
                &&& snapshot == Some(ParsedModel {
                    timestamp_us: spec_parse_u64(trim(ps[0]))->0,
                    steer_us: spec_parse_i32(trim(ps[2]))->0,
                    throttle_us: spec_parse_i32(trim(ps[3]))->0,
                    speed_mps: trim(ps[4]),
                })
                &&& log_row.event == LogEvent::Controller
                &&& log_row.timestamp_us == spec_parse_u64(trim(ps[0]))->0
                &&& log_row.steer_us == spec_parse_i32(trim(ps[2]))
                &&& log_row.throttle_us == spec_parse_i32(trim(ps[3]))
                &&& log_row.setpoint_mps == Some(trim(ps[4]))
                &&& log_row.error_value == csv_f32(ps[5])
                &&& log_row.kalman0 == csv_f32(ps[7])
                &&& log_row.kalman1 == csv_f32(ps[8])
                &&& log_row.kalman2 == csv_f32(ps[9])
                &&& log_row.kalman3 == csv_f32(ps[10])
                &&& log_row.distance0_cm == csv_u32(ps[11])
                &&& log_row.distance1_cm == csv_u32(ps[12])
                &&& log_row.distance2_cm == csv_u32(ps[13])
                &&& log_row.drive_mode == (if ps.len() == 15 {
                    csv_u8_truncated(ps[14])
                } else {
                    None
                })
                &&& log_row.delta_t_us is None
                &&& log_row.wall_left_correction_deg is None
                &&& log_row.wall_right_correction_deg is None
                &&& log_row.wall_combined_correction_deg is None
            }
        }),
{
    reveal_strlit("controller");
    reveal_strlit("ultrasound");
    reveal_strlit("hall_delta_t");
}

// ---------------------------------------------------------------------------
// Laws of folding readings into the snapshot
// ---------------------------------------------------------------------------

/// The readings that a row and the snapshot keep as text.
pub enum TextReading {
    Setpoint,
    Error,
    WallLeft,
    WallRight,
    WallCombined,
    Kalman0,
    Kalman1,
    Kalman2,
    Kalman3,
}

/// The readings that a row and the snapshot keep as whole numbers.
pub enum NumberReading {
    DeltaT,
    Distance0,
    Distance1,
    Distance2,
    DriveMode,
}

pub open spec fn row_text(row: RowModel, f: TextReading) -> Option<Seq<char>> {
    match f {
        TextReading::Setpoint => row.setpoint_mps,
        TextReading::Error => row.error_value,
        TextReading::WallLeft => row.wall_left_correction_deg,
        TextReading::WallRight => row.wall_right_correction_deg,
        TextReading::WallCombined => row.wall_combined_correction_deg,
        TextReading::Kalman0 => row.kalman0,
        TextReading::Kalman1 => row.kalman1,
        TextReading::Kalman2 => row.kalman2,
        TextReading::Kalman3 => row.kalman3,
    }
}

pub open spec fn snapshot_text(s: ControllerTelemetrySnapshot, f: TextReading) -> Option<Seq<char>> {
    match f {
        TextReading::Setpoint => s.setpoint_mps.deep_view(),
        TextReading::Error => s.error_value.deep_view(),
        TextReading::WallLeft => s.wall_left_correction_deg.deep_view(),
        TextReading::WallRight => s.wall_right_correction_deg.deep_view(),
        TextReading::WallCombined => s.wall_combined_correction_deg.deep_view(),
        TextReading::Kalman0 => s.kalman0.deep_view(),
        TextReading::Kalman1 => s.kalman1.deep_view(),
        TextReading::Kalman2 => s.kalman2.deep_view(),
        TextReading::Kalman3 => s.kalman3.deep_view(),
    }
}

pub open spec fn row_number(row: RowModel, f: NumberReading) -> Option<int> {
    match f {
        NumberReading::DeltaT => match row.delta_t_us { Some(x) => Some(x as int), None => None },
        NumberReading::Distance0 => match row.distance0_cm { Some(x) => Some(x as int), None => None },
        NumberReading::Distance1 => match row.distance1_cm { Some(x) => Some(x as int), None => None },
        NumberReading::Distance2 => match row.distance2_cm { Some(x) => Some(x as int), None => None },
        NumberReading::DriveMode => match row.drive_mode { Some(x) => Some(x as int), None => None },
    }
}

pub open spec fn snapshot_number(s: ControllerTelemetrySnapshot, f: NumberReading) -> Option<int> {
    match f {
        NumberReading::DeltaT => match s.hall_delta_t_us { Some(x) => Some(x as int), None => None },
        NumberReading::Distance0 => match s.distance0_cm { Some(x) => Some(x as int), None => None },
        NumberReading::Distance1 => match s.distance1_cm { Some(x) => Some(x as int), None => None },
        NumberReading::Distance2 => match s.distance2_cm { Some(x) => Some(x as int), None => None },
        NumberReading::DriveMode => match s.drive_mode { Some(x) => Some(x as int), None => None },
    }
}

/// Folding a row into the snapshot takes over every reading the row holds
/// and keeps every other one; the clock moves to the row's timestamp.
pub proof fn law_row_readings_taken_over(
    old: ControllerTelemetrySnapshot,
    new: ControllerTelemetrySnapshot,
    row: RowModel,
)
    requires
        row_applied(old, new, row),
    ensures
        forall|f: TextReading|
            #[trigger] snapshot_text(new, f) == match row_text(row, f) {
                Some(x) => Some(x),
                None => snapshot_text(old, f),
            },
        forall|f: NumberReading|
            #[trigger] snapshot_number(new, f) == match row_number(row, f) {
                Some(x) => Some(x),
                None => snapshot_number(old, f),
            },
        new.timestamp_us == row.timestamp_us,
        new.last_update_us == row.timestamp_us,
        row.steer_us matches Some(x) ==> new.steer_us == x,
        row.throttle_us matches Some(x) ==> new.throttle_us == x,
        row.setpoint_mps matches Some(x) ==> new.speed_mps@ == x,
{
}

// ---------------------------------------------------------------------------
// Laws of which lines are read
// ---------------------------------------------------------------------------

/// Only empty lines, `OK`, `#` comments, `ERR` reports and echoes of our
/// commands are dropped unread; every other line is parsed, and one that
/// holds a reading is logged.
pub proof fn law_only_status_lines_skipped(
    old: ControllerTelemetrySnapshot,
    new: ControllerTelemetrySnapshot,
    line: Seq<char>,
    out: LineOutcome,
)
    requires
        line_effect(old, new, line, out),
        old.parse_errors < u64::MAX,
        line.len() > 0,
        line != "OK"@,
        !("#"@.is_prefix_of(line)),
        !("ERR"@.is_prefix_of(line)),
        !is_echo(line),
    ensures
        !(out is Skipped),
        parse_telemetry(line) is Parsed ==> out is Logged,
        parse_telemetry(line) is Invalid ==> new.parse_errors == old.parse_errors + 1,
{
}

/// A leading `>` on a `key:value` line does not change what it reads as.
pub proof fn law_key_value_marker_ignored(rest: Seq<char>)
    requires
        rest.contains(':'),
        !(rest.len() > 0 && rest[0] == '>'),
    ensures
        parse_telemetry(seq!['>'] + rest) == parse_telemetry(rest),
{
    let line = seq!['>'] + rest;
    let i = choose|i: int| 0 <= i < rest.len() && rest[i] == ':';
    assert(line[i + 1] == ':');
    assert(line.drop_first() == rest);
}

} // verus!
