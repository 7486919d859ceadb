//! The text commands that the host sends to the RP2350 controller.
use vstd::prelude::*;
use crate::text::{
    chars_eq_str, push_char, push_str, starts_with_str, strip_prefix, to_chars, trim,
    trim_range,
};
use crate::types::ControllerMode;

verus! {

pub const PWM_STEERING_PREFIX: &'static str = "pwm-a ";

pub const PWM_THROTTLE_PREFIX: &'static str = "pwm-b ";

pub const SPEED_PREFIX: &'static str = "speed ";

pub const CONST_PREFIX: &'static str = "const ";

pub const ALIGN_PREFIX: &'static str = "align ";

pub const MODE_PREFIX: &'static str = "mode ";

pub const MODE_MANUAL: &'static str = "manual";

pub const MODE_AUTO: &'static str = "auto";

pub const MODE_TARGET_STEERING: &'static str = "steering";

pub const MODE_TARGET_THROTTLE: &'static str = "throttle";

pub const MODE_TARGET_BOTH: &'static str = "both";

/// The prefixes of the commands that the controller echoes back on its serial line.
pub open spec fn known_echo_prefixes() -> Seq<Seq<char>> {
    seq![
        PWM_STEERING_PREFIX@,
        PWM_THROTTLE_PREFIX@,
        SPEED_PREFIX@,
        CONST_PREFIX@,
        MODE_PREFIX@,
    ]
}

/// Whether a serial line, once trimmed, starts with one of the echoed command prefixes.
pub open spec fn is_echo(line: Seq<char>) -> bool {
    exists|i: int|
        0 <= i < known_echo_prefixes().len() && #[trigger] known_echo_prefixes()[i].is_prefix_of(
            trim(line),
        )
}

/// The value after `prefix`, trimmed, when `command` starts with `prefix`.
pub open spec fn stripped_value(command: Seq<char>, prefix: Seq<char>) -> Option<Seq<char>> {
    match strip_prefix(command, prefix) {
        Some(rest) => Some(trim(rest)),
        None => None,
    }
}

/// The keyword that names a mode in a `mode` command.
pub open spec fn mode_word(mode: ControllerMode) -> Seq<char> {
    match mode {
        ControllerMode::Manual => MODE_MANUAL@,
        ControllerMode::Auto => MODE_AUTO@,
    }
}

/// `mode <target> <mode>` for a named target other than `both`, else `mode <mode>`.
pub open spec fn mode_command(target: Option<Seq<char>>, mode: ControllerMode) -> Seq<char> {
    match target {
        Some(t) => if t.len() > 0 && t != MODE_TARGET_BOTH@ {
            MODE_PREFIX@ + t + seq![' '] + mode_word(mode)
        } else {
            MODE_PREFIX@ + mode_word(mode)
        },
        None => MODE_PREFIX@ + mode_word(mode),
    }
}

/// The trimmed rest of `command` after `prefix`, if `command` starts with `prefix`.
pub fn strip_value<'a>(command: &'a str, prefix: &str) -> (r: Option<&'a str>)
    ensures
        r.deep_view() == stripped_value(command@, prefix@),
{
    let cv = to_chars(command);
    if !starts_with_str(cv.as_slice(), prefix) {
        return None;
    }
    let p = to_chars(prefix).len();
    let rest = crate::text::sub_chars(cv.as_slice(), p, cv.len());
    let (i, k) = trim_range(rest.as_slice());
    assert(rest@ == command@.skip(prefix@.len() as int));
    assert(command@.subrange(p + i, p + k) == rest@.subrange(i as int, k as int));
    Some(command.substring_char(p + i, p + k))
}

/// Whether a serial line is the controller echoing one of our commands.
pub fn is_known_command_echo(line: &str) -> (r: bool)
    ensures
        r == is_echo(line@),
{
    let t = crate::text::trim_str(line);
    let prefixes: [&str; 5] = [
        PWM_STEERING_PREFIX,
        PWM_THROTTLE_PREFIX,
        SPEED_PREFIX,
        CONST_PREFIX,
        MODE_PREFIX,
    ];
    let mut i: usize = 0;
    while i < 5
        invariant
            i <= 5,
            t@ == trim(line@),
            forall|j: int| 0 <= j < 5 ==> #[trigger] prefixes[j]@ == known_echo_prefixes()[j],
            forall|j: int| 0 <= j < i ==> !(#[trigger] known_echo_prefixes()[j]).is_prefix_of(t@),
        decreases 5 - i,
    {
        if starts_with_str(t.as_slice(), prefixes[i]) {
            assert(known_echo_prefixes()[i as int].is_prefix_of(trim(line@)));
            return true;
        }
        i = i + 1;
    }
    false
}

/// The keyword for `mode`.
pub fn mode_keyword(mode: ControllerMode) -> (r: &'static str)
    ensures
        r@ == mode_word(mode),
{
    match mode {
        ControllerMode::Manual => MODE_MANUAL,
        ControllerMode::Auto => MODE_AUTO,
    }
}

/// The `mode` command that switches `target` (or both outputs) to `mode`.
pub fn format_mode_command(target: Option<&str>, mode: ControllerMode) -> (r: String)
    ensures
        r@ == mode_command(target.deep_view(), mode),
{
    let mut out = String::new();
    push_str(&mut out, MODE_PREFIX);
    match target {
        Some(t) => {
            let tv = to_chars(t);
            if tv.len() > 0 && !chars_eq_str(tv.as_slice(), MODE_TARGET_BOTH) {
                push_str(&mut out, t);
                push_char(&mut out, ' ');
            }
        },
        None => {},
    }
    push_str(&mut out, mode_keyword(mode));
    proof {
        assert(out@ =~= mode_command(target.deep_view(), mode));
    }
    out
}

} // verus!
