//! The decisions of the controller bridge: which commands the UI may send,
//! how a sent command changes the snapshot, and how connecting, disconnecting
//! and serial read errors change it. The HTTP and serial I/O around these
//! decisions live with the caller.
use vstd::prelude::*;
use crate::controller_commands::{
    format_mode_command, is_echo, known_echo_prefixes, mode_command, mode_word, stripped_value, strip_value, CONST_PREFIX, MODE_AUTO,
    MODE_MANUAL, MODE_PREFIX, MODE_TARGET_BOTH, MODE_TARGET_STEERING, MODE_TARGET_THROTTLE,
    PWM_STEERING_PREFIX, PWM_THROTTLE_PREFIX,
};
use crate::decimal::{is_float_literal, parse_i32, signed_decimal, spec_parse_i32};
use crate::telemetry::{law_csv_i32_round_trip, opt_cell};
use crate::text::{
    chars_eq_str, is_ascii_ws, is_ws, lemma_one_word, lemma_trim_idempotent,
    lemma_trim_unchanged, lemma_two_words, no_sep, push_char, push_str, split_words,
    starts_with_str, string_from, strip_prefix, to_chars, trim, trim_chars, trim_str, views,
    words, Sep,
};
use crate::types::{ControllerMode, ControllerTelemetrySnapshot};

verus! {

// ---------------------------------------------------------------------------
// Mode commands
// ---------------------------------------------------------------------------

/// Which PWM output a UI mode request addresses.
#[derive(Clone, Copy, Debug, PartialEq, Eq, Structural)]
pub enum ModeTarget {
    Steering,
    Throttle,
    Both,
}

impl Default for ModeTarget {
    fn default() -> (t: Self)
        ensures
            t == ModeTarget::Both,
    {
        ModeTarget::Both
    }
}

impl ModeTarget {
    pub open spec fn word(self) -> Seq<char> {
        match self {
            ModeTarget::Steering => MODE_TARGET_STEERING@,
            ModeTarget::Throttle => MODE_TARGET_THROTTLE@,
            ModeTarget::Both => MODE_TARGET_BOTH@,
        }
    }

    /// The target's name in a `mode` command.
    pub fn keyword(self) -> (r: &'static str)
        ensures
            r@ == self.word(),
    {
        match self {
            ModeTarget::Steering => MODE_TARGET_STEERING,
            ModeTarget::Throttle => MODE_TARGET_THROTTLE,
            ModeTarget::Both => MODE_TARGET_BOTH,
        }
    }
}

/// The mode that a `mode [<target>] <manual|auto>` command selects: after the
/// `mode ` prefix, one or two ASCII-whitespace-separated words, the last of
/// which names the mode.
pub open spec fn mode_of_command(command: Seq<char>) -> Option<ControllerMode> {
    match stripped_value(command, MODE_PREFIX@) {
        None => None,
        Some(rest) => {
            let ws = words(rest, Sep::AsciiWhitespace);
            if ws.len() == 0 || ws.len() > 2 {
                None
            } else if ws.last() == MODE_MANUAL@ {
                Some(ControllerMode::Manual)
            } else if ws.last() == MODE_AUTO@ {
                Some(ControllerMode::Auto)
            } else {
                None
            }
        },
    }
}

/// The mode selected by a well-formed `mode` command.
pub fn parse_mode_command(command: &str) -> (r: Option<ControllerMode>)
    ensures
        r == mode_of_command(command@),
{
    let rest = match strip_value(command, MODE_PREFIX) {
        Some(rest) => rest,
        None => {
            return None;
        },
    };
    let rv = to_chars(rest);
    let ws = split_words(rv.as_slice(), &Sep::AsciiWhitespace);
    if ws.len() == 0 || ws.len() > 2 {
        return None;
    }
    let last = &ws[ws.len() - 1];
    assert(views(ws@).last() == last@);
    if chars_eq_str(last.as_slice(), MODE_MANUAL) {
        Some(ControllerMode::Manual)
    } else if chars_eq_str(last.as_slice(), MODE_AUTO) {
        Some(ControllerMode::Auto)
    } else {
        None
    }
}

// ---------------------------------------------------------------------------
// Validating UI commands
// ---------------------------------------------------------------------------

/// Why the bridge refuses to forward a UI command.
#[derive(Clone, Copy, Debug, PartialEq, Eq, Structural)]
pub enum CommandRejection {
    /// A `const` command without both a name and a value.
    ConstFormat,
    /// A `mode` command that names no mode.
    ModeFormat,
}

impl CommandRejection {
    pub open spec fn text(self) -> Seq<char> {
        match self {
            CommandRejection::ConstFormat => "const command must be: const <name> <value>"@,
            CommandRejection::ModeFormat =>
                "mode command must be: mode <manual|auto> or mode <steering|throttle|both> <manual|auto>"@,
        }
    }

    /// The message reported to the UI.
    pub fn message(self) -> (r: String)
        ensures
            r@ == self.text(),
    {
        match self {
            CommandRejection::ConstFormat => String::from_str(
                "const command must be: const <name> <value>",
            ),
            CommandRejection::ModeFormat => String::from_str(
                "mode command must be: mode <manual|auto> or mode <steering|throttle|both> <manual|auto>",
            ),
        }
    }
}

/// A `const` command needs the word `const`, a name and a value; a `mode`
/// command must name a mode; anything else passes.
pub open spec fn command_check(command: Seq<char>) -> Option<CommandRejection> {
    if CONST_PREFIX@.is_prefix_of(command) {
        if words(command, Sep::Whitespace).len() < 3 {
            Some(CommandRejection::ConstFormat)
        } else {
            None
        }
    } else if MODE_PREFIX@.is_prefix_of(command) && mode_of_command(command) is None {
        Some(CommandRejection::ModeFormat)
    } else {
        None
    }
}

/// Checks one UI command before it is forwarded.
pub fn validate_command(command: &str) -> (r: Result<(), CommandRejection>)
    ensures
        r == (match command_check(command@) {
            Some(e) => Err(e),
            None => Ok(()),
        }),
{
    let cv = to_chars(command);
    if starts_with_str(cv.as_slice(), CONST_PREFIX) {
        let ws = split_words(cv.as_slice(), &Sep::Whitespace);
        if ws.len() < 3 {
            return Err(CommandRejection::ConstFormat);
        }
        Ok(())
    } else if starts_with_str(cv.as_slice(), MODE_PREFIX) && parse_mode_command(command).is_none() {
        Err(CommandRejection::ModeFormat)
    } else {
        Ok(())
    }
}

/// A UI request to send one command, a batch of commands, or both.
#[derive(Clone, Debug)]
pub struct CommandRequest {
    pub command: Option<String>,
    pub commands: Option<Vec<String>>,
}

pub open spec fn string_views(v: Seq<String>) -> Seq<Seq<char>> {
    v.map_values(|s: String| s@)
}

/// The commands of a request, trimmed, in order: the single command first,
/// then the batch; blank ones left out.
pub open spec fn requested_commands(command: Option<Seq<char>>, commands: Option<Seq<Seq<char>>>) -> Seq<
    Seq<char>,
> {
    crate::text::nonempty_pieces(all_trimmed(command, commands))
}

pub open spec fn trim_each(l: Seq<Seq<char>>) -> Seq<Seq<char>> {
    l.map_values(|c: Seq<char>| trim(c))
}

/// The rejection of the first command that fails its check, if any.
pub open spec fn first_rejection(cmds: Seq<Seq<char>>) -> Option<CommandRejection>
    decreases cmds.len(),
{
    if cmds.len() == 0 {
        None
    } else {
        match first_rejection(cmds.drop_last()) {
            Some(e) => Some(e),
            None => command_check(cmds.last()),
        }
    }
}

/// Every command of a request, trimmed, blank ones included.
pub open spec fn all_trimmed(command: Option<Seq<char>>, commands: Option<Seq<Seq<char>>>) -> Seq<
    Seq<char>,
> {
    let single = match command {
        Some(c) => seq![trim(c)],
        None => Seq::<Seq<char>>::empty(),
    };
    let batch = match commands {
        Some(l) => trim_each(l),
        None => Seq::<Seq<char>>::empty(),
    };
    single + batch
}

pub open spec fn batch_view(commands: Option<Vec<String>>) -> Option<Seq<Seq<char>>> {
    match commands {
        Some(l) => Some(string_views(l@)),
        None => None,
    }
}

fn trimmed_request(payload: &CommandRequest) -> (raw: Vec<Vec<char>>)
    ensures
        views(raw@) == all_trimmed(payload.command.deep_view(), batch_view(payload.commands)),
{
    let mut raw: Vec<Vec<char>> = Vec::new();
    if let Some(command) = &payload.command {
        raw.push(trim_str(command.as_str()));
    }
    let ghost single = views(raw@);
    assert(single =~= match payload.command.deep_view() {
        Some(c) => seq![trim(c)],
        None => Seq::<Seq<char>>::empty(),
    });
    if let Some(list) = &payload.commands {
        let ghost batch = trim_each(string_views(list@));
        let mut i: usize = 0;
        assert(batch.take(0) =~= Seq::<Seq<char>>::empty());
        assert(single + batch.take(0) =~= single);
        while i < list.len()
            invariant
                i <= list@.len(),
                batch == trim_each(string_views(list@)),
                views(raw@) == single + batch.take(i as int),
            decreases list@.len() - i,
        {
            let t = trim_str(list[i].as_str());
            assert(string_views(list@)[i as int] == list@[i as int]@);
            assert(batch[i as int] == t@);
            let ghost before = views(raw@);
            raw.push(t);
            assert(views(raw@) =~= before.push(t@));
            assert(batch.take(i as int + 1) =~= batch.take(i as int).push(batch[i as int]));
            assert(views(raw@) =~= single + batch.take(i as int + 1));
            i = i + 1;
        }
        assert(batch.take(list@.len() as int) == batch);
    } else {
        assert(single + Seq::<Seq<char>>::empty() =~= single);
    }
    raw
}

fn keep_nonempty(raw: &Vec<Vec<char>>) -> (out: Vec<String>)
    ensures
        string_views(out@) == crate::text::nonempty_pieces(views(raw@)),
{
    let ghost all = views(raw@);
    let mut out: Vec<String> = Vec::new();
    let mut j: usize = 0;
    assert(all.take(0) =~= Seq::<Seq<char>>::empty());
    while j < raw.len()
        invariant
            j <= raw@.len(),
            views(raw@) == all,
            string_views(out@) == crate::text::nonempty_pieces(all.take(j as int)),
        decreases raw@.len() - j,
    {
        assert(all.take(j as int + 1).drop_last() == all.take(j as int));
        assert(all.take(j as int + 1).last() == raw@[j as int]@);
        if raw[j].len() > 0 {
            let ghost before = string_views(out@);
            out.push(string_from(raw[j].as_slice()));
            assert(string_views(out@) =~= before.push(raw@[j as int]@));
        }
        j = j + 1;
    }
    assert(all.take(raw@.len() as int) == all);
    out
}

fn first_invalid(cmds: &Vec<String>) -> (r: Option<CommandRejection>)
    ensures
        r == first_rejection(string_views(cmds@)),
{
    let ghost cs = string_views(cmds@);
    let mut k: usize = 0;
    assert(cs.take(0) =~= Seq::<Seq<char>>::empty());
    while k < cmds.len()
        invariant
            k <= cmds@.len(),
            cs == string_views(cmds@),
            first_rejection(cs.take(k as int)) is None,
        decreases cmds@.len() - k,
    {
        assert(cs.take(k as int + 1).drop_last() == cs.take(k as int));
        assert(cs.take(k as int + 1).last() == cmds@[k as int]@);
        match validate_command(cmds[k].as_str()) {
            Err(e) => {
                proof {
                    lemma_first_rejection_prefix(cs, k as int + 1);
                }
                return Some(e);
            },
            Ok(()) => {},
        }
        k = k + 1;
    }
    assert(cs.take(cmds@.len() as int) == cs);
    None
}

/// The commands a UI request asks to send, or why it is refused.
pub fn parse_command_request(payload: &CommandRequest) -> (r: Result<Vec<String>, CommandRejection>)
    ensures
        ({
            let cmds = requested_commands(
                payload.command.deep_view(),
                batch_view(payload.commands),
            );
            match r {
                Ok(v) => string_views(v@) == cmds && first_rejection(cmds) is None,
                Err(e) => first_rejection(cmds) == Some(e),
            }
        }),
{
    let raw = trimmed_request(payload);
    let out = keep_nonempty(&raw);
    match first_invalid(&out) {
        Some(e) => Err(e),
        None => Ok(out),
    }
}

/// A rejection found in a prefix is the rejection of the whole sequence.
proof fn lemma_first_rejection_prefix(cmds: Seq<Seq<char>>, k: int)
    requires
        0 <= k <= cmds.len(),
        first_rejection(cmds.take(k)) is Some,
    ensures
        first_rejection(cmds) == first_rejection(cmds.take(k)),
    decreases cmds.len() - k,
{
    if k < cmds.len() {
        assert(cmds.drop_last().take(k) == cmds.take(k));
        lemma_first_rejection_prefix(cmds.drop_last(), k);
    } else {
        assert(cmds.take(k) == cmds);
    }
}

// ---------------------------------------------------------------------------
// Sending commands
// ---------------------------------------------------------------------------

/// Whether a trimmed PWM value is the neutral pulse width.
pub open spec fn is_neutral(value: Seq<char>) -> bool {
    trim(value) == "1500"@
}

/// In manual mode every command may be sent; in auto mode `mode` commands
/// may, and PWM commands only when they set the neutral 1500 us.
pub open spec fn allowed(mode: ControllerMode, command: Seq<char>) -> bool {
    if mode == ControllerMode::Manual || MODE_PREFIX@.is_prefix_of(command) {
        true
    } else {
        match stripped_value(command, PWM_STEERING_PREFIX@) {
            Some(v) => is_neutral(v),
            None => match stripped_value(command, PWM_THROTTLE_PREFIX@) {
                Some(v) => is_neutral(v),
                None => true,
            },
        }
    }
}

/// Whether `command` may be sent in the snapshot's mode.
pub fn command_allowed(snapshot: &ControllerTelemetrySnapshot, command: &str) -> (r: bool)
    ensures
        r == allowed(snapshot.mode, command@),
{
    let cv = to_chars(command);
    if snapshot.mode == ControllerMode::Manual || starts_with_str(cv.as_slice(), MODE_PREFIX) {
        return true;
    }
    if let Some(value) = strip_value(command, PWM_STEERING_PREFIX) {
        return chars_eq_str(trim_str(value).as_slice(), "1500");
    }
    if let Some(value) = strip_value(command, PWM_THROTTLE_PREFIX) {
        return chars_eq_str(trim_str(value).as_slice(), "1500");
    }
    true
}

/// The snapshot after a command was sent: a PWM command with a readable
/// pulse width sets that output, a well-formed `mode` command sets the mode.
pub open spec fn after_command(s: ControllerTelemetrySnapshot, command: Seq<char>) -> ControllerTelemetrySnapshot {
    match stripped_value(command, PWM_STEERING_PREFIX@) {
        Some(v) => match spec_parse_i32(trim(v)) {
            Some(x) => ControllerTelemetrySnapshot { steer_us: x, ..s },
            None => s,
        },
        None => match stripped_value(command, PWM_THROTTLE_PREFIX@) {
            Some(v) => match spec_parse_i32(trim(v)) {
                Some(x) => ControllerTelemetrySnapshot { throttle_us: x, ..s },
                None => s,
            },
            None => match mode_of_command(command) {
                Some(m) => ControllerTelemetrySnapshot { mode: m, ..s },
                None => s,
            },
        },
    }
}

/// Records in the snapshot what a sent command changes.
pub fn apply_command_snapshot(snapshot: &mut ControllerTelemetrySnapshot, command: &str)
    ensures
        *final(snapshot) == after_command(*old(snapshot), command@),
{
    if let Some(value) = strip_value(command, PWM_STEERING_PREFIX) {
        if let Some(steer_us) = parse_i32(trim_str(value).as_slice()) {
            snapshot.steer_us = steer_us;
        }
    } else if let Some(value) = strip_value(command, PWM_THROTTLE_PREFIX) {
        if let Some(throttle_us) = parse_i32(trim_str(value).as_slice()) {
            snapshot.throttle_us = throttle_us;
        }
    } else if let Some(mode) = parse_mode_command(command) {
        snapshot.mode = mode;
    }
}

/// Why a command cannot be sent to the controller.
#[derive(Clone, Copy, Debug, PartialEq, Eq, Structural)]
pub enum SendRejection {
    NotConnected,
    PwmBlockedInAuto,
    /// A batch with no command in it.
    NoCommands,
}

impl SendRejection {
    pub open spec fn text(self) -> Seq<char> {
        match self {
            SendRejection::NotConnected => "not connected"@,
            SendRejection::PwmBlockedInAuto =>
                "manual PWM commands are disabled while auto mode is active"@,
            SendRejection::NoCommands => "no commands to send"@,
        }
    }

    /// The message reported to the UI.
    pub fn message(self) -> (r: String)
        ensures
            r@ == self.text(),
    {
        match self {
            SendRejection::NotConnected => String::from_str("not connected"),
            SendRejection::PwmBlockedInAuto => String::from_str(
                "manual PWM commands are disabled while auto mode is active",
            ),
            SendRejection::NoCommands => String::from_str("no commands to send"),
        }
    }
}

/// The outcome of sending `command` from snapshot `old`.
pub open spec fn send_outcome(
    old: ControllerTelemetrySnapshot,
    new: ControllerTelemetrySnapshot,
    command: Seq<char>,
    r: Result<Seq<char>, SendRejection>,
) -> bool {
    if !old.connected {
        r == Err::<Seq<char>, SendRejection>(SendRejection::NotConnected) && new == old
    } else if !allowed(old.mode, command) {
        r == Err::<Seq<char>, SendRejection>(SendRejection::PwmBlockedInAuto) && new == old
    } else {
        r == Ok::<Seq<char>, SendRejection>(command.push('\n')) && new == after_command(
            old,
            command,
        )
    }
}

pub open spec fn payload_view(r: Result<String, SendRejection>) -> Result<Seq<char>, SendRejection> {
    match r {
        Ok(s) => Ok(s@),
        Err(e) => Err(e),
    }
}

/// Decides whether `command` goes to the controller; when it does, returns
/// the line to write to the serial port and records the command's effect.
pub fn send_serial_command(snapshot: &mut ControllerTelemetrySnapshot, command: &str) -> (r: Result<
    String,
    SendRejection,
>)
    ensures
        send_outcome(*old(snapshot), *final(snapshot), command@, payload_view(r)),
{
    if !snapshot.connected {
        return Err(SendRejection::NotConnected);
    }
    if !command_allowed(snapshot, command) {
        return Err(SendRejection::PwmBlockedInAuto);
    }
    let mut payload = String::new();
    push_str(&mut payload, command);
    push_char(&mut payload, '\n');
    apply_command_snapshot(snapshot, command);
    Ok(payload)
}

/// The line that goes out for `command` from snapshot `s`, or why it is refused.
pub open spec fn send_result(s: ControllerTelemetrySnapshot, command: Seq<char>) -> Result<
    Seq<char>,
    SendRejection,
> {
    if !s.connected {
        Err(SendRejection::NotConnected)
    } else if !allowed(s.mode, command) {
        Err(SendRejection::PwmBlockedInAuto)
    } else {
        Ok(command.push('\n'))
    }
}

/// Sending a batch of commands in order, stopping at the first refusal: the
/// snapshot afterwards, the lines that went out, and the position and reason
/// of the refusal, if any.
pub open spec fn send_batch(s: ControllerTelemetrySnapshot, commands: Seq<Seq<char>>) -> (
    ControllerTelemetrySnapshot,
    Seq<Seq<char>>,
    Option<(int, SendRejection)>,
)
    decreases commands.len(),
{
    if commands.len() == 0 {
        (s, Seq::empty(), None)
    } else {
        match send_result(s, commands[0]) {
            Err(e) => (s, Seq::empty(), Some((0, e))),
            Ok(line) => {
                let rest = send_batch(after_command(s, commands[0]), commands.drop_first());
                (
                    rest.0,
                    seq![line] + rest.1,
                    match rest.2 {
                        Some((i, e)) => Some((i + 1, e)),
                        None => None,
                    },
                )
            },
        }
    }
}

/// What sending a batch of commands did.
#[derive(Debug)]
pub struct BatchOutcome {
    /// The lines written to the serial port, in order.
    pub sent: Vec<String>,
    /// The position of the command that was refused, and why.
    pub refused: Option<(usize, SendRejection)>,
}

pub open spec fn outcome_view(o: BatchOutcome) -> (Seq<Seq<char>>, Option<(int, SendRejection)>) {
    (
        string_views(o.sent@),
        match o.refused {
            Some((i, e)) => Some((i as int, e)),
            None => None,
        },
    )
}

/// What sending a batch of commands amounts to: an empty batch is refused
/// as having no commands, with nothing sent; any other is `send_batch`.
pub open spec fn batch_result(s: ControllerTelemetrySnapshot, commands: Seq<Seq<char>>) -> (
    ControllerTelemetrySnapshot,
    Seq<Seq<char>>,
    Option<(int, SendRejection)>,
) {
    if commands.len() == 0 {
        (s, Seq::empty(), Some((0, SendRejection::NoCommands)))
    } else {
        send_batch(s, commands)
    }
}

/// Sends `commands` in order until one is refused; each one sent updates the
/// snapshot as `send_serial_command` does. An empty batch is refused.
pub fn send_serial_commands(snapshot: &mut ControllerTelemetrySnapshot, commands: &Vec<String>) -> (r:
    BatchOutcome)
    ensures
        ({
            let b = batch_result(*old(snapshot), string_views(commands@));
            &&& *final(snapshot) == b.0
            &&& outcome_view(r) == (b.1, b.2)
        }),
{
    if commands.len() == 0 {
        return BatchOutcome { sent: Vec::new(), refused: Some((0, SendRejection::NoCommands)) };
    }
    let ghost cs = string_views(commands@);
    let ghost s0 = *snapshot;
    let mut sent: Vec<String> = Vec::new();
    let mut i: usize = 0;
    assert(cs.skip(0) == cs);
    while i < commands.len()
        invariant
            i <= commands@.len(),
            cs == string_views(commands@),
            s0 == *old(snapshot),
            ({
                let b = send_batch(*snapshot, cs.skip(i as int));
                let whole = send_batch(s0, cs);
                &&& whole.0 == b.0
                &&& whole.1 == string_views(sent@) + b.1
                &&& whole.2 == match b.2 {
                    Some((j, e)) => Some((j + i, e)),
                    None => None::<(int, SendRejection)>,
                }
            }),
        decreases commands@.len() - i,
    {
        let ghost before = *snapshot;
        let ghost rest = cs.skip(i as int);
        assert(rest[0] == commands@[i as int]@);
        assert(rest.drop_first() == cs.skip(i as int + 1));
        match send_serial_command(snapshot, commands[i].as_str()) {
            Err(e) => {
                assert(send_result(before, rest[0]) == Err::<Seq<char>, SendRejection>(e));
                assert(string_views(sent@) + Seq::<Seq<char>>::empty() == string_views(sent@));
                return BatchOutcome { sent, refused: Some((i, e)) };
            },
            Ok(line) => {
                let ghost prev = string_views(sent@);
                sent.push(line);
                assert(string_views(sent@) == prev.push(line@));
                let ghost b = send_batch(*snapshot, cs.skip(i as int + 1));
                assert(prev + (seq![line@] + b.1) == prev.push(line@) + b.1);
            },
        }
        i = i + 1;
    }
    assert(cs.skip(commands@.len() as int) == Seq::<Seq<char>>::empty());
    assert(string_views(sent@) + Seq::<Seq<char>>::empty() == string_views(sent@));
    BatchOutcome { sent, refused: None }
}

/// Switches both outputs of the controller to `mode` (the startup handoff).
pub fn send_mode(snapshot: &mut ControllerTelemetrySnapshot, mode: ControllerMode) -> (r: Result<
    String,
    SendRejection,
>)
    ensures
        send_outcome(*old(snapshot), *final(snapshot), mode_command(None, mode), payload_view(r)),
{
    let command = format_mode_command(None, mode);
    send_serial_command(snapshot, command.as_str())
}

// ---------------------------------------------------------------------------
// The serial link
// ---------------------------------------------------------------------------

/// Why the bridge refuses to open a serial link.
#[derive(Clone, Copy, Debug, PartialEq, Eq, Structural)]
pub enum ConnectRejection {
    PortRequired,
    AlreadyConnected,
}

impl ConnectRejection {
    pub open spec fn text(self) -> Seq<char> {
        match self {
            ConnectRejection::PortRequired => "port required"@,
            ConnectRejection::AlreadyConnected => "already connected"@,
        }
    }

    /// The message reported to the UI.
    pub fn message(self) -> (r: String)
        ensures
            r@ == self.text(),
    {
        match self {
            ConnectRejection::PortRequired => String::from_str("port required"),
            ConnectRejection::AlreadyConnected => String::from_str("already connected"),
        }
    }
}

/// A connect request needs a port name that is not blank, and no link open.
pub fn check_connect(port: &str, snapshot: &ControllerTelemetrySnapshot) -> (r: Result<
    (),
    ConnectRejection,
>)
    ensures
        r == (if trim(port@).len() == 0 {
            Err(ConnectRejection::PortRequired)
        } else if snapshot.connected {
            Err(ConnectRejection::AlreadyConnected)
        } else {
            Ok(())
        }),
{
    if trim_str(port).len() == 0 {
        Err(ConnectRejection::PortRequired)
    } else if snapshot.connected {
        Err(ConnectRejection::AlreadyConnected)
    } else {
        Ok(())
    }
}

/// The baud rate of a connect request: the requested one, else the default.
pub fn connect_baud(baud: Option<u32>) -> (r: u32)
    ensures
        r == (match baud {
            Some(b) => b,
            None => crate::consts::SERIAL_BAUD_RATE,
        }),
{
    match baud {
        Some(b) => b,
        None => crate::consts::SERIAL_BAUD_RATE,
    }
}

/// The snapshot once a link to `port` is open: connected, with the reading
/// clock and the error counters reset.
pub open spec fn connected_to(s: ControllerTelemetrySnapshot, port: String) -> ControllerTelemetrySnapshot {
    ControllerTelemetrySnapshot {
        connected: true,
        timestamp_us: 0,
        last_update_us: 0,
        parse_errors: 0,
        serial_errors: 0,
        selected_port: Some(port),
        ..s
    }
}

/// Records a newly opened link to `port`.
pub fn apply_connect(snapshot: &mut ControllerTelemetrySnapshot, port: String)
    ensures
        *final(snapshot) == connected_to(*old(snapshot), port),
{
    snapshot.connected = true;
    snapshot.timestamp_us = 0;
    snapshot.last_update_us = 0;
    snapshot.parse_errors = 0;
    snapshot.serial_errors = 0;
    snapshot.selected_port = Some(port);
}

/// The snapshot once the link is closed.
pub open spec fn disconnected(s: ControllerTelemetrySnapshot) -> ControllerTelemetrySnapshot {
    ControllerTelemetrySnapshot { connected: false, selected_port: None, ..s }
}

/// Records that the link was closed.
pub fn apply_disconnect(snapshot: &mut ControllerTelemetrySnapshot)
    ensures
        *final(snapshot) == disconnected(*old(snapshot)),
{
    snapshot.connected = false;
    snapshot.selected_port = None;
}

/// Records the UI-side steering and throttle sensitivities (already clamped
/// by the caller to 0.1..=2.0, given as `f32` literals).
pub fn apply_settings(
    snapshot: &mut ControllerTelemetrySnapshot,
    steering_sensitivity: String,
    throttle_sensitivity: String,
)
    requires
        is_float_literal(steering_sensitivity@),
        is_float_literal(throttle_sensitivity@),
    ensures
        *final(snapshot) == (ControllerTelemetrySnapshot {
            steering_sensitivity,
            throttle_sensitivity,
            ..*old(snapshot)
        }),
        old(snapshot).floats_wellformed() ==> final(snapshot).floats_wellformed(),
{
    snapshot.steering_sensitivity = steering_sensitivity;
    snapshot.throttle_sensitivity = throttle_sensitivity;
}

/// Counts one failed serial read.
pub fn record_serial_error(snapshot: &mut ControllerTelemetrySnapshot)
    requires
        old(snapshot).serial_errors < u64::MAX,
    ensures
        *final(snapshot) == (ControllerTelemetrySnapshot {
            serial_errors: (old(snapshot).serial_errors + 1) as u64,
            ..*old(snapshot)
        }),
{
    snapshot.serial_errors = snapshot.serial_errors + 1;
}

/// What one attempt to read a line from the serial port gave.
#[derive(Clone, Copy, Debug, PartialEq, Eq, Structural)]
pub enum ReadEvent {
    /// A line with at least one byte.
    Line,
    /// Zero bytes.
    Empty,
    /// The read timed out.
    TimedOut,
    /// Any other read error.
    Failed,
}

/// What the serial reader does next.
#[derive(Clone, Copy, Debug, PartialEq, Eq, Structural)]
pub enum ReaderAction {
    /// Read again.
    Wait,
    /// Handle the line, then read again.
    Process,
    /// Count a serial error, then read again.
    CountError,
    /// Count a serial error, close the link and stop reading.
    CountErrorAndDisconnect,
}

/// The reader's next error count and action after `event`, with `errors`
/// consecutive failures behind it.
pub open spec fn reader_next(errors: u32, event: ReadEvent) -> (u32, ReaderAction) {
    match event {
        ReadEvent::Line => (0, ReaderAction::Process),
        ReadEvent::Empty => (errors, ReaderAction::Wait),
        ReadEvent::TimedOut => (errors, ReaderAction::Wait),
        ReadEvent::Failed => if errors + 1 >= crate::consts::MAX_CONSECUTIVE_READ_ERRORS {
            ((errors + 1) as u32, ReaderAction::CountErrorAndDisconnect)
        } else {
            ((errors + 1) as u32, ReaderAction::CountError)
        },
    }
}

/// One step of the serial reader: a line resets the failure count, a
/// failure raises it, and the tenth failure in a row closes the link.
pub fn reader_step(consecutive_errors: u32, event: ReadEvent) -> (r: (u32, ReaderAction))
    requires
        consecutive_errors < u32::MAX,
    ensures
        r == reader_next(consecutive_errors, event),
{
    match event {
        ReadEvent::Line => (0, ReaderAction::Process),
        ReadEvent::Empty => (consecutive_errors, ReaderAction::Wait),
        ReadEvent::TimedOut => (consecutive_errors, ReaderAction::Wait),
        ReadEvent::Failed => {
            let n = consecutive_errors + 1;
            if n >= crate::consts::MAX_CONSECUTIVE_READ_ERRORS {
                (n, ReaderAction::CountErrorAndDisconnect)
            } else {
                (n, ReaderAction::CountError)
            }
        },
    }
}

// ---------------------------------------------------------------------------
// Laws of the command protocol
// ---------------------------------------------------------------------------

/// A target name that a `mode` command can carry as one word.
pub open spec fn plain_target(target: Option<Seq<char>>) -> bool {
    match target {
        Some(t) => no_sep(t, Sep::Whitespace),
        None => true,
    }
}

proof fn lemma_mode_word_plain(mode: ControllerMode)
    ensures
        mode_word(mode).len() > 0,
        no_sep(mode_word(mode), Sep::Whitespace),
        no_sep(mode_word(mode), Sep::AsciiWhitespace),
        mode_word(mode) == MODE_MANUAL@ <==> mode == ControllerMode::Manual,
        mode_word(mode) == MODE_AUTO@ <==> mode == ControllerMode::Auto,
{
    reveal_strlit("manual");
    reveal_strlit("auto");
    assert(MODE_MANUAL@.len() != MODE_AUTO@.len());
}

proof fn lemma_no_ws_no_ascii_ws(t: Seq<char>)
    requires
        no_sep(t, Sep::Whitespace),
    ensures
        no_sep(t, Sep::AsciiWhitespace),
{
    assert forall|j: int| 0 <= j < t.len() implies !is_ascii_ws(#[trigger] t[j]) by {
        assert(!is_ws(t[j]));
    }
}

/// The text after `mode ` in a formatted mode command, and its first letter.
proof fn lemma_mode_command_shape(target: Option<Seq<char>>, mode: ControllerMode)
    requires
        plain_target(target),
    ensures
        MODE_PREFIX@.is_prefix_of(mode_command(target, mode)),
        mode_command(target, mode)[0] == 'm',
        mode_command(target, mode).len() > 0,
        !is_ws(mode_command(target, mode).last()),
        strip_prefix(mode_command(target, mode), MODE_PREFIX@) is Some,
        ({
            let rest = strip_prefix(mode_command(target, mode), MODE_PREFIX@)->0;
            &&& trim(rest) == rest
            &&& words(rest, Sep::AsciiWhitespace).last() == mode_word(mode)
            &&& 1 <= words(rest, Sep::AsciiWhitespace).len() <= 2
        }),
{
    reveal_strlit("mode ");
    reveal_strlit("both");
    lemma_mode_word_plain(mode);
    let w = mode_word(mode);
    let c = mode_command(target, mode);
    let p = MODE_PREFIX@;
    assert(!is_ws(w[0]) && !is_ws(w.last()));
    match target {
        Some(t) => {
            if t.len() > 0 && t != MODE_TARGET_BOTH@ {
                let rest = t + seq![' '] + w;
                assert(c == p + rest);
                assert(c.skip(p.len() as int) == rest);
                assert(!is_ws(t[0]));
                assert(rest[0] == t[0]);
                assert(rest.last() == w.last());
                lemma_trim_unchanged(rest);
                lemma_no_ws_no_ascii_ws(t);
                lemma_two_words(t, ' ', w, Sep::AsciiWhitespace);
            } else {
                assert(c == p + w);
                assert(c.skip(p.len() as int) == w);
                lemma_trim_unchanged(w);
                lemma_one_word(w, Sep::AsciiWhitespace);
            }
        },
        None => {
            assert(c == p + w);
            assert(c.skip(p.len() as int) == w);
            lemma_trim_unchanged(w);
            lemma_one_word(w, Sep::AsciiWhitespace);
        },
    }
}

/// A formatted `mode` command reads back as the mode it was made for, passes
/// the UI's command check, and is recognised as an echo when the controller
/// repeats it. The target must be a single word (no whitespace in it).
pub proof fn law_mode_command_round_trip(target: Option<Seq<char>>, mode: ControllerMode)
    requires
        plain_target(target),
    ensures
        mode_of_command(mode_command(target, mode)) == Some(mode),
        command_check(mode_command(target, mode)) is None,
        is_echo(mode_command(target, mode)),
{
    reveal_strlit("const ");
    reveal_strlit("mode ");
    lemma_mode_command_shape(target, mode);
    lemma_mode_word_plain(mode);
    let c = mode_command(target, mode);
    assert(CONST_PREFIX@[0] != c[0]);
    lemma_trim_unchanged(c);
    assert(known_echo_prefixes()[4] == MODE_PREFIX@);
}

/// A mode request from the UI, for any of its targets, formats a command
/// that reads back as the requested mode and passes the command check.
pub proof fn law_ui_mode_request_round_trip(target: ModeTarget, mode: ControllerMode)
    ensures
        mode_of_command(mode_command(Some(target.word()), mode)) == Some(mode),
        command_check(mode_command(Some(target.word()), mode)) is None,
{
    reveal_strlit("steering");
    reveal_strlit("throttle");
    reveal_strlit("both");
    assert(plain_target(Some(target.word())));
    law_mode_command_round_trip(Some(target.word()), mode);
}

/// While the link is open, a `mode` command is sent in either mode, and the
/// snapshot then holds the mode it names and is otherwise unchanged.
pub proof fn law_mode_command_switches_mode(
    old: ControllerTelemetrySnapshot,
    new: ControllerTelemetrySnapshot,
    target: Option<Seq<char>>,
    mode: ControllerMode,
    r: Result<Seq<char>, SendRejection>,
)
    requires
        old.connected,
        plain_target(target),
        send_outcome(old, new, mode_command(target, mode), r),
    ensures
        r == Ok::<Seq<char>, SendRejection>(mode_command(target, mode).push('\n')),
        new == (ControllerTelemetrySnapshot { mode, ..old }),
{
    reveal_strlit("pwm-a ");
    reveal_strlit("pwm-b ");
    law_mode_command_round_trip(target, mode);
    lemma_mode_command_shape(target, mode);
    let c = mode_command(target, mode);
    assert(PWM_STEERING_PREFIX@[0] != c[0]);
    assert(PWM_THROTTLE_PREFIX@[0] != c[0]);
}

/// In auto mode a PWM command that does not set the neutral 1500 us is
/// refused and changes nothing.
pub proof fn law_auto_mode_blocks_pwm(
    old: ControllerTelemetrySnapshot,
    new: ControllerTelemetrySnapshot,
    prefix: Seq<char>,
    value: Seq<char>,
    r: Result<Seq<char>, SendRejection>,
)
    requires
        old.connected,
        old.mode == ControllerMode::Auto,
        prefix == PWM_STEERING_PREFIX@ || prefix == PWM_THROTTLE_PREFIX@,
        trim(value) != "1500"@,
        send_outcome(old, new, prefix + value, r),
    ensures
        r == Err::<Seq<char>, SendRejection>(SendRejection::PwmBlockedInAuto),
        new == old,
{
    reveal_strlit("pwm-a ");
    reveal_strlit("pwm-b ");
    reveal_strlit("mode ");
    let c = prefix + value;
    assert(MODE_PREFIX@[0] != c[0]);
    assert(c.skip(prefix.len() as int) == value);
    lemma_trim_idempotent(value);
    if prefix == PWM_THROTTLE_PREFIX@ {
        assert(PWM_STEERING_PREFIX@[4] != c[4]);
    }
}

/// In auto mode a PWM command that sets the neutral 1500 us still goes out.
pub proof fn law_auto_mode_allows_neutral(
    old: ControllerTelemetrySnapshot,
    new: ControllerTelemetrySnapshot,
    prefix: Seq<char>,
    value: Seq<char>,
    r: Result<Seq<char>, SendRejection>,
)
    requires
        old.connected,
        old.mode == ControllerMode::Auto,
        prefix == PWM_STEERING_PREFIX@ || prefix == PWM_THROTTLE_PREFIX@,
        trim(value) == "1500"@,
        send_outcome(old, new, prefix + value, r),
    ensures
        r == Ok::<Seq<char>, SendRejection>((prefix + value).push('\n')),
{
    reveal_strlit("pwm-a ");
    reveal_strlit("pwm-b ");
    reveal_strlit("mode ");
    let c = prefix + value;
    assert(MODE_PREFIX@[0] != c[0]);
    assert(c.skip(prefix.len() as int) == value);
    lemma_trim_idempotent(value);
    if prefix == PWM_THROTTLE_PREFIX@ {
        assert(PWM_STEERING_PREFIX@[4] != c[4]);
    }
}

/// In manual mode a PWM command with a pulse width written in decimal goes
/// out and sets that output to the pulse width.
pub proof fn law_pwm_command_sets_output(
    old: ControllerTelemetrySnapshot,
    new: ControllerTelemetrySnapshot,
    prefix: Seq<char>,
    pulse_us: i32,
    r: Result<Seq<char>, SendRejection>,
)
    requires
        old.connected,
        old.mode == ControllerMode::Manual,
        prefix == PWM_STEERING_PREFIX@ || prefix == PWM_THROTTLE_PREFIX@,
        send_outcome(old, new, prefix + signed_decimal(pulse_us as int), r),
    ensures
        r == Ok::<Seq<char>, SendRejection>((prefix + signed_decimal(pulse_us as int)).push('\n')),
        prefix == PWM_STEERING_PREFIX@ ==> new == (ControllerTelemetrySnapshot {
            steer_us: pulse_us,
            ..old
        }),
        prefix == PWM_THROTTLE_PREFIX@ ==> new == (ControllerTelemetrySnapshot {
            throttle_us: pulse_us,
            ..old
        }),
{
    reveal_strlit("pwm-a ");
    reveal_strlit("pwm-b ");
    let d = signed_decimal(pulse_us as int);
    let c = prefix + d;
    assert(c.skip(prefix.len() as int) == d);
    law_csv_i32_round_trip(pulse_us);
    assert(opt_cell(Some(pulse_us as int)) == d);
    lemma_trim_idempotent(d);
    if prefix == PWM_THROTTLE_PREFIX@ {
        assert(PWM_STEERING_PREFIX@[4] != c[4]);
    }
}

/// Whatever the mode, while the link is open every command that is not a
/// PWM command (`pwm-a `/`pwm-b `) goes out as its line and a newline.
pub proof fn law_only_pwm_is_restricted(
    old: ControllerTelemetrySnapshot,
    new: ControllerTelemetrySnapshot,
    command: Seq<char>,
    r: Result<Seq<char>, SendRejection>,
)
    requires
        old.connected,
        !PWM_STEERING_PREFIX@.is_prefix_of(command),
        !PWM_THROTTLE_PREFIX@.is_prefix_of(command),
        send_outcome(old, new, command, r),
    ensures
        r == Ok::<Seq<char>, SendRejection>(command.push('\n')),
        new == after_command(old, command),
{
}

/// A batch of commands is refused exactly when one of them fails its check,
/// and then for the first such command.
pub proof fn law_first_rejection_is_first_failure(cmds: Seq<Seq<char>>)
    ensures
        first_rejection(cmds) is None <==> forall|i: int|
            0 <= i < cmds.len() ==> (#[trigger] command_check(cmds[i])) is None,
        first_rejection(cmds) matches Some(e) ==> exists|i: int|
            0 <= i < cmds.len() && command_check(cmds[i]) == Some(e) && forall|j: int|
                0 <= j < i ==> (#[trigger] command_check(cmds[j])) is None,
    decreases cmds.len(),
{
    if cmds.len() > 0 {
        let d = cmds.drop_last();
        law_first_rejection_is_first_failure(d);
        assert forall|i: int| 0 <= i < d.len() implies d[i] == cmds[i] by {}
        if first_rejection(d) is None {
            assert forall|i: int| 0 <= i < d.len() implies (#[trigger] command_check(cmds[i])) is None by {
                assert(d[i] == cmds[i]);
                assert(command_check(d[i]) is None);
            }
            if let Some(e) = first_rejection(cmds) {
                assert(command_check(cmds[cmds.len() - 1]) == Some(e));
            }
        } else {
            let e = first_rejection(d)->0;
            let i = choose|i: int|
                0 <= i < d.len() && command_check(d[i]) == Some(e) && forall|j: int|
                    0 <= j < i ==> (#[trigger] command_check(d[j])) is None;
            assert(command_check(cmds[i]) == Some(e));
            assert forall|j: int| 0 <= j < i implies (#[trigger] command_check(cmds[j])) is None by {
                assert(d[j] == cmds[j]);
            }
        }
    }
}

/// A request is accepted only when every command it sends passes its check.
pub proof fn law_accepted_requests_pass_checks(payload: CommandRequest, v: Seq<Seq<char>>)
    requires
        v == requested_commands(payload.command.deep_view(), batch_view(payload.commands)),
        first_rejection(v) is None,
    ensures
        forall|i: int| 0 <= i < v.len() ==> (#[trigger] command_check(v[i])) is None,
{
    law_first_rejection_is_first_failure(v);
}

/// In manual mode every command goes out while the link is open.
pub proof fn law_manual_mode_sends_everything(
    old: ControllerTelemetrySnapshot,
    new: ControllerTelemetrySnapshot,
    command: Seq<char>,
    r: Result<Seq<char>, SendRejection>,
)
    requires
        old.connected,
        old.mode == ControllerMode::Manual,
        send_outcome(old, new, command, r),
    ensures
        r == Ok::<Seq<char>, SendRejection>(command.push('\n')),
        new == after_command(old, command),
{
}

/// Once the link is closed, every command is refused as not connected and
/// the snapshot stays as it is.
pub proof fn law_disconnect_refuses_commands(
    s: ControllerTelemetrySnapshot,
    new: ControllerTelemetrySnapshot,
    command: Seq<char>,
    r: Result<Seq<char>, SendRejection>,
)
    requires
        send_outcome(disconnected(s), new, command, r),
    ensures
        r == Err::<Seq<char>, SendRejection>(SendRejection::NotConnected),
        new == disconnected(s),
{
}

/// Right after a link is opened in manual mode, a command goes out as its
/// line followed by a newline.
pub proof fn law_connect_then_send(
    s: ControllerTelemetrySnapshot,
    port: String,
    new: ControllerTelemetrySnapshot,
    command: Seq<char>,
    r: Result<Seq<char>, SendRejection>,
)
    requires
        s.mode == ControllerMode::Manual,
        send_outcome(connected_to(s, port), new, command, r),
    ensures
        r == Ok::<Seq<char>, SendRejection>(command.push('\n')),
        new == after_command(connected_to(s, port), command),
{
}

/// Sending a command, opening and closing the link keep every floating-point
/// reading of the snapshot an `f32` literal.
pub proof fn law_commands_keep_float_literals(
    s: ControllerTelemetrySnapshot,
    port: String,
    command: Seq<char>,
)
    requires
        s.floats_wellformed(),
    ensures
        after_command(s, command).floats_wellformed(),
        connected_to(s, port).floats_wellformed(),
        disconnected(s).floats_wellformed(),
{
}

// ---------------------------------------------------------------------------
// Laws of the serial reader
// ---------------------------------------------------------------------------

/// The failure count after a run of read events.
pub open spec fn count_after(errors: u32, events: Seq<ReadEvent>) -> u32
    decreases events.len(),
{
    if events.len() == 0 {
        errors
    } else {
        count_after(reader_next(errors, events[0]).0, events.drop_first())
    }
}

/// `n` failed reads in a row.
pub open spec fn failures(n: nat) -> Seq<ReadEvent> {
    Seq::new(n, |i: int| ReadEvent::Failed)
}

proof fn lemma_count_failures(errors: u32, n: nat)
    requires
        errors + n < crate::consts::MAX_CONSECUTIVE_READ_ERRORS,
    ensures
        count_after(errors, failures(n)) == errors + n,
    decreases n,
{
    if n > 0 {
        assert(failures(n)[0] == ReadEvent::Failed);
        assert(failures(n).drop_first() == failures((n - 1) as nat));
        lemma_count_failures((errors + 1) as u32, (n - 1) as nat);
    }
}

/// On a fresh link the reader counts failed reads one by one and closes the
/// link on exactly the tenth failure in a row.
pub proof fn law_reader_closes_on_tenth_failure(n: nat)
    requires
        n < crate::consts::MAX_CONSECUTIVE_READ_ERRORS,
    ensures
        count_after(0, failures(n)) == n,
        reader_next(count_after(0, failures(n)), ReadEvent::Failed).1 == (if n + 1
            == crate::consts::MAX_CONSECUTIVE_READ_ERRORS {
            ReaderAction::CountErrorAndDisconnect
        } else {
            ReaderAction::CountError
        }),
{
    lemma_count_failures(0, n);
}

/// A line read between failures starts the count of failures again.
pub proof fn law_reader_line_resets(errors: u32, events: Seq<ReadEvent>)
    ensures
        count_after(errors, events.push(ReadEvent::Line)) == 0,
    decreases events.len(),
{
    if events.len() == 0 {
        let one = events.push(ReadEvent::Line);
        assert(one.drop_first() == Seq::<ReadEvent>::empty());
        assert(one[0] == ReadEvent::Line);
        assert(count_after(0, one.drop_first()) == 0);
    } else {
        assert(events.push(ReadEvent::Line)[0] == events[0]);
        assert(events.push(ReadEvent::Line).drop_first() == events.drop_first().push(
            ReadEvent::Line,
        ));
        law_reader_line_resets(reader_next(errors, events[0]).0, events.drop_first());
    }
}

} // verus!
