//! The startup gate: frames go to the green-circle detector until a green
//! start marker is confirmed; the controller is then switched to auto mode and
//! frames flow on to roof alignment. This module holds the startup gate's decisions
//! and the discrete part of its published status.
use vstd::prelude::*;

verus! {

/// Whether the pipeline is still looking for the start marker or aligning to the roof.
#[derive(Clone, Copy, Debug, PartialEq, Eq, Structural)]
pub enum StartupPhase {
    SearchGreen,
    RoofAlignment,
}

impl Default for StartupPhase {
    fn default() -> (p: Self)
        ensures
            p == StartupPhase::SearchGreen,
    {
        StartupPhase::SearchGreen
    }
}

/// The discrete part of the startup status shown to the UI.
#[derive(Clone, Debug)]
pub struct StartupStatus {
    pub phase: StartupPhase,
    pub green_detected: bool,
    pub handoff_count: u64,
    pub last_error: Option<String>,
}

impl Default for StartupStatus {
    fn default() -> (s: Self)
        ensures
            s.phase == StartupPhase::SearchGreen,
            !s.green_detected,
            s.handoff_count == 0,
            s.last_error is None,
    {
        StartupStatus {
            phase: StartupPhase::SearchGreen,
            green_detected: false,
            handoff_count: 0,
            last_error: None,
        }
    }
}

/// Back to searching, as after start-up, keeping the number of handoffs so far.
pub fn reset(status: &mut StartupStatus)
    ensures
        final(status).phase == StartupPhase::SearchGreen,
        !final(status).green_detected,
        final(status).handoff_count == old(status).handoff_count,
        final(status).last_error is None,
{
    status.phase = StartupPhase::SearchGreen;
    status.green_detected = false;
    status.last_error = None;
}

/// Records a frame searched for the marker.
pub fn update_search_status(status: &mut StartupStatus, green_detected: bool)
    ensures
        *final(status) == (StartupStatus {
            phase: StartupPhase::SearchGreen,
            green_detected,
            last_error: None,
            ..*old(status)
        }),
{
    status.phase = StartupPhase::SearchGreen;
    status.green_detected = green_detected;
    status.last_error = None;
}

/// Records the handoff to roof alignment.
pub fn mark_handoff(status: &mut StartupStatus, green_detected: bool)
    requires
        old(status).handoff_count < u64::MAX,
    ensures
        *final(status) == (StartupStatus {
            phase: StartupPhase::RoofAlignment,
            green_detected,
            handoff_count: (old(status).handoff_count + 1) as u64,
            last_error: None,
        }),
{
    status.phase = StartupPhase::RoofAlignment;
    status.green_detected = green_detected;
    status.handoff_count = status.handoff_count + 1;
    status.last_error = None;
}

/// Records why the switch to auto mode failed.
pub fn set_error(status: &mut StartupStatus, error: String)
    ensures
        *final(status) == (StartupStatus { last_error: Some(error), ..*old(status) }),
{
    status.last_error = Some(error);
}

/// What the startup gate learns.
#[derive(Clone, Copy, Debug, PartialEq, Eq, Structural)]
pub enum GateEvent {
    /// A frame arrived while the published phase was the given one.
    Frame(StartupPhase),
    /// The detector ran on the frame; `true` when the marker is confirmed.
    Detected(bool),
    /// The request for auto mode was answered; `true` when it was sent.
    ModeSent(bool),
}

/// What the startup gate does next with the current frame.
#[derive(Clone, Copy, Debug, PartialEq, Eq, Structural)]
pub enum GateAction {
    /// Pass the frame on to roof alignment.
    Forward,
    /// Run the detector on the frame, clearing its history first when asked.
    Detect { reset_detector: bool },
    /// Drop the frame and wait for the next one.
    Skip,
    /// Ask the controller to switch to auto mode.
    RequestAuto,
    /// Show the frame and the marker mask instead.
    Display,
}

/// The startup gate's next remembered phase and action.
pub open spec fn gate_next(previous_phase: StartupPhase, event: GateEvent) -> (StartupPhase, GateAction) {
    match event {
        GateEvent::Frame(phase) => (
            phase,
            if phase == StartupPhase::RoofAlignment {
                GateAction::Forward
            } else {
                GateAction::Detect {
                    reset_detector: previous_phase == StartupPhase::RoofAlignment,
                }
            },
        ),
        GateEvent::Detected(confirmed) => (
            previous_phase,
            if confirmed {
                GateAction::RequestAuto
            } else {
                GateAction::Skip
            },
        ),
        GateEvent::ModeSent(sent) => (
            previous_phase,
            if sent {
                GateAction::Forward
            } else {
                GateAction::Display
            },
        ),
    }
}

/// One decision of the startup gate. In roof alignment every frame is
/// forwarded; while searching each frame goes to the detector, whose
/// history is cleared when the phase has just fallen back to searching; a
/// confirmed marker asks for auto mode, and the frame is forwarded once the
/// request was sent, or displayed when it failed.
pub fn startup_gate_step(previous_phase: StartupPhase, event: GateEvent) -> (r: (
    StartupPhase,
    GateAction,
))
    ensures
        r == gate_next(previous_phase, event),
{
    match event {
        GateEvent::Frame(phase) => {
            if phase == StartupPhase::RoofAlignment {
                (phase, GateAction::Forward)
            } else {
                (
                    phase,
                    GateAction::Detect {
                        reset_detector: previous_phase == StartupPhase::RoofAlignment,
                    },
                )
            }
        },
        GateEvent::Detected(confirmed) => {
            if confirmed {
                (previous_phase, GateAction::RequestAuto)
            } else {
                (previous_phase, GateAction::Skip)
            }
        },
        GateEvent::ModeSent(sent) => {
            if sent {
                (previous_phase, GateAction::Forward)
            } else {
                (previous_phase, GateAction::Display)
            }
        },
    }
}

/// The detector's history is cleared once when the phase falls back from
/// roof alignment to searching, and not again on the frames that follow;
/// while aligning, every frame is forwarded.
pub proof fn law_gate_clears_history_once(phases: Seq<StartupPhase>)
    requires
        phases.len() >= 1,
        forall|i: int| 0 <= i < phases.len() ==> #[trigger] phases[i] == StartupPhase::SearchGreen,
    ensures
        gate_next(StartupPhase::RoofAlignment, GateEvent::Frame(phases[0])) == (
            StartupPhase::SearchGreen,
            GateAction::Detect { reset_detector: true },
        ),
        forall|i: int|
            1 <= i < phases.len() ==> gate_next(phases[i - 1], GateEvent::Frame(#[trigger] phases[i]))
                == (StartupPhase::SearchGreen, GateAction::Detect { reset_detector: false }),
        forall|p: StartupPhase|
            gate_next(p, GateEvent::Frame(StartupPhase::RoofAlignment)).1 == GateAction::Forward,
{
    assert forall|i: int| 1 <= i < phases.len() implies gate_next(
        phases[i - 1],
        GateEvent::Frame(#[trigger] phases[i]),
    ) == (StartupPhase::SearchGreen, GateAction::Detect { reset_detector: false }) by {
        assert(phases[i - 1] == StartupPhase::SearchGreen);
    }
}

} // verus!
