//! The course of trial screenshots of a target: connect, drop the first picture, and take one
//! after the other.
use crate::target_discovery::PreviewFrame;
use vstd::prelude::*;

verus! {

/// The pause between screenshots, in milliseconds.
pub const PROBE_LOOP_PAUSE_MS: u64 = 250;

/// The pause before another attempt to connect.
pub const PROBE_RECONNECT_PAUSE_MS: u64 = 1000;

/// What is awaited.
#[derive(Clone, Copy, Debug, PartialEq, Eq, Structural)]
pub enum ProbePhase {
    /// Whether the configuration can be captured.
    Configure,
    /// The means to capture.
    Create,
    Connect,
    /// The first picture, which is dropped.
    WarmUp,
    Capture,
    /// Nothing more.
    Ended,
}

/// What has come of the last step.
#[derive(Debug)]
pub enum ProbeEvent {
    /// The step has worked.
    Done,
    /// The step has failed.
    Failed(String),
    /// A screenshot: its latency in nanoseconds, and the picture.
    Captured(u128, PreviewFrame),
    /// The last report was not wanted any more.
    Unheard,
}

/// What to do, in this order: report, let go of the means to capture, wait.
#[derive(Debug)]
pub struct ProbeStep {
    pub report: Option<Result<(u128, PreviewFrame), String>>,
    pub disconnect: bool,
    pub pause_ms: u64,
    pub next: ProbePhase,
}

/// The means to capture are there.
pub open spec fn holds_backend(phase: ProbePhase) -> bool {
    phase == ProbePhase::Connect || phase == ProbePhase::WarmUp || phase == ProbePhase::Capture
}

/// The phase that follows one that has worked.
pub open spec fn phase_after(phase: ProbePhase) -> ProbePhase {
    match phase {
        ProbePhase::Configure => ProbePhase::Create,
        ProbePhase::Create => ProbePhase::Connect,
        ProbePhase::Connect => ProbePhase::WarmUp,
        ProbePhase::WarmUp => ProbePhase::Capture,
        ProbePhase::Capture => ProbePhase::Capture,
        ProbePhase::Ended => ProbePhase::Ended,
    }
}

/// What follows from an event.
pub open spec fn next_step(phase: ProbePhase, event: ProbeEvent) -> ProbeStep {
    if phase == ProbePhase::Ended {
        ProbeStep { report: None, disconnect: false, pause_ms: 0, next: ProbePhase::Ended }
    } else {
        match event {
            ProbeEvent::Done => ProbeStep {
                report: None,
                disconnect: false,
                pause_ms: 0,
                next: phase_after(phase),
            },
            ProbeEvent::Failed(error) => ProbeStep {
                report: Some(Err(error)),
                disconnect: holds_backend(phase),
                pause_ms: if phase == ProbePhase::Configure || phase == ProbePhase::Capture {
                    0
                } else {
                    PROBE_RECONNECT_PAUSE_MS
                },
                next: if phase == ProbePhase::Configure {
                    ProbePhase::Ended
                } else {
                    ProbePhase::Configure
                },
            },
            ProbeEvent::Captured(latency, frame) => if phase == ProbePhase::Capture {
                ProbeStep {
                    report: Some(Ok((latency, frame))),
                    disconnect: false,
                    pause_ms: PROBE_LOOP_PAUSE_MS,
                    next: ProbePhase::Capture,
                }
            } else {
                ProbeStep { report: None, disconnect: false, pause_ms: 0, next: phase_after(phase) }
            },
            ProbeEvent::Unheard => ProbeStep {
                report: None,
                disconnect: holds_backend(phase),
                pause_ms: 0,
                next: ProbePhase::Ended,
            },
        }
    }
}

fn next_phase(phase: ProbePhase) -> (next: ProbePhase)
    ensures
        next == phase_after(phase),
{
    match phase {
        ProbePhase::Configure => ProbePhase::Create,
        ProbePhase::Create => ProbePhase::Connect,
        ProbePhase::Connect => ProbePhase::WarmUp,
        ProbePhase::WarmUp => ProbePhase::Capture,
        ProbePhase::Capture => ProbePhase::Capture,
        ProbePhase::Ended => ProbePhase::Ended,
    }
}

/// The next step of the trial screenshots. A configuration that cannot be captured ends them; other
/// failures are reported, and all begins anew.
pub fn run_probe_worker(phase: ProbePhase, event: ProbeEvent) -> (step: ProbeStep)
    ensures
        step == next_step(phase, event),
{
    if matches!(phase, ProbePhase::Ended) {
        return ProbeStep { report: None, disconnect: false, pause_ms: 0, next: ProbePhase::Ended };
    }
    let holds = matches!(phase, ProbePhase::Connect | ProbePhase::WarmUp | ProbePhase::Capture);
    match event {
        ProbeEvent::Done => ProbeStep {
            report: None,
            disconnect: false,
            pause_ms: 0,
            next: next_phase(phase),
        },
        ProbeEvent::Failed(error) => {
            let at_once = matches!(phase, ProbePhase::Configure | ProbePhase::Capture);
            ProbeStep {
                report: Some(Err(error)),
                disconnect: holds,
                pause_ms: if at_once {
                    0
                } else {
                    PROBE_RECONNECT_PAUSE_MS
                },
                next: if matches!(phase, ProbePhase::Configure) {
                    ProbePhase::Ended
                } else {
                    ProbePhase::Configure
                },
            }
        },
        ProbeEvent::Captured(latency, frame) => {
            if matches!(phase, ProbePhase::Capture) {
                ProbeStep {
                    report: Some(Ok((latency, frame))),
                    disconnect: false,
                    pause_ms: PROBE_LOOP_PAUSE_MS,
                    next: ProbePhase::Capture,
                }
            } else {
                ProbeStep { report: None, disconnect: false, pause_ms: 0, next: next_phase(phase) }
            }
        },
        ProbeEvent::Unheard => ProbeStep {
            report: None,
            disconnect: holds,
            pause_ms: 0,
            next: ProbePhase::Ended,
        },
    }
}

/// What to do when the wizard wants no more screenshots: let go of the means to capture.
pub fn stop_probing(phase: ProbePhase) -> (disconnect: bool)
    ensures
        disconnect == holds_backend(phase),
{
    matches!(phase, ProbePhase::Connect | ProbePhase::WarmUp | ProbePhase::Capture)
}

/// The means to capture are let go of exactly when they are no longer used.
pub proof fn law_backends_are_let_go(phase: ProbePhase, event: ProbeEvent)
    ensures
        next_step(phase, event).disconnect <==> holds_backend(phase) && !holds_backend(
            next_step(phase, event).next,
        ),
{
}

/// The first picture is never reported.
pub proof fn law_first_picture_is_dropped(latency: u128, frame: PreviewFrame)
    ensures
        next_step(ProbePhase::WarmUp, ProbeEvent::Captured(latency, frame)).report is None,
        next_step(ProbePhase::WarmUp, ProbeEvent::Captured(latency, frame)).next
            == ProbePhase::Capture,
{
}

/// What comes one after the other: looking at the configuration, making the means to capture,
/// connecting, a first picture, and then pictures without end.
pub proof fn law_trials_go_on_in_order(phase: ProbePhase)
    ensures
        next_step(ProbePhase::Configure, ProbeEvent::Done).next == ProbePhase::Create,
        next_step(ProbePhase::Create, ProbeEvent::Done).next == ProbePhase::Connect,
        next_step(ProbePhase::Connect, ProbeEvent::Done).next == ProbePhase::WarmUp,
        next_step(phase, ProbeEvent::Done).report is None,
        next_step(phase, ProbeEvent::Done).pause_ms == 0,
        !next_step(phase, ProbeEvent::Done).disconnect,
{
}

/// Every picture behind the first is reported as it came, with its latency, and the next one is
/// taken a quarter of a second later.
pub proof fn law_pictures_are_reported(latency: u128, frame: PreviewFrame)
    ensures
        ({
            let step = next_step(ProbePhase::Capture, ProbeEvent::Captured(latency, frame));
            &&& step.report == Some(Ok::<(u128, PreviewFrame), String>((latency, frame)))
            &&& step.pause_ms == 250
            &&& step.next == ProbePhase::Capture
        }),
{
}

/// Whatever fails is reported as it is. Only a configuration that cannot be captured ends the trials;
/// anything else begins them anew, a second later unless a picture failed.
pub proof fn law_failures_are_reported(phase: ProbePhase, error: String)
    requires
        phase != ProbePhase::Ended,
    ensures
        ({
            let step = next_step(phase, ProbeEvent::Failed(error));
            &&& step.report == Some(Err::<(u128, PreviewFrame), String>(error))
            &&& phase == ProbePhase::Configure ==> step.next == ProbePhase::Ended
            &&& phase != ProbePhase::Configure ==> step.next == ProbePhase::Configure
            &&& phase == ProbePhase::Create || phase == ProbePhase::Connect || phase
                == ProbePhase::WarmUp ==> step.pause_ms == 1000
            &&& phase == ProbePhase::Capture ==> step.pause_ms == 0
        }),
{
}

/// Trials that nobody listens to end, and nothing follows the end.
pub proof fn law_unheard_trials_end(phase: ProbePhase, event: ProbeEvent)
    ensures
        next_step(phase, ProbeEvent::Unheard).next == ProbePhase::Ended,
        next_step(phase, ProbeEvent::Unheard).report is None,
        next_step(ProbePhase::Ended, event).next == ProbePhase::Ended,
        next_step(ProbePhase::Ended, event).report is None,
        !next_step(ProbePhase::Ended, event).disconnect,
{
}

} // verus!
