//! The frame scheduler: the decisions of the refresh loop, as a state machine.
//!
//! The machine never touches a peripheral. A driver performs the action that a
//! step hands out, waits for it to finish, and reports what happened with the
//! next step. One refresh is: prepare the frame, send its transfers in order,
//! rest for the frame period. A failed transfer ends the frame at once; the
//! loop goes on with the next frame.
//!
//! With the pulse-train backend the driver is suspended between two transfers
//! of one frame. If it is resumed too late the strip takes the pause for the
//! end of the frame. The serial backend sends a frame in one transfer and has
//! no such pause.

use vstd::prelude::*;
use crate::error::Error;
use crate::serial::SETTLE_MICROS;

verus! {

/// Microseconds between two frames unless configured otherwise.
pub const FRAME_PERIOD_MICROS: u64 = 1_000_000;

/// Microseconds of idle line after which the strip ends the frame.
pub const RESET_THRESHOLD_MICROS: u64 = 50;

/// The hardware that puts a frame on the wire.
#[derive(Clone, Copy, Debug, PartialEq, Eq, Structural)]
pub enum Backend {
    /// Pulse generator: one transfer per pixel.
    PulseTrain,
    /// Serial engine with DMA: one transfer per frame.
    OversampledSerial,
}

impl Backend {
    /// Transfers that one frame of `num_pixels` pixels takes.
    pub open spec fn spec_transfers(self, num_pixels: usize) -> usize {
        match self {
            Backend::PulseTrain => num_pixels,
            Backend::OversampledSerial => if num_pixels == 0 {
                0
            } else {
                1
            },
        }
    }

    /// Transfers that one frame of `num_pixels` pixels takes. An empty strip
    /// takes none.
    #[verifier::when_used_as_spec(spec_transfers)]
    pub fn transfers(self, num_pixels: usize) -> (n: usize)
        ensures
            n == self.spec_transfers(num_pixels),
    {
        match self {
            Backend::PulseTrain => num_pixels,
            Backend::OversampledSerial => if num_pixels == 0 {
                0
            } else {
                1
            },
        }
    }

    /// A frame is at risk when the driver can be suspended inside it for as long
    /// as the strip's reset threshold.
    pub open spec fn spec_at_risk(self, num_pixels: usize, max_gap_micros: u64) -> bool {
        self.spec_transfers(num_pixels) >= 2 && max_gap_micros >= RESET_THRESHOLD_MICROS
    }

    /// Whether a frame can be corrupted when other tasks may keep the driver
    /// suspended for up to `max_gap_micros` between two transfers.
    #[verifier::when_used_as_spec(spec_at_risk)]
    pub fn at_risk(self, num_pixels: usize, max_gap_micros: u64) -> (risk: bool)
        ensures
            risk == self.spec_at_risk(num_pixels, max_gap_micros),
    {
        self.transfers(num_pixels) >= 2 && max_gap_micros >= RESET_THRESHOLD_MICROS
    }
}

/// What became of the action that the last step handed out.
#[derive(Clone, Copy, Debug, PartialEq, Eq, Structural)]
pub enum Event {
    Completed,
    Failed,
}

/// What the driver is to do next.
#[derive(Clone, Copy, Debug, PartialEq, Eq, Structural)]
pub enum Action {
    /// Send the startup burst of zero bytes.
    SendResetBurst,
    /// Suspend for this many microseconds.
    Wait { micros: u64 },
    /// Bring the pixel buffer up to date and encode it.
    Prepare,
    /// Hand the transfer with this index to the peripheral and await it.
    Transmit { transfer: usize },
    /// Stop: the strip could not be started.
    Halt,
}

/// Where the refresh loop stands.
#[derive(Clone, Copy, Debug, PartialEq, Eq, Structural)]
pub enum Phase {
    /// Nothing has been done yet.
    Startup,
    /// The startup burst is on its way.
    Resetting,
    /// The line is held idle after the startup burst.
    Settling,
    /// The frame is being prepared.
    Preparing,
    /// The transfer with this index is on its way.
    Sending { transfer: usize },
    /// The frame is over; the frame period runs.
    Resting,
    /// Startup failed; nothing more will be sent.
    Halted,
}

/// How a frame ended.
#[derive(Clone, Copy, Debug, PartialEq, Eq, Structural)]
pub enum Report {
    /// No frame ended with this step.
    Pending,
    /// Every transfer of the frame was sent.
    FrameSent,
    /// The frame was given up, or startup failed.
    FrameLost { error: Error },
}

/// The outcome of one step: the next action, and the end of a frame if this step
/// ended one.
#[derive(Clone, Copy, Debug, PartialEq, Eq, Structural)]
pub struct Step {
    pub action: Action,
    pub report: Report,
}

/// The refresh loop's state as a plain value: what the scheduler was configured
/// with, and where the loop stands.
pub struct LoopState {
    pub backend: Backend,
    pub num_pixels: usize,
    pub period_micros: u64,
    pub phase: Phase,
}

impl LoopState {
    /// Transfers per frame.
    pub open spec fn transfers(self) -> usize {
        self.backend.spec_transfers(self.num_pixels)
    }

    /// A transfer that is on its way is one of the frame's.
    pub open spec fn wf(self) -> bool {
        match self.phase {
            Phase::Sending { transfer } => transfer < self.transfers(),
            _ => true,
        }
    }

    /// The same loop in another phase.
    pub open spec fn at(self, phase: Phase) -> LoopState {
        LoopState { phase, ..self }
    }

    /// The step that begins a frame's rest.
    pub open spec fn rest(self, report: Report) -> (LoopState, Step) {
        (
            self.at(Phase::Resting),
            Step { action: Action::Wait { micros: self.period_micros }, report },
        )
    }

    /// The step that sends transfer `transfer`, or ends the frame when all are sent.
    pub open spec fn send_or_rest(self, transfer: int) -> (LoopState, Step) {
        if transfer < self.transfers() {
            (
                self.at(Phase::Sending { transfer: transfer as usize }),
                Step {
                    action: Action::Transmit { transfer: transfer as usize },
                    report: Report::Pending,
                },
            )
        } else {
            self.rest(Report::FrameSent)
        }
    }

    /// The transition function: the state after `event`, and the step handed out.
    /// The event counts where a transfer, the startup burst or the preparation
    /// of a frame was asked for. A wait that is over leads on whatever is
    /// reported of it, and so does the first step.
    pub open spec fn next(self, event: Event) -> (LoopState, Step) {
        match self.phase {
            Phase::Startup => match self.backend {
                Backend::OversampledSerial => (
                    self.at(Phase::Resetting),
                    Step { action: Action::SendResetBurst, report: Report::Pending },
                ),
                Backend::PulseTrain => (
                    self.at(Phase::Preparing),
                    Step { action: Action::Prepare, report: Report::Pending },
                ),
            },
            Phase::Resetting => match event {
                Event::Completed => (
                    self.at(Phase::Settling),
                    Step { action: Action::Wait { micros: SETTLE_MICROS }, report: Report::Pending },
                ),
                Event::Failed => (
                    self.at(Phase::Halted),
                    Step {
                        action: Action::Halt,
                        report: Report::FrameLost { error: Error::StartupFailed },
                    },
                ),
            },
            Phase::Settling | Phase::Resting => (
                self.at(Phase::Preparing),
                Step { action: Action::Prepare, report: Report::Pending },
            ),
            Phase::Preparing => match event {
                Event::Completed => self.send_or_rest(0),
                Event::Failed => self.rest(Report::FrameLost { error: Error::SizeMismatch }),
            },
            Phase::Sending { transfer } => match event {
                Event::Completed => self.send_or_rest(transfer + 1),
                Event::Failed => self.rest(
                    Report::FrameLost { error: Error::Transmission { transfer } },
                ),
            },
            Phase::Halted => (
                self.at(Phase::Halted),
                Step { action: Action::Halt, report: Report::Pending },
            ),
        }
    }

    /// The state after `count` actions in a row have completed.
    pub open spec fn after_completions(self, count: nat) -> LoopState
        decreases count,
    {
        if count == 0 {
            self
        } else {
            self.after_completions((count - 1) as nat).next(Event::Completed).0
        }
    }

    /// The step handed out when the last of `count` actions in a row has completed.
    pub open spec fn step_after_completions(self, count: nat) -> Step
        recommends
            count > 0,
    {
        self.after_completions((count - 1) as nat).next(Event::Completed).1
    }
}

/// The frame scheduler. It owns the loop's state; a driver owns the buffers and
/// the peripheral.
#[derive(Clone, Copy, Debug)]
pub struct Scheduler {
    backend: Backend,
    num_pixels: usize,
    period_micros: u64,
    phase: Phase,
}

impl View for Scheduler {
    type V = LoopState;

    closed spec fn view(&self) -> LoopState {
        LoopState {
            backend: self.backend,
            num_pixels: self.num_pixels,
            period_micros: self.period_micros,
            phase: self.phase,
        }
    }
}

impl Scheduler {
    /// A transfer that is on its way is one of the frame's.
    #[verifier::type_invariant]
    closed spec fn within_frame(&self) -> bool {
        self@.wf()
    }

    /// A scheduler at startup for a strip of `num_pixels` pixels that rests
    /// `period_micros` between frames.
    pub fn new(backend: Backend, num_pixels: usize, period_micros: u64) -> (s: Scheduler)
        ensures
            s@ == (LoopState { backend, num_pixels, period_micros, phase: Phase::Startup }),
    {
        Scheduler { backend, num_pixels, period_micros, phase: Phase::Startup }
    }

    /// The backend that the scheduler drives.
    pub fn backend(&self) -> (b: Backend)
        ensures
            b == self@.backend,
    {
        self.backend
    }

    /// The strip's length.
    pub fn num_pixels(&self) -> (n: usize)
        ensures
            n == self@.num_pixels,
    {
        self.num_pixels
    }

    /// Microseconds of rest between two frames.
    pub fn period_micros(&self) -> (p: u64)
        ensures
            p == self@.period_micros,
    {
        self.period_micros
    }

    /// Where the loop stands.
    pub fn phase(&self) -> (p: Phase)
        ensures
            p == self@.phase,
    {
        self.phase
    }

    fn rest_step(&mut self, report: Report) -> (step: Step)
        ensures
            (final(self)@, step) == old(self)@.rest(report),
    {
        self.phase = Phase::Resting;
        Step { action: Action::Wait { micros: self.period_micros }, report }
    }

    fn send_step(&mut self, transfer: usize) -> (step: Step)
        ensures
            (final(self)@, step) == old(self)@.send_or_rest(transfer as int),
    {
        if transfer < self.backend.transfers(self.num_pixels) {
            self.phase = Phase::Sending { transfer };
            Step { action: Action::Transmit { transfer }, report: Report::Pending }
        } else {
            self.rest_step(Report::FrameSent)
        }
    }

    /// Takes the outcome of the last action and hands out the next one. The
    /// first step of a scheduler starts it, whatever the event.
    pub fn step(&mut self, event: Event) -> (step: Step)
        ensures
            (final(self)@, step) == old(self)@.next(event),
    {
        match self.phase {
            Phase::Startup => match self.backend {
                Backend::OversampledSerial => {
                    self.phase = Phase::Resetting;
                    Step { action: Action::SendResetBurst, report: Report::Pending }
                },
                Backend::PulseTrain => {
                    self.phase = Phase::Preparing;
                    Step { action: Action::Prepare, report: Report::Pending }
                },
            },
            Phase::Resetting => match event {
                Event::Completed => {
                    self.phase = Phase::Settling;
                    Step { action: Action::Wait { micros: SETTLE_MICROS }, report: Report::Pending }
                },
                Event::Failed => {
                    self.phase = Phase::Halted;
                    Step {
                        action: Action::Halt,
                        report: Report::FrameLost { error: Error::StartupFailed },
                    }
                },
            },
            Phase::Settling | Phase::Resting => {
                self.phase = Phase::Preparing;
                Step { action: Action::Prepare, report: Report::Pending }
            },
            Phase::Preparing => match event {
                Event::Completed => self.send_step(0),
                Event::Failed => self.rest_step(Report::FrameLost { error: Error::SizeMismatch }),
            },
            Phase::Sending { transfer } => match event {
                Event::Completed => {
                    proof {
                        use_type_invariant(&*self);
                    }
                    self.send_step(transfer + 1)
                },
                Event::Failed => self.rest_step(
                    Report::FrameLost { error: Error::Transmission { transfer } },
                ),
            },
            Phase::Halted => Step { action: Action::Halt, report: Report::Pending },
        }
    }
}

/// A step never changes what the scheduler was configured with, and keeps a
/// transfer on its way within the frame.
pub proof fn lemma_step_keeps_configuration(state: LoopState, event: Event)
    requires
        state.wf(),
    ensures
        state.next(event).0.wf(),
        state.next(event).0.backend == state.backend,
        state.next(event).0.num_pixels == state.num_pixels,
        state.next(event).0.period_micros == state.period_micros,
{
}

/// A failed transfer ends the frame: the step reports the lost frame with the
/// transfer that failed and starts the rest, and the step after the rest
/// prepares the next frame, whatever became of the rest.
pub proof fn lemma_failure_ends_frame(state: LoopState, transfer: usize, after_rest: Event)
    requires
        state.phase == (Phase::Sending { transfer }),
    ensures
        state.next(Event::Failed).1 == (Step {
            action: Action::Wait { micros: state.period_micros },
            report: Report::FrameLost { error: Error::Transmission { transfer } },
        }),
        state.next(Event::Failed).0.phase == Phase::Resting,
        state.next(Event::Failed).0.next(after_rest).1 == (Step {
            action: Action::Prepare,
            report: Report::Pending,
        }),
{
}

/// A frame that meets no failure hands out its transfers in index order, one
/// per completed action, and nothing else: after the prepared frame and `sent`
/// transfers have completed, transfer `sent` is handed out.
pub proof fn lemma_transfers_in_order(state: LoopState, sent: nat)
    requires
        state.phase == Phase::Preparing,
        sent < state.transfers(),
    ensures
        state.after_completions(sent + 1) == state.at(Phase::Sending { transfer: sent as usize }),
        state.step_after_completions(sent + 1) == (Step {
            action: Action::Transmit { transfer: sent as usize },
            report: Report::Pending,
        }),
    decreases sent,
{
    reveal_with_fuel(LoopState::after_completions, 2);
    if sent > 0 {
        lemma_transfers_in_order(state, (sent - 1) as nat);
    }
}

/// A frame that meets no failure ends when its last transfer has completed: the
/// step reports the frame as sent and starts the rest. With no pixels the frame
/// ends as soon as it is prepared, with no transfer at all.
pub proof fn lemma_frame_completes(state: LoopState)
    requires
        state.phase == Phase::Preparing,
    ensures
        state.after_completions(state.transfers() as nat + 1) == state.at(Phase::Resting),
        state.step_after_completions(state.transfers() as nat + 1) == (Step {
            action: Action::Wait { micros: state.period_micros },
            report: Report::FrameSent,
        }),
{
    reveal_with_fuel(LoopState::after_completions, 2);
    let n = state.transfers() as nat;
    if n > 0 {
        lemma_transfers_in_order(state, (n - 1) as nat);
    }
}

/// The startup burst is asked for once at most: by the first step, with the
/// serial backend. No step leads back to startup.
pub proof fn lemma_reset_burst_only_at_startup(state: LoopState, event: Event)
    ensures
        state.next(event).1.action == Action::SendResetBurst <==> state.phase == Phase::Startup
            && state.backend == Backend::OversampledSerial,
        state.next(event).0.phase != Phase::Startup,
{
}

/// The serial backend never suspends inside a frame, so no delay puts its
/// frames at risk; the pulse-train backend is at risk on any strip of two or
/// more pixels once the delay reaches the reset threshold.
pub proof fn lemma_risk_by_backend(num_pixels: usize, max_gap_micros: u64)
    ensures
        !Backend::OversampledSerial.spec_at_risk(num_pixels, max_gap_micros),
        Backend::PulseTrain.spec_at_risk(num_pixels, max_gap_micros) <==> num_pixels >= 2
            && max_gap_micros >= RESET_THRESHOLD_MICROS,
{
}

} // verus!
