//! The poll/retry control loop as a state machine.
//!
//! The loop itself waits, reads sensors and writes to a device, none of which
//! can be reasoned about here. What can is every decision it takes. A
//! [`Monitor`] holds the loop's state; [`Monitor::pending`] says what to do
//! next and [`Monitor::step`] takes what came of it and moves on. The caller
//! performs the action and reports back:
//!
//! ```text
//! loop {
//!     let event = match monitor.pending() { ..perform the action.. };
//!     let (next, notice) = monitor.step(event);
//!     ..log the notice, release the device if it says so..
//!     monitor = next;
//! }
//! ```
//!
//! The transition rules live on [`MonitorState`], the mathematical model that
//! a `Monitor` wraps, and the module's laws are proved about that model.

use crate::codec::{encode_handshake, encode_status, handshake_frame, status_frame};
use crate::report::{frame_report, wire_report, Report};
use crate::rounding::{round_double, rounded_float, Precision};
use crate::status::ProviderStatus;
use crate::transport::{write_accepted, write_accepted_spec, K_FIXED_PID, K_FIXED_VID};
use vstd::prelude::*;

verus! {

/// Reads attempted in one burst unless configured otherwise.
pub const DEFAULT_MAX_ATTEMPTS: u32 = 10;

/// Pause between two attempts of one burst, in milliseconds.
pub const RETRY_INTERVAL_MS: u64 = 1_000;

/// Pause after a burst was exhausted, in milliseconds, unless configured
/// otherwise.
pub const DEFAULT_BACKOFF_MS: u64 = 60_000;

/// Pause at the end of every tick, in milliseconds.
pub const TICK_INTERVAL_MS: u64 = 1_000;

/// Exit code of a run that was cancelled.
pub const EXIT_CLEAN: i32 = 0;

/// Exit code of a run that gave up.
pub const EXIT_FAILURE: i32 = 1;

/// How hard to try for a reading before giving up.
#[derive(Clone, Copy, Debug, PartialEq, Eq, Structural)]
pub struct RetryBudget {
    /// Reads attempted in one burst.
    pub max_attempts: u32,
    /// Pause between the first exhausted burst and the second, in milliseconds.
    pub backoff_after_exhaustion_ms: u64,
}

/// One reading as the provider hands it out: three double-precision
/// numbers, each held by its bit pattern.
#[derive(Clone, Copy, Debug, PartialEq, Eq, Structural)]
pub struct Reading {
    pub temperature_c: u64,
    pub power_w: u64,
    pub usage_pct: u64,
}

/// One reading with each metric rounded to a whole number, as it is encoded.
#[derive(Clone, Copy, Debug, PartialEq, Eq, Structural)]
pub struct Sample {
    pub temperature_c: i32,
    pub power_w: i32,
    pub usage_pct: i32,
}

/// Which of the two bursts of a tick is under way.
#[derive(Clone, Copy, Debug, PartialEq, Eq, Structural)]
pub enum Burst {
    /// The burst that opens a tick.
    First,
    /// The burst after the backoff. If it fails too, the run is over.
    Second,
}

/// Why a run ended.
#[derive(Clone, Copy, Debug, PartialEq, Eq, Structural)]
pub enum Outcome {
    /// A stop request was seen.
    Cancelled,
    /// The provider could not be initialised.
    InitFailed(ProviderStatus),
    /// Both bursts of one tick were exhausted.
    Fatal(ProviderStatus),
}

/// Where the loop stands: what it is waiting to hear about.
#[derive(Clone, Copy, Debug, PartialEq, Eq, Structural)]
pub enum Phase {
    /// Waiting for the provider to initialise.
    InitProvider,
    /// Waiting for the device to be looked up and opened.
    OpenDevice,
    /// Waiting for handshake frame `index` to be written.
    Handshake { index: u8 },
    /// Top of a tick: waiting for the stop signal to be polled.
    CheckStop,
    /// Waiting for read number `attempt` (from 1) of `burst`.
    Reading { burst: Burst, attempt: u32 },
    /// Read `attempt` failed with `last`; pausing before the next.
    RetryWait { burst: Burst, attempt: u32, last: ProviderStatus },
    /// `burst` came back empty-handed; polling the stop signal before
    /// making anything of it.
    ConfirmStop { burst: Burst, last: ProviderStatus },
    /// The first burst failed; sitting out the long pause.
    Backoff,
    /// Waiting for the status frame of `sample` to be written.
    Writing { sample: Sample },
    /// Pausing at the end of a tick.
    TickWait,
    /// The run is over.
    Stopped { outcome: Outcome },
}

/// What the caller is asked to do.
#[derive(Clone, Copy, Debug, PartialEq, Eq)]
pub enum Action {
    /// Initialise the provider and report its status.
    InitProvider,
    /// Look the device up by its ids and open it.
    OpenDevice { vendor_id: u16, product_id: u16 },
    /// Hand this report to the device in one write: the report id, then the
    /// frame.
    Write { report: Report },
    /// Poll the stop signal without blocking.
    PollStop,
    /// Read the provider once.
    Read,
    /// Wait, returning early if the stop signal fires.
    Wait { millis: u64 },
    /// Release everything and leave with this code.
    Exit { code: i32 },
}

/// An [`Action`] with the report as a sequence of bytes.
pub enum ActionView {
    InitProvider,
    OpenDevice { vendor_id: u16, product_id: u16 },
    Write { report: Seq<u8> },
    PollStop,
    Read,
    Wait { millis: u64 },
    Exit { code: i32 },
}

impl View for Action {
    type V = ActionView;

    open spec fn view(&self) -> ActionView {
        match *self {
            Action::InitProvider => ActionView::InitProvider,
            Action::OpenDevice { vendor_id, product_id } => ActionView::OpenDevice {
                vendor_id,
                product_id,
            },
            Action::Write { report } => ActionView::Write { report: report@ },
            Action::PollStop => ActionView::PollStop,
            Action::Read => ActionView::Read,
            Action::Wait { millis } => ActionView::Wait { millis },
            Action::Exit { code } => ActionView::Exit { code },
        }
    }
}

/// What came of an action.
#[derive(Clone, Copy, Debug, PartialEq, Eq, Structural)]
pub enum Event {
    /// The provider's answer to initialisation.
    ProviderInit { status: ProviderStatus },
    /// Whether a matching device was found and opened.
    DeviceOpened { found: bool },
    /// The device's answer to a write: whether the call itself succeeded, and
    /// how many bytes it took.
    WriteDone { completed: bool, bytes_written: usize },
    /// The stop signal as polled.
    StopPolled { requested: bool },
    /// The provider's answer to a read. The reading counts only where the
    /// status is the success value.
    ReadDone { status: ProviderStatus, reading: Reading },
    /// A wait came to its end; `stop_requested` if the stop signal ended it.
    WaitDone { stop_requested: bool },
}

/// What a transition has to tell, for the log and for the device handle.
#[derive(Clone, Copy, Debug, PartialEq, Eq, Structural)]
pub enum Notice {
    /// Nothing to report.
    Nothing,
    /// The provider is ready.
    ProviderReady,
    /// The provider refused to initialise: the run is over.
    ProviderInitFailed(ProviderStatus),
    /// The device took both handshake frames.
    DeviceReady,
    /// No matching device: the run goes on without output.
    DeviceNotFound { vendor_id: u16, product_id: u16 },
    /// The device refused a handshake frame: the run goes on without output.
    DeviceInitFailed,
    /// The first burst of a tick was exhausted.
    ReadFailed(ProviderStatus),
    /// The second burst was exhausted too: the run is over.
    ReadFailedAfterRetry(ProviderStatus),
    /// The device refused a status frame: output is off for the rest of the run.
    DeviceLost,
}

/// Steps from the start of a burst to its exhaustion when every read fails:
/// the reads and the pauses between them.
pub open spec fn burst_steps(max_attempts: nat) -> nat {
    if max_attempts == 0 {
        0
    } else {
        (2 * max_attempts - 1) as nat
    }
}

impl Reading {
    /// The reading with each metric rounded to the nearest whole number.
    pub open spec fn rounded(self) -> Sample {
        Sample {
            temperature_c: rounded_float(self.temperature_c, Precision::Double) as i32,
            power_w: rounded_float(self.power_w, Precision::Double) as i32,
            usage_pct: rounded_float(self.usage_pct, Precision::Double) as i32,
        }
    }

    /// Rounds each metric to the nearest whole number.
    pub fn round(&self) -> (sample: Sample)
        ensures
            sample == self.rounded(),
    {
        Sample {
            temperature_c: round_double(self.temperature_c),
            power_w: round_double(self.power_w),
            usage_pct: round_double(self.usage_pct),
        }
    }
}

impl Outcome {
    /// The process exit code for this outcome: zero only after a stop request.
    pub open spec fn exit_code_of(self) -> i32 {
        match self {
            Outcome::Cancelled => 0i32,
            Outcome::InitFailed(_) => 1i32,
            Outcome::Fatal(_) => 1i32,
        }
    }

    /// The process exit code for this outcome.
    pub fn exit_code(&self) -> (code: i32)
        ensures
            code == self.exit_code_of(),
    {
        match self {
            Outcome::Cancelled => EXIT_CLEAN,
            Outcome::InitFailed(_) => EXIT_FAILURE,
            Outcome::Fatal(_) => EXIT_FAILURE,
        }
    }
}

impl Notice {
    /// Whether the caller must close the device handle on this notice.
    pub open spec fn releases_device_spec(self) -> bool {
        self == Notice::DeviceInitFailed || self == Notice::DeviceLost
    }

    /// Whether the caller must close the device handle on this notice.
    pub fn releases_device(&self) -> (release: bool)
        ensures
            release == self.releases_device_spec(),
    {
        match self {
            Notice::DeviceInitFailed => true,
            Notice::DeviceLost => true,
            _ => false,
        }
    }
}

/// The state of the loop, as the transition rules see it.
#[derive(Clone, Copy, Debug, PartialEq, Eq, Structural)]
pub struct MonitorState {
    /// The retry policy, fixed for the run.
    pub budget: RetryBudget,
    /// Whether an initialised device handle is held.
    pub device_live: bool,
    /// What the loop is waiting to hear about.
    pub phase: Phase,
}

impl MonitorState {
    /// The state a run starts in.
    pub open spec fn initial(budget: RetryBudget) -> MonitorState {
        MonitorState { budget, device_live: false, phase: Phase::InitProvider }
    }

    /// The states that the rules produce: counters within the budget, a frame
    /// in flight only where there is a device, and no device before the
    /// handshake is through.
    pub open spec fn well_formed(self) -> bool {
        match self.phase {
            Phase::InitProvider => !self.device_live,
            Phase::OpenDevice => !self.device_live,
            Phase::Handshake { index } => index < 2 && !self.device_live,
            Phase::Reading { burst, attempt } => 1 <= attempt <= self.budget.max_attempts,
            Phase::RetryWait { burst, attempt, last } => 1 <= attempt < self.budget.max_attempts,
            Phase::Writing { sample } => self.device_live,
            _ => true,
        }
    }

    /// Whether start-up is over and the state belongs to the polling loop or
    /// to its end.
    pub open spec fn in_loop(self) -> bool {
        !(self.phase is InitProvider || self.phase is OpenDevice || self.phase is Handshake)
    }

    /// Whether the run is over.
    pub open spec fn stopped(self) -> bool {
        self.phase is Stopped
    }

    /// Degraded mode: polling goes on, device output is off.
    pub open spec fn degraded(self) -> bool {
        self.in_loop() && !self.stopped() && !self.device_live
    }

    /// The phase that opens `burst`. With an empty budget the burst is
    /// exhausted before it begins.
    pub open spec fn begin_burst(self, burst: Burst) -> Phase {
        if self.budget.max_attempts == 0 {
            Phase::ConfirmStop { burst, last: ProviderStatus::ReadFailed }
        } else {
            Phase::Reading { burst, attempt: 1 }
        }
    }

    /// The same state in another phase.
    pub open spec fn at(self, phase: Phase) -> MonitorState {
        MonitorState { phase, ..self }
    }

    /// The action that is due in this state.
    pub open spec fn pending(self) -> ActionView {
        match self.phase {
            Phase::InitProvider => ActionView::InitProvider,
            Phase::OpenDevice => ActionView::OpenDevice {
                vendor_id: K_FIXED_VID,
                product_id: K_FIXED_PID,
            },
            Phase::Handshake { index } => ActionView::Write {
                report: wire_report(handshake_frame(index as int)),
            },
            Phase::CheckStop => ActionView::PollStop,
            Phase::Reading { burst, attempt } => ActionView::Read,
            Phase::RetryWait { burst, attempt, last } => ActionView::Wait {
                millis: RETRY_INTERVAL_MS,
            },
            Phase::ConfirmStop { burst, last } => ActionView::PollStop,
            Phase::Backoff => ActionView::Wait { millis: self.budget.backoff_after_exhaustion_ms },
            Phase::Writing { sample } => ActionView::Write {
                report: wire_report(
                    status_frame(
                        sample.temperature_c as int,
                        sample.power_w as int,
                        sample.usage_pct as int,
                    ),
                ),
            },
            Phase::TickWait => ActionView::Wait { millis: TICK_INTERVAL_MS },
            Phase::Stopped { outcome } => ActionView::Exit { code: outcome.exit_code_of() },
        }
    }

    /// The state that follows when `event` is reported. An event that does not
    /// answer the pending action changes nothing.
    pub open spec fn next(self, event: Event) -> MonitorState {
        match (self.phase, event) {
            (Phase::InitProvider, Event::ProviderInit { status }) => if status.succeeded() {
                self.at(Phase::OpenDevice)
            } else {
                self.at(Phase::Stopped { outcome: Outcome::InitFailed(status) })
            },
            (Phase::OpenDevice, Event::DeviceOpened { found }) => if found {
                self.at(Phase::Handshake { index: 0 })
            } else {
                self.at(Phase::CheckStop)
            },
            (Phase::Handshake { index }, Event::WriteDone { completed, bytes_written }) => if
                !write_accepted_spec(completed, bytes_written as int) {
                self.at(Phase::CheckStop)
            } else if index == 0 {
                self.at(Phase::Handshake { index: 1 })
            } else {
                MonitorState { device_live: true, phase: Phase::CheckStop, ..self }
            },
            (Phase::CheckStop, Event::StopPolled { requested }) => if requested {
                self.at(Phase::Stopped { outcome: Outcome::Cancelled })
            } else {
                self.at(self.begin_burst(Burst::First))
            },
            (Phase::Reading { burst, attempt }, Event::ReadDone { status, reading }) => if
                status.succeeded() {
                if self.device_live {
                    self.at(Phase::Writing { sample: reading.rounded() })
                } else {
                    self.at(Phase::TickWait)
                }
            } else if attempt < self.budget.max_attempts {
                self.at(Phase::RetryWait { burst, attempt, last: status })
            } else {
                self.at(Phase::ConfirmStop { burst, last: status })
            },
            (Phase::RetryWait { burst, attempt, last }, Event::WaitDone { stop_requested }) => if
                stop_requested {
                self.at(Phase::ConfirmStop { burst, last })
            } else {
                self.at(Phase::Reading { burst, attempt: (attempt + 1) as u32 })
            },
            (Phase::ConfirmStop { burst, last }, Event::StopPolled { requested }) => if requested {
                self.at(Phase::Stopped { outcome: Outcome::Cancelled })
            } else if burst == Burst::First {
                self.at(Phase::Backoff)
            } else {
                self.at(Phase::Stopped { outcome: Outcome::Fatal(last) })
            },
            (Phase::Backoff, Event::WaitDone { stop_requested }) => if stop_requested {
                self.at(Phase::Stopped { outcome: Outcome::Cancelled })
            } else {
                self.at(self.begin_burst(Burst::Second))
            },
            (Phase::Writing { sample }, Event::WriteDone { completed, bytes_written }) => if
                write_accepted_spec(completed, bytes_written as int) {
                self.at(Phase::TickWait)
            } else {
                MonitorState { device_live: false, phase: Phase::TickWait, ..self }
            },
            (Phase::TickWait, Event::WaitDone { stop_requested }) => if stop_requested {
                self.at(Phase::Stopped { outcome: Outcome::Cancelled })
            } else {
                self.at(Phase::CheckStop)
            },
            _ => self,
        }
    }

    /// What the transition on `event` has to tell.
    pub open spec fn notice(self, event: Event) -> Notice {
        match (self.phase, event) {
            (Phase::InitProvider, Event::ProviderInit { status }) => if status.succeeded() {
                Notice::ProviderReady
            } else {
                Notice::ProviderInitFailed(status)
            },
            (Phase::OpenDevice, Event::DeviceOpened { found }) => if found {
                Notice::Nothing
            } else {
                Notice::DeviceNotFound { vendor_id: K_FIXED_VID, product_id: K_FIXED_PID }
            },
            (Phase::Handshake { index }, Event::WriteDone { completed, bytes_written }) => if
                !write_accepted_spec(completed, bytes_written as int) {
                Notice::DeviceInitFailed
            } else if index == 0 {
                Notice::Nothing
            } else {
                Notice::DeviceReady
            },
            (Phase::ConfirmStop { burst, last }, Event::StopPolled { requested }) => if requested {
                Notice::Nothing
            } else if burst == Burst::First {
                Notice::ReadFailed(last)
            } else {
                Notice::ReadFailedAfterRetry(last)
            },
            (Phase::Writing { sample }, Event::WriteDone { completed, bytes_written }) => if
                write_accepted_spec(completed, bytes_written as int) {
                Notice::Nothing
            } else {
                Notice::DeviceLost
            },
            _ => Notice::Nothing,
        }
    }

    /// The state after `events` were reported in order.
    pub open spec fn run(self, events: Seq<Event>) -> MonitorState
        decreases events.len(),
    {
        if events.len() == 0 {
            self
        } else {
            self.run(events.drop_last()).next(events.last())
        }
    }

    /// What a provider that fails and a silent stop signal answer to the
    /// action that is due: a read fails with `status`, no stop is requested,
    /// and the device takes what it is given.
    pub open spec fn failing_answer(self, status: ProviderStatus) -> Event {
        match self.pending() {
            ActionView::InitProvider => Event::ProviderInit { status: ProviderStatus::Success },
            ActionView::OpenDevice { vendor_id, product_id } => Event::DeviceOpened { found: true },
            ActionView::Write { report } => Event::WriteDone { completed: true, bytes_written: 65 },
            ActionView::PollStop => Event::StopPolled { requested: false },
            ActionView::Read => Event::ReadDone {
                status,
                reading: Reading { temperature_c: 0, power_w: 0, usage_pct: 0 },
            },
            ActionView::Wait { millis } => Event::WaitDone { stop_requested: false },
            ActionView::Exit { code } => Event::StopPolled { requested: false },
        }
    }

    /// One if a read is due in this state, zero if not.
    pub open spec fn reads_due(self) -> nat {
        if self.pending() is Read {
            1
        } else {
            0
        }
    }

    /// The state after `steps` actions were performed against a failing
    /// provider that has answered `done` reads so far and answers read number
    /// `i` with `failing_status(statuses, i)`.
    pub open spec fn failing_run(
        self,
        statuses: Seq<ProviderStatus>,
        done: nat,
        steps: nat,
    ) -> MonitorState
        decreases steps,
    {
        if steps == 0 {
            self
        } else {
            self.next(self.failing_answer(failing_status(statuses, done))).failing_run(
                statuses,
                done + self.reads_due(),
                (steps - 1) as nat,
            )
        }
    }

    /// How many of the first `steps` actions performed against that provider
    /// are reads.
    pub open spec fn failing_reads(
        self,
        statuses: Seq<ProviderStatus>,
        done: nat,
        steps: nat,
    ) -> nat
        decreases steps,
    {
        if steps == 0 {
            0
        } else {
            self.reads_due() + self.next(
                self.failing_answer(failing_status(statuses, done)),
            ).failing_reads(statuses, done + self.reads_due(), (steps - 1) as nat)
        }
    }
}

/// The status that a failing provider gives to read number `index`, counted
/// from zero: the one that `statuses` holds at that place, and a plain read
/// failure once the sequence has run out.
pub open spec fn failing_status(statuses: Seq<ProviderStatus>, index: nat) -> ProviderStatus {
    if index < statuses.len() {
        statuses[index as int]
    } else {
        ProviderStatus::ReadFailed
    }
}

/// Whether no status of the sequence is the success value.
pub open spec fn all_failing(statuses: Seq<ProviderStatus>) -> bool {
    forall|i: int| 0 <= i < statuses.len() ==> !(#[trigger] statuses[i]).succeeded()
}

/// The loop's state. It starts with [`Monitor::start`] and changes only by
/// [`Monitor::step`], so it is always one that the rules produce.
#[derive(Clone, Copy, Debug, PartialEq, Eq)]
pub struct Monitor {
    state: MonitorState,
}

impl View for Monitor {
    type V = MonitorState;

    closed spec fn view(&self) -> MonitorState {
        self.state
    }
}

impl RetryBudget {
    /// Ten attempts a burst, and a minute between the bursts.
    pub fn standard() -> (budget: RetryBudget)
        ensures
            budget == (RetryBudget { max_attempts: 10, backoff_after_exhaustion_ms: 60_000 }),
    {
        RetryBudget {
            max_attempts: DEFAULT_MAX_ATTEMPTS,
            backoff_after_exhaustion_ms: DEFAULT_BACKOFF_MS,
        }
    }
}

impl Monitor {
    #[verifier::type_invariant]
    spec fn produced_by_the_rules(self) -> bool {
        self.state.well_formed()
    }

    /// A run at its very beginning: nothing initialised, no device.
    pub fn start(budget: RetryBudget) -> (monitor: Monitor)
        ensures
            monitor@ == MonitorState::initial(budget),
            monitor@.well_formed(),
    {
        Monitor { state: MonitorState { budget, device_live: false, phase: Phase::InitProvider } }
    }

    /// The state as the rules see it.
    pub fn state(&self) -> (state: MonitorState)
        ensures
            state == self@,
            state.well_formed(),
    {
        proof {
            use_type_invariant(self);
        }
        self.state
    }

    /// Whether the run is over.
    pub fn is_stopped(&self) -> (stopped: bool)
        ensures
            stopped == self@.stopped(),
    {
        match self.state.phase {
            Phase::Stopped { .. } => true,
            _ => false,
        }
    }

    /// Whether an initialised device handle is held.
    pub fn device_live(&self) -> (live: bool)
        ensures
            live == self@.device_live,
    {
        self.state.device_live
    }

    /// Whether polling goes on with device output off.
    pub fn is_degraded(&self) -> (degraded: bool)
        ensures
            degraded == self@.degraded(),
    {
        let in_loop = match self.state.phase {
            Phase::InitProvider => false,
            Phase::OpenDevice => false,
            Phase::Handshake { .. } => false,
            Phase::Stopped { .. } => false,
            _ => true,
        };
        in_loop && !self.state.device_live
    }

    /// The action that is due.
    pub fn pending(&self) -> (action: Action)
        ensures
            action@ == self@.pending(),
    {
        proof {
            use_type_invariant(self);
        }
        match self.state.phase {
            Phase::InitProvider => Action::InitProvider,
            Phase::OpenDevice => Action::OpenDevice {
                vendor_id: K_FIXED_VID,
                product_id: K_FIXED_PID,
            },
            Phase::Handshake { index } => {
                let frames = encode_handshake();
                if index == 0 {
                    Action::Write { report: frame_report(&frames[0]) }
                } else {
                    Action::Write { report: frame_report(&frames[1]) }
                }
            },
            Phase::CheckStop => Action::PollStop,
            Phase::Reading { .. } => Action::Read,
            Phase::RetryWait { .. } => Action::Wait { millis: RETRY_INTERVAL_MS },
            Phase::ConfirmStop { .. } => Action::PollStop,
            Phase::Backoff => Action::Wait {
                millis: self.state.budget.backoff_after_exhaustion_ms,
            },
            Phase::Writing { sample } => {
                let frame = encode_status(sample.temperature_c, sample.power_w, sample.usage_pct);
                Action::Write { report: frame_report(&frame) }
            },
            Phase::TickWait => Action::Wait { millis: TICK_INTERVAL_MS },
            Phase::Stopped { outcome } => Action::Exit { code: outcome.exit_code() },
        }
    }

    /// The phase that opens `burst`.
    fn begin_burst(&self, burst: Burst) -> (phase: Phase)
        ensures
            phase == self@.begin_burst(burst),
            self@.at(phase).well_formed(),
    {
        if self.state.budget.max_attempts == 0 {
            Phase::ConfirmStop { burst, last: ProviderStatus::ReadFailed }
        } else {
            Phase::Reading { burst, attempt: 1 }
        }
    }

    /// Takes what came of the pending action and moves on. Returns the state
    /// that follows and what there is to tell about the transition.
    pub fn step(self, event: Event) -> (result: (Monitor, Notice))
        ensures
            result.0@ == self@.next(event),
            result.1 == self@.notice(event),
            result.0@.well_formed(),
    {
        proof {
            use_type_invariant(&self);
        }
        let state = self.state;
        let mut next = state;
        let mut notice = Notice::Nothing;
        match (state.phase, event) {
            (Phase::InitProvider, Event::ProviderInit { status }) => {
                if status.is_ok() {
                    next.phase = Phase::OpenDevice;
                    notice = Notice::ProviderReady;
                } else {
                    next.phase = Phase::Stopped { outcome: Outcome::InitFailed(status) };
                    notice = Notice::ProviderInitFailed(status);
                }
            },
            (Phase::OpenDevice, Event::DeviceOpened { found }) => {
                if found {
                    next.phase = Phase::Handshake { index: 0 };
                } else {
                    next.phase = Phase::CheckStop;
                    notice = Notice::DeviceNotFound {
                        vendor_id: K_FIXED_VID,
                        product_id: K_FIXED_PID,
                    };
                }
            },
            (Phase::Handshake { index }, Event::WriteDone { completed, bytes_written }) => {
                if !write_accepted(completed, bytes_written) {
                    next.phase = Phase::CheckStop;
                    notice = Notice::DeviceInitFailed;
                } else if index == 0 {
                    next.phase = Phase::Handshake { index: 1 };
                } else {
                    next.device_live = true;
                    next.phase = Phase::CheckStop;
                    notice = Notice::DeviceReady;
                }
            },
            (Phase::CheckStop, Event::StopPolled { requested }) => {
                if requested {
                    next.phase = Phase::Stopped { outcome: Outcome::Cancelled };
                } else {
                    next.phase = self.begin_burst(Burst::First);
                }
            },
            (Phase::Reading { burst, attempt }, Event::ReadDone { status, reading }) => {
                if status.is_ok() {
                    if state.device_live {
                        next.phase = Phase::Writing { sample: reading.round() };
                    } else {
                        next.phase = Phase::TickWait;
                    }
                } else if attempt < state.budget.max_attempts {
                    next.phase = Phase::RetryWait { burst, attempt, last: status };
                } else {
                    next.phase = Phase::ConfirmStop { burst, last: status };
                }
            },
            (Phase::RetryWait { burst, attempt, last }, Event::WaitDone { stop_requested }) => {
                if stop_requested {
                    next.phase = Phase::ConfirmStop { burst, last };
                } else {
                    next.phase = Phase::Reading { burst, attempt: attempt + 1 };
                }
            },
            (Phase::ConfirmStop { burst, last }, Event::StopPolled { requested }) => {
                if requested {
                    next.phase = Phase::Stopped { outcome: Outcome::Cancelled };
                } else {
                    match burst {
                        Burst::First => {
                            next.phase = Phase::Backoff;
                            notice = Notice::ReadFailed(last);
                        },
                        Burst::Second => {
                            next.phase = Phase::Stopped { outcome: Outcome::Fatal(last) };
                            notice = Notice::ReadFailedAfterRetry(last);
                        },
                    }
                }
            },
            (Phase::Backoff, Event::WaitDone { stop_requested }) => {
                if stop_requested {
                    next.phase = Phase::Stopped { outcome: Outcome::Cancelled };
                } else {
                    next.phase = self.begin_burst(Burst::Second);
                }
            },
            (Phase::Writing { sample }, Event::WriteDone { completed, bytes_written }) => {
                if write_accepted(completed, bytes_written) {
                    next.phase = Phase::TickWait;
                } else {
                    next.device_live = false;
                    next.phase = Phase::TickWait;
                    notice = Notice::DeviceLost;
                }
            },
            (Phase::TickWait, Event::WaitDone { stop_requested }) => {
                if stop_requested {
                    next.phase = Phase::Stopped { outcome: Outcome::Cancelled };
                } else {
                    next.phase = Phase::CheckStop;
                }
            },
            _ => {},
        }
        (Monitor { state: next }, notice)
    }
}

} // verus!
