//! The service side of the monitor: what is reported to the service manager
//! at each point of a run, how a control request is answered, and how the
//! service's state is named in the menu.

use crate::spacing::{trim, trimmed};
use vstd::prelude::*;

verus! {

/// The name under which the service is registered.
pub const SERVICE_NAME: &'static str = "RyzenMasterMonitor";

/// The name the service manager displays.
pub const SERVICE_DISPLAY_NAME: &'static str = "Ryzen Master Monitor";

/// Service type: a service in a process of its own.
pub const SERVICE_WIN32_OWN_PROCESS: u32 = 0x10;

/// Control code of a stop request.
pub const SERVICE_CONTROL_STOP: u32 = 1;

/// Control bit: the service takes stop requests.
pub const SERVICE_ACCEPT_STOP: u32 = 0x1;

/// Control bit: the service wants to hear of a system shutdown.
pub const SERVICE_ACCEPT_SHUTDOWN: u32 = 0x4;

/// Time the manager is asked to allow for a pending transition, in
/// milliseconds.
pub const PENDING_WAIT_HINT_MS: u32 = 3_000;

/// Pause between two looks at a service that is waited for, in milliseconds.
pub const POLL_INTERVAL_MS: u32 = 250;

/// Whether the service exists, and whether it runs.
#[derive(Clone, Copy, Debug, PartialEq, Eq, Structural)]
pub enum ServiceState {
    NotInstalled,
    Running,
    Stopped,
}

/// The states that a service reports of itself.
#[derive(Clone, Copy, Debug, PartialEq, Eq, Structural)]
pub enum ReportedState {
    StartPending,
    Running,
    StopPending,
    Stopped,
}

/// One report to the service manager.
#[derive(Clone, Copy, Debug, PartialEq, Eq, Structural)]
pub struct ServiceStatus {
    pub service_type: u32,
    pub current_state: ReportedState,
    pub controls_accepted: u32,
    pub win32_exit_code: u32,
    pub service_specific_exit_code: u32,
    pub check_point: u32,
    pub wait_hint_ms: u32,
}

/// A point in the life of the service at which it reports.
#[derive(Clone, Copy, Debug, PartialEq, Eq, Structural)]
pub enum Milestone {
    /// The control handler is registered; start-up begins.
    HandlerRegistered,
    /// The stop signal could not be created; the service gives up.
    StopSignalFailed,
    /// The stop signal exists; the loop is about to run.
    StopSignalReady,
    /// The loop has returned, for whatever reason.
    LoopReturned,
}

/// What a line typed at the menu asks for.
#[derive(Clone, Copy, Debug, PartialEq, Eq, Structural)]
pub enum MenuCommand {
    /// Install the service.
    Install,
    /// Remove the service.
    Uninstall,
    /// Start the service.
    Start,
    /// Stop the service.
    Stop,
    /// Start was asked for, but there is no service to start.
    StartWithoutService,
    /// Run the monitor loop in the foreground.
    RunDirectly,
    /// Leave the menu.
    Quit,
    /// The line is none of the choices.
    Invalid,
}

/// Where a run under the service manager stands: what it is waiting to hear
/// about.
#[derive(Clone, Copy, Debug, PartialEq, Eq, Structural)]
pub enum ServicePhase {
    /// Waiting for the control handler to be registered.
    Registering,
    /// Waiting for the stop signal to be created.
    CreatingStopSignal,
    /// Waiting for the monitor loop to return.
    Running,
    /// Nothing is left to do.
    Finished,
}

/// What the service is asked to do next.
#[derive(Clone, Copy, Debug, PartialEq, Eq, Structural)]
pub enum ServiceAction {
    /// Register the control handler.
    RegisterHandler,
    /// Create the stop signal.
    CreateStopSignal,
    /// Run the monitor loop with the stop signal, until it returns.
    RunLoop,
    /// Return to the service manager.
    Leave,
}

/// What came of an action of the service.
#[derive(Clone, Copy, Debug, PartialEq, Eq, Structural)]
pub enum ServiceEvent {
    /// Whether the control handler could be registered.
    HandlerRegistered { ok: bool },
    /// Whether the stop signal could be created.
    StopSignalCreated { ok: bool },
    /// The monitor loop has returned, for whatever reason.
    LoopReturned,
}

/// What follows an event of the service.
#[derive(Clone, Copy, Debug, PartialEq, Eq, Structural)]
pub struct ServiceStep {
    /// The phase that follows.
    pub next: ServicePhase,
    /// What to report to the manager first, if anything.
    pub report: Option<ServiceStatus>,
    /// Whether to release the stop signal, after the report.
    pub release_stop_signal: bool,
}

/// What follows one look at the service while waiting for it to reach a
/// state.
#[derive(Clone, Copy, Debug, PartialEq, Eq, Structural)]
pub enum PollStep {
    /// The state is reached: stop waiting, with success.
    Reached,
    /// Not yet: sleep for `sleep_ms`, then go on with `elapsed_ms` on the
    /// clock.
    Retry { sleep_ms: u32, elapsed_ms: u32 },
}

/// How a control request is answered.
#[derive(Clone, Copy, Debug, PartialEq, Eq, Structural)]
pub struct ControlResponse {
    /// What to report to the manager, if anything.
    pub report: Option<ServiceStatus>,
    /// Whether to set the stop signal.
    pub signal_stop: bool,
}

impl ReportedState {
    /// The number the service manager knows the state by.
    pub open spec fn code_of(self) -> u32 {
        match self {
            ReportedState::Stopped => 1u32,
            ReportedState::StartPending => 2u32,
            ReportedState::StopPending => 3u32,
            ReportedState::Running => 4u32,
        }
    }

    /// Whether the state is a transition under way.
    pub open spec fn pending(self) -> bool {
        self == ReportedState::StartPending || self == ReportedState::StopPending
    }

    /// The number the service manager knows the state by.
    pub fn code(&self) -> (code: u32)
        ensures
            code == self.code_of(),
    {
        match self {
            ReportedState::Stopped => 1,
            ReportedState::StartPending => 2,
            ReportedState::StopPending => 3,
            ReportedState::Running => 4,
        }
    }

    /// Whether the state is a transition under way.
    pub fn is_pending(&self) -> (pending: bool)
        ensures
            pending == self.pending(),
    {
        match self {
            ReportedState::StartPending => true,
            ReportedState::StopPending => true,
            _ => false,
        }
    }
}

/// The report for `state`. While a transition is pending no control is
/// accepted; otherwise stop and shutdown are. Exit codes and check point are
/// always zero.
pub open spec fn service_status_spec(state: ReportedState, wait_hint_ms: u32) -> ServiceStatus {
    ServiceStatus {
        service_type: 0x10,
        current_state: state,
        controls_accepted: if state.pending() {
            0u32
        } else {
            5u32
        },
        win32_exit_code: 0,
        service_specific_exit_code: 0,
        check_point: 0,
        wait_hint_ms,
    }
}

/// What the service reports at `milestone`.
pub open spec fn milestone_status(milestone: Milestone) -> ServiceStatus {
    match milestone {
        Milestone::HandlerRegistered => service_status_spec(ReportedState::StartPending, 3000),
        Milestone::StopSignalFailed => service_status_spec(ReportedState::Stopped, 0),
        Milestone::StopSignalReady => service_status_spec(ReportedState::Running, 0),
        Milestone::LoopReturned => service_status_spec(ReportedState::Stopped, 0),
    }
}

/// How the control request `control` is answered: a stop request is
/// acknowledged as pending and passed on to the loop; anything else is
/// ignored.
pub open spec fn control_response_spec(control: u32) -> ControlResponse {
    if control == 1 {
        ControlResponse {
            report: Some(service_status_spec(ReportedState::StopPending, 3000)),
            signal_stop: true,
        }
    } else {
        ControlResponse { report: None, signal_stop: false }
    }
}

/// The menu's word for a service state.
pub open spec fn state_label(state: ServiceState) -> Seq<char> {
    match state {
        ServiceState::Running => "运行中"@,
        ServiceState::Stopped => "未运行"@,
        ServiceState::NotInstalled => "未安装"@,
    }
}

/// What a trimmed menu line asks for in the given state. Entry 1 installs or
/// removes, entry 2 starts or stops, whichever applies.
pub open spec fn menu_choice(line: Seq<char>, state: ServiceState) -> MenuCommand {
    if line == "1"@ {
        if state == ServiceState::NotInstalled {
            MenuCommand::Install
        } else {
            MenuCommand::Uninstall
        }
    } else if line == "2"@ {
        if state == ServiceState::Running {
            MenuCommand::Stop
        } else if state == ServiceState::NotInstalled {
            MenuCommand::StartWithoutService
        } else {
            MenuCommand::Start
        }
    } else if line == "3"@ {
        MenuCommand::RunDirectly
    } else if line == "q"@ || line == "Q"@ {
        MenuCommand::Quit
    } else {
        MenuCommand::Invalid
    }
}

/// The word that entry 1 of the menu carries in the given state.
pub open spec fn install_label_spec(state: ServiceState) -> Seq<char> {
    if state == ServiceState::NotInstalled {
        "安装"@
    } else {
        "卸载"@
    }
}

/// The word that entry 2 of the menu carries in the given state.
pub open spec fn start_label_spec(state: ServiceState) -> Seq<char> {
    if state == ServiceState::Running {
        "停止"@
    } else {
        "启动"@
    }
}

/// Reads a line typed at the menu. White space around it is ignored.
pub fn menu_command(input: &str, state: ServiceState) -> (command: MenuCommand)
    ensures
        command == menu_choice(trimmed(input@), state),
{
    let line = trim(input);
    if crate::text::str_equal(line, "1") {
        match state {
            ServiceState::NotInstalled => MenuCommand::Install,
            _ => MenuCommand::Uninstall,
        }
    } else if crate::text::str_equal(line, "2") {
        match state {
            ServiceState::Running => MenuCommand::Stop,
            ServiceState::NotInstalled => MenuCommand::StartWithoutService,
            ServiceState::Stopped => MenuCommand::Start,
        }
    } else if crate::text::str_equal(line, "3") {
        MenuCommand::RunDirectly
    } else if crate::text::str_equal(line, "q") || crate::text::str_equal(line, "Q") {
        MenuCommand::Quit
    } else {
        MenuCommand::Invalid
    }
}

/// The word that entry 1 of the menu carries in the given state.
pub fn install_label(state: ServiceState) -> (label: &'static str)
    ensures
        label@ == install_label_spec(state),
{
    match state {
        ServiceState::NotInstalled => "安装",
        _ => "卸载",
    }
}

/// The word that entry 2 of the menu carries in the given state.
pub fn start_label(state: ServiceState) -> (label: &'static str)
    ensures
        label@ == start_label_spec(state),
{
    match state {
        ServiceState::Running => "停止",
        _ => "启动",
    }
}

/// The action that is due in a phase of the service.
pub open spec fn service_pending(phase: ServicePhase) -> ServiceAction {
    match phase {
        ServicePhase::Registering => ServiceAction::RegisterHandler,
        ServicePhase::CreatingStopSignal => ServiceAction::CreateStopSignal,
        ServicePhase::Running => ServiceAction::RunLoop,
        ServicePhase::Finished => ServiceAction::Leave,
    }
}

/// The milestone that an event marks in a phase, if it marks one. Without a
/// control handler nothing can be reported, so a failed registration marks
/// none; an event that does not answer the pending action marks none either.
pub open spec fn milestone_of(phase: ServicePhase, event: ServiceEvent) -> Option<Milestone> {
    match (phase, event) {
        (ServicePhase::Registering, ServiceEvent::HandlerRegistered { ok }) => if ok {
            Some(Milestone::HandlerRegistered)
        } else {
            None
        },
        (ServicePhase::CreatingStopSignal, ServiceEvent::StopSignalCreated { ok }) => if ok {
            Some(Milestone::StopSignalReady)
        } else {
            Some(Milestone::StopSignalFailed)
        },
        (ServicePhase::Running, ServiceEvent::LoopReturned) => Some(Milestone::LoopReturned),
        _ => None,
    }
}

/// The phase that follows an event. An event that does not answer the
/// pending action changes nothing.
pub open spec fn service_next(phase: ServicePhase, event: ServiceEvent) -> ServicePhase {
    match (phase, event) {
        (ServicePhase::Registering, ServiceEvent::HandlerRegistered { ok }) => if ok {
            ServicePhase::CreatingStopSignal
        } else {
            ServicePhase::Finished
        },
        (ServicePhase::CreatingStopSignal, ServiceEvent::StopSignalCreated { ok }) => if ok {
            ServicePhase::Running
        } else {
            ServicePhase::Finished
        },
        (ServicePhase::Running, ServiceEvent::LoopReturned) => ServicePhase::Finished,
        _ => phase,
    }
}

/// What follows an event of the service: the next phase, the report of the
/// milestone that the event marks, and the release of the stop signal once
/// the loop has returned.
pub open spec fn service_step_spec(phase: ServicePhase, event: ServiceEvent) -> ServiceStep {
    ServiceStep {
        next: service_next(phase, event),
        report: match milestone_of(phase, event) {
            Some(milestone) => Some(milestone_status(milestone)),
            None => None,
        },
        release_stop_signal: phase == ServicePhase::Running && event
            == ServiceEvent::LoopReturned,
    }
}

/// The phase after `events`, from `phase` on.
pub open spec fn service_run(phase: ServicePhase, events: Seq<ServiceEvent>) -> ServicePhase
    decreases events.len(),
{
    if events.len() == 0 {
        phase
    } else {
        service_next(service_run(phase, events.drop_last()), events.last())
    }
}

/// The states reported along `events`, from `phase` on, in order.
pub open spec fn service_reports(phase: ServicePhase, events: Seq<ServiceEvent>) -> Seq<
    ReportedState,
>
    decreases events.len(),
{
    if events.len() == 0 {
        Seq::empty()
    } else {
        let before = service_reports(phase, events.drop_last());
        match service_step_spec(service_run(phase, events.drop_last()), events.last()).report {
            Some(status) => before.push(status.current_state),
            None => before,
        }
    }
}

/// Whether another look at the service is due: only while the time on the
/// clock is short of the timeout.
pub open spec fn poll_due_spec(elapsed_ms: u32, timeout_ms: u32) -> bool {
    elapsed_ms < timeout_ms
}

/// What follows a look taken with `elapsed_ms` on the clock: the end of the
/// wait if the state is reached, else a pause of a quarter of a second that
/// is added to the clock, which stops at the largest value it can hold.
pub open spec fn poll_step_spec(elapsed_ms: u32, reached: bool) -> PollStep {
    if reached {
        PollStep::Reached
    } else {
        PollStep::Retry {
            sleep_ms: 250,
            elapsed_ms: if elapsed_ms + 250 > u32::MAX {
                u32::MAX
            } else {
                (elapsed_ms + 250) as u32
            },
        }
    }
}

/// The clock after `looks` looks that did not find the state reached.
pub open spec fn clock_after(looks: nat) -> u32 {
    if 250 * looks > u32::MAX {
        u32::MAX
    } else {
        (250 * looks) as u32
    }
}

/// Whether another look at the service is due.
pub fn poll_due(elapsed_ms: u32, timeout_ms: u32) -> (due: bool)
    ensures
        due == poll_due_spec(elapsed_ms, timeout_ms),
{
    elapsed_ms < timeout_ms
}

/// Decides what follows a look at the service taken with `elapsed_ms` on the
/// clock.
pub fn poll_step(elapsed_ms: u32, reached: bool) -> (step: PollStep)
    ensures
        step == poll_step_spec(elapsed_ms, reached),
{
    if reached {
        PollStep::Reached
    } else {
        let next = if elapsed_ms > u32::MAX - POLL_INTERVAL_MS {
            u32::MAX
        } else {
            elapsed_ms + POLL_INTERVAL_MS
        };
        PollStep::Retry { sleep_ms: POLL_INTERVAL_MS, elapsed_ms: next }
    }
}

/// The reports of a run come in one order only. Whatever events arrive, a
/// run that begins with the registration has reported nothing while it
/// registers, a pending start while it creates its stop signal, and then
/// that it runs while the loop runs. Once finished it has reported nothing at
/// all (no handler, so no way to report), or its last report is `Stopped`.
/// The loop runs only after `Running` was reported, and the stop signal is
/// released only when the loop has returned.
pub proof fn law_service_reports(events: Seq<ServiceEvent>)
    ensures
        ({
            let reports = service_reports(ServicePhase::Registering, events);
            match service_run(ServicePhase::Registering, events) {
                ServicePhase::Registering => reports == Seq::<ReportedState>::empty(),
                ServicePhase::CreatingStopSignal => reports == seq![ReportedState::StartPending],
                ServicePhase::Running => reports == seq![
                    ReportedState::StartPending,
                    ReportedState::Running,
                ],
                ServicePhase::Finished => {
                    ||| reports == Seq::<ReportedState>::empty()
                    ||| reports == seq![ReportedState::StartPending, ReportedState::Stopped]
                    ||| reports == seq![
                        ReportedState::StartPending,
                        ReportedState::Running,
                        ReportedState::Stopped,
                    ]
                },
            }
        }),
    decreases events.len(),
{
    if events.len() > 0 {
        law_service_reports(events.drop_last());
        let before = service_reports(ServicePhase::Registering, events.drop_last());
        let phase = service_run(ServicePhase::Registering, events.drop_last());
        let step = service_step_spec(phase, events.last());
        let reports = service_reports(ServicePhase::Registering, events);
        match step.report {
            Some(status) => {
                assert(reports == before.push(status.current_state));
                assert(before.push(status.current_state) =~= before + seq![status.current_state]);
                match phase {
                    ServicePhase::Registering => {
                        assert(reports =~= seq![ReportedState::StartPending]);
                    },
                    ServicePhase::CreatingStopSignal => {
                        if step.next == ServicePhase::Running {
                            assert(reports =~= seq![
                                ReportedState::StartPending,
                                ReportedState::Running,
                            ]);
                        } else {
                            assert(reports =~= seq![
                                ReportedState::StartPending,
                                ReportedState::Stopped,
                            ]);
                        }
                    },
                    ServicePhase::Running => {
                        assert(reports =~= seq![
                            ReportedState::StartPending,
                            ReportedState::Running,
                            ReportedState::Stopped,
                        ]);
                    },
                    ServicePhase::Finished => {},
                }
            },
            None => {
                assert(reports == before);
            },
        }
    }
}

/// The stop signal is released once at most, and only when the loop has
/// returned: a finished run takes no event any more.
pub proof fn law_service_finishes(phase: ServicePhase, event: ServiceEvent)
    ensures
        service_step_spec(phase, event).release_stop_signal ==> phase == ServicePhase::Running
            && service_next(phase, event) == ServicePhase::Finished,
        phase == ServicePhase::Finished ==> service_step_spec(phase, event) == (ServiceStep {
            next: ServicePhase::Finished,
            report: None,
            release_stop_signal: false,
        }),
        service_pending(phase) == ServiceAction::Leave <==> phase == ServicePhase::Finished,
{
}

/// Waiting for a state ends. A service that never reaches it is looked at
/// once for every quarter of a second of the timeout, begun ones included,
/// and no more: after `looks` fruitless looks the clock stands at
/// `250 * looks`, and another look is due exactly while that is short of the
/// timeout.
pub proof fn law_polling_ends(looks: nat, timeout_ms: u32)
    ensures
        clock_after(0) == 0,
        poll_step_spec(clock_after(looks), false) == (PollStep::Retry {
            sleep_ms: 250,
            elapsed_ms: clock_after(looks + 1),
        }),
        poll_due_spec(clock_after(looks), timeout_ms) <==> 250 * looks < timeout_ms,
{
}

/// The command line under which the service is registered, in UTF-16 with a
/// closing zero: the program's path in double quotes, a space, `--service`.
pub open spec fn service_command_line_spec(exe: Seq<u16>) -> Seq<u16> {
    seq![34u16] + exe + seq![34u16, 32u16, 45u16, 45u16, 115u16, 101u16, 114u16, 118u16, 105u16, 99u16, 101u16, 0u16]
}

/// Builds the command line under which the service is registered from the
/// program's path in UTF-16.
pub fn service_command_line(exe: &[u16]) -> (line: Vec<u16>)
    ensures
        line@ == service_command_line_spec(exe@),
{
    let mut line: Vec<u16> = Vec::new();
    line.push(34);
    let mut i: usize = 0;
    while i < exe.len()
        invariant
            i <= exe@.len(),
            line@ == seq![34u16] + exe@.subrange(0, i as int),
        decreases exe@.len() - i,
    {
        line.push(exe[i]);
        i = i + 1;
        assert(line@ =~= seq![34u16] + exe@.subrange(0, i as int));
    }
    assert(exe@.subrange(0, i as int) =~= exe@);
    let tail: [u16; 12] = [34, 32, 45, 45, 115, 101, 114, 118, 105, 99, 101, 0];
    let ghost head = line@;
    let mut k: usize = 0;
    while k < 12
        invariant
            k <= 12,
            head == seq![34u16] + exe@,
            line@ == head + tail@.subrange(0, k as int),
        decreases 12 - k,
    {
        line.push(tail[k]);
        k = k + 1;
        assert(line@ =~= head + tail@.subrange(0, k as int));
    }
    assert(line@ =~= service_command_line_spec(exe@));
    line
}

/// Builds the report for `state`.
pub fn service_status(state: ReportedState, wait_hint_ms: u32) -> (status: ServiceStatus)
    ensures
        status == service_status_spec(state, wait_hint_ms),
{
    let controls = if state.is_pending() {
        0
    } else {
        SERVICE_ACCEPT_STOP + SERVICE_ACCEPT_SHUTDOWN
    };
    ServiceStatus {
        service_type: SERVICE_WIN32_OWN_PROCESS,
        current_state: state,
        controls_accepted: controls,
        win32_exit_code: 0,
        service_specific_exit_code: 0,
        check_point: 0,
        wait_hint_ms,
    }
}

/// The report that is due at `milestone`.
pub fn status_at(milestone: Milestone) -> (status: ServiceStatus)
    ensures
        status == milestone_status(milestone),
{
    match milestone {
        Milestone::HandlerRegistered => service_status(
            ReportedState::StartPending,
            PENDING_WAIT_HINT_MS,
        ),
        Milestone::StopSignalFailed => service_status(ReportedState::Stopped, 0),
        Milestone::StopSignalReady => service_status(ReportedState::Running, 0),
        Milestone::LoopReturned => service_status(ReportedState::Stopped, 0),
    }
}

/// The action that is due in a phase of the service.
pub fn service_action(phase: ServicePhase) -> (action: ServiceAction)
    ensures
        action == service_pending(phase),
{
    match phase {
        ServicePhase::Registering => ServiceAction::RegisterHandler,
        ServicePhase::CreatingStopSignal => ServiceAction::CreateStopSignal,
        ServicePhase::Running => ServiceAction::RunLoop,
        ServicePhase::Finished => ServiceAction::Leave,
    }
}

/// Takes what came of the pending action of the service and says what
/// follows.
pub fn service_step(phase: ServicePhase, event: ServiceEvent) -> (step: ServiceStep)
    ensures
        step == service_step_spec(phase, event),
{
    match (phase, event) {
        (ServicePhase::Registering, ServiceEvent::HandlerRegistered { ok }) => {
            if ok {
                ServiceStep {
                    next: ServicePhase::CreatingStopSignal,
                    report: Some(status_at(Milestone::HandlerRegistered)),
                    release_stop_signal: false,
                }
            } else {
                ServiceStep {
                    next: ServicePhase::Finished,
                    report: None,
                    release_stop_signal: false,
                }
            }
        },
        (ServicePhase::CreatingStopSignal, ServiceEvent::StopSignalCreated { ok }) => {
            if ok {
                ServiceStep {
                    next: ServicePhase::Running,
                    report: Some(status_at(Milestone::StopSignalReady)),
                    release_stop_signal: false,
                }
            } else {
                ServiceStep {
                    next: ServicePhase::Finished,
                    report: Some(status_at(Milestone::StopSignalFailed)),
                    release_stop_signal: false,
                }
            }
        },
        (ServicePhase::Running, ServiceEvent::LoopReturned) => ServiceStep {
            next: ServicePhase::Finished,
            report: Some(status_at(Milestone::LoopReturned)),
            release_stop_signal: true,
        },
        _ => ServiceStep { next: phase, report: None, release_stop_signal: false },
    }
}

/// Answers a control request from the service manager.
pub fn control_response(control: u32) -> (response: ControlResponse)
    ensures
        response == control_response_spec(control),
{
    if control == SERVICE_CONTROL_STOP {
        ControlResponse {
            report: Some(service_status(ReportedState::StopPending, PENDING_WAIT_HINT_MS)),
            signal_stop: true,
        }
    } else {
        ControlResponse { report: None, signal_stop: false }
    }
}

/// The timeout handed to a wait on the stop signal: the duration in
/// milliseconds, capped at what 32 bits hold.
pub fn wait_timeout_ms(millis: u64) -> (timeout: u32)
    ensures
        timeout == if millis > u32::MAX {
            u32::MAX as int
        } else {
            millis as int
        },
{
    if millis > u32::MAX as u64 {
        u32::MAX
    } else {
        millis as u32
    }
}

/// The menu's word for a service state.
pub fn service_state_label(state: ServiceState) -> (label: &'static str)
    ensures
        label@ == state_label(state),
{
    match state {
        ServiceState::Running => "运行中",
        ServiceState::Stopped => "未运行",
        ServiceState::NotInstalled => "未安装",
    }
}

/// A report accepts no control exactly while a transition is pending, and
/// otherwise accepts stop and shutdown; the wait hint is passed through and
/// every other field is fixed.
pub proof fn law_controls_follow_state(state: ReportedState, wait_hint_ms: u32)
    ensures
        state.pending() <==> service_status_spec(state, wait_hint_ms).controls_accepted == 0,
        !state.pending() <==> service_status_spec(state, wait_hint_ms).controls_accepted == 5,
        service_status_spec(state, wait_hint_ms).current_state == state,
        service_status_spec(state, wait_hint_ms).wait_hint_ms == wait_hint_ms,
{
}

/// Only a stop request sets the stop signal, and it is always acknowledged
/// with a pending stop.
pub proof fn law_only_stop_signals(control: u32)
    ensures
        control_response_spec(control).signal_stop <==> control == SERVICE_CONTROL_STOP,
        control_response_spec(control).signal_stop <==> control_response_spec(control).report
            == Some(service_status_spec(ReportedState::StopPending, 3000)),
        !control_response_spec(control).signal_stop <==> control_response_spec(control).report
            is None,
{
}

} // verus!
