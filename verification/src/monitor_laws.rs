//! What holds of the control loop whatever the provider, the device and the
//! stop signal do. Everything here is stated about
//! [`MonitorState`](crate::monitor::MonitorState), the model that every
//! [`Monitor`](crate::monitor::Monitor) wraps.

use crate::monitor::{
    all_failing, burst_steps, failing_status, ActionView, Burst, Event, MonitorState, Notice,
    Outcome, Phase, EXIT_CLEAN, EXIT_FAILURE,
};
use crate::status::ProviderStatus;
use crate::transport::write_accepted_spec;
use vstd::prelude::*;

verus! {

/// The rules lead from well-formed states to well-formed states, and never
/// touch the budget.
pub proof fn lemma_next_well_formed(s: MonitorState, event: Event)
    requires
        s.well_formed(),
    ensures
        s.next(event).well_formed(),
        s.next(event).budget == s.budget,
{
}

/// Start-up is never re-entered: once in the loop, always in the loop.
pub proof fn law_startup_is_never_reentered(s: MonitorState, event: Event)
    requires
        s.in_loop(),
    ensures
        s.next(event).in_loop(),
{
}

/// A run that is over stays over: no event changes the state or has anything
/// to tell, and the pending action is the exit.
pub proof fn law_stopped_is_final(s: MonitorState, event: Event)
    requires
        s.stopped(),
    ensures
        s.next(event) == s,
        s.notice(event) == Notice::Nothing,
        s.pending() is Exit,
{
}

/// A state changes only on the event that answers its pending action: any
/// other event is ignored.
pub proof fn law_unexpected_event_is_ignored(s: MonitorState, event: Event)
    requires
        match s.pending() {
            ActionView::InitProvider => !(event is ProviderInit),
            ActionView::OpenDevice { .. } => !(event is DeviceOpened),
            ActionView::Write { .. } => !(event is WriteDone),
            ActionView::PollStop => !(event is StopPolled),
            ActionView::Read => !(event is ReadDone),
            ActionView::Wait { .. } => !(event is WaitDone),
            ActionView::Exit { .. } => true,
        },
    ensures
        s.next(event) == s,
        s.notice(event) == Notice::Nothing,
{
}

/// A stop request seen at a poll ends the run cleanly, wherever the poll
/// stands.
pub proof fn law_cancel_at_poll(s: MonitorState)
    requires
        s.pending() is PollStop,
    ensures
        s.next(Event::StopPolled { requested: true }).phase == (Phase::Stopped {
            outcome: Outcome::Cancelled,
        }),
        s.next(Event::StopPolled { requested: true }).pending() == (ActionView::Exit {
            code: EXIT_CLEAN,
        }),
{
}

/// A stop request that ends a wait ends the run: what is due next is the exit
/// itself or one poll of the stop signal, never a read or a write, and with
/// the signal still set that poll leads to the exit. From there on nothing
/// happens any more.
pub proof fn law_cancel_during_wait(s: MonitorState, later: Seq<Event>)
    requires
        s.pending() is Wait,
    ensures
        ({
            let woken = s.next(Event::WaitDone { stop_requested: true });
            let polled = woken.next(Event::StopPolled { requested: true });
            &&& woken.pending() is PollStop || woken.pending() == (ActionView::Exit {
                code: EXIT_CLEAN,
            })
            &&& polled.phase == (Phase::Stopped { outcome: Outcome::Cancelled })
            &&& polled.pending() == (ActionView::Exit { code: EXIT_CLEAN })
            &&& polled.run(later) == polled
            &&& woken.device_live == s.device_live
        }),
{
    let woken = s.next(Event::WaitDone { stop_requested: true });
    let polled = woken.next(Event::StopPolled { requested: true });
    lemma_stopped_run(polled, later);
}

/// The device flag changes only where a notice says so: it is raised with
/// `DeviceReady` and dropped with `DeviceLost`, and at no other transition.
pub proof fn law_device_flag_follows_notices(s: MonitorState, event: Event)
    requires
        s.well_formed(),
    ensures
        s.notice(event) == Notice::DeviceReady <==> !s.device_live && s.next(event).device_live,
        s.notice(event) == Notice::DeviceLost <==> s.device_live && !s.next(event).device_live,
        s.notice(event).releases_device_spec() ==> !s.next(event).device_live,
{
}

/// The handshake is two frames in order. A refused frame ends it at once:
/// the second frame is not sent after a refused first, and the run goes on
/// without a device.
pub proof fn law_handshake(s: MonitorState, completed: bool, bytes_written: usize)
    requires
        s.well_formed(),
        s.phase is Handshake,
    ensures
        ({
            let event = Event::WriteDone { completed, bytes_written };
            let after = s.next(event);
            let index = s.phase->Handshake_index;
            &&& s.pending() == (ActionView::Write {
                report: crate::report::wire_report(crate::codec::handshake_frame(index as int)),
            })
            &&& !write_accepted_spec(completed, bytes_written as int) ==> after.phase
                == Phase::CheckStop && !after.device_live && s.notice(event)
                == Notice::DeviceInitFailed
            &&& write_accepted_spec(completed, bytes_written as int) && index == 0 ==> after.phase
                == (Phase::Handshake { index: 1 }) && !after.device_live
            &&& write_accepted_spec(completed, bytes_written as int) && index == 1 ==> after.phase
                == Phase::CheckStop && after.device_live && s.notice(event) == Notice::DeviceReady
        }),
{
}

/// A refused status frame turns device output off and nothing else: the tick
/// goes on to its pause, the run is not over, and with no stop request the
/// next tick reads again.
pub proof fn law_write_failure_degrades(s: MonitorState, completed: bool, bytes_written: usize)
    requires
        s.well_formed(),
        s.phase is Writing,
        !write_accepted_spec(completed, bytes_written as int),
    ensures
        ({
            let event = Event::WriteDone { completed, bytes_written };
            let after = s.next(event);
            let resumed = after.next(Event::WaitDone { stop_requested: false }).next(
                Event::StopPolled { requested: false },
            );
            &&& s.notice(event) == Notice::DeviceLost
            &&& after.phase == Phase::TickWait
            &&& after.degraded()
            &&& after.pending() == (ActionView::Wait { millis: crate::monitor::TICK_INTERVAL_MS })
            &&& s.budget.max_attempts > 0 ==> resumed.pending() is Read
        }),
{
}

/// Device loss lasts: in the polling loop, once output is off, no sequence of
/// events turns it on again or makes a write due.
pub proof fn law_degraded_never_writes(s: MonitorState, events: Seq<Event>)
    requires
        s.well_formed(),
        s.in_loop(),
        !s.device_live,
    ensures
        !s.run(events).device_live,
        !(s.run(events).pending() is Write),
        s.run(events).in_loop(),
        s.run(events).well_formed(),
    decreases events.len(),
{
    if events.len() > 0 {
        law_degraded_never_writes(s, events.drop_last());
        let before = s.run(events.drop_last());
        lemma_next_well_formed(before, events.last());
    }
}

/// Device loss is told once: in the polling loop with output off, no event
/// brings a notice about the device any more, whatever happened before.
pub proof fn law_device_loss_is_told_once(s: MonitorState, events: Seq<Event>, event: Event)
    requires
        s.well_formed(),
        s.in_loop(),
        !s.device_live,
    ensures
        s.run(events).notice(event) != Notice::DeviceLost,
        s.run(events).notice(event) != Notice::DeviceReady,
        s.run(events).notice(event) != Notice::DeviceInitFailed,
        !s.run(events).notice(event).releases_device_spec(),
{
    law_degraded_never_writes(s, events);
}

/// A run ends in one of three ways only: on a stop request, seen at a poll or
/// ending a wait, with exit code zero; on a provider that refuses to
/// initialise; or on the second exhausted burst of a tick, both with a
/// non-zero code. A refused write never ends it.
pub proof fn law_exit_codes(s: MonitorState, event: Event)
    requires
        s.well_formed(),
        !s.stopped(),
        s.next(event).stopped(),
    ensures
        match s.next(event).phase->Stopped_outcome {
            Outcome::Cancelled => (event == Event::StopPolled { requested: true } || event
                == Event::WaitDone { stop_requested: true }) && s.next(event).pending() == (
            ActionView::Exit { code: EXIT_CLEAN }),
            Outcome::InitFailed(status) => s.phase is InitProvider && event
                == (Event::ProviderInit { status }) && !status.succeeded() && s.next(
                event,
            ).pending() == (ActionView::Exit { code: EXIT_FAILURE }),
            Outcome::Fatal(status) => s.phase == (Phase::ConfirmStop {
                burst: Burst::Second,
                last: status,
            }) && event == (Event::StopPolled { requested: false }) && s.next(event).pending()
                == (ActionView::Exit { code: EXIT_FAILURE }),
        },
{
}

/// Nothing happens to a stopped state, however many events arrive.
proof fn lemma_stopped_run(s: MonitorState, events: Seq<Event>)
    requires
        s.stopped(),
    ensures
        s.run(events) == s,
    decreases events.len(),
{
    if events.len() > 0 {
        lemma_stopped_run(s, events.drop_last());
    }
}

/// Running against a failing provider for `a + b` steps is running for `a`
/// steps and then for `b` more, the reads being counted on.
proof fn lemma_failing_run_splits(
    s: MonitorState,
    statuses: Seq<ProviderStatus>,
    done: nat,
    a: nat,
    b: nat,
)
    ensures
        s.failing_run(statuses, done, a + b) == s.failing_run(statuses, done, a).failing_run(
            statuses,
            done + s.failing_reads(statuses, done, a),
            b,
        ),
        s.failing_reads(statuses, done, a + b) == s.failing_reads(statuses, done, a)
            + s.failing_run(statuses, done, a).failing_reads(
            statuses,
            done + s.failing_reads(statuses, done, a),
            b,
        ),
    decreases a,
{
    if a > 0 {
        let after = s.next(s.failing_answer(failing_status(statuses, done)));
        lemma_failing_run_splits(after, statuses, done + s.reads_due(), (a - 1) as nat, b);
        assert((a + b - 1) as nat == (a - 1) as nat + b);
    }
}

/// One step against a failing provider, spelled out.
proof fn lemma_failing_step(s: MonitorState, statuses: Seq<ProviderStatus>, done: nat)
    ensures
        s.failing_run(statuses, done, 1) == s.next(
            s.failing_answer(failing_status(statuses, done)),
        ),
        s.failing_reads(statuses, done, 1) == s.reads_due(),
{
    let after = s.next(s.failing_answer(failing_status(statuses, done)));
    assert(after.failing_run(statuses, done + s.reads_due(), 0) == after);
    assert(after.failing_reads(statuses, done + s.reads_due(), 0) == 0);
}

/// A stopped state performs no reads.
proof fn lemma_stopped_reads(
    s: MonitorState,
    statuses: Seq<ProviderStatus>,
    done: nat,
    steps: nat,
)
    requires
        s.stopped(),
    ensures
        s.failing_reads(statuses, done, steps) == 0,
        s.failing_run(statuses, done, steps) == s,
    decreases steps,
{
    if steps > 0 {
        lemma_stopped_reads(s, statuses, done, (steps - 1) as nat);
    }
}

/// No status that a failing provider gives is the success value.
proof fn lemma_failing_status_fails(statuses: Seq<ProviderStatus>, index: nat)
    requires
        all_failing(statuses),
    ensures
        !failing_status(statuses, index).succeeded(),
{
}

/// Against a failing provider, a burst that stands at read number `attempt`
/// performs that read and every later one of the budget, pauses between them,
/// and comes back empty-handed with the status of its last read.
proof fn lemma_failing_burst(s: MonitorState, statuses: Seq<ProviderStatus>, done: nat)
    requires
        s.well_formed(),
        s.phase is Reading,
        all_failing(statuses),
    ensures
        ({
            let left = (s.budget.max_attempts - s.phase->Reading_attempt) as nat;
            &&& s.failing_run(statuses, done, 2 * left + 1) == s.at(
                Phase::ConfirmStop {
                    burst: s.phase->Reading_burst,
                    last: failing_status(statuses, done + left),
                },
            )
            &&& s.failing_reads(statuses, done, 2 * left + 1) == left + 1
        }),
    decreases s.budget.max_attempts - s.phase->Reading_attempt,
{
    let burst = s.phase->Reading_burst;
    let attempt = s.phase->Reading_attempt;
    let left = (s.budget.max_attempts - attempt) as nat;
    let status = failing_status(statuses, done);
    lemma_failing_status_fails(statuses, done);
    let failed = s.next(s.failing_answer(status));
    if left == 0 {
        assert(failed == s.at(Phase::ConfirmStop { burst, last: status }));
        lemma_failing_step(s, statuses, done);
    } else {
        assert(failed == s.at(Phase::RetryWait { burst, attempt, last: status }));
        let retrying = failed.next(failed.failing_answer(failing_status(statuses, done + 1)));
        assert(retrying == s.at(Phase::Reading { burst, attempt: (attempt + 1) as u32 }));
        lemma_failing_burst(retrying, statuses, done + 1);
        let rest = (2 * (left - 1) + 1) as nat;
        assert(done + 1 + (left - 1) == done + left);
        assert(s.failing_run(statuses, done, 2 * left + 1) == failed.failing_run(
            statuses,
            done + 1,
            rest + 1,
        ));
        assert(failed.failing_run(statuses, done + 1, rest + 1) == retrying.failing_run(
            statuses,
            done + 1,
            rest,
        ));
        assert(s.failing_reads(statuses, done, 2 * left + 1) == 1 + failed.failing_reads(
            statuses,
            done + 1,
            rest + 1,
        ));
        assert(failed.failing_reads(statuses, done + 1, rest + 1) == retrying.failing_reads(
            statuses,
            done + 1,
            rest,
        ));
    }
}

/// The status that a burst of `max_attempts` reads ends on when its first
/// read is number `done`: that of its last read, or a plain read failure
/// where the budget allows no read at all.
pub open spec fn burst_status(
    statuses: Seq<ProviderStatus>,
    done: nat,
    max_attempts: nat,
) -> ProviderStatus {
    if max_attempts == 0 {
        ProviderStatus::ReadFailed
    } else {
        failing_status(statuses, (done + max_attempts - 1) as nat)
    }
}

/// Against a failing provider, a whole burst entered from the poll at the
/// top of a tick, or from the backoff, performs exactly `max_attempts` reads
/// and comes back empty-handed.
proof fn lemma_failing_burst_from(
    s: MonitorState,
    statuses: Seq<ProviderStatus>,
    done: nat,
    burst: Burst,
)
    requires
        s.well_formed(),
        all_failing(statuses),
        (s.phase == Phase::CheckStop && burst == Burst::First) || (s.phase == Phase::Backoff
            && burst == Burst::Second),
    ensures
        ({
            let m = s.budget.max_attempts as nat;
            &&& s.failing_run(statuses, done, 1 + burst_steps(m)) == s.at(
                Phase::ConfirmStop { burst, last: burst_status(statuses, done, m) },
            )
            &&& s.failing_reads(statuses, done, 1 + burst_steps(m)) == m
        }),
{
    let m = s.budget.max_attempts as nat;
    let entered = s.next(s.failing_answer(failing_status(statuses, done)));
    assert(entered == s.at(s.begin_burst(burst)));
    lemma_failing_step(s, statuses, done);
    lemma_failing_run_splits(s, statuses, done, 1, burst_steps(m));
    if m == 0 {
        assert(entered.failing_run(statuses, done, 0) == entered);
        assert(entered.failing_reads(statuses, done, 0) == 0);
    } else {
        lemma_failing_burst(entered, statuses, done);
        assert(burst_steps(m) == 2 * (m - 1) + 1);
    }
}

/// Retry exhaustion. Take a provider that fails every read, with whatever
/// statuses in whatever order, and a stop signal that stays silent. A tick
/// that begins at its poll then runs like this: one poll; a first burst of
/// exactly `max_attempts` reads; one poll and the report of the failure; the
/// long pause; a second burst of exactly `max_attempts` reads; one poll and
/// the fatal report; the exit with a non-zero code. That makes
/// `2 * max_attempts` reads in all, and not one more however long the caller
/// goes on. Which statuses the reads met makes no difference to the course:
/// only the last status of each burst is kept, for the report.
pub proof fn law_retry_exhaustion(s: MonitorState, statuses: Seq<ProviderStatus>)
    requires
        s.well_formed(),
        s.phase == Phase::CheckStop,
        all_failing(statuses),
    ensures
        ({
            let m = s.budget.max_attempts as nat;
            let b = burst_steps(m);
            let first_status = burst_status(statuses, 0, m);
            let second_status = burst_status(statuses, m, m);
            let exhausted_once = s.failing_run(statuses, 0, 1 + b);
            let backing_off = s.failing_run(statuses, 0, 2 + b);
            let exhausted_twice = s.failing_run(statuses, 0, 3 + 2 * b);
            let over = s.failing_run(statuses, 0, 4 + 2 * b);
            &&& exhausted_once == s.at(
                Phase::ConfirmStop { burst: Burst::First, last: first_status },
            )
            &&& s.failing_reads(statuses, 0, 1 + b) == m
            &&& exhausted_once.notice(Event::StopPolled { requested: false })
                == Notice::ReadFailed(first_status)
            &&& backing_off == s.at(Phase::Backoff)
            &&& backing_off.pending() == (ActionView::Wait {
                millis: s.budget.backoff_after_exhaustion_ms,
            })
            &&& s.failing_reads(statuses, 0, 2 + b) == m
            &&& exhausted_twice == s.at(
                Phase::ConfirmStop { burst: Burst::Second, last: second_status },
            )
            &&& s.failing_reads(statuses, 0, 3 + 2 * b) == 2 * m
            &&& exhausted_twice.notice(Event::StopPolled { requested: false })
                == Notice::ReadFailedAfterRetry(second_status)
            &&& over == s.at(Phase::Stopped { outcome: Outcome::Fatal(second_status) })
            &&& over.pending() == (ActionView::Exit { code: EXIT_FAILURE })
            &&& forall|more: nat| #[trigger]
                s.failing_reads(statuses, 0, 4 + 2 * b + more) == 2 * m
        }),
{
    let m = s.budget.max_attempts as nat;
    let b = burst_steps(m);
    let first_status = burst_status(statuses, 0, m);
    let second_status = burst_status(statuses, m, m);

    lemma_failing_burst_from(s, statuses, 0, Burst::First);
    let exhausted_once = s.failing_run(statuses, 0, 1 + b);

    lemma_failing_run_splits(s, statuses, 0, 1 + b, 1);
    lemma_failing_step(exhausted_once, statuses, m);
    let backing_off = s.failing_run(statuses, 0, 2 + b);
    assert(backing_off == s.at(Phase::Backoff));
    assert(s.failing_reads(statuses, 0, 2 + b) == m);

    lemma_failing_burst_from(backing_off, statuses, m, Burst::Second);
    lemma_failing_run_splits(s, statuses, 0, 2 + b, 1 + b);
    let exhausted_twice = s.failing_run(statuses, 0, 3 + 2 * b);
    assert(exhausted_twice == s.at(
        Phase::ConfirmStop { burst: Burst::Second, last: second_status },
    ));
    assert(s.failing_reads(statuses, 0, 3 + 2 * b) == 2 * m);

    lemma_failing_run_splits(s, statuses, 0, 3 + 2 * b, 1);
    lemma_failing_step(exhausted_twice, statuses, 2 * m);
    let over = s.failing_run(statuses, 0, 4 + 2 * b);
    assert(over == s.at(Phase::Stopped { outcome: Outcome::Fatal(second_status) }));
    assert(s.failing_reads(statuses, 0, 4 + 2 * b) == 2 * m);

    assert forall|more: nat| #[trigger]
        s.failing_reads(statuses, 0, 4 + 2 * b + more) == 2 * m by {
        lemma_failing_run_splits(s, statuses, 0, 4 + 2 * b, more);
        lemma_stopped_reads(over, statuses, 2 * m, more);
    }
}

/// What is written. Every write that falls due carries a report of 65 bytes:
/// the report id zero, then one of the two handshake frames or the status
/// frame of the sample in hand, unchanged. And a write counts only if the
/// device took all 65.
pub proof fn law_writes_carry_reports(s: MonitorState, completed: bool, bytes_written: usize)
    requires
        s.well_formed(),
        s.pending() is Write,
    ensures
        ({
            let report = s.pending()->Write_report;
            let frame = report.subrange(1, 65);
            &&& report.len() == 65
            &&& report[0] == 0
            &&& s.phase matches Phase::Handshake { index } ==> frame
                == crate::codec::handshake_frame(index as int)
            &&& s.phase matches Phase::Writing { sample } ==> frame == crate::codec::status_frame(
                sample.temperature_c as int,
                sample.power_w as int,
                sample.usage_pct as int,
            )
            &&& s.phase is Handshake || s.phase is Writing
            &&& write_accepted_spec(completed, bytes_written as int) <==> completed
                && bytes_written == report.len()
        }),
{
    let report = s.pending()->Write_report;
    match s.phase {
        Phase::Handshake { index } => {
            crate::report::law_wire_report(crate::codec::handshake_frame(index as int));
        },
        Phase::Writing { sample } => {
            let frame = crate::codec::status_frame(
                sample.temperature_c as int,
                sample.power_w as int,
                sample.usage_pct as int,
            );
            crate::codec::law_status_frame_fields(
                sample.temperature_c as int,
                sample.power_w as int,
                sample.usage_pct as int,
            );
            crate::report::law_wire_report(frame);
        },
        _ => {},
    }
}

} // verus!
