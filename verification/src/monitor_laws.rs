//! What holds of every run, whatever happens in it.
use crate::monitor::{
    after_child, after_read, is_finished, is_open, outcome_of, overdue, poll_ms, read_bytes,
    run_step, started, wait_for, Channel, ChildEvent, MonitorView, ReadEvent, Wait, WaitReply,
    DRAIN_GRACE, NANOS_PER_MILLI, POLL_CAP_MS,
};
use vstd::prelude::*;

verus! {

/// Something that happens in a run: a read of a stream, or a look after the
/// child so long after the start.
pub enum RunEvent {
    Read(Channel, ReadEvent),
    Child(ChildEvent, u128),
}

/// What is known after an event.
pub open spec fn after_event(m: MonitorView, e: RunEvent) -> MonitorView {
    match e {
        RunEvent::Read(channel, event) => after_read(m, channel, event),
        RunEvent::Child(event, elapsed) => after_child(m, event, elapsed),
    }
}

/// Whether an event can happen: only open streams are read, and only a child
/// that has not ended is looked after.
pub open spec fn can_happen(m: MonitorView, e: RunEvent) -> bool {
    match e {
        RunEvent::Read(channel, _) => is_open(m, channel),
        RunEvent::Child(_, _) => m.exit is None,
    }
}

/// What is known of a run with this time limit after these events.
pub open spec fn after_events(timeout_ms: Option<u64>, events: Seq<RunEvent>) -> MonitorView
    decreases events.len(),
{
    if events.len() == 0 {
        started(timeout_ms)
    } else {
        after_event(after_events(timeout_ms, events.drop_last()), events.last())
    }
}

/// Whether the events can happen one after another.
pub open spec fn is_run(timeout_ms: Option<u64>, events: Seq<RunEvent>) -> bool
    decreases events.len(),
{
    events.len() == 0 || (is_run(timeout_ms, events.drop_last()) && can_happen(
        after_events(timeout_ms, events.drop_last()),
        events.last(),
    ))
}

/// All that was read from a stream, in order.
pub open spec fn all_read(events: Seq<RunEvent>, channel: Channel) -> Seq<u8>
    decreases events.len(),
{
    if events.len() == 0 {
        Seq::empty()
    } else {
        let before = all_read(events.drop_last(), channel);
        match events.last() {
            RunEvent::Read(c, event) => if c == channel {
                before + read_bytes(event)
            } else {
                before
            },
            RunEvent::Child(_, _) => before,
        }
    }
}

/// What is captured of a stream is all that was read from it, in order.
pub proof fn law_captured_is_what_was_read(timeout_ms: Option<u64>, events: Seq<RunEvent>)
    ensures
        after_events(timeout_ms, events).stdout == all_read(events, Channel::Stdout),
        after_events(timeout_ms, events).stderr == all_read(events, Channel::Stderr),
    decreases events.len(),
{
    if events.len() > 0 {
        law_captured_is_what_was_read(timeout_ms, events.drop_last());
    }
}

/// Whether the child was seen alive past the time limit.
pub open spec fn seen_overdue(timeout_ms: Option<u64>, e: RunEvent) -> bool {
    e matches RunEvent::Child(ChildEvent::Alive, elapsed) && overdue(timeout_ms, elapsed)
}

/// A run is reported as timed out if and only if the child was seen alive past
/// its time limit.
pub proof fn law_timed_out(timeout_ms: Option<u64>, events: Seq<RunEvent>)
    ensures
        after_events(timeout_ms, events).timeout_ms == timeout_ms,
        after_events(timeout_ms, events).timed_out <==> exists|i: int|
            0 <= i < events.len() && seen_overdue(timeout_ms, #[trigger] events[i]),
    decreases events.len(),
{
    if events.len() > 0 {
        let before = events.drop_last();
        law_timed_out(timeout_ms, before);
        if after_events(timeout_ms, before).timed_out {
            let i = choose|i: int|
                0 <= i < before.len() && seen_overdue(timeout_ms, #[trigger] before[i]);
            assert(seen_overdue(timeout_ms, events[i]));
        }
        if seen_overdue(timeout_ms, events.last()) {
            assert(seen_overdue(timeout_ms, events[events.len() - 1]));
        }
        if exists|i: int|
            0 <= i < events.len() && seen_overdue(timeout_ms, #[trigger] events[i]) {
            let i = choose|i: int|
                0 <= i < events.len() && seen_overdue(timeout_ms, #[trigger] events[i]);
            if i < before.len() {
                assert(seen_overdue(timeout_ms, before[i]));
            }
        }
    }
}

/// A run without a time limit never times out.
pub proof fn law_no_limit_no_timeout(events: Seq<RunEvent>)
    ensures
        !after_events(None, events).timed_out,
{
    law_timed_out(None, events);
}

/// An unmeasured run keeps its time limit: its child is killed when it is seen alive
/// past the limit, from then on whenever it is, and never before or without one.
pub proof fn law_unmeasured_runs_keep_their_limit(
    timeout_ms: Option<u64>,
    reply: WaitReply,
    elapsed: u128,
    later: u128,
)
    requires
        elapsed <= later,
    ensures
        run_step(timeout_ms, reply, elapsed) is Kill <==> reply is Alive && overdue(
            timeout_ms,
            elapsed,
        ),
        run_step(timeout_ms, reply, elapsed) is Kill ==> run_step(timeout_ms, reply, later) is Kill,
        timeout_ms is None ==> !(run_step(timeout_ms, reply, elapsed) is Kill),
{
}

/// How the child ended and how long it ran are settled once and for all; so is
/// whether it timed out.
pub proof fn law_exit_is_final(timeout_ms: Option<u64>, events: Seq<RunEvent>, k: int)
    requires
        is_run(timeout_ms, events),
        0 <= k <= events.len(),
        after_events(timeout_ms, events.take(k)).exit is Some,
    ensures
        ({
            let then = after_events(timeout_ms, events.take(k));
            let now = after_events(timeout_ms, events);
            now.exit == then.exit && now.wall_ms == then.wall_ms && now.timed_out
                == then.timed_out
        }),
    decreases events.len(),
{
    if k == events.len() {
        assert(events.take(k) =~= events);
    } else {
        let before = events.drop_last();
        assert(before.take(k) =~= events.take(k));
        law_exit_is_final(timeout_ms, before, k);
    }
}

/// A stream that was closed stays closed, and nothing more is captured of it.
pub proof fn law_closed_streams_stay_closed(
    timeout_ms: Option<u64>,
    events: Seq<RunEvent>,
    k: int,
    channel: Channel,
)
    requires
        is_run(timeout_ms, events),
        0 <= k <= events.len(),
        !is_open(after_events(timeout_ms, events.take(k)), channel),
    ensures
        !is_open(after_events(timeout_ms, events), channel),
        all_read(events, channel) == all_read(events.take(k), channel),
    decreases events.len(),
{
    if k == events.len() {
        assert(events.take(k) =~= events);
    } else {
        let before = events.drop_last();
        assert(before.take(k) =~= events.take(k));
        law_closed_streams_stay_closed(timeout_ms, before, k, channel);
    }
}

/// Waiting for output never takes longer than the cap, and never past the time
/// limit.
pub proof fn law_waits_are_short(m: MonitorView, elapsed: u128)
    ensures
        wait_for(m, elapsed) matches Wait::Poll(ms) ==> 0 <= ms <= POLL_CAP_MS,
        wait_for(m, elapsed) matches Wait::Poll(ms) ==> m.timeout_ms matches Some(t) ==> elapsed
            <= t * NANOS_PER_MILLI ==> elapsed + ms * NANOS_PER_MILLI <= t * NANOS_PER_MILLI,
{
    if let Some(t) = m.timeout_ms {
        let left = t * NANOS_PER_MILLI - elapsed;
        if left > 0 {
            let ms = left / NANOS_PER_MILLI as int;
            assert(ms * NANOS_PER_MILLI <= left) by (nonlinear_arith)
                requires
                    left > 0,
                    ms == left / (NANOS_PER_MILLI as int),
                    NANOS_PER_MILLI == 1_000_000,
            ;
            assert(poll_ms(m.timeout_ms, elapsed) <= ms);
        }
    }
}

/// Untrusted code cannot keep a run from finishing once its child has ended: when
/// the grace period is over the run is finished, whoever holds its streams open.
pub proof fn law_stragglers_cannot_hold_a_run(m: MonitorView, since_exit: u128)
    requires
        m.exit is Some,
    ensures
        since_exit >= DRAIN_GRACE ==> is_finished(m, since_exit),
        !m.stdout_open && !m.stderr_open ==> is_finished(m, since_exit),
{
}

/// A run that was killed for its time limit is not taken for one that ran out of
/// memory, unless the kernel has counted that; nor is one without a memory limit.
pub proof fn law_timeout_is_not_oom(
    m: MonitorView,
    stdout: Seq<char>,
    stderr: Seq<char>,
    peak: Option<u64>,
    memory_limited: bool,
)
    requires
        m.timed_out || !memory_limited,
    ensures
        !outcome_of(m, stdout, stderr, peak, None, memory_limited).oom_killed,
{
}

} // verus!
