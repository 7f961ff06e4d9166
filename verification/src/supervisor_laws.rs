//! What holds of every supervision, whatever happens in it.
use crate::monitor::{is_finished, overdue, Channel, ChildEvent, Exit};
use crate::monitor_laws::{after_events, can_happen, is_run, RunEvent};
use crate::supervisor::{
    answers, beginning, holds, is_sound, request, since_exit, stepped, Event, PhaseView,
    RequestView, SupervisorView,
};
use vstd::prelude::*;

verus! {

/// A supervision stays sound, whatever comes of its requests.
pub proof fn law_supervision_stays_sound(s: SupervisorView, event: Event, elapsed: u128)
    requires
        is_sound(s),
        answers(event, request(s, elapsed)),
    ensures
        is_sound(stepped(s, event, elapsed)),
{
}

/// A stream is asked to be closed only while it is held, is let go of when it was
/// closed, and is never taken up again: so each is closed at most once.
pub proof fn law_streams_are_closed_at_most_once(
    s: SupervisorView,
    event: Event,
    elapsed: u128,
    channel: Channel,
)
    requires
        is_sound(s),
        answers(event, request(s, elapsed)),
    ensures
        request(s, elapsed) == RequestView::Close(channel) ==> holds(s, channel) && !holds(
            stepped(s, event, elapsed),
            channel,
        ),
        holds(stepped(s, event, elapsed), channel) ==> holds(s, channel),
        holds(s, channel) && !holds(stepped(s, event, elapsed), channel) ==> request(s, elapsed)
            == RequestView::Close(channel),
{
}

/// When a supervision is over, for good or ill, both streams are closed; and when
/// it is over for good, the child has ended.
pub proof fn law_nothing_is_left_open(s: SupervisorView, elapsed: u128)
    requires
        is_sound(s),
        request(s, elapsed) is Finished || request(s, elapsed) is Failed,
    ensures
        !holds(s, Channel::Stdout) && !holds(s, Channel::Stderr),
        request(s, elapsed) is Finished ==> s.run.exit is Some,
{
}

/// A child that is seen alive past its time limit is killed at once.
pub proof fn law_overdue_children_are_killed(s: SupervisorView, elapsed: u128, then: u128)
    requires
        is_sound(s),
        s.phase is Looking,
    ensures
        request(stepped(s, Event::Child(ChildEvent::Alive), elapsed), then) is Kill <==> overdue(
            s.run.timeout_ms,
            elapsed,
        ),
{
}

/// A child that cannot be looked after is killed before the run is given up.
pub proof fn law_lost_children_are_killed(
    s: SupervisorView,
    reason: String,
    elapsed: u128,
    then: u128,
)
    requires
        is_sound(s),
        s.phase is Looking,
    ensures
        ({
            let lost = stepped(s, Event::Child(ChildEvent::Failed(reason)), elapsed);
            &&& request(lost, then) is Kill
            &&& stepped(lost, Event::Killed, then).phase is Leaving
        }),
{
}

/// The run is over as soon as the child was seen to end and there is nothing more
/// to wait for, and not before.
pub proof fn law_the_end_comes_in_time(s: SupervisorView, exit: Exit, elapsed: u128)
    requires
        is_sound(s),
        s.phase is Looking,
    ensures
        ({
            let ended = stepped(s, Event::Child(ChildEvent::Ended(exit)), elapsed);
            &&& ended.run.exit == Some(exit)
            &&& ended.ended_at == elapsed
            &&& ended.phase is Ending <==> !s.run.stdout_open && !s.run.stderr_open
            &&& ended.phase is Ending || ended.phase is Waiting
        }),
{
}

/// Where the supervision of a run with this time limit stands after these
/// answers, each with the time at which it came.
pub open spec fn supervised(timeout_ms: Option<u64>, trace: Seq<(Event, u128)>) -> SupervisorView
    decreases trace.len(),
{
    if trace.len() == 0 {
        beginning(timeout_ms)
    } else {
        let s = supervised(timeout_ms, trace.drop_last());
        stepped(s, trace.last().0, trace.last().1)
    }
}

/// Whether each of the answers is one to the request before it.
pub open spec fn is_supervision(timeout_ms: Option<u64>, trace: Seq<(Event, u128)>) -> bool
    decreases trace.len(),
{
    trace.len() == 0 || (is_supervision(timeout_ms, trace.drop_last()) && answers(
        trace.last().0,
        request(supervised(timeout_ms, trace.drop_last()), trace.last().1),
    ))
}

/// What happens in the run during a supervision.
pub open spec fn run_events(timeout_ms: Option<u64>, trace: Seq<(Event, u128)>) -> Seq<RunEvent>
    decreases trace.len(),
{
    if trace.len() == 0 {
        Seq::empty()
    } else {
        let before = run_events(timeout_ms, trace.drop_last());
        match (supervised(timeout_ms, trace.drop_last()).phase, trace.last().0) {
            (PhaseView::Reading(c), Event::Read(e)) => before.push(RunEvent::Read(c, e)),
            (PhaseView::Looking, Event::Child(e)) => before.push(
                RunEvent::Child(e, trace.last().1),
            ),
            _ => before,
        }
    }
}

/// What a supervision knows of its run is what happened in it, and what happened
/// could happen: only open streams were read, and only a child that had not ended
/// was looked after. So all that holds of every run holds of every supervised one.
pub proof fn law_supervised_runs_are_runs(timeout_ms: Option<u64>, trace: Seq<(Event, u128)>)
    requires
        is_supervision(timeout_ms, trace),
    ensures
        is_sound(supervised(timeout_ms, trace)),
        supervised(timeout_ms, trace).run == after_events(
            timeout_ms,
            run_events(timeout_ms, trace),
        ),
        is_run(timeout_ms, run_events(timeout_ms, trace)),
    decreases trace.len(),
{
    if trace.len() > 0 {
        let before = trace.drop_last();
        let s = supervised(timeout_ms, before);
        law_supervised_runs_are_runs(timeout_ms, before);
        law_supervision_stays_sound(s, trace.last().0, trace.last().1);
        let events = run_events(timeout_ms, trace);
        match (s.phase, trace.last().0) {
            (PhaseView::Reading(c), Event::Read(e)) => {
                assert(events.drop_last() =~= run_events(timeout_ms, before));
                assert(can_happen(s.run, RunEvent::Read(c, e)));
            },
            (PhaseView::Looking, Event::Child(e)) => {
                assert(events.drop_last() =~= run_events(timeout_ms, before));
                assert(can_happen(s.run, RunEvent::Child(e, trace.last().1)));
            },
            _ => {},
        }
    }
}

/// A straggler that holds a stream open keeps a run from its end for no longer
/// than the grace period: once there is nothing more to wait for, a supervision
/// does not begin to wait again.
pub proof fn law_the_grace_period_ends_a_run(s: SupervisorView, event: Event, elapsed: u128)
    requires
        is_sound(s),
        s.run.exit is Some,
        answers(event, request(s, elapsed)),
        is_finished(stepped(s, event, elapsed).run, since_exit(s, elapsed)),
    ensures
        !(stepped(s, event, elapsed).phase is Waiting),
{
}

} // verus!
