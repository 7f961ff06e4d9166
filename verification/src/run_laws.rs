//! What is said of a run, in terms of what happened in it: how it ended, how long it
//! took, what it wrote, and what was done about it when.
use crate::cgroup::{counts_oom_kill, oom_killed};
use crate::error::ErrorView;
use crate::monitor::{
    after_child, after_read, exit_code_of, is_finished, outcome_of, read_action, run_step, started,
    wait_for, Channel, ChildEvent, Exit, MonitorView, ReadAction, ReadEvent, RunStepView, Wait,
    WaitReply,
};
use crate::supervisor::{
    beginning, holds, is_sound, request, stepped, Event, PhaseView, RequestView, SupervisorView,
};
use crate::text::{text_lines, unsigned_value};
use crate::text_laws::{
    has_no_margin, is_blank, law_affixes, law_lines_of_a_text, law_trim_takes_the_margin,
};
use vstd::prelude::*;

verus! {

/// The exit code of a finished run: the code itself if the child ended by itself,
/// 128 and the signal if a signal ended it, timed out or not, and -1 otherwise.
/// Everything else is reported as it was seen and measured.
pub proof fn law_outcome_reports_the_run(
    m: MonitorView,
    stdout: Seq<char>,
    stderr: Seq<char>,
    peak: Option<u64>,
    events: Option<Seq<char>>,
    memory_limited: bool,
)
    requires
        m.exit is Some,
    ensures
        ({
            let o = outcome_of(m, stdout, stderr, peak, events, memory_limited);
            &&& m.exit matches Some(Exit::Exited(code)) ==> o.exit_code == code
            &&& m.exit matches Some(Exit::Signaled(signal)) ==> o.exit_code == 128 + signal
            &&& m.exit == Some(Exit::Other) ==> o.exit_code == -1
            &&& o.timed_out == m.timed_out
            &&& o.wall_ms == m.wall_ms
            &&& o.peak_mem_kib == peak
            &&& o.stdout == stdout
            &&& o.stderr == stderr
            &&& o.oom_killed <==> {
                ||| events matches Some(text) && oom_killed(text)
                ||| memory_limited && !m.timed_out && m.exit == Some(Exit::Signaled(9))
            }
        }),
        exit_code_of(m.exit->0) == outcome_of(
            m,
            stdout,
            stderr,
            peak,
            events,
            memory_limited,
        ).exit_code,
{
}

/// Out-of-memory kills are counted in the lines of `memory.events` that say
/// `oom_kill` and a number greater than zero, and in no others.
pub proof fn law_oom_kills_are_counted(line: Seq<char>, rest: Seq<char>)
    requires
        !line.contains('\n'),
        line.len() == 0 || line[line.len() - 1] != '\r',
    ensures
        oom_killed(line + seq!['\n'] + rest) <==> counts_oom_kill(line) || oom_killed(rest),
        !oom_killed(Seq::empty()),
{
    law_lines_of_a_text(line, rest);
    let all = seq![line] + text_lines(rest);
    let whole = line + seq!['\n'] + rest;
    let later = text_lines(rest);
    assert(text_lines(whole) == all);
    assert(all[0] == line);
    if oom_killed(whole) {
        let i = choose|i: int|
            0 <= i < all.len() && counts_oom_kill(#[trigger] text_lines(whole)[i]);
        if i > 0 {
            assert(all[i] == later[i - 1]);
            assert(counts_oom_kill(later[i - 1]));
        }
    }
    if counts_oom_kill(line) {
        assert(counts_oom_kill(text_lines(whole)[0]));
    }
    if oom_killed(rest) {
        let i = choose|i: int| 0 <= i < later.len() && counts_oom_kill(#[trigger] later[i]);
        assert(all[i + 1] == later[i]);
        assert(counts_oom_kill(text_lines(whole)[i + 1]));
    }
}

/// A line counts an out-of-memory kill if and only if it says `oom_kill`, a space,
/// and a number greater than zero.
pub proof fn law_oom_kill_lines(before: Seq<char>, n: Seq<char>, after: Seq<char>, line: Seq<char>)
    requires
        is_blank(before),
        is_blank(after),
        has_no_margin(n),
        !"oom_kill "@.is_prefix_of(line),
    ensures
        counts_oom_kill("oom_kill "@ + (before + n + after)) <==> (unsigned_value(n) matches Some(
            k,
        ) && k > 0),
        !counts_oom_kill(line),
{
    law_affixes(before + n + after, "oom_kill "@);
    law_trim_takes_the_margin(before, n, after);
}

/// Whether a time limit, in milliseconds, has passed after so many nanoseconds.
pub open spec fn past(timeout_ms: Option<u64>, elapsed: u128) -> bool {
    timeout_ms matches Some(t) && elapsed >= t * 1_000_000
}

/// What an unmeasured run does after each wait: it kills a child that is past its
/// limit, gives one that is not a moment, and otherwise returns how the child ended
/// or what went wrong; only an interrupted wait is simply repeated.
pub proof fn law_unmeasured_runs(
    timeout_ms: Option<u64>,
    elapsed: u128,
    code: i32,
    signal: u8,
    text: String,
)
    ensures
        run_step(timeout_ms, WaitReply::Alive, elapsed) == if past(timeout_ms, elapsed) {
            RunStepView::Kill
        } else {
            RunStepView::Pause(3)
        },
        run_step(timeout_ms, WaitReply::Exited(code), elapsed) == RunStepView::Return(Ok(code)),
        run_step(timeout_ms, WaitReply::Signaled(signal), elapsed) matches RunStepView::Return(
            Ok(c),
        ) && c == 128 + signal,
        run_step(timeout_ms, WaitReply::Interrupted, elapsed) is Again,
        run_step(timeout_ms, WaitReply::Unexpected(text), elapsed) == RunStepView::Return(
            Err(ErrorView::Runtime("unexpected wait status: "@ + text@)),
        ),
        run_step(timeout_ms, WaitReply::Failed(text), elapsed) == RunStepView::Return(
            Err(ErrorView::Runtime("waitpid: "@ + text@)),
        ),
{
    reveal_strlit("waitpid");
    reveal_strlit(": ");
    reveal_strlit("waitpid: ");
    assert("waitpid"@ + ": "@ + text@ =~= "waitpid: "@ + text@);
}

/// A run starts with nothing written, both streams open and the child alive.
pub proof fn law_runs_start_with_nothing(timeout_ms: Option<u64>)
    ensures
        ({
            let m = started(timeout_ms);
            &&& m.timeout_ms == timeout_ms
            &&& !m.timed_out
            &&& m.stdout.len() == 0
            &&& m.stderr.len() == 0
            &&& m.stdout_open
            &&& m.stderr_open
            &&& m.exit is None
        }),
{
}

/// A read adds the bytes that it brought to its own stream, in order, and closes
/// that at its end or where it fails; it changes nothing else. Where there may be
/// more at once it is repeated.
pub proof fn law_reads_are_captured(m: MonitorView, event: ReadEvent)
    ensures
        ({
            let out = after_read(m, Channel::Stdout, event);
            let err = after_read(m, Channel::Stderr, event);
            let bytes = match event {
                ReadEvent::Data(bytes) => bytes@,
                _ => Seq::empty(),
            };
            let over = event is End || event is Failed;
            &&& out.stdout == m.stdout + bytes
            &&& out.stdout_open == !over
            &&& out.stderr == m.stderr
            &&& out.stderr_open == m.stderr_open
            &&& err.stderr == m.stderr + bytes
            &&& err.stderr_open == !over
            &&& err.stdout == m.stdout
            &&& err.stdout_open == m.stdout_open
            &&& out.exit == m.exit && err.exit == m.exit
            &&& out.wall_ms == m.wall_ms && err.wall_ms == m.wall_ms
            &&& out.timed_out == m.timed_out && err.timed_out == m.timed_out
            &&& out.timeout_ms == m.timeout_ms && err.timeout_ms == m.timeout_ms
        }),
        read_action(event) == ReadAction::Close <==> event is End || event is Failed,
        read_action(event) == ReadAction::Later <==> event is WouldBlock,
        read_action(event) == ReadAction::Again <==> event is Data || event is Interrupted,
{
}

/// A look after the child settles how it ended and after how many milliseconds, if
/// it has; it times out if it is there past its limit; and nothing else changes.
pub proof fn law_looks_settle_the_end(m: MonitorView, event: ChildEvent, elapsed: u128)
    ensures
        ({
            let n = after_child(m, event, elapsed);
            &&& event matches ChildEvent::Ended(exit) ==> n.exit == Some(exit) && n.wall_ms
                == elapsed / 1_000_000
            &&& !(event is Ended) ==> n.exit == m.exit && n.wall_ms == m.wall_ms
            &&& n.timed_out <==> m.timed_out || (event is Alive && past(m.timeout_ms, elapsed))
            &&& n.stdout == m.stdout && n.stdout_open == m.stdout_open
            &&& n.stderr == m.stderr && n.stderr_open == m.stderr_open
            &&& n.timeout_ms == m.timeout_ms
        }),
{
}

/// How long to wait: for output as long as a stream is open, at most twenty
/// milliseconds and not past the time limit; else three milliseconds for the child;
/// and not at all when it has ended.
pub proof fn law_how_long_to_wait(m: MonitorView, elapsed: u128)
    ensures
        ({
            let open = m.stdout_open || m.stderr_open;
            &&& open ==> (wait_for(m, elapsed) matches Wait::Poll(ms) && {
                &&& m.timeout_ms is None ==> ms == 20
                &&& m.timeout_ms matches Some(t) ==> {
                    let left = (t * 1_000_000 - elapsed) / 1_000_000;
                    ms == if left <= 0 {
                        0
                    } else if left <= 20 {
                        left
                    } else {
                        20
                    }
                }
            })
            &&& !open && m.exit is None ==> wait_for(m, elapsed) == Wait::Sleep(3)
            &&& !open && m.exit is Some ==> wait_for(m, elapsed) == Wait::Skip
        }),
{
}

/// A run is finished when the child has ended and either both streams are closed or
/// half a second has passed since, and not before.
pub proof fn law_when_a_run_is_finished(m: MonitorView, since: u128)
    ensures
        is_finished(m, since) <==> m.exit is Some && ((!m.stdout_open && !m.stderr_open) || since
            >= 500_000_000),
{
}

/// A supervision starts by waiting, with both streams in hand.
pub proof fn law_supervision_starts_by_waiting(timeout_ms: Option<u64>, elapsed: u128)
    ensures
        ({
            let s = beginning(timeout_ms);
            &&& s.run == started(timeout_ms)
            &&& request(s, elapsed) == RequestView::Wait(wait_for(started(timeout_ms), elapsed))
            &&& holds(s, Channel::Stdout) && holds(s, Channel::Stderr)
        }),
{
}

/// After the streams of a round: the child is looked after while it has not ended;
/// else the run is over when it is finished, and goes on with a wait when it is not.
pub open spec fn goes_on(s: SupervisorView, elapsed: u128, then: u128) -> bool {
    if s.run.exit is None {
        request(s, then) is Look
    } else {
        let since = if elapsed >= s.ended_at {
            elapsed - s.ended_at
        } else {
            0
        };
        if (!s.run.stdout_open && !s.run.stderr_open) || since >= 500_000_000 {
            s.phase is Ending
        } else {
            request(s, then) is Wait
        }
    }
}

/// A round reads what is open of standard output, then of standard error, and then
/// goes on: a closed stream is passed over, an open one never.
pub proof fn law_a_round_reads_both_streams(s: SupervisorView, elapsed: u128, then: u128)
    requires
        is_sound(s),
    ensures
        s.phase is Waiting ==> {
            let t = stepped(s, Event::Waited, elapsed);
            &&& t.run == s.run
            &&& s.run.stdout_open ==> request(t, then) == RequestView::Read(Channel::Stdout)
            &&& !s.run.stdout_open && s.run.stderr_open ==> request(t, then) == RequestView::Read(
                Channel::Stderr,
            )
            &&& !s.run.stdout_open && !s.run.stderr_open ==> goes_on(t, elapsed, then)
        },
        s.phase == PhaseView::Reading(Channel::Stdout) ==> {
            let t = stepped(s, Event::Read(ReadEvent::WouldBlock), elapsed);
            &&& s.run.stderr_open ==> request(t, then) == RequestView::Read(Channel::Stderr)
            &&& !s.run.stderr_open ==> goes_on(t, elapsed, then)
        },
        s.phase == PhaseView::Reading(Channel::Stderr) ==> goes_on(
            stepped(s, Event::Read(ReadEvent::WouldBlock), elapsed),
            elapsed,
            then,
        ),
        s.phase == PhaseView::Closing(Channel::Stdout) ==> {
            let t = stepped(s, Event::Closed, elapsed);
            &&& s.run.stderr_open ==> request(t, then) == RequestView::Read(Channel::Stderr)
            &&& !s.run.stderr_open ==> goes_on(t, elapsed, then)
        },
        s.phase == PhaseView::Closing(Channel::Stderr) ==> goes_on(
            stepped(s, Event::Closed, elapsed),
            elapsed,
            then,
        ),
{
}

/// What a read brought is taken over into what is known of the run, and its stream
/// is read again while there may be more, and closed when it is over.
pub proof fn law_streams_are_read_to_their_end(
    s: SupervisorView,
    channel: Channel,
    event: ReadEvent,
    elapsed: u128,
    then: u128,
)
    requires
        is_sound(s),
        s.phase == PhaseView::Reading(channel),
    ensures
        ({
            let t = stepped(s, Event::Read(event), elapsed);
            &&& t.run == after_read(s.run, channel, event)
            &&& event is Data || event is Interrupted ==> request(t, then) == RequestView::Read(
                channel,
            )
            &&& event is End || event is Failed ==> request(t, then) == RequestView::Close(channel)
            &&& t.ended_at == s.ended_at
        }),
{
}

/// What a look after the child leads to: a child past its limit is killed and waited
/// for, any other is waited for, one that has ended ends the run as soon as it is
/// finished, and one that cannot be looked after is killed and given up with the
/// reason.
pub proof fn law_looks_lead_on(
    s: SupervisorView,
    exit: Exit,
    reason: String,
    elapsed: u128,
    then: u128,
)
    requires
        is_sound(s),
        s.phase is Looking,
    ensures
        ({
            let t = stepped(s, Event::Child(ChildEvent::Alive), elapsed);
            &&& t.run == after_child(s.run, ChildEvent::Alive, elapsed)
            &&& past(s.run.timeout_ms, elapsed) ==> request(t, then) is Kill && request(
                stepped(t, Event::Killed, then),
                then,
            ) is Wait
            &&& !past(s.run.timeout_ms, elapsed) ==> request(t, then) is Wait
        }),
        ({
            let t = stepped(s, Event::Child(ChildEvent::Ended(exit)), elapsed);
            &&& t.run == after_child(s.run, ChildEvent::Ended(exit), elapsed)
            &&& t.ended_at == elapsed
            &&& s.run.stdout_open || s.run.stderr_open ==> request(t, then) is Wait
            &&& !s.run.stdout_open && !s.run.stderr_open ==> request(t, then) is Finished
        }),
        request(stepped(s, Event::Child(ChildEvent::Interrupted), elapsed), then) is Wait,
        stepped(s, Event::Child(ChildEvent::Interrupted), elapsed).run == s.run,
        ({
            let t = stepped(s, Event::Child(ChildEvent::Failed(reason)), elapsed);
            &&& request(t, then) is Kill
            &&& stepped(t, Event::Killed, then).phase == PhaseView::Leaving(
                ErrorView::Runtime("waitpid: "@ + reason@),
            )
        }),
{
    reveal_strlit("waitpid");
    reveal_strlit(": ");
    reveal_strlit("waitpid: ");
    assert("waitpid"@ + ": "@ + reason@ =~= "waitpid: "@ + reason@);
}

/// At the end each stream that is still held is closed, and then the run is reported
/// as finished, or as lost for its reason.
pub proof fn law_the_end_closes_and_reports(s: SupervisorView, elapsed: u128, e: ErrorView)
    requires
        s.phase is Ending || s.phase == PhaseView::Leaving(e),
    ensures
        ({
            let r = request(s, elapsed);
            &&& s.stdout_held ==> r == RequestView::Close(Channel::Stdout)
            &&& !s.stdout_held && s.stderr_held ==> r == RequestView::Close(Channel::Stderr)
            &&& !s.stdout_held && !s.stderr_held && s.phase is Ending ==> r is Finished
            &&& !s.stdout_held && !s.stderr_held && s.phase is Leaving ==> r
                == RequestView::Failed(e)
            &&& stepped(s, Event::Closed, elapsed).run == s.run
            &&& stepped(s, Event::Closed, elapsed).phase == s.phase
        }),
{
}

} // verus!
