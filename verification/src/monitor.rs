//! Watching a run: capture what it writes, enforce its time limit, and measure
//! it.
//!
//! A [`Monitor`] holds what is known of the run: what was read
//! ([`Monitor::read`]), what was seen of the child ([`Monitor::child`]), how to wait
//! for more ([`Monitor::wait`]), and whether there is more to wait for
//! ([`Monitor::finished`]). The loop round it is the supervisor's. Times are in
//! nanoseconds.
use crate::cgroup::{counts_oom_kills, oom_killed};
use crate::error::{rt, runtime_error, Error, ErrorView, Result};
use crate::outcome::{Outcome, OutcomeView};
use crate::script::concat;
use vstd::prelude::*;
use vstd::utf8::{decode_utf8, valid_utf8};

verus! {

/// The nanoseconds of a millisecond.
pub const NANOS_PER_MILLI: u128 = 1_000_000;

/// The longest time to wait for output, in milliseconds, so the exit of the
/// child and the time limit are noticed promptly.
pub const POLL_CAP_MS: i32 = 20;

/// The time to wait, in milliseconds, where there is no output to wait for.
pub const IDLE_MS: u64 = 3;

/// How long output is still read after the child has ended, in nanoseconds. The
/// kernel ends everything in the child's pid namespace with it, so its pipes
/// close; this is for a straggler that holds one open.
pub const DRAIN_GRACE: u128 = 500_000_000;

/// The number of the signal that cannot be caught.
pub const SIGKILL: u8 = 9;

/// How a process ended.
#[derive(Debug, Clone, Copy, PartialEq, Eq, Structural)]
pub enum Exit {
    /// By itself, with this code.
    Exited(i32),
    /// By this signal.
    Signaled(u8),
    /// In some other way.
    Other,
}

/// The exit code that stands for how a process ended.
pub open spec fn exit_code_of(e: Exit) -> i32 {
    match e {
        Exit::Exited(code) => code,
        Exit::Signaled(signal) => (128 + signal) as i32,
        Exit::Other => (-1) as i32,
    }
}

/// The exit code that stands for how a process ended.
pub fn exit_code(e: Exit) -> (r: i32)
    ensures
        r == exit_code_of(e),
{
    match e {
        Exit::Exited(code) => code,
        Exit::Signaled(signal) => 128 + signal as i32,
        Exit::Other => -1,
    }
}

/// What a wait for the child of an unmeasured run came back with.
#[derive(Debug, PartialEq)]
pub enum WaitReply {
    /// The child is still there.
    Alive,
    /// The child ended by itself, with this code.
    Exited(i32),
    /// A signal ended the child.
    Signaled(u8),
    /// Something else happened to the child; the text says what.
    Unexpected(String),
    /// A signal that was passed on to the child interrupted the wait.
    Interrupted,
    /// The wait failed, for this reason.
    Failed(String),
}

/// What an unmeasured run does after a wait for its child.
#[derive(Debug, PartialEq)]
pub enum RunStep {
    /// It waits again.
    Again,
    /// It lets some milliseconds pass, and waits again.
    Pause(u64),
    /// It kills the child, and waits again.
    Kill,
    /// It returns this.
    Return(Result<i32>),
}

/// The meaning of a [`RunStep`].
pub enum RunStepView {
    Again,
    Pause(u64),
    Kill,
    Return(std::result::Result<i32, ErrorView>),
}

impl View for RunStep {
    type V = RunStepView;

    open spec fn view(&self) -> RunStepView {
        match self {
            RunStep::Again => RunStepView::Again,
            RunStep::Pause(ms) => RunStepView::Pause(*ms),
            RunStep::Kill => RunStepView::Kill,
            RunStep::Return(Ok(code)) => RunStepView::Return(Ok(*code)),
            RunStep::Return(Err(e)) => RunStepView::Return(Err(e@)),
        }
    }
}

/// What an unmeasured run with this time limit does after a wait for its child, so
/// long after the start.
pub open spec fn run_step(timeout_ms: Option<u64>, reply: WaitReply, elapsed: u128) -> RunStepView {
    match reply {
        WaitReply::Alive => if overdue(timeout_ms, elapsed) {
            RunStepView::Kill
        } else {
            RunStepView::Pause(IDLE_MS)
        },
        WaitReply::Interrupted => RunStepView::Again,
        WaitReply::Exited(code) => RunStepView::Return(Ok(code)),
        WaitReply::Signaled(signal) => RunStepView::Return(Ok((128 + signal) as i32)),
        WaitReply::Unexpected(what) => RunStepView::Return(
            Err(ErrorView::Runtime("unexpected wait status: "@ + what@)),
        ),
        WaitReply::Failed(reason) => RunStepView::Return(
            Err(runtime_error("waitpid"@, reason@)),
        ),
    }
}

/// What an unmeasured run with this time limit does after a wait for its child, so
/// long after the start. A child that is still there past the limit is killed.
pub fn wait_verdict(timeout_ms: Option<u64>, reply: WaitReply, elapsed: u128) -> (r: RunStep)
    ensures
        r@ == run_step(timeout_ms, reply, elapsed),
{
    match reply {
        WaitReply::Alive => {
            if let Some(t) = timeout_ms {
                if elapsed >= t as u128 * NANOS_PER_MILLI {
                    return RunStep::Kill;
                }
            }
            RunStep::Pause(IDLE_MS)
        },
        WaitReply::Interrupted => RunStep::Again,
        WaitReply::Exited(code) => RunStep::Return(Ok(code)),
        WaitReply::Signaled(signal) => RunStep::Return(Ok(128 + signal as i32)),
        WaitReply::Unexpected(what) => RunStep::Return(
            Err(Error::Runtime(concat("unexpected wait status: ", what.as_str()))),
        ),
        WaitReply::Failed(reason) => RunStep::Return(Err(rt("waitpid", reason.as_str()))),
    }
}

/// One of the two streams that are captured.
#[derive(Debug, Clone, Copy, PartialEq, Eq, Structural)]
pub enum Channel {
    Stdout,
    Stderr,
}

/// What a read came back with.
#[derive(Debug, PartialEq)]
pub enum ReadEvent {
    /// These bytes.
    Data(Vec<u8>),
    /// The end of the stream.
    End,
    /// Nothing, for now.
    WouldBlock,
    /// Nothing: a signal interrupted it.
    Interrupted,
    /// Nothing: it failed.
    Failed,
}

/// What to do after a read.
#[derive(Debug, Clone, Copy, PartialEq, Eq, Structural)]
pub enum ReadAction {
    /// Read again.
    Again,
    /// Leave the stream until the next round.
    Later,
    /// Close the stream, for good.
    Close,
}

/// What to do after a read.
pub open spec fn read_action(event: ReadEvent) -> ReadAction {
    match event {
        ReadEvent::Data(_) | ReadEvent::Interrupted => ReadAction::Again,
        ReadEvent::WouldBlock => ReadAction::Later,
        ReadEvent::End | ReadEvent::Failed => ReadAction::Close,
    }
}

/// The bytes that a read adds to what was captured.
pub open spec fn read_bytes(event: ReadEvent) -> Seq<u8> {
    match event {
        ReadEvent::Data(bytes) => bytes@,
        _ => Seq::empty(),
    }
}

/// What a look after the child found.
#[derive(Debug, PartialEq)]
pub enum ChildEvent {
    /// It is still there.
    Alive,
    /// It has ended.
    Ended(Exit),
    /// Nothing: a signal interrupted it.
    Interrupted,
    /// Nothing: it failed, for this reason.
    Failed(String),
}

/// What to do after a look after the child.
#[derive(Debug, PartialEq)]
pub enum ChildAction {
    /// Nothing.
    Nothing,
    /// Kill the child.
    Kill,
    /// Kill the child, close the streams and return this error.
    Abort(Error),
}

/// How to wait for something to happen.
#[derive(Debug, Clone, Copy, PartialEq, Eq, Structural)]
pub enum Wait {
    /// Until a stream can be read, at most so many milliseconds.
    Poll(i32),
    /// So many milliseconds.
    Sleep(u64),
    /// Not at all.
    Skip,
}

/// What is known of a run.
pub struct MonitorView {
    /// The time limit, in milliseconds.
    pub timeout_ms: Option<u64>,
    /// Whether the child was killed for running past it.
    pub timed_out: bool,
    /// What was captured.
    pub stdout: Seq<u8>,
    pub stderr: Seq<u8>,
    /// Which streams are still open.
    pub stdout_open: bool,
    pub stderr_open: bool,
    /// How the child ended.
    pub exit: Option<Exit>,
    /// How long it ran, in milliseconds, once it has ended.
    pub wall_ms: u128,
}

/// What is known of a run when it starts.
pub open spec fn started(timeout_ms: Option<u64>) -> MonitorView {
    MonitorView {
        timeout_ms,
        timed_out: false,
        stdout: Seq::empty(),
        stderr: Seq::empty(),
        stdout_open: true,
        stderr_open: true,
        exit: None,
        wall_ms: 0,
    }
}

/// Whether a time limit has passed.
pub open spec fn overdue(timeout_ms: Option<u64>, elapsed: u128) -> bool {
    timeout_ms matches Some(t) && elapsed >= t * NANOS_PER_MILLI
}

/// How long to wait for output, in milliseconds: not past the time limit.
pub open spec fn poll_ms(timeout_ms: Option<u64>, elapsed: u128) -> int {
    match timeout_ms {
        None => POLL_CAP_MS as int,
        Some(t) => {
            let left = t * NANOS_PER_MILLI - elapsed;
            if left <= 0 {
                0
            } else if left / NANOS_PER_MILLI as int <= POLL_CAP_MS {
                left / NANOS_PER_MILLI as int
            } else {
                POLL_CAP_MS as int
            }
        },
    }
}

/// How to wait for something to happen.
pub open spec fn wait_for(m: MonitorView, elapsed: u128) -> Wait {
    if m.stdout_open || m.stderr_open {
        Wait::Poll(poll_ms(m.timeout_ms, elapsed) as i32)
    } else if m.exit is None {
        Wait::Sleep(IDLE_MS)
    } else {
        Wait::Skip
    }
}

/// Whether a stream is still open.
pub open spec fn is_open(m: MonitorView, channel: Channel) -> bool {
    match channel {
        Channel::Stdout => m.stdout_open,
        Channel::Stderr => m.stderr_open,
    }
}

/// What is known after a read.
pub open spec fn after_read(m: MonitorView, channel: Channel, event: ReadEvent) -> MonitorView {
    let open = read_action(event) != ReadAction::Close;
    match channel {
        Channel::Stdout => MonitorView {
            stdout: m.stdout + read_bytes(event),
            stdout_open: open,
            ..m
        },
        Channel::Stderr => MonitorView {
            stderr: m.stderr + read_bytes(event),
            stderr_open: open,
            ..m
        },
    }
}

/// What is known after a look after the child.
pub open spec fn after_child(m: MonitorView, event: ChildEvent, elapsed: u128) -> MonitorView {
    match event {
        ChildEvent::Alive => MonitorView {
            timed_out: m.timed_out || overdue(m.timeout_ms, elapsed),
            ..m
        },
        ChildEvent::Ended(exit) => MonitorView {
            exit: Some(exit),
            wall_ms: elapsed / NANOS_PER_MILLI,
            ..m
        },
        ChildEvent::Interrupted | ChildEvent::Failed(_) => m,
    }
}

/// Whether there is nothing left to wait for: the child has ended, and its
/// output is complete or overdue.
pub open spec fn is_finished(m: MonitorView, since_exit: u128) -> bool {
    m.exit is Some && ((!m.stdout_open && !m.stderr_open) || since_exit >= DRAIN_GRACE)
}

/// The text of some bytes, as `String::from_utf8_lossy` makes it.
pub uninterp spec fn lossy_text(bytes: Seq<u8>) -> Seq<char>;

/// Calls `String::from_utf8_lossy`: bytes that are UTF-8 become the text that
/// they encode; what stands for other bytes is left unsaid here.
#[verifier::external_body]
fn text_from_bytes(bytes: &Vec<u8>) -> (r: String)
    ensures
        r@ == lossy_text(bytes@),
        valid_utf8(bytes@) ==> r@ == decode_utf8(bytes@),
{
    String::from_utf8_lossy(bytes).into_owned()
}

/// Whether a run was killed for want of memory: the kernel has counted it, or, if
/// there was a limit, an untraceable kill that the time limit does not explain.
pub open spec fn was_oom_killed(
    m: MonitorView,
    events: Option<Seq<char>>,
    memory_limited: bool,
) -> bool {
    ||| events matches Some(text) && oom_killed(text)
    ||| !m.timed_out && memory_limited && m.exit == Some(Exit::Signaled(SIGKILL))
}

/// The outcome of a run that has finished.
pub open spec fn outcome_of(
    m: MonitorView,
    stdout: Seq<char>,
    stderr: Seq<char>,
    peak_mem_kib: Option<u64>,
    events: Option<Seq<char>>,
    memory_limited: bool,
) -> OutcomeView {
    OutcomeView {
        exit_code: exit_code_of(m.exit->Some_0),
        timed_out: m.timed_out,
        oom_killed: was_oom_killed(m, events, memory_limited),
        wall_ms: m.wall_ms,
        peak_mem_kib,
        stdout,
        stderr,
    }
}

/// What is known of a run.
pub struct Monitor {
    timeout_ms: Option<u64>,
    timed_out: bool,
    stdout: Vec<u8>,
    stderr: Vec<u8>,
    stdout_open: bool,
    stderr_open: bool,
    exit: Option<Exit>,
    wall_ms: u128,
}

impl View for Monitor {
    type V = MonitorView;

    closed spec fn view(&self) -> MonitorView {
        MonitorView {
            timeout_ms: self.timeout_ms,
            timed_out: self.timed_out,
            stdout: self.stdout@,
            stderr: self.stderr@,
            stdout_open: self.stdout_open,
            stderr_open: self.stderr_open,
            exit: self.exit,
            wall_ms: self.wall_ms,
        }
    }
}

impl Monitor {
    /// A run that starts now, with this time limit in milliseconds.
    pub fn new(timeout_ms: Option<u64>) -> (r: Monitor)
        ensures
            r@ == started(timeout_ms),
    {
        Monitor {
            timeout_ms,
            timed_out: false,
            stdout: Vec::new(),
            stderr: Vec::new(),
            stdout_open: true,
            stderr_open: true,
            exit: None,
            wall_ms: 0,
        }
    }

    /// How to wait for something to happen, so long after the start.
    pub fn wait(&self, elapsed: u128) -> (r: Wait)
        ensures
            r == wait_for(self@, elapsed),
    {
        if !self.stdout_open && !self.stderr_open {
            return if self.exit.is_none() {
                Wait::Sleep(IDLE_MS)
            } else {
                Wait::Skip
            };
        }
        match self.timeout_ms {
            None => Wait::Poll(POLL_CAP_MS),
            Some(t) => {
                let limit: u128 = t as u128 * NANOS_PER_MILLI;
                if elapsed >= limit {
                    return Wait::Poll(0);
                }
                let left: u128 = (limit - elapsed) / NANOS_PER_MILLI;
                if left <= POLL_CAP_MS as u128 {
                    Wait::Poll(left as i32)
                } else {
                    Wait::Poll(POLL_CAP_MS)
                }
            },
        }
    }

    /// Whether a stream is still open.
    pub fn wants(&self, channel: Channel) -> (r: bool)
        ensures
            r == is_open(self@, channel),
    {
        match channel {
            Channel::Stdout => self.stdout_open,
            Channel::Stderr => self.stderr_open,
        }
    }

    /// Takes what a read of an open stream came back with.
    pub fn read(&mut self, channel: Channel, event: ReadEvent) -> (r: ReadAction)
        requires
            is_open(old(self)@, channel),
        ensures
            r == read_action(event),
            final(self)@ == after_read(old(self)@, channel, event),
    {
        let (mut bytes, action) = match event {
            ReadEvent::Data(bytes) => (bytes, ReadAction::Again),
            ReadEvent::Interrupted => (Vec::new(), ReadAction::Again),
            ReadEvent::WouldBlock => (Vec::new(), ReadAction::Later),
            ReadEvent::End | ReadEvent::Failed => (Vec::new(), ReadAction::Close),
        };
        let open = action != ReadAction::Close;
        match channel {
            Channel::Stdout => {
                self.stdout.append(&mut bytes);
                self.stdout_open = open;
                assert(self@.stdout =~= old(self)@.stdout + read_bytes(event));
            },
            Channel::Stderr => {
                self.stderr.append(&mut bytes);
                self.stderr_open = open;
                assert(self@.stderr =~= old(self)@.stderr + read_bytes(event));
            },
        }
        action
    }

    /// Whether the child has not been seen to end yet.
    pub fn is_running(&self) -> (r: bool)
        ensures
            r == (self@.exit is None),
    {
        self.exit.is_none()
    }

    /// Takes what a look after the child found, so long after the start.
    pub fn child(&mut self, event: ChildEvent, elapsed: u128) -> (r: ChildAction)
        requires
            old(self)@.exit is None,
        ensures
            final(self)@ == after_child(old(self)@, event, elapsed),
            match event {
                ChildEvent::Alive => r == if overdue(old(self)@.timeout_ms, elapsed) {
                    ChildAction::Kill
                } else {
                    ChildAction::Nothing
                },
                ChildEvent::Ended(_) | ChildEvent::Interrupted => r is Nothing,
                ChildEvent::Failed(reason) => r matches ChildAction::Abort(e) && e@
                    == runtime_error("waitpid"@, reason@),
            },
    {
        match event {
            ChildEvent::Alive => {
                if let Some(t) = self.timeout_ms {
                    if elapsed >= t as u128 * NANOS_PER_MILLI {
                        self.timed_out = true;
                        return ChildAction::Kill;
                    }
                }
                ChildAction::Nothing
            },
            ChildEvent::Ended(exit) => {
                self.exit = Some(exit);
                self.wall_ms = elapsed / NANOS_PER_MILLI;
                ChildAction::Nothing
            },
            ChildEvent::Interrupted => ChildAction::Nothing,
            ChildEvent::Failed(reason) => ChildAction::Abort(rt("waitpid", reason.as_str())),
        }
    }

    /// Whether there is nothing left to wait for, so long after the child was seen
    /// to end.
    pub fn finished(&self, since_exit: u128) -> (r: bool)
        ensures
            r == is_finished(self@, since_exit),
    {
        self.exit.is_some() && ((!self.stdout_open && !self.stderr_open) || since_exit
            >= DRAIN_GRACE)
    }

    /// The outcome of a run whose child has ended: what was captured and measured.
    /// `events` is the text of the cgroup's `memory.events`, where there is one.
    pub fn outcome(
        &self,
        peak_mem_kib: Option<u64>,
        events: Option<&str>,
        memory_limited: bool,
    ) -> (r: Outcome)
        requires
            self@.exit is Some,
        ensures
            r@ == outcome_of(
                self@,
                lossy_text(self@.stdout),
                lossy_text(self@.stderr),
                peak_mem_kib,
                match events {
                    Some(text) => Some(text@),
                    None => None,
                },
                memory_limited,
            ),
            valid_utf8(self@.stdout) ==> r@.stdout == decode_utf8(self@.stdout),
            valid_utf8(self@.stderr) ==> r@.stderr == decode_utf8(self@.stderr),
    {
        let stdout = text_from_bytes(&self.stdout);
        let stderr = text_from_bytes(&self.stderr);
        self.report(stdout, stderr, peak_mem_kib, events, memory_limited)
    }

    /// The outcome of a run whose child has ended, given the texts of what was
    /// captured.
    pub fn report(
        &self,
        stdout: String,
        stderr: String,
        peak_mem_kib: Option<u64>,
        events: Option<&str>,
        memory_limited: bool,
    ) -> (r: Outcome)
        requires
            self@.exit is Some,
        ensures
            r@ == outcome_of(
                self@,
                stdout@,
                stderr@,
                peak_mem_kib,
                match events {
                    Some(text) => Some(text@),
                    None => None,
                },
                memory_limited,
            ),
    {
        let exit = match self.exit {
            Some(e) => e,
            None => Exit::Other,
        };
        let mut oom = match events {
            Some(text) => counts_oom_kills(text),
            None => false,
        };
        if !oom && !self.timed_out && memory_limited {
            if let Exit::Signaled(signal) = exit {
                if signal == SIGKILL {
                    oom = true;
                }
            }
        }
        Outcome {
            exit_code: exit_code(exit),
            timed_out: self.timed_out,
            oom_killed: oom,
            wall_ms: self.wall_ms,
            peak_mem_kib,
            stdout,
            stderr,
        }
    }
}

} // verus!
