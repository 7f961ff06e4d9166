//! The loop round a measured run, one request at a time: wait, read both streams,
//! look after the child, and so on until it has ended and its output is in; kill
//! it when it runs past its time limit; and close both streams, whatever happens.
//!
//! [`Supervisor::next`] says what to do, and [`Supervisor::step`] takes what came of
//! it. Times are in nanoseconds since the start of the run.
use crate::error::{runtime_error, Error, ErrorView};
use crate::monitor::{
    after_child, after_read, is_finished, is_open, overdue, read_action, started, wait_for,
    Channel, ChildAction, ChildEvent, Monitor, MonitorView, ReadAction, ReadEvent, Wait,
};
use vstd::prelude::*;

verus! {

/// What is being done.
enum Phase {
    /// Waiting for something to happen.
    Waiting,
    /// Reading a stream.
    Reading(Channel),
    /// Closing a stream that has ended.
    Closing(Channel),
    /// Looking after the child.
    Looking,
    /// Killing the child, which has run past its time limit.
    Killing,
    /// Closing what is still open, at the end of the run.
    Ending,
    /// Killing the child, which cannot be looked after any more.
    Aborting(Error),
    /// Closing what is still open, after that.
    Leaving(Error),
}

/// The meaning of what is being done.
pub enum PhaseView {
    Waiting,
    Reading(Channel),
    Closing(Channel),
    Looking,
    Killing,
    Ending,
    Aborting(ErrorView),
    Leaving(ErrorView),
}

impl View for Phase {
    type V = PhaseView;

    closed spec fn view(&self) -> PhaseView {
        match self {
            Phase::Waiting => PhaseView::Waiting,
            Phase::Reading(c) => PhaseView::Reading(*c),
            Phase::Closing(c) => PhaseView::Closing(*c),
            Phase::Looking => PhaseView::Looking,
            Phase::Killing => PhaseView::Killing,
            Phase::Ending => PhaseView::Ending,
            Phase::Aborting(e) => PhaseView::Aborting(e@),
            Phase::Leaving(e) => PhaseView::Leaving(e@),
        }
    }
}

/// Where the supervision of a run stands.
pub struct SupervisorView {
    /// What is known of the run.
    pub run: MonitorView,
    /// What is being done.
    pub phase: PhaseView,
    /// Whether the descriptors of the streams are still open.
    pub stdout_held: bool,
    pub stderr_held: bool,
    /// When the child was seen to end.
    pub ended_at: u128,
}

/// What to do next.
#[derive(Debug, PartialEq)]
pub enum Request {
    /// Wait; then [`Event::Waited`].
    Wait(Wait),
    /// Read once from a stream; then [`Event::Read`].
    Read(Channel),
    /// Close the descriptor of a stream; then [`Event::Closed`].
    Close(Channel),
    /// Look whether the child has ended; then [`Event::Child`].
    Look,
    /// Kill the child; then [`Event::Killed`].
    Kill,
    /// Nothing: the run is over, and [`Supervisor::monitor`] has its outcome.
    Finished,
    /// Nothing: the run is lost, for this reason.
    Failed(Error),
}

/// The meaning of a [`Request`].
pub enum RequestView {
    Wait(Wait),
    Read(Channel),
    Close(Channel),
    Look,
    Kill,
    Finished,
    Failed(ErrorView),
}

impl View for Request {
    type V = RequestView;

    open spec fn view(&self) -> RequestView {
        match self {
            Request::Wait(w) => RequestView::Wait(*w),
            Request::Read(c) => RequestView::Read(*c),
            Request::Close(c) => RequestView::Close(*c),
            Request::Look => RequestView::Look,
            Request::Kill => RequestView::Kill,
            Request::Finished => RequestView::Finished,
            Request::Failed(e) => RequestView::Failed(e@),
        }
    }
}

/// What came of a request.
#[derive(Debug, PartialEq)]
pub enum Event {
    Waited,
    Read(ReadEvent),
    Closed,
    Child(ChildEvent),
    Killed,
}

/// Where the supervision stands at the start.
pub open spec fn beginning(timeout_ms: Option<u64>) -> SupervisorView {
    SupervisorView {
        run: started(timeout_ms),
        phase: PhaseView::Waiting,
        stdout_held: true,
        stderr_held: true,
        ended_at: 0,
    }
}

/// Whether the descriptor of a stream is still open.
pub open spec fn holds(s: SupervisorView, channel: Channel) -> bool {
    match channel {
        Channel::Stdout => s.stdout_held,
        Channel::Stderr => s.stderr_held,
    }
}

/// The stream to close next, of those that are still held.
pub open spec fn next_to_close(s: SupervisorView) -> Option<Channel> {
    if s.stdout_held {
        Some(Channel::Stdout)
    } else if s.stderr_held {
        Some(Channel::Stderr)
    } else {
        None
    }
}

/// What to do next, so long after the start.
pub open spec fn request(s: SupervisorView, elapsed: u128) -> RequestView {
    match s.phase {
        PhaseView::Waiting => RequestView::Wait(wait_for(s.run, elapsed)),
        PhaseView::Reading(c) => RequestView::Read(c),
        PhaseView::Closing(c) => RequestView::Close(c),
        PhaseView::Looking => RequestView::Look,
        PhaseView::Killing => RequestView::Kill,
        PhaseView::Ending => match next_to_close(s) {
            Some(c) => RequestView::Close(c),
            None => RequestView::Finished,
        },
        PhaseView::Aborting(_) => RequestView::Kill,
        PhaseView::Leaving(e) => match next_to_close(s) {
            Some(c) => RequestView::Close(c),
            None => RequestView::Failed(e),
        },
    }
}

/// Whether an event is an answer to a request.
pub open spec fn answers(event: Event, r: RequestView) -> bool {
    match event {
        Event::Waited => r is Wait,
        Event::Read(_) => r is Read,
        Event::Closed => r is Close,
        Event::Child(_) => r is Look,
        Event::Killed => r is Kill,
    }
}

/// How long ago the child was seen to end.
pub open spec fn since_exit(s: SupervisorView, elapsed: u128) -> u128 {
    if elapsed >= s.ended_at {
        (elapsed - s.ended_at) as u128
    } else {
        0
    }
}

/// At the end of a round: over, or once more.
pub open spec fn rounded(s: SupervisorView, elapsed: u128) -> SupervisorView {
    SupervisorView {
        phase: if is_finished(s.run, since_exit(s, elapsed)) {
            PhaseView::Ending
        } else {
            PhaseView::Waiting
        },
        ..s
    }
}

/// When the streams have been read: look after the child, unless it has ended.
pub open spec fn all_was_read(s: SupervisorView, elapsed: u128) -> SupervisorView {
    if s.run.exit is None {
        SupervisorView { phase: PhaseView::Looking, ..s }
    } else {
        rounded(s, elapsed)
    }
}

/// When standard output has been read: read standard error, if it is open.
pub open spec fn stdout_was_read(s: SupervisorView, elapsed: u128) -> SupervisorView {
    if s.run.stderr_open {
        SupervisorView { phase: PhaseView::Reading(Channel::Stderr), ..s }
    } else {
        all_was_read(s, elapsed)
    }
}

/// When a stream has been read.
pub open spec fn was_read(s: SupervisorView, channel: Channel, elapsed: u128) -> SupervisorView {
    match channel {
        Channel::Stdout => stdout_was_read(s, elapsed),
        Channel::Stderr => all_was_read(s, elapsed),
    }
}

/// Without a stream's descriptor.
pub open spec fn released(s: SupervisorView, channel: Channel) -> SupervisorView {
    match channel {
        Channel::Stdout => SupervisorView { stdout_held: false, ..s },
        Channel::Stderr => SupervisorView { stderr_held: false, ..s },
    }
}

/// Where the supervision stands after an answer, so long after the start.
pub open spec fn stepped(s: SupervisorView, event: Event, elapsed: u128) -> SupervisorView {
    match (s.phase, event) {
        (PhaseView::Waiting, _) => if s.run.stdout_open {
            SupervisorView { phase: PhaseView::Reading(Channel::Stdout), ..s }
        } else {
            stdout_was_read(s, elapsed)
        },
        (PhaseView::Reading(c), Event::Read(e)) => {
            let t = SupervisorView { run: after_read(s.run, c, e), ..s };
            match read_action(e) {
                ReadAction::Again => t,
                ReadAction::Later => was_read(t, c, elapsed),
                ReadAction::Close => SupervisorView { phase: PhaseView::Closing(c), ..t },
            }
        },
        (PhaseView::Closing(c), _) => was_read(released(s, c), c, elapsed),
        (PhaseView::Looking, Event::Child(e)) => {
            let t = SupervisorView { run: after_child(s.run, e, elapsed), ..s };
            match e {
                ChildEvent::Alive => SupervisorView {
                    phase: if overdue(s.run.timeout_ms, elapsed) {
                        PhaseView::Killing
                    } else {
                        PhaseView::Waiting
                    },
                    ..t
                },
                ChildEvent::Ended(_) => rounded(
                    SupervisorView { ended_at: elapsed, ..t },
                    elapsed,
                ),
                ChildEvent::Interrupted => SupervisorView { phase: PhaseView::Waiting, ..t },
                ChildEvent::Failed(reason) => SupervisorView {
                    phase: PhaseView::Aborting(runtime_error("waitpid"@, reason@)),
                    ..t
                },
            }
        },
        (PhaseView::Killing, _) => SupervisorView { phase: PhaseView::Waiting, ..s },
        (PhaseView::Ending, _) => match next_to_close(s) {
            Some(c) => released(s, c),
            None => s,
        },
        (PhaseView::Aborting(e), _) => SupervisorView { phase: PhaseView::Leaving(e), ..s },
        (PhaseView::Leaving(_), _) => match next_to_close(s) {
            Some(c) => released(s, c),
            None => s,
        },
        _ => s,
    }
}

/// That what is being done fits what is known: only an open stream is read, only
/// a stream that has ended is closed in the middle of the run, a stream is open
/// exactly as long as its descriptor until then, only a child that has not ended
/// is looked after, and the end comes only after the child's.
pub open spec fn is_sound(s: SupervisorView) -> bool {
    match s.phase {
        PhaseView::Waiting | PhaseView::Looking | PhaseView::Killing | PhaseView::Aborting(_) => {
            &&& s.stdout_held == s.run.stdout_open
            &&& s.stderr_held == s.run.stderr_open
            &&& !(s.phase is Waiting) ==> s.run.exit is None
        },
        PhaseView::Reading(c) => {
            &&& is_open(s.run, c)
            &&& s.stdout_held == s.run.stdout_open
            &&& s.stderr_held == s.run.stderr_open
        },
        PhaseView::Closing(c) => {
            &&& !is_open(s.run, c)
            &&& holds(s, c)
            &&& c == Channel::Stdout ==> s.stderr_held == s.run.stderr_open
            &&& c == Channel::Stderr ==> s.stdout_held == s.run.stdout_open
        },
        PhaseView::Ending => s.run.exit is Some,
        PhaseView::Leaving(_) => true,
    }
}

/// The supervision of a run.
pub struct Supervisor {
    monitor: Monitor,
    phase: Phase,
    stdout_held: bool,
    stderr_held: bool,
    ended_at: u128,
}

impl View for Supervisor {
    type V = SupervisorView;

    closed spec fn view(&self) -> SupervisorView {
        SupervisorView {
            run: self.monitor@,
            phase: self.phase@,
            stdout_held: self.stdout_held,
            stderr_held: self.stderr_held,
            ended_at: self.ended_at,
        }
    }
}

impl Supervisor {
    /// The supervision of a run that starts now, with this time limit in
    /// milliseconds.
    pub fn new(timeout_ms: Option<u64>) -> (r: Supervisor)
        ensures
            r@ == beginning(timeout_ms),
            is_sound(r@),
    {
        Supervisor {
            monitor: Monitor::new(timeout_ms),
            phase: Phase::Waiting,
            stdout_held: true,
            stderr_held: true,
            ended_at: 0,
        }
    }

    /// What is known of the run.
    pub fn monitor(&self) -> (r: &Monitor)
        ensures
            r@ == self@.run,
    {
        &self.monitor
    }

    /// The stream to close next, of those that are still held.
    fn next_held(&self) -> (r: Option<Channel>)
        ensures
            r == next_to_close(self@),
    {
        if self.stdout_held {
            Some(Channel::Stdout)
        } else if self.stderr_held {
            Some(Channel::Stderr)
        } else {
            None
        }
    }

    /// What to do next, so long after the start.
    pub fn next(&self, elapsed: u128) -> (r: Request)
        ensures
            r@ == request(self@, elapsed),
    {
        match &self.phase {
            Phase::Waiting => Request::Wait(self.monitor.wait(elapsed)),
            Phase::Reading(c) => Request::Read(*c),
            Phase::Closing(c) => Request::Close(*c),
            Phase::Looking => Request::Look,
            Phase::Killing => Request::Kill,
            Phase::Ending => match self.next_held() {
                Some(c) => Request::Close(c),
                None => Request::Finished,
            },
            Phase::Aborting(_) => Request::Kill,
            Phase::Leaving(e) => match self.next_held() {
                Some(c) => Request::Close(c),
                None => Request::Failed(e.copy()),
            },
        }
    }

    /// Ends a round: over, or once more.
    fn round(&mut self, elapsed: u128)
        ensures
            final(self)@ == rounded(old(self)@, elapsed),
    {
        let since: u128 = if elapsed >= self.ended_at {
            elapsed - self.ended_at
        } else {
            0
        };
        self.phase = if self.monitor.finished(since) {
            Phase::Ending
        } else {
            Phase::Waiting
        };
    }

    /// Goes on when the streams have been read.
    fn leave_streams(&mut self, elapsed: u128)
        ensures
            final(self)@ == all_was_read(old(self)@, elapsed),
    {
        if self.monitor.is_running() {
            self.phase = Phase::Looking;
        } else {
            self.round(elapsed);
        }
    }

    /// Goes on when a stream has been read.
    fn leave_stream(&mut self, channel: Channel, elapsed: u128)
        ensures
            final(self)@ == was_read(old(self)@, channel, elapsed),
    {
        match channel {
            Channel::Stdout => {
                if self.monitor.wants(Channel::Stderr) {
                    self.phase = Phase::Reading(Channel::Stderr);
                } else {
                    self.leave_streams(elapsed);
                }
            },
            Channel::Stderr => {
                self.leave_streams(elapsed);
            },
        }
    }

    /// Lets go of a stream's descriptor.
    fn release(&mut self, channel: Channel)
        ensures
            final(self)@ == released(old(self)@, channel),
    {
        match channel {
            Channel::Stdout => {
                self.stdout_held = false;
            },
            Channel::Stderr => {
                self.stderr_held = false;
            },
        }
    }

    /// Takes what came of the last request, so long after the start.
    pub fn step(&mut self, event: Event, elapsed: u128)
        requires
            is_sound(old(self)@),
            answers(event, request(old(self)@, elapsed)),
        ensures
            final(self)@ == stepped(old(self)@, event, elapsed),
            is_sound(final(self)@),
    {
        let mut phase = Phase::Waiting;
        std::mem::swap(&mut phase, &mut self.phase);
        match phase {
            Phase::Waiting => {
                if self.monitor.wants(Channel::Stdout) {
                    self.phase = Phase::Reading(Channel::Stdout);
                } else {
                    self.leave_stream(Channel::Stdout, elapsed);
                }
            },
            Phase::Reading(c) => {
                if let Event::Read(e) = event {
                    match self.monitor.read(c, e) {
                        ReadAction::Again => {
                            self.phase = Phase::Reading(c);
                        },
                        ReadAction::Later => {
                            self.leave_stream(c, elapsed);
                        },
                        ReadAction::Close => {
                            self.phase = Phase::Closing(c);
                        },
                    }
                }
            },
            Phase::Closing(c) => {
                self.release(c);
                self.leave_stream(c, elapsed);
            },
            Phase::Looking => {
                if let Event::Child(e) = event {
                    let ended = matches!(e, ChildEvent::Ended(_));
                    match self.monitor.child(e, elapsed) {
                        ChildAction::Nothing => {
                            if ended {
                                self.ended_at = elapsed;
                                self.round(elapsed);
                            } else {
                                self.phase = Phase::Waiting;
                            }
                        },
                        ChildAction::Kill => {
                            self.phase = Phase::Killing;
                        },
                        ChildAction::Abort(e) => {
                            self.phase = Phase::Aborting(e);
                        },
                    }
                }
            },
            Phase::Killing => {
                self.phase = Phase::Waiting;
            },
            Phase::Ending => {
                self.phase = Phase::Ending;
                if let Some(c) = self.next_held() {
                    self.release(c);
                }
            },
            Phase::Aborting(e) => {
                self.phase = Phase::Leaving(e);
            },
            Phase::Leaving(e) => {
                self.phase = Phase::Leaving(e);
                if let Some(c) = self.next_held() {
                    self.release(c);
                }
            },
        }
    }
}

} // verus!
