//! From a plan to a forked child, one request at a time: the root filesystem is
//! checked, the process leaves for its new namespaces, the streams of a measured
//! run get their pipes, the limits get their cgroup, and only then is the child
//! forked, since it is the next child of a process that has left for a new pid
//! namespace that becomes pid 1 there.
use crate::cgroup::{cgroup_for, plan_cgroup, Cgroup, NOT_DELEGATED};
use crate::error::{rt, runtime_error, Error, ErrorView, Result};
use crate::plan::{Plan, PlanView};
use crate::sandbox::{enter_namespaces, namespace_tasks};
use crate::script::{
    concat, left_after, verdict, Action, Script, TaskView, Verdict, VerdictView,
};
use vstd::prelude::*;

verus! {

/// What a failure to leave the old namespaces is called.
pub const UNSHARE: &'static str = "unshare namespaces (is unprivileged_userns_clone enabled?)";

/// What it is called in a measured run.
pub const UNSHARE_MEASURED: &'static str = "unshare namespaces";

/// The error for a root filesystem that is not a directory.
pub open spec fn rootfs_error(shown: Seq<char>) -> ErrorView {
    ErrorView::Runtime("rootfs '"@ + shown + "' is not a directory"@)
}

/// Refuses a root filesystem that is not a directory; `shown` is its path.
pub fn check_rootfs(is_dir: bool, shown: &str) -> (r: Result<()>)
    ensures
        r is Ok <==> is_dir,
        r matches Err(e) ==> e@ == rootfs_error(shown@),
{
    if is_dir {
        return Ok(());
    }
    Err(Error::Runtime(concat(concat("rootfs '", shown).as_str(), "' is not a directory")))
}

/// What is being done.
enum Phase {
    Inspecting,
    Resolving,
    Identifying,
    Entering(Script),
    Piping,
    ReadingCgroup,
    Limiting(Script, Cgroup),
    Forking(Option<Cgroup>),
    Ready(Option<Cgroup>),
    Failed(Error),
}

/// The meaning of what is being done.
pub enum PhaseView {
    /// Looking at the root filesystem.
    Inspecting,
    /// Finding its canonical path.
    Resolving,
    /// Finding the outer ids.
    Identifying,
    /// Entering the namespaces; this is left of it.
    Entering(Seq<TaskView>),
    /// Making the pipes of a measured run.
    Piping,
    /// Finding the own cgroup.
    ReadingCgroup,
    /// Making the limited cgroup in this directory; this is left of it.
    Limiting(Seq<TaskView>, Seq<char>),
    /// Forking the child, which goes into this cgroup.
    Forking(Option<Seq<char>>),
    /// Nothing: the child is there.
    Ready(Option<Seq<char>>),
    /// Nothing: the launch failed.
    Failed(ErrorView),
}

/// The directory of a cgroup, if there is one.
pub open spec fn dir_of(c: Option<Cgroup>) -> Option<Seq<char>> {
    match c {
        Some(c) => Some(c.dir@),
        None => None,
    }
}

impl View for Phase {
    type V = PhaseView;

    closed spec fn view(&self) -> PhaseView {
        match self {
            Phase::Inspecting => PhaseView::Inspecting,
            Phase::Resolving => PhaseView::Resolving,
            Phase::Identifying => PhaseView::Identifying,
            Phase::Entering(s) => PhaseView::Entering(s@),
            Phase::Piping => PhaseView::Piping,
            Phase::ReadingCgroup => PhaseView::ReadingCgroup,
            Phase::Limiting(s, c) => PhaseView::Limiting(s@, c.dir@),
            Phase::Forking(c) => PhaseView::Forking(dir_of(*c)),
            Phase::Ready(c) => PhaseView::Ready(dir_of(*c)),
            Phase::Failed(e) => PhaseView::Failed(e@),
        }
    }
}

/// Where a launch stands.
pub struct LaunchView {
    pub plan: PlanView,
    /// Whether the run is to be captured and measured.
    pub measured: bool,
    /// The process that launches it.
    pub pid: u32,
    pub phase: PhaseView,
}

/// What to do next.
pub enum Request<'a> {
    /// Look at the root filesystem; then [`Answer::Rootfs`].
    Inspect,
    /// Find the canonical path of the root filesystem, to use from now on; then
    /// [`Answer::Performed`].
    Resolve,
    /// Find the ids of the user; then [`Answer::Ids`].
    Identify,
    /// Do this; then [`Answer::Performed`].
    Perform(&'a Action),
    /// Make a pipe for each stream; then [`Answer::Performed`].
    OpenPipes,
    /// Read `/proc/self/cgroup`; then [`Answer::OwnCgroup`].
    ReadCgroup,
    /// Fork; then, in the parent, [`Answer::Performed`].
    Fork,
    /// Nothing: the child is there. It goes into this cgroup.
    Ready(Option<&'a Cgroup>),
    /// Nothing: the launch failed.
    Failed(Error),
}

/// The meaning of a [`Request`].
pub enum RequestView {
    Inspect,
    Resolve,
    Identify,
    Perform(crate::script::ActionView),
    OpenPipes,
    ReadCgroup,
    Fork,
    Ready(Option<Seq<char>>),
    Failed(ErrorView),
}

impl<'a> View for Request<'a> {
    type V = RequestView;

    open spec fn view(&self) -> RequestView {
        match self {
            Request::Inspect => RequestView::Inspect,
            Request::Resolve => RequestView::Resolve,
            Request::Identify => RequestView::Identify,
            Request::Perform(a) => RequestView::Perform(a@),
            Request::OpenPipes => RequestView::OpenPipes,
            Request::ReadCgroup => RequestView::ReadCgroup,
            Request::Fork => RequestView::Fork,
            Request::Ready(c) => RequestView::Ready(
                match c {
                    Some(c) => Some(c.dir@),
                    None => None,
                },
            ),
            Request::Failed(e) => RequestView::Failed(e@),
        }
    }
}

/// What came of a request.
#[derive(Debug, PartialEq)]
pub enum Answer {
    /// Whether the root filesystem is a directory, and how its path is shown.
    Rootfs { is_dir: bool, shown: String },
    /// The ids of the user.
    Ids { uid: u32, gid: u32 },
    /// The text of `/proc/self/cgroup`, if it could be read.
    OwnCgroup(Option<String>),
    /// It went well, or not, for a reason.
    Performed(Option<String>),
}

/// That what is left of a script are actions, and that there is something left.
pub open spec fn only_actions(tasks: Seq<TaskView>) -> bool {
    tasks.len() > 0 && forall|i: int| 0 <= i < tasks.len() ==> (#[trigger] tasks[i]) is Do
}

/// That none of the tasks ends the script by failing, unless that fails with it.
pub open spec fn never_given_up(tasks: Seq<TaskView>) -> bool {
    forall|i: int| 0 <= i < tasks.len() ==> !((#[trigger] tasks[i])->Do_1 is GiveUp)
}

/// That the failure of any of the tasks is told, and fails nothing.
pub open spec fn never_silent(tasks: Seq<TaskView>) -> bool {
    forall|i: int|
        0 <= i < tasks.len() ==> (#[trigger] tasks[i])->Do_1 is Warn || tasks[i]->Do_1 is GiveUp
}

/// That the scripts of a launch are made of actions; that entering the namespaces
/// is never given up half-way; and that the limits are a best effort, of which the
/// user is told.
pub open spec fn is_sound(l: LaunchView) -> bool {
    match l.phase {
        PhaseView::Entering(tasks) => only_actions(tasks) && never_given_up(tasks),
        PhaseView::Limiting(tasks, _) => only_actions(tasks) && never_silent(tasks),
        _ => true,
    }
}

/// What to do next.
pub open spec fn request(l: LaunchView) -> RequestView {
    match l.phase {
        PhaseView::Inspecting => RequestView::Inspect,
        PhaseView::Resolving => RequestView::Resolve,
        PhaseView::Identifying => RequestView::Identify,
        PhaseView::Entering(tasks) => RequestView::Perform(tasks[0]->Do_0),
        PhaseView::Piping => RequestView::OpenPipes,
        PhaseView::ReadingCgroup => RequestView::ReadCgroup,
        PhaseView::Limiting(tasks, _) => RequestView::Perform(tasks[0]->Do_0),
        PhaseView::Forking(_) => RequestView::Fork,
        PhaseView::Ready(c) => RequestView::Ready(c),
        PhaseView::Failed(e) => RequestView::Failed(e),
    }
}

/// Whether an answer is one to a request.
pub open spec fn answers(a: Answer, r: RequestView) -> bool {
    match a {
        Answer::Rootfs { .. } => r is Inspect,
        Answer::Ids { .. } => r is Identify,
        Answer::OwnCgroup(_) => r is ReadCgroup,
        Answer::Performed(_) => r is Resolve || r is Perform || r is OpenPipes || r is Fork,
    }
}

/// Where a launch stands at the start.
pub open spec fn beginning(plan: PlanView, measured: bool, pid: u32) -> LaunchView {
    LaunchView { plan, measured, pid, phase: PhaseView::Inspecting }
}

/// The reason of a failure, as characters.
pub open spec fn reason_of(failure: Option<String>) -> Option<Seq<char>> {
    match failure {
        Some(reason) => Some(reason@),
        None => None,
    }
}

/// When everything but the limits is ready: limits, if there are any, else the
/// child.
pub open spec fn limits_next(plan: PlanView) -> PhaseView {
    if plan.limits.memory_max is Some || plan.limits.pids_max is Some {
        PhaseView::ReadingCgroup
    } else {
        PhaseView::Forking(None)
    }
}

/// When the namespaces are entered.
pub open spec fn entered(l: LaunchView) -> PhaseView {
    if l.measured {
        PhaseView::Piping
    } else {
        limits_next(l.plan)
    }
}

/// The tasks that enter the namespaces of a plan for this user.
pub open spec fn entering(plan: PlanView, measured: bool, uid: u32, gid: u32) -> Seq<TaskView> {
    namespace_tasks(
        plan.namespaces,
        uid,
        gid,
        if measured {
            UNSHARE_MEASURED@
        } else {
            UNSHARE@
        },
    )
}

/// What is done after an answer.
pub open spec fn next_phase(l: LaunchView, a: Answer) -> PhaseView {
    match (l.phase, a) {
        (PhaseView::Inspecting, Answer::Rootfs { is_dir, shown }) => if is_dir {
            PhaseView::Resolving
        } else {
            PhaseView::Failed(rootfs_error(shown@))
        },
        (PhaseView::Resolving, Answer::Performed(failure)) => match failure {
            None => PhaseView::Identifying,
            Some(reason) => PhaseView::Failed(runtime_error("canonicalize rootfs"@, reason@)),
        },
        (PhaseView::Identifying, Answer::Ids { uid, gid }) => PhaseView::Entering(
            entering(l.plan, l.measured, uid, gid),
        ),
        (PhaseView::Entering(tasks), Answer::Performed(failure)) => {
            let v = verdict(tasks[0]->Do_1, reason_of(failure));
            match v {
                VerdictView::Fail(e) => PhaseView::Failed(e),
                _ => if left_after(tasks, v).len() == 0 {
                    entered(l)
                } else {
                    PhaseView::Entering(left_after(tasks, v))
                },
            }
        },
        (PhaseView::Piping, Answer::Performed(failure)) => match failure {
            None => limits_next(l.plan),
            Some(_) => PhaseView::Failed(ErrorView::Runtime("pipe failed"@)),
        },
        (PhaseView::ReadingCgroup, Answer::OwnCgroup(own)) => match cgroup_for(
            l.plan.limits,
            reason_of(own),
            l.pid,
        ) {
            Some((dir, tasks)) => PhaseView::Limiting(tasks, dir),
            None => PhaseView::Forking(None),
        },
        (PhaseView::Limiting(tasks, dir), Answer::Performed(failure)) => {
            let v = verdict(tasks[0]->Do_1, reason_of(failure));
            match v {
                VerdictView::GiveUp(_) | VerdictView::Fail(_) => PhaseView::Forking(None),
                _ => if left_after(tasks, v).len() == 0 {
                    PhaseView::Forking(Some(dir))
                } else {
                    PhaseView::Limiting(left_after(tasks, v), dir)
                },
            }
        },
        (PhaseView::Forking(c), Answer::Performed(failure)) => match failure {
            None => PhaseView::Ready(c),
            Some(reason) => PhaseView::Failed(runtime_error("fork"@, reason@)),
        },
        _ => l.phase,
    }
}

/// Where a launch stands after an answer.
pub open spec fn stepped(l: LaunchView, a: Answer) -> LaunchView {
    LaunchView { phase: next_phase(l, a), ..l }
}

/// What the user is told about an answer: what a task has to say about its
/// failure, and that there is no cgroup to set the limits in.
pub open spec fn notice(l: LaunchView, a: Answer) -> Option<Seq<char>> {
    let tasks = match l.phase {
        PhaseView::Entering(tasks) => tasks,
        PhaseView::Limiting(tasks, _) => tasks,
        _ => Seq::empty(),
    };
    match a {
        Answer::Performed(failure) => if tasks.len() > 0 {
            match verdict(tasks[0]->Do_1, reason_of(failure)) {
                VerdictView::Warn(m) => Some(m),
                VerdictView::GiveUp(m) => Some(m),
                _ => None,
            }
        } else {
            None
        },
        Answer::OwnCgroup(own) => if l.phase is ReadingCgroup && cgroup_for(
            l.plan.limits,
            reason_of(own),
            l.pid,
        ) is None {
            Some(NOT_DELEGATED@)
        } else {
            None
        },
        _ => None,
    }
}

/// The launch of a run.
pub struct Launch<'a> {
    plan: &'a Plan,
    measured: bool,
    pid: u32,
    phase: Phase,
}

impl<'a> View for Launch<'a> {
    type V = LaunchView;

    closed spec fn view(&self) -> LaunchView {
        LaunchView {
            plan: self.plan@,
            measured: self.measured,
            pid: self.pid,
            phase: self.phase@,
        }
    }
}

/// The tasks that enter namespaces are actions.
proof fn lemma_namespace_tasks(l: LaunchView, uid: u32, gid: u32, attempt: Seq<char>)
    ensures
        only_actions(namespace_tasks(l.plan.namespaces, uid, gid, attempt)),
        never_given_up(namespace_tasks(l.plan.namespaces, uid, gid, attempt)),
{
}

/// The tasks that make a cgroup are actions.
proof fn lemma_cgroup_tasks(limits: crate::plan::Limits, own: Option<Seq<char>>, pid: u32)
    ensures
        cgroup_for(limits, own, pid) matches Some((dir, tasks)) ==> only_actions(tasks)
            && never_silent(tasks),
{
    if let Some((dir, tasks)) = cgroup_for(limits, own, pid) {
        let base = crate::cgroup::base_of(own->Some_0)->Some_0;
        assert forall|i: int| 0 <= i < tasks.len() implies (#[trigger] tasks[i]) is Do && (
        tasks[i]->Do_1 is Warn || tasks[i]->Do_1 is GiveUp) by {
            crate::cgroup::law_limits_never_stop_a_run(limits, base, pid, 0, i, Seq::empty());
        }
    }
}

/// What is left of a script of actions is one, too.
proof fn lemma_left_after(tasks: Seq<TaskView>, v: VerdictView)
    requires
        only_actions(tasks),
    ensures
        left_after(tasks, v).len() > 0 ==> only_actions(left_after(tasks, v)),
        never_given_up(tasks) ==> never_given_up(left_after(tasks, v)),
        never_silent(tasks) ==> never_silent(left_after(tasks, v)),
{
    let left = left_after(tasks, v);
    if never_silent(tasks) {
        assert forall|i: int| 0 <= i < left.len() implies (#[trigger] left[i])->Do_1 is Warn
            || left[i]->Do_1 is GiveUp by {
            assert(left[i] == tasks[i + 1]);
        }
    }
    if never_given_up(tasks) {
        assert forall|i: int| 0 <= i < left.len() implies !((#[trigger] left[i])->Do_1
            is GiveUp) by {
            assert(left[i] == tasks[i + 1]);
        }
    }
    assert forall|i: int| 0 <= i < left.len() implies (#[trigger] left[i]) is Do by {
        assert(left[i] == tasks[i + 1]);
    }
}

impl<'a> Launch<'a> {
    /// The launch of a plan by the process `pid`.
    pub fn new(plan: &'a Plan, measured: bool, pid: u32) -> (r: Launch<'a>)
        ensures
            r@ == beginning(plan@, measured, pid),
            is_sound(r@),
    {
        Launch { plan, measured, pid, phase: Phase::Inspecting }
    }

    /// What to do next.
    pub fn next(&self) -> (r: Request<'_>)
        requires
            is_sound(self@),
        ensures
            r@ == request(self@),
    {
        match &self.phase {
            Phase::Inspecting => Request::Inspect,
            Phase::Resolving => Request::Resolve,
            Phase::Identifying => Request::Identify,
            Phase::Entering(script) => Self::next_action(script),
            Phase::Piping => Request::OpenPipes,
            Phase::ReadingCgroup => Request::ReadCgroup,
            Phase::Limiting(script, _) => Self::next_action(script),
            Phase::Forking(_) => Request::Fork,
            Phase::Ready(c) => match c {
                Some(c) => Request::Ready(Some(c)),
                None => Request::Ready(None),
            },
            Phase::Failed(e) => Request::Failed(e.copy()),
        }
    }

    /// The action that a script asks for.
    fn next_action(script: &'_ Script) -> (r: Request<'_>)
        requires
            only_actions(script@),
        ensures
            r@ == RequestView::Perform(script@[0]->Do_0),
    {
        assert(script@[0] is Do);
        match script.next() {
            crate::script::Request::Perform(a) => Request::Perform(a),
            crate::script::Request::Stop(e) => Request::Failed(e),
            _ => Request::Ready(None),
        }
    }

    /// Goes on when everything but the limits is ready.
    fn go_on_to_limits(&self) -> (r: Phase)
        ensures
            r@ == limits_next(self@.plan),
    {
        if self.plan.limits.any() {
            Phase::ReadingCgroup
        } else {
            Phase::Forking(None)
        }
    }

    /// Takes what came of the last request; what it returns, the user is told.
    pub fn step(&mut self, answer: Answer) -> (r: Option<String>)
        requires
            is_sound(old(self)@),
            answers(answer, request(old(self)@)),
        ensures
            final(self)@ == stepped(old(self)@, answer),
            is_sound(final(self)@),
            match r {
                Some(m) => notice(old(self)@, answer) == Some(m@),
                None => notice(old(self)@, answer) is None,
            },
    {
        let ghost before = self@;
        let mut phase = Phase::Inspecting;
        std::mem::swap(&mut phase, &mut self.phase);
        let mut told: Option<String> = None;
        self.phase = match (phase, answer) {
            (Phase::Inspecting, Answer::Rootfs { is_dir, shown }) => match check_rootfs(
                is_dir,
                shown.as_str(),
            ) {
                Ok(()) => Phase::Resolving,
                Err(e) => Phase::Failed(e),
            },
            (Phase::Resolving, Answer::Performed(failure)) => match failure {
                None => Phase::Identifying,
                Some(reason) => Phase::Failed(rt("canonicalize rootfs", reason.as_str())),
            },
            (Phase::Identifying, Answer::Ids { uid, gid }) => {
                let attempt = if self.measured {
                    UNSHARE_MEASURED
                } else {
                    UNSHARE
                };
                proof {
                    lemma_namespace_tasks(before, uid, gid, attempt@);
                }
                Phase::Entering(Script::new(enter_namespaces(self.plan, uid, gid, attempt)))
            },
            (Phase::Entering(mut script), Answer::Performed(failure)) => {
                let ghost tasks = script@;
                assert(tasks[0] is Do);
                let v = script.performed(failure);
                proof {
                    lemma_left_after(tasks, v@);
                }
                match v {
                    Verdict::Fail(e) => Phase::Failed(e),
                    Verdict::Warn(m) | Verdict::GiveUp(m) => {
                        told = Some(m);
                        if !script.is_done() {
                            Phase::Entering(script)
                        } else if self.measured {
                            Phase::Piping
                        } else {
                            self.go_on_to_limits()
                        }
                    },
                    Verdict::Continue => if !script.is_done() {
                        Phase::Entering(script)
                    } else if self.measured {
                        Phase::Piping
                    } else {
                        self.go_on_to_limits()
                    },
                }
            },
            (Phase::Piping, Answer::Performed(failure)) => match failure {
                None => self.go_on_to_limits(),
                Some(_) => Phase::Failed(Error::Runtime("pipe failed".to_string())),
            },
            (Phase::ReadingCgroup, Answer::OwnCgroup(own)) => {
                proof {
                    lemma_cgroup_tasks(before.plan.limits, reason_of(own), before.pid);
                }
                let text = match &own {
                    Some(text) => Some(text.as_str()),
                    None => None,
                };
                match plan_cgroup(&self.plan.limits, text, self.pid) {
                    Some((cgroup, tasks)) => Phase::Limiting(Script::new(tasks), cgroup),
                    None => {
                        told = Some(NOT_DELEGATED.to_string());
                        Phase::Forking(None)
                    },
                }
            },
            (Phase::Limiting(mut script, cgroup), Answer::Performed(failure)) => {
                let ghost tasks = script@;
                assert(tasks[0] is Do);
                let v = script.performed(failure);
                proof {
                    lemma_left_after(tasks, v@);
                }
                match v {
                    Verdict::Fail(_) => Phase::Forking(None),
                    Verdict::GiveUp(m) => {
                        told = Some(m);
                        Phase::Forking(None)
                    },
                    Verdict::Warn(m) => {
                        told = Some(m);
                        if script.is_done() {
                            Phase::Forking(Some(cgroup))
                        } else {
                            Phase::Limiting(script, cgroup)
                        }
                    },
                    Verdict::Continue => if script.is_done() {
                        Phase::Forking(Some(cgroup))
                    } else {
                        Phase::Limiting(script, cgroup)
                    },
                }
            },
            (Phase::Forking(cgroup), Answer::Performed(failure)) => match failure {
                None => Phase::Ready(cgroup),
                Some(reason) => Phase::Failed(rt("fork", reason.as_str())),
            },
            (other, _) => other,
        };
        told
    }
}

/// Where a launch stands after these answers.
pub open spec fn launched(
    plan: PlanView,
    measured: bool,
    pid: u32,
    given: Seq<Answer>,
) -> LaunchView
    decreases given.len(),
{
    if given.len() == 0 {
        beginning(plan, measured, pid)
    } else {
        stepped(launched(plan, measured, pid, given.drop_last()), given.last())
    }
}

/// Whether each of the answers is one to the request before it.
pub open spec fn is_launch(plan: PlanView, measured: bool, pid: u32, given: Seq<Answer>) -> bool
    decreases given.len(),
{
    given.len() == 0 || (is_launch(plan, measured, pid, given.drop_last()) && answers(
        given.last(),
        request(launched(plan, measured, pid, given.drop_last())),
    ))
}

/// Whether the namespaces are not entered yet.
pub open spec fn is_outside(phase: PhaseView) -> bool {
    phase is Inspecting || phase is Resolving || phase is Identifying
}

/// Whether an answer is the failure of something without which there is no run.
pub open spec fn is_fatal(phase: PhaseView, a: Answer) -> bool {
    match (phase, a) {
        (PhaseView::Inspecting, Answer::Rootfs { is_dir, .. }) => !is_dir,
        (PhaseView::Entering(tasks), Answer::Performed(failure)) => failure is Some
            && tasks[0]->Do_1 is Fail,
        (PhaseView::Resolving, Answer::Performed(failure)) => failure is Some,
        (PhaseView::Piping, Answer::Performed(failure)) => failure is Some,
        (PhaseView::Forking(_), Answer::Performed(failure)) => failure is Some,
        _ => false,
    }
}

/// A launch fails exactly on the failure of something without which there is no
/// run, and then for good. That the limits cannot be set is no such failure.
pub proof fn law_launches_fail_for_good(l: LaunchView, a: Answer)
    requires
        is_sound(l),
        answers(a, request(l)),
    ensures
        stepped(l, a).phase is Failed <==> l.phase is Failed || is_fatal(l.phase, a),
{
    if let PhaseView::Entering(tasks) = l.phase {
        assert(tasks[0] is Do);
    }
}

/// Each step of a launch keeps it sound.
pub proof fn law_launches_stay_sound(
    plan: PlanView,
    measured: bool,
    pid: u32,
    given: Seq<Answer>,
)
    requires
        is_launch(plan, measured, pid, given),
    ensures
        is_sound(launched(plan, measured, pid, given)),
    decreases given.len(),
{
    if given.len() > 0 {
        let before = given.drop_last();
        law_launches_stay_sound(plan, measured, pid, before);
        let l = launched(plan, measured, pid, before);
        match (l.phase, given.last()) {
            (PhaseView::Identifying, Answer::Ids { uid, gid }) => {
                lemma_namespace_tasks(
                    l,
                    uid,
                    gid,
                    if measured {
                        UNSHARE_MEASURED@
                    } else {
                        UNSHARE@
                    },
                );
            },
            (PhaseView::Entering(tasks), Answer::Performed(failure)) => {
                lemma_left_after(tasks, verdict(tasks[0]->Do_1, reason_of(failure)));
            },
            (PhaseView::ReadingCgroup, Answer::OwnCgroup(own)) => {
                lemma_cgroup_tasks(plan.limits, reason_of(own), pid);
            },
            (PhaseView::Limiting(tasks, _), Answer::Performed(failure)) => {
                lemma_left_after(tasks, verdict(tasks[0]->Do_1, reason_of(failure)));
            },
            _ => {},
        }
    }
}

/// Whether the answer `k` gave the ids of the user, and after it the tasks that
/// enter the namespaces were done one by one, none of them left out, as far as the
/// answers go.
pub open spec fn enters_after(
    plan: PlanView,
    measured: bool,
    pid: u32,
    given: Seq<Answer>,
    k: int,
) -> bool {
    &&& 0 <= k < given.len()
    &&& given[k] matches Answer::Ids { uid, gid } && forall|j: int|
        k < j <= given.len() && j <= k + entering(plan, measured, uid, gid).len() ==> (
        #[trigger] launched(plan, measured, pid, given.take(j))).phase == PhaseView::Entering(
            entering(plan, measured, uid, gid).skip(j - k - 1),
        )
}

/// How many of the answers it takes to enter the namespaces, counted up to the last
/// of the tasks that enter them.
pub open spec fn entered_by(plan: PlanView, measured: bool, given: Seq<Answer>, k: int) -> int {
    k + 1 + entering(plan, measured, given[k]->uid, given[k]->gid).len()
}

/// A launch that is no longer outside has been given the ids and has gone on from
/// there; it is past the namespaces when all the tasks that enter them are answered.
proof fn lemma_entering(plan: PlanView, measured: bool, pid: u32, given: Seq<Answer>) -> (k: int)
    requires
        is_launch(plan, measured, pid, given),
        !(launched(plan, measured, pid, given).phase is Failed),
        !is_outside(launched(plan, measured, pid, given).phase),
    ensures
        enters_after(plan, measured, pid, given, k),
        launched(plan, measured, pid, given).phase is Entering <==> given.len() < entered_by(
            plan,
            measured,
            given,
            k,
        ),
    decreases given.len(),
{
    let before = given.drop_last();
    let n = given.len() as int;
    let l = launched(plan, measured, pid, before);
    law_launches_stay_sound(plan, measured, pid, before);
    law_launches_fail_for_good(l, given.last());
    lemma_launch_keeps_plan(plan, measured, pid, before);
    assert(given.take(n) =~= given);
    if is_outside(l.phase) {
        let k = n - 1;
        assert(l.phase is Identifying);
        let tasks = entering(plan, measured, given[k]->uid, given[k]->gid);
        assert(tasks.skip(0) =~= tasks);
        assert forall|j: int| k < j <= n && j <= k + tasks.len() implies (#[trigger] launched(
            plan,
            measured,
            pid,
            given.take(j),
        )).phase == PhaseView::Entering(tasks.skip(j - k - 1)) by {}
        k
    } else {
        let k = lemma_entering(plan, measured, pid, before);
        assert(given[k] == before[k]);
        let tasks = entering(plan, measured, given[k]->uid, given[k]->gid);
        assert(before.take(n - 1) =~= before);
        if l.phase is Entering {
            assert(l.phase == PhaseView::Entering(tasks.skip(n - 1 - k - 1)));
            law_no_task_of_entering_is_skipped(l, given.last());
            assert(tasks.skip(n - k - 2).drop_first() =~= tasks.skip(n - k - 1));
        }
        assert forall|j: int| k < j <= n && j <= k + tasks.len() implies (#[trigger] launched(
            plan,
            measured,
            pid,
            given.take(j),
        )).phase == PhaseView::Entering(tasks.skip(j - k - 1)) by {
            if j < n {
                assert(before.take(j) =~= given.take(j));
            }
        }
        k
    }
}

/// A child is forked only by a process that has entered its new namespaces: a
/// launch that has come to its pipes, its limits or its fork was given the ids of
/// the user, and after that every task that enters the namespaces of the plan was
/// asked for, in order, and answered.
pub proof fn law_fork_comes_after_the_namespaces(
    plan: PlanView,
    measured: bool,
    pid: u32,
    given: Seq<Answer>,
)
    requires
        is_launch(plan, measured, pid, given),
        ({
            let phase = launched(plan, measured, pid, given).phase;
            phase is Piping || phase is ReadingCgroup || phase is Limiting || phase is Forking
                || phase is Ready
        }),
    ensures
        exists|k: int|
            #[trigger] enters_after(plan, measured, pid, given, k) && entered_by(
                plan,
                measured,
                given,
                k,
            ) <= given.len(),
{
    let k = lemma_entering(plan, measured, pid, given);
    assert(enters_after(plan, measured, pid, given, k));
}

/// A launch that has not failed has come through everything that must succeed:
/// nothing of that has failed on the way.
pub proof fn law_launches_pass_over_no_failure(
    plan: PlanView,
    measured: bool,
    pid: u32,
    given: Seq<Answer>,
    k: int,
)
    requires
        is_launch(plan, measured, pid, given),
        !(launched(plan, measured, pid, given).phase is Failed),
        0 <= k < given.len(),
    ensures
        !is_fatal(launched(plan, measured, pid, given.take(k)).phase, given[k]),
    decreases given.len(),
{
    let before = given.drop_last();
    let l = launched(plan, measured, pid, before);
    law_launches_stay_sound(plan, measured, pid, before);
    law_launches_fail_for_good(l, given.last());
    if k < before.len() {
        law_launches_pass_over_no_failure(plan, measured, pid, before, k);
        assert(before.take(k) =~= given.take(k));
    } else {
        assert(given.take(k) =~= before);
    }
}

/// Limits are never dropped in silence: where a launch goes on to its child
/// without the cgroup that it was to have, the user is told; and so they are where
/// a limit could not be set in it.
pub proof fn law_dropped_limits_are_told(l: LaunchView, a: Answer)
    requires
        is_sound(l),
        answers(a, request(l)),
        l.phase is ReadingCgroup || l.phase is Limiting,
    ensures
        stepped(l, a).phase == PhaseView::Forking(None) ==> notice(l, a) is Some,
        l.phase is Limiting ==> (a matches Answer::Performed(failure) ==> failure is Some
            ==> notice(l, a) is Some),
{
    if let PhaseView::Limiting(tasks, _) = l.phase {
        assert(tasks[0] is Do);
        assert(tasks[0]->Do_1 is Warn || tasks[0]->Do_1 is GiveUp);
    }
}

/// A child whose plan sets limits, and that is forked without a cgroup, is never
/// forked before the user was told that the limits are not enforced.
pub proof fn law_unlimited_children_are_announced(
    plan: PlanView,
    measured: bool,
    pid: u32,
    given: Seq<Answer>,
)
    requires
        is_launch(plan, measured, pid, given),
        plan.limits.memory_max is Some || plan.limits.pids_max is Some,
        ({
            let phase = launched(plan, measured, pid, given).phase;
            phase == PhaseView::Forking(None) || phase == PhaseView::Ready(None)
        }),
    ensures
        exists|k: int|
            0 <= k < given.len() && notice(
                #[trigger] launched(plan, measured, pid, given.take(k)),
                given[k],
            ) is Some,
    decreases given.len(),
{
    let before = given.drop_last();
    let l = launched(plan, measured, pid, before);
    let n = given.len() - 1;
    law_launches_stay_sound(plan, measured, pid, before);
    lemma_launch_keeps_plan(plan, measured, pid, before);
    assert(given.take(n) =~= before);
    if l.phase is ReadingCgroup || l.phase is Limiting {
        law_dropped_limits_are_told(l, given.last());
        assert(notice(launched(plan, measured, pid, given.take(n)), given[n]) is Some);
    } else {
        law_unlimited_children_are_announced(plan, measured, pid, before);
        let k = choose|k: int|
            0 <= k < before.len() && notice(
                #[trigger] launched(plan, measured, pid, before.take(k)),
                before[k],
            ) is Some;
        assert(before.take(k) =~= given.take(k));
        assert(notice(launched(plan, measured, pid, given.take(k)), given[k]) is Some);
    }
}

/// A launch keeps to its plan, and stays measured or not.
proof fn lemma_launch_keeps_plan(
    plan: PlanView,
    measured: bool,
    pid: u32,
    given: Seq<Answer>,
)
    ensures
        launched(plan, measured, pid, given).plan == plan,
        launched(plan, measured, pid, given).measured == measured,
    decreases given.len(),
{
    if given.len() > 0 {
        lemma_launch_keeps_plan(plan, measured, pid, given.drop_last());
    }
}

/// The namespaces are left behind only when every task that enters them is done.
pub proof fn law_no_task_of_entering_is_skipped(l: LaunchView, a: Answer)
    requires
        is_sound(l),
        answers(a, request(l)),
        l.phase is Entering,
    ensures
        match stepped(l, a).phase {
            PhaseView::Entering(tasks) => tasks == l.phase->Entering_0.drop_first(),
            PhaseView::Failed(_) => is_fatal(l.phase, a),
            _ => l.phase->Entering_0.len() == 1,
        },
{
    let tasks = l.phase->Entering_0;
    assert(tasks[0] is Do);
}

/// The kinds of request come in one order: a launch never goes back to an earlier
/// one.
pub open spec fn rank(phase: PhaseView) -> int {
    match phase {
        PhaseView::Inspecting => 0,
        PhaseView::Resolving => 1,
        PhaseView::Identifying => 2,
        PhaseView::Entering(_) => 3,
        PhaseView::Piping => 4,
        PhaseView::ReadingCgroup => 5,
        PhaseView::Limiting(_, _) => 6,
        PhaseView::Forking(_) => 7,
        PhaseView::Ready(_) => 8,
        PhaseView::Failed(_) => 9,
    }
}

/// A launch never goes back to something it has done; pipes are made in measured
/// runs only, and a cgroup only where there is something to limit.
pub proof fn law_launches_go_forward(l: LaunchView, a: Answer)
    requires
        is_sound(l),
        answers(a, request(l)),
    ensures
        rank(l.phase) <= rank(stepped(l, a).phase),
        stepped(l, a).phase is Piping && !(l.phase is Piping) ==> l.measured,
        stepped(l, a).phase is ReadingCgroup && !(l.phase is ReadingCgroup)
            ==> l.plan.limits.memory_max is Some || l.plan.limits.pids_max is Some,
{
}

} // verus!
