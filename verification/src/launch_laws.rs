//! How a launch goes, request by request: what is asked for after each answer, and
//! what the user is told.
use crate::cgroup::cgroup_for;
use crate::error::ErrorView;
use crate::launch::{
    answers, beginning, is_sound, notice, request, stepped, Answer, LaunchView, PhaseView,
    RequestView,
};
use crate::plan::PlanView;
use crate::sandbox::namespace_tasks;
use crate::script::{ActionView, OnFailureView, TaskView};
use vstd::prelude::*;

verus! {

/// A launch starts by looking at the root filesystem. One that is a directory is
/// resolved, and then the ids of the user are found; any other is refused, and so is
/// one that has no canonical path. No answer changes what is launched.
pub proof fn law_the_rootfs_is_checked(
    plan: PlanView,
    measured: bool,
    pid: u32,
    l: LaunchView,
    a: Answer,
)
    requires
        answers(a, request(l)),
    ensures
        request(beginning(plan, measured, pid)) is Inspect,
        beginning(plan, measured, pid).plan == plan,
        beginning(plan, measured, pid).measured == measured,
        beginning(plan, measured, pid).pid == pid,
        stepped(l, a).plan == l.plan,
        stepped(l, a).measured == l.measured,
        stepped(l, a).pid == l.pid,
        request(l) is Inspect ==> (a matches Answer::Rootfs { is_dir, shown } && request(
            stepped(l, a),
        ) == if is_dir {
            RequestView::Resolve
        } else {
            RequestView::Failed(ErrorView::Runtime("rootfs '"@ + shown@ + "' is not a directory"@))
        }),
        request(l) is Resolve ==> (a matches Answer::Performed(failure) && request(stepped(l, a))
            == match failure {
            None => RequestView::Identify,
            Some(reason) => RequestView::Failed(
                ErrorView::Runtime("canonicalize rootfs: "@ + reason@),
            ),
        }),
{
    reveal_strlit("canonicalize rootfs");
    reveal_strlit(": ");
    reveal_strlit("canonicalize rootfs: ");
    assert("canonicalize rootfs"@ + ": "@ =~= "canonicalize rootfs: "@);
}

/// Once the ids are known, the namespaces of the plan are entered for that user, and
/// an error says what to look at, but for a measured run.
pub proof fn law_the_namespaces_of_the_plan_are_entered(l: LaunchView, uid: u32, gid: u32)
    requires
        request(l) is Identify,
    ensures
        stepped(l, Answer::Ids { uid, gid }).phase == PhaseView::Entering(
            namespace_tasks(
                l.plan.namespaces,
                uid,
                gid,
                if l.measured {
                    "unshare namespaces"@
                } else {
                    "unshare namespaces (is unprivileged_userns_clone enabled?)"@
                },
            ),
        ),
{
}

/// Entering the namespaces goes on while there is something left of it. Then a
/// measured run gets its pipes, and any run with a limit its cgroup, before the fork.
pub proof fn law_what_follows_the_namespaces(
    l: LaunchView,
    action: ActionView,
    policy: OnFailureView,
    rest: Seq<TaskView>,
)
    requires
        l.phase == PhaseView::Entering(seq![TaskView::Do(action, policy)] + rest),
    ensures
        request(l) == RequestView::Perform(action),
        rest.len() > 0 ==> stepped(l, Answer::Performed(None)).phase == PhaseView::Entering(rest),
        rest.len() == 0 ==> request(stepped(l, Answer::Performed(None))) == if l.measured {
            RequestView::OpenPipes
        } else if l.plan.limits.memory_max is Some || l.plan.limits.pids_max is Some {
            RequestView::ReadCgroup
        } else {
            RequestView::Fork
        },
{
    let tasks = seq![TaskView::Do(action, policy)] + rest;
    assert(tasks[0] == TaskView::Do(action, policy));
    assert(tasks.drop_first() =~= rest);
}

/// After the pipes come the limits, if there are any, and then the fork; a run without
/// its pipes is not launched.
pub proof fn law_what_follows_the_pipes(l: LaunchView, failure: Option<String>)
    requires
        request(l) is OpenPipes,
    ensures
        request(stepped(l, Answer::Performed(failure))) == if failure is Some {
            RequestView::Failed(ErrorView::Runtime("pipe failed"@))
        } else if l.plan.limits.memory_max is Some || l.plan.limits.pids_max is Some {
            RequestView::ReadCgroup
        } else {
            RequestView::Fork
        },
{
}

/// Where the own cgroup allows limits, they are set task by task, and the child goes
/// where they are set; where it does not, or a task without which there are none
/// fails, the child goes nowhere, and the user is told.
pub proof fn law_limits_lead_to_the_fork(
    l: LaunchView,
    own: Option<String>,
    action: ActionView,
    text: Seq<char>,
    rest: Seq<TaskView>,
    dir: Seq<char>,
    reason: String,
)
    ensures
        l.phase is ReadingCgroup ==> {
            let read = match own {
                Some(text) => Some(text@),
                None => None,
            };
            let a = Answer::OwnCgroup(own);
            match cgroup_for(l.plan.limits, read, l.pid) {
                Some((dir, tasks)) => {
                    &&& stepped(l, a).phase == PhaseView::Limiting(tasks, dir)
                    &&& notice(l, a) is None
                },
                None => {
                    &&& stepped(l, a).phase == PhaseView::Forking(None)
                    &&& notice(l, a) == Some(
                        "cgroup limits requested but no delegated writable cgroup v2 is \
                            available; continuing without enforcement"@,
                    )
                },
            }
        },
        l.phase == PhaseView::Limiting(
            seq![TaskView::Do(action, OnFailureView::GiveUp(text))] + rest,
            dir,
        ) ==> {
            &&& request(l) == RequestView::Perform(action)
            &&& notice(l, Answer::Performed(None)) is None
            &&& notice(l, Answer::Performed(Some(reason))) == Some(text)
            &&& stepped(l, Answer::Performed(Some(reason))).phase == PhaseView::Forking(None)
            &&& stepped(l, Answer::Performed(None)).phase == if rest.len() > 0 {
                PhaseView::Limiting(rest, dir)
            } else {
                PhaseView::Forking(Some(dir))
            }
        },
        l.phase == PhaseView::Limiting(
            seq![TaskView::Do(action, OnFailureView::Warn(text))] + rest,
            dir,
        ) ==> {
            &&& request(l) == RequestView::Perform(action)
            &&& notice(l, Answer::Performed(None)) is None
            &&& notice(l, Answer::Performed(Some(reason))) == Some(text)
            &&& forall|failure: Option<String>|
                (#[trigger] stepped(l, Answer::Performed(failure))).phase == if rest.len() > 0 {
                    PhaseView::Limiting(rest, dir)
                } else {
                    PhaseView::Forking(Some(dir))
                }
        },
{
    let gives_up = seq![TaskView::Do(action, OnFailureView::GiveUp(text))] + rest;
    assert(gives_up[0] == TaskView::Do(action, OnFailureView::GiveUp(text)));
    assert(gives_up.drop_first() =~= rest);
    let warns = seq![TaskView::Do(action, OnFailureView::Warn(text))] + rest;
    assert(warns[0] == TaskView::Do(action, OnFailureView::Warn(text)));
    assert(warns.drop_first() =~= rest);
}

/// The fork is the last request: after it the child is there, in the cgroup that was
/// made for it; and a fork that fails is told with its reason.
pub proof fn law_the_fork_is_last(l: LaunchView, dir: Option<Seq<char>>, failure: Option<String>)
    requires
        l.phase == PhaseView::Forking(dir),
    ensures
        request(l) is Fork,
        request(stepped(l, Answer::Performed(failure))) == match failure {
            None => RequestView::Ready(dir),
            Some(reason) => RequestView::Failed(ErrorView::Runtime("fork: "@ + reason@)),
        },
        notice(l, Answer::Performed(failure)) is None,
{
    reveal_strlit("fork");
    reveal_strlit(": ");
    reveal_strlit("fork: ");
    assert("fork"@ + ": "@ =~= "fork: "@);
}

/// Entering the namespaces, a failure that must not be ends the launch with an error
/// that says what was attempted and why it failed; one that may be is passed over.
pub proof fn law_entering_fails_with_a_reason(
    l: LaunchView,
    action: ActionView,
    text: Seq<char>,
    rest: Seq<TaskView>,
    reason: String,
)
    requires
        is_sound(l),
    ensures
        l.phase == PhaseView::Entering(
            seq![TaskView::Do(action, OnFailureView::Fail(text))] + rest,
        ) ==> request(stepped(l, Answer::Performed(Some(reason)))) == RequestView::Failed(
            ErrorView::Runtime(text + ": "@ + reason@),
        ),
        l.phase == PhaseView::Entering(seq![TaskView::Do(action, OnFailureView::Ignore)] + rest)
            ==> stepped(l, Answer::Performed(Some(reason))) == stepped(l, Answer::Performed(None)),
{
    let fails = seq![TaskView::Do(action, OnFailureView::Fail(text))] + rest;
    assert(fails[0] == TaskView::Do(action, OnFailureView::Fail(text)));
    let ignores = seq![TaskView::Do(action, OnFailureView::Ignore)] + rest;
    assert(ignores[0] == TaskView::Do(action, OnFailureView::Ignore));
}

} // verus!
