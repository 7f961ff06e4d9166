//! What holds of the way to an isolated process: what comes before what, what is
//! never left out, and what a failure stops.
use crate::plan::{Namespace, PlanView};
use crate::sandbox::{
    child_tasks, cwd_task, deprivilege_tasks, detach_tasks, dev_tasks, full_env, host_tasks,
    hostname_tasks, id_map, launch_task, namespace_tasks, pivot_tasks, privileged_tasks,
    proc_tasks, seal_tasks, seccomp_task, sets, write_action, CAPABILITIES, DEFAULT_PATH,
};
use crate::script::{
    expansion, left_after, read_only_action, request, verdict, ActionView, OnFailureView,
    PlaceView, Probe, RequestView, TaskView, BIND_TREE, PRIVATE_TREE,
};
use vstd::prelude::*;

verus! {

/// A task that only works with capabilities.
pub open spec fn needs_capabilities(t: TaskView) -> bool {
    match t {
        TaskView::Bind(_) | TaskView::Device(_) => true,
        TaskView::Do(a, _) => a is SetHostname || a is Mount || a is PivotRoot || a is Detach,
        TaskView::Refuse(_) => false,
    }
}

/// A task that gives up capabilities or restricts the process.
pub open spec fn restricts(t: TaskView) -> bool {
    match t {
        TaskView::Do(a, _) => a is NoNewPrivs || a is ClearAmbient || a is DropCapability
            || a is LoadSeccomp,
        _ => false,
    }
}

/// A task that reads from the old root.
pub open spec fn uses_old_root(t: TaskView) -> bool {
    t is Bind || t is Device
}

/// A task that does an action of a kind.
pub open spec fn does(t: TaskView, a: ActionView) -> bool {
    t matches TaskView::Do(b, _) && b == a
}

/// Where the old root is in place: after the first of these positions, which
/// swaps the root, and before the second, which detaches the old one.
pub open spec fn pivot_position(plan: PlanView) -> int {
    hostname_tasks(plan).len() as int + 3
}

/// Where the old root is detached.
pub open spec fn detach_position(plan: PlanView) -> int {
    hostname_tasks(plan).len() as int + pivot_tasks().len() + proc_tasks(plan).len()
        + dev_tasks().len() + plan.mounts.len()
}

/// Whether the task at `i` is one of `part`, whose first task is at `start`.
spec fn stands_in(tasks: Seq<TaskView>, i: int, part: Seq<TaskView>, start: int) -> bool {
    start <= i < start + part.len() && tasks[i] == part[i - start]
}

/// Every task of the child is in one of the parts that its tasks are made of.
proof fn lemma_parts(plan: PlanView, i: int)
    requires
        0 <= i < child_tasks(plan).len(),
    ensures
        ({
            let all = child_tasks(plan);
            let pivot = hostname_tasks(plan).len() as int;
            let proc = pivot + pivot_tasks().len();
            let dev = proc + proc_tasks(plan).len();
            let detach = detach_position(plan);
            let host = detach - plan.mounts.len();
            let seal = detach + detach_tasks().len();
            let cwd = seal + seal_tasks(plan).len();
            ||| stands_in(all, i, hostname_tasks(plan), 0)
            ||| stands_in(all, i, pivot_tasks(), pivot)
            ||| stands_in(all, i, proc_tasks(plan), proc)
            ||| stands_in(all, i, dev_tasks(), dev)
            ||| stands_in(all, i, host_tasks(plan.mounts), host)
            ||| stands_in(all, i, detach_tasks(), detach)
            ||| stands_in(all, i, seal_tasks(plan), seal)
            ||| i == cwd && all[i] == cwd_task(plan)
            ||| stands_in(all, i, deprivilege_tasks(), cwd + 1)
            ||| i == all.len() - 2 && all[i] == seccomp_task()
            ||| i == all.len() - 1 && all[i] == launch_task(plan)
        }),
{
    let p = privileged_tasks(plan);
    let d = deprivilege_tasks();
    let all = child_tasks(plan);
    if i < p.len() {
        assert(all[i] == p[i]);
    } else if i < p.len() + d.len() {
        assert(all[i] == d[i - p.len()]);
    }
}

/// Everything that needs capabilities comes before the first task that gives any
/// up: the mounts are all done when the process is restricted.
pub proof fn law_mounts_come_before_restrictions(plan: PlanView, i: int, j: int)
    requires
        0 <= i < child_tasks(plan).len(),
        0 <= j < child_tasks(plan).len(),
        needs_capabilities(child_tasks(plan)[i]),
        restricts(child_tasks(plan)[j]),
    ensures
        i < j,
{
    lemma_parts(plan, i);
    lemma_parts(plan, j);
}

/// The seccomp filter is loaded once, after everything else but the program
/// itself; `no_new_privs` is set before it, without which an unprivileged process
/// could not load it.
pub proof fn law_seccomp_is_last(plan: PlanView, j: int)
    requires
        0 <= j < child_tasks(plan).len(),
    ensures
        does(child_tasks(plan)[j], ActionView::LoadSeccomp) <==> j == child_tasks(plan).len() - 2,
        child_tasks(plan).last() == launch_task(plan),
        exists|i: int|
            0 <= i < child_tasks(plan).len() - 2 && does(
                #[trigger] child_tasks(plan)[i],
                ActionView::NoNewPrivs,
            ),
{
    lemma_parts(plan, j);
    let p = privileged_tasks(plan).len() as int;
    let all = child_tasks(plan);
    assert(all[p] == deprivilege_tasks()[0]);
    assert(does(all[p], ActionView::NoNewPrivs));
}

/// Whatever the plan, `no_new_privs` is set, the ambient capabilities are
/// cleared, every capability is dropped and the seccomp filter is loaded.
pub proof fn law_hardening_is_always_on(plan: PlanView, cap: u8)
    requires
        cap < CAPABILITIES,
    ensures
        child_tasks(plan).contains(TaskView::Do(ActionView::NoNewPrivs, OnFailureView::Ignore)),
        child_tasks(plan).contains(TaskView::Do(ActionView::ClearAmbient, OnFailureView::Ignore)),
        child_tasks(plan).contains(
            TaskView::Do(ActionView::DropCapability(cap), OnFailureView::Ignore),
        ),
        child_tasks(plan).contains(TaskView::Do(ActionView::LoadSeccomp, OnFailureView::Ignore)),
{
    let p = privileged_tasks(plan).len() as int;
    let d = deprivilege_tasks().len() as int;
    let all = child_tasks(plan);
    assert(all[p] == TaskView::Do(ActionView::NoNewPrivs, OnFailureView::Ignore));
    assert(all[p + 1] == TaskView::Do(ActionView::ClearAmbient, OnFailureView::Ignore));
    assert(all[p + 2 + cap] == deprivilege_tasks()[2 + cap]);
    assert(all[p + 2 + cap] == TaskView::Do(
        ActionView::DropCapability(cap),
        OnFailureView::Ignore,
    ));
    assert(all[p + d] == TaskView::Do(ActionView::LoadSeccomp, OnFailureView::Ignore));
}

/// The old root is detached once and for all, after the swap; and everything
/// that is bound from it is bound in between.
pub proof fn law_binds_happen_while_the_old_root_is_there(plan: PlanView, i: int)
    requires
        0 <= i < child_tasks(plan).len(),
    ensures
        does(child_tasks(plan)[pivot_position(plan)], ActionView::PivotRoot),
        does(child_tasks(plan)[detach_position(plan)], ActionView::Detach("/.oldroot"@)),
        uses_old_root(child_tasks(plan)[i]) ==> pivot_position(plan) < i < detach_position(plan),
{
    let all = child_tasks(plan);
    assert(all[pivot_position(plan)] == pivot_tasks()[3]);
    assert(all[detach_position(plan)] == detach_tasks()[0]);
    lemma_parts(plan, i);
}

/// The root is swapped only when the mount tree is private, so nothing leaks back
/// to the host, and the new root is a mount point; and the container is in the
/// new root when the old one is detached, so there is no way back.
pub proof fn law_root_is_swapped_safely(plan: PlanView)
    ensures
        ({
            let all = child_tasks(plan);
            let p = pivot_position(plan);
            &&& does(
                all[p - 3],
                ActionView::Mount {
                    source: None,
                    target: PlaceView::At("/"@),
                    fstype: None,
                    flags: PRIVATE_TREE,
                },
            )
            &&& does(
                all[p - 2],
                ActionView::Mount {
                    source: Some(PlaceView::Rootfs),
                    target: PlaceView::Rootfs,
                    fstype: None,
                    flags: BIND_TREE,
                },
            )
            &&& does(all[p - 1], ActionView::CreateDir(PlaceView::OldRoot))
            &&& does(all[p], ActionView::PivotRoot)
            &&& does(all[p + 1], ActionView::ChangeDir("/"@))
            &&& p + 1 < detach_position(plan)
            &&& does(all[detach_position(plan)], ActionView::Detach("/.oldroot"@))
            &&& forall|i: int|
                p - 3 <= i <= p + 1 ==> (#[trigger] all[i])->Do_1 is Fail
            &&& all[detach_position(plan)]->Do_1 is Fail
        }),
{
    let a = hostname_tasks(plan).len() as int;
    let all = child_tasks(plan);
    let b = pivot_tasks();
    assert(all[a] == b[0] && all[a + 1] == b[1] && all[a + 2] == b[2]);
    assert(all[a + 3] == b[3] && all[a + 4] == b[4]);
    assert(all[detach_position(plan)] == detach_tasks()[0]);
}

/// Every mount of the plan is bound, in the order of the plan, and each before
/// the old root is detached.
pub proof fn law_every_mount_is_bound(plan: PlanView, k: int)
    requires
        0 <= k < plan.mounts.len(),
    ensures
        child_tasks(plan)[detach_position(plan) - plan.mounts.len() + k] == TaskView::Bind(
            plan.mounts[k],
        ),
{
    let n = detach_position(plan) - plan.mounts.len();
    assert(child_tasks(plan)[n + k] == host_tasks(plan.mounts)[k]);
}

/// The task that makes the root read-only.
pub open spec fn seal() -> TaskView {
    TaskView::Do(read_only_action("/"@), OnFailureView::Fail("remount rootfs read-only"@))
}

/// The root is made read-only if and only if the plan says so, and then after
/// everything was bound into it.
pub proof fn law_read_only_root(plan: PlanView)
    ensures
        child_tasks(plan).contains(seal()) <==> plan.readonly,
        plan.readonly ==> child_tasks(plan)[detach_position(plan) + 2] == seal(),
{
    let all = child_tasks(plan);
    if plan.readonly {
        assert(all[detach_position(plan) + 2] == seal_tasks(plan)[0]);
    }
    if all.contains(seal()) {
        let i = choose|i: int| 0 <= i < all.len() && all[i] == seal();
        lemma_parts(plan, i);
        lemma_private_is_not_seal();
    }
}

/// Making the mount tree private is not the same as making the root read-only.
proof fn lemma_private_is_not_seal()
    ensures
        pivot_tasks()[0] != seal(),
{
    reveal_strlit("make / private");
    reveal_strlit("remount rootfs read-only");
    assert("make / private"@.len() != "remount rootfs read-only"@.len());
}

/// The container always has a search path: its own, or else the default one; and
/// it has all its own variables.
pub proof fn law_search_path_is_set(env: Seq<(Seq<char>, Seq<char>)>)
    ensures
        sets(full_env(env), "PATH"@),
        env.is_prefix_of(full_env(env)),
        sets(env, "PATH"@) ==> full_env(env) == env,
        !sets(env, "PATH"@) ==> full_env(env).last() == ("PATH"@, DEFAULT_PATH@),
{
    if !sets(env, "PATH"@) {
        assert(full_env(env)[env.len() as int].0 == "PATH"@);
        assert(full_env(env).take(env.len() as int) =~= env);
    } else {
        assert(env.take(env.len() as int) =~= env);
    }
}

/// With a user namespace, `setgroups` is denied after the namespaces are left
/// and before the gid map is written, and both maps make the outer id 0.
pub proof fn law_setgroups_before_gid_map(
    namespaces: Seq<Namespace>,
    uid: u32,
    gid: u32,
    attempt: Seq<char>,
)
    requires
        namespaces.contains(Namespace::User),
    ensures
        ({
            let tasks = namespace_tasks(namespaces, uid, gid, attempt);
            &&& tasks.len() == 4
            &&& tasks[0] matches TaskView::Do(a, _) && a is Unshare
            &&& does(tasks[1], write_action("/proc/self/uid_map"@, id_map(uid)))
            &&& does(tasks[2], write_action("/proc/self/setgroups"@, "deny"@))
            &&& does(tasks[3], write_action("/proc/self/gid_map"@, id_map(gid)))
        }),
{
}

/// An answer to a request of a script: how an action went, or what a probe found.
pub enum AnswerView {
    Performed(Option<Seq<char>>),
    Found(Probe),
}

/// What is left of a script after an answer; nothing, where it failed or was
/// given up.
pub open spec fn after_answer(tasks: Seq<TaskView>, answer: AnswerView) -> Seq<TaskView> {
    match (request(tasks), answer) {
        (RequestView::Perform(_), AnswerView::Performed(failure)) => left_after(
            tasks,
            verdict(tasks[0]->Do_1, failure),
        ),
        (RequestView::Probe(_), AnswerView::Found(found)) => match expansion(tasks[0], found) {
            Ok(more) => more + tasks.drop_first(),
            Err(_) => Seq::empty(),
        },
        _ => Seq::empty(),
    }
}

/// What is left of a script after some answers.
pub open spec fn after_answers(tasks: Seq<TaskView>, answers: Seq<AnswerView>) -> Seq<TaskView>
    decreases answers.len(),
{
    if answers.len() == 0 {
        tasks
    } else {
        after_answer(after_answers(tasks, answers.drop_last()), answers.last())
    }
}

/// Whether an answer is the failure of a task that must succeed.
pub open spec fn is_fatal(task: TaskView, answer: AnswerView) -> bool {
    match (task, answer) {
        (TaskView::Do(_, OnFailureView::Fail(_)), AnswerView::Performed(failure)) => failure
            is Some,
        (TaskView::Bind(_), AnswerView::Found(found)) => found == Probe::Missing,
        _ => false,
    }
}

/// A script that still has something to do has come through every earlier task:
/// none that must succeed has failed.
pub proof fn law_failures_are_never_passed_over(
    tasks: Seq<TaskView>,
    answers: Seq<AnswerView>,
    k: int,
)
    requires
        after_answers(tasks, answers).len() > 0,
        0 <= k < answers.len(),
    ensures
        after_answers(tasks, answers.take(k)).len() > 0,
        !is_fatal(after_answers(tasks, answers.take(k))[0], answers[k]),
    decreases answers.len(),
{
    let before = answers.drop_last();
    let left = after_answers(tasks, before);
    assert(left.len() > 0);
    if k == answers.len() - 1 {
        assert(answers.take(k) =~= before);
    } else {
        law_failures_are_never_passed_over(tasks, before, k);
        assert(before.take(k) =~= answers.take(k));
    }
}

/// The program is started only if every task before it that must succeed did,
/// and only as the last thing the child does.
pub proof fn law_program_starts_last(plan: PlanView, answers: Seq<AnswerView>)
    requires
        after_answers(child_tasks(plan), answers).len() > 0,
    ensures
        after_answers(child_tasks(plan), answers).last() == launch_task(plan),
        forall|i: int|
            0 <= i < after_answers(child_tasks(plan), answers).len() - 1 ==> !(
            #[trigger] after_answers(child_tasks(plan), answers)[i] matches TaskView::Do(a, _)
                && a is Exec),
        forall|k: int|
            0 <= k < answers.len() ==> !is_fatal(
                (#[trigger] after_answers(child_tasks(plan), answers.take(k)))[0],
                answers[k],
            ),
    decreases answers.len(),
{
    let tasks = child_tasks(plan);
    assert forall|k: int| 0 <= k < answers.len() implies !is_fatal(
        (#[trigger] after_answers(tasks, answers.take(k)))[0],
        answers[k],
    ) by {
        law_failures_are_never_passed_over(tasks, answers, k);
    }
    if answers.len() == 0 {
        lemma_no_exec_in_setup(plan);
    } else {
        let before = answers.drop_last();
        law_program_starts_last(plan, before);
        lemma_answer_keeps_the_program_last(
            after_answers(tasks, before),
            answers.last(),
        );
    }
}

/// The setup itself starts no program.
proof fn lemma_no_exec_in_setup(plan: PlanView)
    ensures
        child_tasks(plan).last() == launch_task(plan),
        forall|i: int|
            0 <= i < child_tasks(plan).len() - 1 ==> !(#[trigger] child_tasks(
                plan,
            )[i] matches TaskView::Do(a, _) && a is Exec),
{
    let all = child_tasks(plan);
    assert forall|i: int| 0 <= i < all.len() - 1 implies !starts(#[trigger] all[i]) by {
        lemma_parts(plan, i);
    }
}

/// A task that starts a program.
pub open spec fn starts(t: TaskView) -> bool {
    t matches TaskView::Do(a, _) && a is Exec
}

/// An answer leaves the last task the last one, and adds none that starts a
/// program.
proof fn lemma_answer_keeps_the_program_last(tasks: Seq<TaskView>, answer: AnswerView)
    requires
        tasks.len() > 0,
        forall|i: int| 0 <= i < tasks.len() - 1 ==> !starts(#[trigger] tasks[i]),
        after_answer(tasks, answer).len() > 0,
        !uses_old_root(tasks.last()),
    ensures
        after_answer(tasks, answer).last() == tasks.last(),
        forall|i: int|
            0 <= i < after_answer(tasks, answer).len() - 1 ==> !starts(
                #[trigger] after_answer(tasks, answer)[i],
            ),
{
    match (request(tasks), answer) {
        (RequestView::Probe(_), AnswerView::Found(found)) => {
            let more = expansion(tasks[0], found)->Ok_0;
            assert(forall|i: int| 0 <= i < more.len() ==> !starts(#[trigger] more[i]));
            let left = more + tasks.drop_first();
            assert(after_answer(tasks, answer) == left);
            assert(tasks.len() > 1);
        },
        _ => {},
    }
}

} // verus!
