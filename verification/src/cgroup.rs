//! Resource limits by cgroup v2. The limits of a run go into a cgroup below the
//! one that the runtime is in. Rootless enforcement needs that subtree to be
//! delegated to the user; where it is not, the user is told, and the run goes on without
//! limits.
use crate::plan::Limits;
use crate::script::{
    concat, tasks_view, verdict, Action, ActionView, OnFailure, OnFailureView, Place, PlaceView,
    Task, TaskView, VerdictView,
};
use crate::text::{
    chars_of, decimal, lines, parse_unsigned, push_decimal, slices_view, string_of, strip_prefix,
    text_lines, trim, trim_leading, trimmed, unsigned_value, without_leading, without_prefix,
};
use vstd::prelude::*;

verus! {

/// A path below another: `b` as seen from `a`. An absolute `b` stays what it is.
pub open spec fn joined_path(a: Seq<char>, b: Seq<char>) -> Seq<char> {
    if b.len() > 0 && b[0] == '/' {
        b
    } else if a.len() == 0 || a.last() == '/' {
        a + b
    } else {
        a + "/"@ + b
    }
}

/// A path below another: `b` as seen from `a`.
pub fn join_path(a: &str, b: &str) -> (r: String)
    ensures
        r@ == joined_path(a@, b@),
{
    let from = chars_of(a);
    let to = chars_of(b);
    if to.len() > 0 && to[0] == '/' {
        return b.to_string();
    }
    if from.len() == 0 || from[from.len() - 1] == '/' {
        return concat(a, b);
    }
    concat(concat(a, "/").as_str(), b)
}

/// What follows `prefix` in the first of the lines that starts with it.
pub open spec fn first_after(all: Seq<Seq<char>>, prefix: Seq<char>) -> Option<Seq<char>>
    decreases all.len(),
{
    if all.len() == 0 {
        None
    } else {
        match without_prefix(all[0], prefix) {
            Some(rest) => Some(rest),
            None => first_after(all.drop_first(), prefix),
        }
    }
}

/// The directory of the cgroup that a process is in, by its `/proc/self/cgroup`.
pub open spec fn base_of(own: Seq<char>) -> Option<Seq<char>> {
    match first_after(text_lines(own), "0::"@) {
        Some(rel) => Some(joined_path("/sys/fs/cgroup"@, without_leading(trimmed(rel), '/'))),
        None => None,
    }
}

/// The directory of the cgroup that a process is in, by its `/proc/self/cgroup`.
pub fn cgroup_base(own: &str) -> (r: Option<String>)
    ensures
        match r {
            Some(path) => base_of(own@) == Some(path@),
            None => base_of(own@) is None,
        },
{
    let chars = chars_of(own);
    let all = lines(chars.as_slice());
    let ghost texts = slices_view(all@);
    let mut i: usize = 0;
    assert(texts.skip(0) =~= texts);
    while i < all.len()
        invariant
            i <= all@.len(),
            texts == slices_view(all@),
            texts == text_lines(own@),
            first_after(texts, "0::"@) == first_after(texts.skip(i as int), "0::"@),
        decreases all@.len() - i,
    {
        assert(texts.skip(i as int)[0] == all@[i as int]@);
        assert(texts.skip(i as int).drop_first() =~= texts.skip(i + 1));
        if let Some(rest) = strip_prefix(all[i], "0::") {
            let rel = string_of(trim_leading(trim(rest), '/'));
            return Some(join_path("/sys/fs/cgroup", rel.as_str()));
        }
        i += 1;
    }
    assert(texts.skip(i as int) =~= Seq::<Seq<char>>::empty());
    None
}

/// What the user is told where no limits can be set.
pub const NOT_DELEGATED: &'static str =
    "cgroup limits requested but no delegated writable cgroup v2 is available; \
     continuing without enforcement";

/// The cgroup that the runtime moves itself to.
pub open spec fn manager_dir(base: Seq<char>) -> Seq<char> {
    joined_path(base, "cocoon-mgr"@)
}

/// The cgroup of the run.
pub open spec fn run_dir(base: Seq<char>, pid: u32) -> Seq<char> {
    joined_path(base, "cocoon-"@ + decimal(pid as nat))
}

/// The task that writes a limit, if there is one.
pub open spec fn limit_task(
    dir: Seq<char>,
    file: Seq<char>,
    limit: Option<u64>,
    warning: Seq<char>,
) -> Seq<TaskView> {
    match limit {
        Some(n) => seq![
            TaskView::Do(
                ActionView::WriteFile { path: joined_path(dir, file), text: decimal(n as nat) },
                OnFailureView::Warn(warning),
            ),
        ],
        None => Seq::empty(),
    }
}

/// The tasks that make a limited cgroup. A cgroup cannot both hold processes and
/// enable controllers for its children, so the runtime first moves itself out of
/// the base into a leaf.
pub open spec fn cgroup_tasks(limits: Limits, base: Seq<char>, pid: u32) -> Seq<TaskView> {
    let give_up = OnFailureView::GiveUp(NOT_DELEGATED@);
    seq![
        TaskView::Do(ActionView::CreateDir(PlaceView::At(manager_dir(base))), give_up),
        TaskView::Do(
            ActionView::WriteFile {
                path: joined_path(manager_dir(base), "cgroup.procs"@),
                text: decimal(pid as nat),
            },
            give_up,
        ),
        TaskView::Do(
            ActionView::WriteFile {
                path: joined_path(base, "cgroup.subtree_control"@),
                text: "+memory +pids"@,
            },
            give_up,
        ),
        TaskView::Do(ActionView::CreateDir(PlaceView::At(run_dir(base, pid))), give_up),
    ] + limit_task(
        run_dir(base, pid),
        "memory.max"@,
        limits.memory_max,
        "could not set memory.max; continuing without that limit"@,
    ) + limit_task(
        run_dir(base, pid),
        "pids.max"@,
        limits.pids_max,
        "could not set pids.max; continuing without that limit"@,
    )
}

/// A number in decimal notation.
pub fn number_text(n: u64) -> (r: String)
    ensures
        r@ == decimal(n as nat),
{
    let mut s = String::new();
    push_decimal(&mut s, n as u128);
    assert(s@ =~= decimal(n as nat));
    s
}

/// The cgroup of the run.
pub fn cgroup_dir(base: &str, pid: u32) -> (r: String)
    ensures
        r@ == run_dir(base@, pid),
{
    join_path(base, concat("cocoon-", number_text(pid as u64).as_str()).as_str())
}

/// Adds a task without which there can be no limits.
fn needed(tasks: &mut Vec<Task>, action: Action)
    ensures
        tasks_view(final(tasks)@) == tasks_view(old(tasks)@).push(
            TaskView::Do(action@, OnFailureView::GiveUp(NOT_DELEGATED@)),
        ),
{
    tasks.push(Task::Do(action, OnFailure::GiveUp(NOT_DELEGATED.to_string())));
    assert(tasks_view(tasks@) =~= tasks_view(old(tasks)@).push(
        TaskView::Do(action@, OnFailureView::GiveUp(NOT_DELEGATED@)),
    ));
}

/// Adds the task that writes a limit, if there is one. If a limit cannot actually
/// be written, the user is told, and it is not pretended that it is enforced.
fn limit(tasks: &mut Vec<Task>, dir: &str, file: &str, limit: Option<u64>, warning: &str)
    ensures
        tasks_view(final(tasks)@) == tasks_view(old(tasks)@) + limit_task(
            dir@,
            file@,
            limit,
            warning@,
        ),
{
    if let Some(n) = limit {
        tasks.push(
            Task::Do(
                Action::WriteFile { path: join_path(dir, file), text: number_text(n) },
                OnFailure::Warn(warning.to_string()),
            ),
        );
    }
    assert(tasks_view(tasks@) =~= tasks_view(old(tasks)@) + limit_task(
        dir@,
        file@,
        limit,
        warning@,
    ));
}

/// The tasks that make a limited cgroup below `base`, for the run of the process
/// `pid`.
pub fn setup_cgroup(limits: &Limits, base: &str, pid: u32) -> (r: Vec<Task>)
    ensures
        tasks_view(r@) == cgroup_tasks(*limits, base@, pid),
{
    let mut tasks: Vec<Task> = Vec::new();
    let manager = join_path(base, "cocoon-mgr");
    let dir = cgroup_dir(base, pid);
    let procs = join_path(manager.as_str(), "cgroup.procs");
    needed(&mut tasks, Action::CreateDir(Place::At(manager)));
    needed(&mut tasks, Action::WriteFile { path: procs, text: number_text(pid as u64) });
    needed(
        &mut tasks,
        Action::WriteFile {
            path: join_path(base, "cgroup.subtree_control"),
            text: "+memory +pids".to_string(),
        },
    );
    needed(&mut tasks, Action::CreateDir(Place::At(dir.clone())));
    let ghost head = tasks_view(tasks@);
    assert(head =~= cgroup_tasks(*limits, base@, pid).take(4));
    limit(
        &mut tasks,
        dir.as_str(),
        "memory.max",
        limits.memory_max,
        "could not set memory.max; continuing without that limit",
    );
    limit(
        &mut tasks,
        dir.as_str(),
        "pids.max",
        limits.pids_max,
        "could not set pids.max; continuing without that limit",
    );
    assert(tasks_view(tasks@) =~= cgroup_tasks(*limits, base@, pid));
    tasks
}

/// The task that puts a process into the cgroup in `dir`.
pub open spec fn enroll_task(dir: Seq<char>, pid: u32) -> TaskView {
    TaskView::Do(
        ActionView::WriteFile {
            path: joined_path(dir, "cgroup.procs"@),
            text: decimal(pid as nat),
        },
        OnFailureView::Warn(NOT_DELEGATED@),
    )
}

/// A limited cgroup for a run.
#[derive(Debug, PartialEq)]
pub struct Cgroup {
    /// Its directory.
    pub dir: String,
}

/// The cgroup for a run of the process `pid` with these limits, by the
/// `/proc/self/cgroup` of the runtime: its directory, and the tasks that make it.
/// None where there is nothing to limit or the runtime is in no v2 cgroup.
pub open spec fn cgroup_for(limits: Limits, own: Option<Seq<char>>, pid: u32) -> Option<
    (Seq<char>, Seq<TaskView>),
> {
    if limits.memory_max is None && limits.pids_max is None {
        None
    } else {
        match own {
            Some(text) => match base_of(text) {
                Some(base) => Some((run_dir(base, pid), cgroup_tasks(limits, base, pid))),
                None => None,
            },
            None => None,
        }
    }
}

/// The cgroup for a run of the process `pid` with these limits, by the
/// `/proc/self/cgroup` of the runtime, and the tasks that make it.
pub fn plan_cgroup(limits: &Limits, own: Option<&str>, pid: u32) -> (r: Option<(Cgroup, Vec<Task>)>)
    ensures
        match r {
            Some((c, tasks)) => cgroup_for(
                *limits,
                match own {
                    Some(text) => Some(text@),
                    None => None,
                },
                pid,
            ) == Some((c.dir@, tasks_view(tasks@))),
            None => cgroup_for(
                *limits,
                match own {
                    Some(text) => Some(text@),
                    None => None,
                },
                pid,
            ) is None,
        },
{
    if !limits.any() {
        return None;
    }
    match own {
        Some(text) => match cgroup_base(text) {
            Some(base) => {
                let dir = cgroup_dir(base.as_str(), pid);
                Some((Cgroup { dir }, setup_cgroup(limits, base.as_str(), pid)))
            },
            None => None,
        },
        None => None,
    }
}

impl Cgroup {
    /// The task that puts a process into the cgroup. If that fails, the process has
    /// none of its limits, and the user is told.
    pub fn enroll(&self, pid: u32) -> (r: Task)
        ensures
            r@ == enroll_task(self.dir@, pid),
    {
        Task::Do(
            Action::WriteFile {
                path: join_path(self.dir.as_str(), "cgroup.procs"),
                text: number_text(pid as u64),
            },
            OnFailure::Warn(NOT_DELEGATED.to_string()),
        )
    }

    /// The file in which the kernel counts the cgroup's out-of-memory kills.
    pub fn events_file(&self) -> (r: String)
        ensures
            r@ == joined_path(self.dir@, "memory.events"@),
    {
        join_path(self.dir.as_str(), "memory.events")
    }
}

/// Whether a line of `memory.events` counts an out-of-memory kill.
pub open spec fn counts_oom_kill(line: Seq<char>) -> bool {
    match without_prefix(line, "oom_kill "@) {
        Some(n) => match unsigned_value(trimmed(n)) {
            Some(k) => k > 0,
            None => false,
        },
        None => false,
    }
}

/// Whether the kernel has killed anything for want of memory, by the text of
/// `memory.events`.
pub open spec fn oom_killed(events: Seq<char>) -> bool {
    exists|i: int|
        0 <= i < text_lines(events).len() && counts_oom_kill(#[trigger] text_lines(events)[i])
}

/// Whether the kernel has killed anything for want of memory.
pub fn counts_oom_kills(events: &str) -> (r: bool)
    ensures
        r == oom_killed(events@),
{
    let chars = chars_of(events);
    let all = lines(chars.as_slice());
    let ghost texts = slices_view(all@);
    let mut i: usize = 0;
    while i < all.len()
        invariant
            i <= all@.len(),
            texts == slices_view(all@),
            texts == text_lines(events@),
            forall|j: int| 0 <= j < i ==> !counts_oom_kill(#[trigger] texts[j]),
        decreases all@.len() - i,
    {
        assert(texts[i as int] == all@[i as int]@);
        if let Some(n) = strip_prefix(all[i], "oom_kill ") {
            if let Some(k) = parse_unsigned(trim(n)) {
                if k > 0 {
                    assert(counts_oom_kill(text_lines(events@)[i as int]));
                    return true;
                }
            }
        }
        i += 1;
    }
    false
}

/// The runtime has left its own cgroup before controllers are enabled there, and
/// they are enabled before the cgroup of the run is made.
pub proof fn law_leave_enable_create(limits: Limits, base: Seq<char>, pid: u32)
    ensures
        ({
            let tasks = cgroup_tasks(limits, base, pid);
            &&& tasks.len() >= 4
            &&& tasks[1] matches TaskView::Do(
                ActionView::WriteFile { path, text },
                _,
            ) && path == joined_path(manager_dir(base), "cgroup.procs"@) && text == decimal(
                pid as nat,
            )
            &&& tasks[2] matches TaskView::Do(
                ActionView::WriteFile { path, text },
                _,
            ) && path == joined_path(base, "cgroup.subtree_control"@)
            &&& tasks[3] matches TaskView::Do(ActionView::CreateDir(place), _) && place
                == PlaceView::At(run_dir(base, pid))
        }),
{
}

/// Each limit of the plan is written to its file in the cgroup of the run, and
/// nothing is written there for a limit that the plan does not set: the tasks
/// after the first four are one for each limit that is set.
pub proof fn law_limits_are_written(limits: Limits, base: Seq<char>, pid: u32)
    ensures
        ({
            let tasks = cgroup_tasks(limits, base, pid);
            let dir = run_dir(base, pid);
            &&& tasks.len() == 4 + (if limits.memory_max is Some {
                1nat
            } else {
                0
            }) + (if limits.pids_max is Some {
                1nat
            } else {
                0
            })
            &&& limits.memory_max matches Some(n) ==> tasks[4] matches TaskView::Do(a, _) && a == (
            ActionView::WriteFile {
                path: joined_path(dir, "memory.max"@),
                text: decimal(n as nat),
            })
            &&& limits.pids_max matches Some(n) ==> tasks.last() matches TaskView::Do(a, _) && a
                == (ActionView::WriteFile {
                path: joined_path(dir, "pids.max"@),
                text: decimal(n as nat),
            })
        }),
{
}

/// Limits are a best effort that is never silent: whichever of the tasks fails, of
/// those that make the cgroup or the one that puts the child there, the run goes on
/// and the user is told.
pub proof fn law_limits_never_stop_a_run(
    limits: Limits,
    base: Seq<char>,
    pid: u32,
    child: u32,
    i: int,
    reason: Seq<char>,
)
    requires
        0 <= i < cgroup_tasks(limits, base, pid).len(),
    ensures
        verdict(enroll_task(run_dir(base, pid), child)->Do_1, Some(reason)) == VerdictView::Warn(
            NOT_DELEGATED@,
        ),
        cgroup_tasks(limits, base, pid)[i] matches TaskView::Do(_, policy) && (verdict(
            policy,
            Some(reason),
        ) is Warn || verdict(policy, Some(reason)) is GiveUp),
{
    let head = cgroup_tasks(limits, base, pid).take(4);
    let dir = run_dir(base, pid);
    let memory = limit_task(
        dir,
        "memory.max"@,
        limits.memory_max,
        "could not set memory.max; continuing without that limit"@,
    );
    let pids = limit_task(
        dir,
        "pids.max"@,
        limits.pids_max,
        "could not set pids.max; continuing without that limit"@,
    );
    if i < 4 {
        assert(cgroup_tasks(limits, base, pid)[i] == head[i]);
    } else if i < 4 + memory.len() {
        assert(cgroup_tasks(limits, base, pid)[i] == memory[i - 4]);
    } else {
        assert(cgroup_tasks(limits, base, pid)[i] == pids[i - 4 - memory.len()]);
    }
}

} // verus!
