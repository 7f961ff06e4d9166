//! From a [`Plan`] to an isolated, deprivileged process: which requests are made
//! of the system, and in which order. Rootless, so it needs no privileges:
//!
//! 1. Leave for new user, mount, pid, uts, ipc (and optionally net) namespaces,
//!    and map the outer uid and gid to 0 inside the user namespace
//!    ([`enter_namespaces`]).
//! 2. Fork; the child is pid 1 in the new pid namespace.
//! 3. In the child, set the hostname, make the mount tree private, pivot into the
//!    root filesystem, mount a fresh `/proc`, bind a minimal `/dev` and the host
//!    directories, optionally make the root read-only, drop privileges, load the
//!    seccomp filter, and exec ([`child_setup`]).
use crate::config::{pairs_view, MountView};
use crate::plan::{Namespace, Plan, PlanView};
use crate::script::{
    concat, make_read_only, may, must, read_only_action, tasks_view, Action, ActionView,
    OnFailureView, Place, PlaceView, Task, TaskView, BIND_TREE, PRIVATE_TREE,
};
use crate::text::{chars_of, copy_strings, decimal, push_decimal, spells, strings_view};
use vstd::prelude::*;

verus! {

/// Clone flag: a new mount namespace.
pub const CLONE_NEWNS: i32 = 0x0002_0000;

/// Clone flag: a new uts namespace.
pub const CLONE_NEWUTS: i32 = 0x0400_0000;

/// Clone flag: a new ipc namespace.
pub const CLONE_NEWIPC: i32 = 0x0800_0000;

/// Clone flag: a new user namespace.
pub const CLONE_NEWUSER: i32 = 0x1000_0000;

/// Clone flag: a new pid namespace.
pub const CLONE_NEWPID: i32 = 0x2000_0000;

/// Clone flag: a new net namespace.
pub const CLONE_NEWNET: i32 = 0x4000_0000;

/// The clone flag that asks for a namespace.
pub open spec fn flag_of(n: Namespace) -> i32 {
    match n {
        Namespace::User => CLONE_NEWUSER,
        Namespace::Mount => CLONE_NEWNS,
        Namespace::Pid => CLONE_NEWPID,
        Namespace::Uts => CLONE_NEWUTS,
        Namespace::Ipc => CLONE_NEWIPC,
        Namespace::Net => CLONE_NEWNET,
    }
}

/// The clone flags that ask for all these namespaces.
pub open spec fn flags_of(namespaces: Seq<Namespace>) -> i32
    decreases namespaces.len(),
{
    if namespaces.len() == 0 {
        0
    } else {
        flags_of(namespaces.drop_last()) | flag_of(namespaces.last())
    }
}

/// The clone flag that asks for a namespace.
pub fn clone_flag(n: Namespace) -> (r: i32)
    ensures
        r == flag_of(n),
{
    match n {
        Namespace::User => CLONE_NEWUSER,
        Namespace::Mount => CLONE_NEWNS,
        Namespace::Pid => CLONE_NEWPID,
        Namespace::Uts => CLONE_NEWUTS,
        Namespace::Ipc => CLONE_NEWIPC,
        Namespace::Net => CLONE_NEWNET,
    }
}

/// The clone flags that ask for all these namespaces.
pub fn clone_flags(namespaces: &Vec<Namespace>) -> (r: i32)
    ensures
        r == flags_of(namespaces@),
{
    let mut flags: i32 = 0;
    let mut i: usize = 0;
    while i < namespaces.len()
        invariant
            i <= namespaces@.len(),
            flags == flags_of(namespaces@.take(i as int)),
        decreases namespaces@.len() - i,
    {
        flags = flags | clone_flag(namespaces[i]);
        assert(namespaces@.take(i + 1).drop_last() =~= namespaces@.take(i as int));
        i += 1;
    }
    assert(namespaces@.take(i as int) =~= namespaces@);
    flags
}

/// Two clone flags have no bit in common, unless they are the same.
proof fn lemma_flags_differ(a: i32, b: i32)
    by (bit_vector)
    requires
        a == 0x0002_0000 || a == 0x0400_0000 || a == 0x0800_0000 || a == 0x1000_0000 || a
            == 0x2000_0000 || a == 0x4000_0000,
        b == 0x0002_0000 || b == 0x0400_0000 || b == 0x0800_0000 || b == 0x1000_0000 || b
            == 0x2000_0000 || b == 0x4000_0000,
    ensures
        a & b == 0 <==> a != b,
        0i32 & b == 0,
        a & !0x7c02_0000i32 == 0,
        0i32 & !0x7c02_0000i32 == 0,
{
}

/// A bit is set in two flags together if and only if it is set in one of them.
proof fn lemma_bit_in_union(x: i32, a: i32, b: i32)
    by (bit_vector)
    ensures
        (x | a) & b == 0 <==> x & b == 0 && a & b == 0,
{
}

/// The clone flags ask for exactly the namespaces of the list: the flag of a
/// namespace is set if and only if the list has the namespace, and no other flag
/// is set.
pub proof fn law_flags_are_the_namespaces(namespaces: Seq<Namespace>, n: Namespace)
    ensures
        flags_of(namespaces) & flag_of(n) != 0 <==> namespaces.contains(n),
        flags_of(namespaces) & !0x7c02_0000i32 == 0,
    decreases namespaces.len(),
{
    lemma_flags_differ(flag_of(n), flag_of(n));
    if namespaces.len() > 0 {
        let before = namespaces.drop_last();
        let last = namespaces.last();
        law_flags_are_the_namespaces(before, n);
        lemma_flags_differ(flag_of(last), flag_of(n));
        lemma_bit_in_union(flags_of(before), flag_of(last), flag_of(n));
        lemma_bit_in_union(flags_of(before), flag_of(last), !0x7c02_0000i32);
        if before.contains(n) {
            let i = choose|i: int| 0 <= i < before.len() && before[i] == n;
            assert(namespaces[i] == n);
        }
        if last == n {
            assert(namespaces[namespaces.len() - 1] == n);
        }
        if namespaces.contains(n) && last != n {
            let i = choose|i: int| 0 <= i < namespaces.len() && namespaces[i] == n;
            assert(before[i] == n);
        }
    }
}

/// The one line of an id map that makes an outer id 0 inside.
pub open spec fn id_map(id: u32) -> Seq<char> {
    "0 "@ + decimal(id as nat) + " 1"@
}

/// Writes a text to a file.
pub open spec fn write_action(path: Seq<char>, text: Seq<char>) -> ActionView {
    ActionView::WriteFile { path, text }
}

/// The tasks that take the process to its new namespaces. `setgroups` is denied
/// before the gid map is written, or the kernel would not allow a rootless
/// mapping.
pub open spec fn namespace_tasks(
    namespaces: Seq<Namespace>,
    uid: u32,
    gid: u32,
    attempt: Seq<char>,
) -> Seq<TaskView> {
    seq![
        TaskView::Do(
            ActionView::Unshare(flags_of(namespaces)),
            OnFailureView::Fail(attempt),
        ),
    ] + if namespaces.contains(Namespace::User) {
        seq![
            TaskView::Do(
                write_action("/proc/self/uid_map"@, id_map(uid)),
                OnFailureView::Fail("write uid_map"@),
            ),
            TaskView::Do(
                write_action("/proc/self/setgroups"@, "deny"@),
                OnFailureView::Ignore,
            ),
            TaskView::Do(
                write_action("/proc/self/gid_map"@, id_map(gid)),
                OnFailureView::Fail("write gid_map"@),
            ),
        ]
    } else {
        Seq::empty()
    }
}

/// The one line of an id map that makes an outer id 0 inside.
fn id_map_text(id: u32) -> (r: String)
    ensures
        r@ == id_map(id),
{
    let mut s = String::new();
    s.append("0 ");
    push_decimal(&mut s, id as u128);
    s.append(" 1");
    s
}

/// Whether a list of namespaces has one.
pub fn has_namespace(namespaces: &Vec<Namespace>, n: Namespace) -> (r: bool)
    ensures
        r == namespaces@.contains(n),
{
    let mut i: usize = 0;
    while i < namespaces.len()
        invariant
            i <= namespaces@.len(),
            forall|j: int| 0 <= j < i ==> namespaces@[j] != n,
        decreases namespaces@.len() - i,
    {
        if namespaces[i] == n {
            return true;
        }
        i += 1;
    }
    false
}

/// The tasks that take the process to the namespaces of a plan and map the outer
/// ids there; `attempt` is what a failure to leave the old ones is called.
pub fn enter_namespaces(plan: &Plan, uid: u32, gid: u32, attempt: &str) -> (r: Vec<Task>)
    ensures
        tasks_view(r@) == namespace_tasks(plan@.namespaces, uid, gid, attempt@),
{
    let mut tasks: Vec<Task> = Vec::new();
    must(&mut tasks, Action::Unshare(clone_flags(&plan.namespaces)), attempt);
    if has_namespace(&plan.namespaces, Namespace::User) {
        must(
            &mut tasks,
            Action::WriteFile {
                path: "/proc/self/uid_map".to_string(),
                text: id_map_text(uid),
            },
            "write uid_map",
        );
        may(
            &mut tasks,
            Action::WriteFile {
                path: "/proc/self/setgroups".to_string(),
                text: "deny".to_string(),
            },
        );
        must(
            &mut tasks,
            Action::WriteFile {
                path: "/proc/self/gid_map".to_string(),
                text: id_map_text(gid),
            },
            "write gid_map",
        );
    }
    assert(tasks_view(tasks@) =~= namespace_tasks(plan@.namespaces, uid, gid, attempt@));
    tasks
}

/// The search path of a container that sets none.
pub const DEFAULT_PATH: &'static str =
    "/usr/local/sbin:/usr/local/bin:/usr/sbin:/usr/bin:/sbin:/bin";

/// Whether a text holds a NUL character, which no argument can.
pub open spec fn has_nul(s: Seq<char>) -> bool {
    s.contains('\0')
}

/// Whether an environment sets a variable.
pub open spec fn sets(env: Seq<(Seq<char>, Seq<char>)>, name: Seq<char>) -> bool {
    exists|i: int| 0 <= i < env.len() && (#[trigger] env[i]).0 == name
}

/// The environment of the container: that of the plan, and a search path if that
/// sets none, so plain command names resolve.
pub open spec fn full_env(env: Seq<(Seq<char>, Seq<char>)>) -> Seq<(Seq<char>, Seq<char>)> {
    if sets(env, "PATH"@) {
        env
    } else {
        env.push(("PATH"@, DEFAULT_PATH@))
    }
}

/// The form in which a program gets its environment.
pub open spec fn env_strings(env: Seq<(Seq<char>, Seq<char>)>) -> Seq<Seq<char>> {
    Seq::new(env.len(), |i: int| env[i].0 + "="@ + env[i].1)
}

/// Whether any of the texts holds a NUL character.
pub open spec fn any_has_nul(texts: Seq<Seq<char>>) -> bool {
    exists|i: int| 0 <= i < texts.len() && has_nul(#[trigger] texts[i])
}

/// The last task of the child: become the program, if its arguments and
/// environment can be passed on.
pub open spec fn launch_task(plan: PlanView) -> TaskView {
    if any_has_nul(plan.argv) {
        TaskView::Refuse("argv contains a NUL byte"@)
    } else if any_has_nul(env_strings(full_env(plan.env))) {
        TaskView::Refuse("env contains a NUL byte"@)
    } else {
        TaskView::Do(
            ActionView::Exec { argv: plan.argv, env: env_strings(full_env(plan.env)) },
            OnFailureView::Fail("exec"@),
        )
    }
}

/// Whether any of the texts holds a NUL character.
fn find_nul(texts: &Vec<String>) -> (r: bool)
    ensures
        r == any_has_nul(strings_view(texts@)),
{
    let ghost all = strings_view(texts@);
    let mut i: usize = 0;
    while i < texts.len()
        invariant
            i <= texts@.len(),
            all == strings_view(texts@),
            forall|j: int| 0 <= j < i ==> !has_nul(#[trigger] all[j]),
        decreases texts@.len() - i,
    {
        let chars = chars_of(texts[i].as_str());
        let mut k: usize = 0;
        while k < chars.len()
            invariant
                i < texts@.len(),
                k <= chars@.len(),
                all == strings_view(texts@),
                chars@ == all[i as int],
                forall|j: int| 0 <= j < k ==> chars@[j] != '\0',
            decreases chars@.len() - k,
        {
            if chars[k] == '\0' {
                assert(has_nul(all[i as int]));
                return true;
            }
            k += 1;
        }
        i += 1;
    }
    false
}

/// One more variable is one more string.
proof fn lemma_env_push(env: Seq<(Seq<char>, Seq<char>)>, entry: (Seq<char>, Seq<char>))
    ensures
        env_strings(env.push(entry)) == env_strings(env).push(entry.0 + "="@ + entry.1),
{
    assert(env_strings(env.push(entry)) =~= env_strings(env).push(entry.0 + "="@ + entry.1));
}

/// The environment of the container, in the form in which a program gets it.
pub fn environment(env: &Vec<(String, String)>) -> (r: Vec<String>)
    ensures
        strings_view(r@) == env_strings(full_env(pairs_view(env@))),
{
    let ghost pairs = pairs_view(env@);
    let mut out: Vec<String> = Vec::new();
    let mut has_path = false;
    let mut i: usize = 0;
    while i < env.len()
        invariant
            i <= env@.len(),
            pairs == pairs_view(env@),
            has_path == sets(pairs.take(i as int), "PATH"@),
            strings_view(out@) == env_strings(pairs.take(i as int)),
        decreases env@.len() - i,
    {
        let (name, value) = (&env[i].0, &env[i].1);
        let ghost before = pairs.take(i as int);
        let ghost after = pairs.take(i + 1);
        assert(after =~= before.push(pairs[i as int]));
        if spells(chars_of(name.as_str()).as_slice(), "PATH") {
            has_path = true;
            assert(after[i as int].0 == "PATH"@);
        }
        proof {
            if sets(before, "PATH"@) {
                let j = choose|j: int| 0 <= j < before.len() && (#[trigger] before[j]).0 == "PATH"@;
                assert(after[j].0 == "PATH"@);
            }
            if sets(after, "PATH"@) && pairs[i as int].0 != "PATH"@ {
                let j = choose|j: int| 0 <= j < after.len() && (#[trigger] after[j]).0 == "PATH"@;
                assert(before[j].0 == "PATH"@);
            }
        }
        let ghost sofar = out@;
        out.push(concat(concat(name.as_str(), "=").as_str(), value.as_str()));
        proof {
            lemma_env_push(before, pairs[i as int]);
        }
        assert(strings_view(out@) =~= strings_view(sofar).push(out@.last()@));
        i += 1;
    }
    assert(pairs.take(i as int) =~= pairs);
    if !has_path {
        let ghost sofar = out@;
        out.push(concat(concat("PATH", "=").as_str(), DEFAULT_PATH));
        proof {
            lemma_env_push(pairs, ("PATH"@, DEFAULT_PATH@));
        }
        assert(strings_view(out@) =~= strings_view(sofar).push(out@.last()@));
    }
    out
}

/// The last task of the child.
fn launch(plan: &Plan) -> (r: Task)
    ensures
        r@ == launch_task(plan@),
{
    if find_nul(&plan.argv) {
        return Task::Refuse("argv contains a NUL byte".to_string());
    }
    let env = environment(&plan.env);
    if find_nul(&env) {
        return Task::Refuse("env contains a NUL byte".to_string());
    }
    Task::Do(
        Action::Exec { argv: copy_strings(&plan.argv), env },
        crate::script::OnFailure::Fail("exec".to_string()),
    )
}

/// The device nodes of a container.
pub open spec fn devices() -> Seq<Seq<char>> {
    seq!["null"@, "zero"@, "full"@, "random"@, "urandom"@, "tty"@]
}

/// The tasks that give the container its hostname, if it has a uts namespace of
/// its own.
pub open spec fn hostname_tasks(plan: PlanView) -> Seq<TaskView> {
    if plan.namespaces.contains(Namespace::Uts) {
        seq![
            TaskView::Do(
                ActionView::SetHostname(plan.hostname),
                OnFailureView::Fail("sethostname"@),
            ),
        ]
    } else {
        Seq::empty()
    }
}

/// The tasks that swap the root. The whole mount tree is made private, so the
/// swap does not leak back to the host; the new root is bound onto itself, since
/// it has to be a mount point.
pub open spec fn pivot_tasks() -> Seq<TaskView> {
    seq![
        TaskView::Do(
            ActionView::Mount {
                source: None,
                target: PlaceView::At("/"@),
                fstype: None,
                flags: PRIVATE_TREE,
            },
            OnFailureView::Fail("make / private"@),
        ),
        TaskView::Do(
            ActionView::Mount {
                source: Some(PlaceView::Rootfs),
                target: PlaceView::Rootfs,
                fstype: None,
                flags: BIND_TREE,
            },
            OnFailureView::Fail("bind-mount rootfs onto itself"@),
        ),
        TaskView::Do(
            ActionView::CreateDir(PlaceView::OldRoot),
            OnFailureView::Fail("create .oldroot"@),
        ),
        TaskView::Do(ActionView::PivotRoot, OnFailureView::Fail("pivot_root"@)),
        TaskView::Do(ActionView::ChangeDir("/"@), OnFailureView::Fail("chdir /"@)),
    ]
}

/// The tasks that mount a fresh `/proc`, if the container has a pid namespace of
/// its own.
pub open spec fn proc_tasks(plan: PlanView) -> Seq<TaskView> {
    if plan.namespaces.contains(Namespace::Pid) {
        seq![
            TaskView::Do(
                ActionView::Mount {
                    source: Some(PlaceView::At("proc"@)),
                    target: PlaceView::At("/proc"@),
                    fstype: Some("proc"@),
                    flags: 0,
                },
                OnFailureView::Fail("mount /proc"@),
            ),
        ]
    } else {
        Seq::empty()
    }
}

/// The tasks that make a minimal `/dev`, best effort.
pub open spec fn dev_tasks() -> Seq<TaskView> {
    seq![
        TaskView::Do(
            ActionView::CreateDir(PlaceView::At("/dev"@)),
            OnFailureView::Ignore,
        ),
    ] + Seq::new(devices().len(), |i: int| TaskView::Device(devices()[i]))
}

/// The tasks that bind the host directories in.
pub open spec fn host_tasks(mounts: Seq<MountView>) -> Seq<TaskView> {
    Seq::new(mounts.len(), |i: int| TaskView::Bind(mounts[i]))
}

/// The tasks that drop the old root.
pub open spec fn detach_tasks() -> Seq<TaskView> {
    seq![
        TaskView::Do(
            ActionView::Detach("/.oldroot"@),
            OnFailureView::Fail("umount old root"@),
        ),
        TaskView::Do(ActionView::RemoveDir("/.oldroot"@), OnFailureView::Ignore),
    ]
}

/// The tasks that make the root read-only, if the plan says so.
pub open spec fn seal_tasks(plan: PlanView) -> Seq<TaskView> {
    if plan.readonly {
        seq![
            TaskView::Do(
                read_only_action("/"@),
                OnFailureView::Fail("remount rootfs read-only"@),
            ),
        ]
    } else {
        Seq::empty()
    }
}

/// The task that enters the working directory.
pub open spec fn cwd_task(plan: PlanView) -> TaskView {
    TaskView::Do(ActionView::ChangeDir(plan.cwd), OnFailureView::Fail("chdir to cwd"@))
}

/// The task that loads the seccomp filter.
pub open spec fn seccomp_task() -> TaskView {
    TaskView::Do(ActionView::LoadSeccomp, OnFailureView::Ignore)
}

/// The tasks that need capabilities: everything up to the working directory.
pub open spec fn privileged_tasks(plan: PlanView) -> Seq<TaskView> {
    hostname_tasks(plan) + pivot_tasks() + proc_tasks(plan) + dev_tasks() + host_tasks(plan.mounts)
        + detach_tasks() + seal_tasks(plan) + seq![cwd_task(plan)]
}

/// How many capabilities are dropped: all there are, and then some. Dropping
/// past the last one is harmless.
pub const CAPABILITIES: u8 = 64;

/// The tasks that keep the process, and anything it execs, from gaining
/// privileges.
pub open spec fn deprivilege_tasks() -> Seq<TaskView> {
    seq![
        TaskView::Do(ActionView::NoNewPrivs, OnFailureView::Ignore),
        TaskView::Do(ActionView::ClearAmbient, OnFailureView::Ignore),
    ] + Seq::new(
        CAPABILITIES as nat,
        |i: int| TaskView::Do(ActionView::DropCapability(i as u8), OnFailureView::Ignore),
    )
}

/// The tasks of the child: the ones that need capabilities, then giving those
/// up, then the seccomp filter, then the program.
pub open spec fn child_tasks(plan: PlanView) -> Seq<TaskView> {
    privileged_tasks(plan) + deprivilege_tasks() + seq![seccomp_task(), launch_task(plan)]
}

/// Adds the tasks that swap the root.
fn add_pivot(tasks: &mut Vec<Task>)
    ensures
        tasks_view(final(tasks)@) == tasks_view(old(tasks)@) + pivot_tasks(),
{
    must(
        tasks,
        Action::Mount {
            source: None,
            target: Place::At("/".to_string()),
            fstype: None,
            flags: PRIVATE_TREE,
        },
        "make / private",
    );
    must(
        tasks,
        Action::Mount {
            source: Some(Place::Rootfs),
            target: Place::Rootfs,
            fstype: None,
            flags: BIND_TREE,
        },
        "bind-mount rootfs onto itself",
    );
    must(tasks, Action::CreateDir(Place::OldRoot), "create .oldroot");
    must(tasks, Action::PivotRoot, "pivot_root");
    must(tasks, Action::ChangeDir("/".to_string()), "chdir /");
    assert(tasks_view(tasks@) =~= tasks_view(old(tasks)@) + pivot_tasks());
}

/// Adds a task that binds a device node.
fn add_device(tasks: &mut Vec<Task>, name: &str)
    ensures
        tasks_view(final(tasks)@) == tasks_view(old(tasks)@).push(TaskView::Device(name@)),
{
    tasks.push(Task::Device(name.to_string()));
    assert(tasks_view(tasks@) =~= tasks_view(old(tasks)@).push(TaskView::Device(name@)));
}

/// Adds the tasks that make a minimal `/dev`.
fn setup_dev(tasks: &mut Vec<Task>)
    ensures
        tasks_view(final(tasks)@) == tasks_view(old(tasks)@) + dev_tasks(),
{
    may(tasks, Action::CreateDir(Place::At("/dev".to_string())));
    add_device(tasks, "null");
    add_device(tasks, "zero");
    add_device(tasks, "full");
    add_device(tasks, "random");
    add_device(tasks, "urandom");
    add_device(tasks, "tty");
    assert(tasks_view(tasks@) =~= tasks_view(old(tasks)@) + dev_tasks());
}

/// Adds the tasks that bind the host directories in.
fn add_mounts(tasks: &mut Vec<Task>, plan: &Plan)
    ensures
        tasks_view(final(tasks)@) == tasks_view(old(tasks)@) + host_tasks(plan@.mounts),
{
    let ghost before = tasks_view(tasks@);
    let ghost all = host_tasks(plan@.mounts);
    let mut i: usize = 0;
    assert(all.take(0) =~= Seq::<TaskView>::empty());
    assert(before =~= before + all.take(0));
    while i < plan.mounts.len()
        invariant
            i <= plan.mounts@.len(),
            all == host_tasks(plan@.mounts),
            tasks_view(tasks@) == before + all.take(i as int),
        decreases plan.mounts@.len() - i,
    {
        let ghost sofar = tasks@;
        tasks.push(Task::Bind(plan.mounts[i].copy()));
        assert(tasks_view(tasks@) =~= tasks_view(sofar).push(all[i as int]));
        assert(all.take(i + 1) =~= all.take(i as int).push(all[i as int]));
        assert(before + all.take(i + 1) =~= (before + all.take(i as int)).push(all[i as int]));
        i += 1;
    }
    assert(all.take(i as int) =~= all);
}

/// Adds the tasks that set `no_new_privs`, clear the ambient capability set, and
/// drop the whole capability bounding set.
fn deprivilege(tasks: &mut Vec<Task>)
    ensures
        tasks_view(final(tasks)@) == tasks_view(old(tasks)@) + deprivilege_tasks(),
{
    let ghost before = tasks_view(tasks@);
    let ghost all = deprivilege_tasks();
    may(tasks, Action::NoNewPrivs);
    may(tasks, Action::ClearAmbient);
    let mut cap: u8 = 0;
    assert(tasks_view(tasks@) =~= before + all.take(2));
    while cap < CAPABILITIES
        invariant
            cap <= CAPABILITIES,
            all == deprivilege_tasks(),
            tasks_view(tasks@) == before + all.take(2 + cap),
        decreases CAPABILITIES - cap,
    {
        may(tasks, Action::DropCapability(cap));
        assert(all.take(3 + cap) =~= all.take(2 + cap).push(all[2 + cap]));
        assert(before + all.take(3 + cap) =~= (before + all.take(2 + cap)).push(all[2 + cap]));
        cap += 1;
    }
    assert(all.take(2 + cap) =~= all);
}

/// The tasks of the child: everything between the fork and the program.
pub fn child_setup(plan: &Plan) -> (r: Vec<Task>)
    requires
        plan.argv@.len() > 0,
    ensures
        tasks_view(r@) == child_tasks(plan@),
{
    let mut tasks: Vec<Task> = Vec::new();
    let ghost p = plan@;
    if has_namespace(&plan.namespaces, Namespace::Uts) {
        must(&mut tasks, Action::SetHostname(plan.hostname.clone()), "sethostname");
    }
    assert(tasks_view(tasks@) =~= hostname_tasks(p));
    add_pivot(&mut tasks);
    let ghost sofar = tasks_view(tasks@);
    // A fresh /proc so that pids there are those of the new pid namespace.
    if has_namespace(&plan.namespaces, Namespace::Pid) {
        must(
            &mut tasks,
            Action::Mount {
                source: Some(Place::At("proc".to_string())),
                target: Place::At("/proc".to_string()),
                fstype: Some("proc".to_string()),
                flags: 0,
            },
            "mount /proc",
        );
    }
    assert(tasks_view(tasks@) =~= sofar + proc_tasks(p));
    setup_dev(&mut tasks);
    // The host tree is still reachable under /.oldroot, so the host directories
    // are bound before that is detached.
    add_mounts(&mut tasks, plan);
    let ghost sofar = tasks_view(tasks@);
    must(&mut tasks, Action::Detach("/.oldroot".to_string()), "umount old root");
    may(&mut tasks, Action::RemoveDir("/.oldroot".to_string()));
    assert(tasks_view(tasks@) =~= sofar + detach_tasks());
    let ghost sofar = tasks_view(tasks@);
    if plan.readonly {
        must(&mut tasks, make_read_only("/"), "remount rootfs read-only");
    }
    assert(tasks_view(tasks@) =~= sofar + seal_tasks(p));
    let ghost sofar = tasks_view(tasks@);
    must(&mut tasks, Action::ChangeDir(plan.cwd.clone()), "chdir to cwd");
    assert(tasks_view(tasks@) =~= sofar + seq![
        TaskView::Do(ActionView::ChangeDir(p.cwd), OnFailureView::Fail("chdir to cwd"@)),
    ]);
    assert(tasks_view(tasks@) == privileged_tasks(p));
    deprivilege(&mut tasks);
    let ghost sofar = tasks_view(tasks@);
    may(&mut tasks, Action::LoadSeccomp);
    let ghost loaded = tasks@;
    tasks.push(launch(plan));
    assert(tasks_view(tasks@) =~= tasks_view(loaded).push(launch_task(p)));
    assert(tasks_view(tasks@) =~= sofar + seq![
        TaskView::Do(ActionView::LoadSeccomp, OnFailureView::Ignore),
        launch_task(p),
    ]);
    tasks
}

} // verus!
