//! What the system is asked to do for a plan, in its own words: which requests, with
//! which paths, flags and texts, where.
use crate::cgroup::{base_of, cgroup_for, cgroup_tasks, enroll_task, joined_path, run_dir};
use crate::config::MountView;
use crate::error::ErrorView;
use crate::plan::{Limits, Namespace, PlanView};
use crate::sandbox::{
    any_has_nul, child_tasks, deprivilege_tasks, detach_tasks, dev_tasks, devices, env_strings,
    flags_of, full_env, has_nul, host_tasks, hostname_tasks, law_flags_are_the_namespaces,
    launch_task, namespace_tasks, pivot_tasks, privileged_tasks, proc_tasks, seal_tasks,
    DEFAULT_PATH,
};
use crate::script::{
    expansion, left_after, request, verdict, ActionView, OnFailureView, PlaceView, Probe,
    RequestView, TaskView, VerdictView,
};
use crate::text::{decimal, text_lines, trimmed, without_leading, without_prefix};
use crate::text_laws::{
    has_no_margin, is_blank, law_affixes, law_leading, law_lines_of_a_text,
    law_trim_takes_the_margin,
};
use vstd::prelude::*;

verus! {

/// The program gets the arguments of the plan, argument for argument, and every
/// variable of the plan as its name, an equals sign and its value, in order; a
/// search path is added after them if none of them is one.
pub proof fn law_program_gets_its_arguments(plan: PlanView)
    requires
        forall|i: int| 0 <= i < plan.argv.len() ==> !(#[trigger] plan.argv[i]).contains('\0'),
        forall|i: int|
            0 <= i < plan.env.len() ==> !(#[trigger] plan.env[i]).0.contains('\0')
                && !plan.env[i].1.contains('\0'),
    ensures
        child_tasks(plan).last() matches TaskView::Do(ActionView::Exec { argv, env }, policy) && {
            let has_path = exists|i: int|
                0 <= i < plan.env.len() && (#[trigger] plan.env[i]).0 == "PATH"@;
            &&& policy == OnFailureView::Fail("exec"@)
            &&& argv.len() == plan.argv.len()
            &&& forall|i: int| 0 <= i < argv.len() ==> #[trigger] argv[i] == plan.argv[i]
            &&& env.len() == plan.env.len() + (if has_path {
                0int
            } else {
                1
            })
            &&& forall|i: int|
                0 <= i < plan.env.len() ==> #[trigger] env[i] == plan.env[i].0 + "="@
                    + plan.env[i].1
            &&& !has_path ==> env[plan.env.len() as int]
                == "PATH=/usr/local/sbin:/usr/local/bin:/usr/sbin:/usr/bin:/sbin:/bin"@
        },
{
    let full = full_env(plan.env);
    let strings = env_strings(full);
    lemma_default_path();
    assert forall|i: int| 0 <= i < strings.len() implies !has_nul(#[trigger] strings[i]) by {
        lemma_no_nul(full[i].0, full[i].1);
        if i < plan.env.len() {
            assert(full[i] == plan.env[i]);
        }
    }
    assert(child_tasks(plan).last() == launch_task(plan));
}

/// The default search path as a variable.
proof fn lemma_default_path()
    ensures
        "PATH"@ + "="@ + DEFAULT_PATH@
            == "PATH=/usr/local/sbin:/usr/local/bin:/usr/sbin:/usr/bin:/sbin:/bin"@,
        !"PATH"@.contains('\0'),
        !DEFAULT_PATH@.contains('\0'),
{
    reveal_strlit("PATH");
    reveal_strlit("=");
    reveal_strlit("/usr/local/sbin:/usr/local/bin:/usr/sbin:/usr/bin:/sbin:/bin");
    reveal_strlit("PATH=/usr/local/sbin:/usr/local/bin:/usr/sbin:/usr/bin:/sbin:/bin");
    assert("PATH"@ + "="@ + DEFAULT_PATH@
        =~= "PATH=/usr/local/sbin:/usr/local/bin:/usr/sbin:/usr/bin:/sbin:/bin"@);
}

/// A variable holds a NUL only if its name or its value does.
proof fn lemma_no_nul(name: Seq<char>, value: Seq<char>)
    ensures
        (name + "="@ + value).contains('\0') <==> name.contains('\0') || value.contains('\0'),
{
    reveal_strlit("=");
    let s = name + "="@ + value;
    let n = name.len() as int;
    if s.contains('\0') {
        let i = choose|i: int| 0 <= i < s.len() && s[i] == '\0';
        if i < n {
            assert(name[i] == '\0');
        } else if i > n {
            assert(value[i - n - 1] == '\0');
        }
    }
    if name.contains('\0') {
        let i = choose|i: int| 0 <= i < name.len() && name[i] == '\0';
        assert(s[i] == '\0');
    }
    if value.contains('\0') {
        let i = choose|i: int| 0 <= i < value.len() && value[i] == '\0';
        assert(s[n + 1 + i] == '\0');
    }
}

/// A NUL cannot be passed on: the child refuses the arguments, or else the
/// environment, that holds one, and starts no program.
pub proof fn law_nul_is_refused(plan: PlanView, i: int)
    ensures
        0 <= i < plan.argv.len() && plan.argv[i].contains('\0') ==> child_tasks(plan).last()
            == TaskView::Refuse("argv contains a NUL byte"@),
        0 <= i < plan.env.len() && (plan.env[i].0.contains('\0') || plan.env[i].1.contains('\0'))
            && (forall|j: int|
            0 <= j < plan.argv.len() ==> !(#[trigger] plan.argv[j]).contains('\0'))
            ==> child_tasks(plan).last() == TaskView::Refuse("env contains a NUL byte"@),
{
    assert(child_tasks(plan).last() == launch_task(plan));
    if 0 <= i < plan.argv.len() && plan.argv[i].contains('\0') {
        assert(has_nul(plan.argv[i]));
    }
    if 0 <= i < plan.env.len() {
        let strings = env_strings(full_env(plan.env));
        lemma_no_nul(plan.env[i].0, plan.env[i].1);
        assert(strings[i] == plan.env[i].0 + "="@ + plan.env[i].1);
        if plan.env[i].0.contains('\0') || plan.env[i].1.contains('\0') {
            assert(has_nul(strings[i]));
            assert(any_has_nul(strings));
        }
    }
}

/// The mount flags, as the kernel numbers them.
proof fn lemma_flags()
    ensures
        crate::script::PRIVATE_TREE == 278528,
        crate::script::BIND_TREE == 20480,
        crate::script::READ_ONLY == 4129,
{
    assert(16384u64 | 262144u64 == 278528u64) by (bit_vector);
    assert(4096u64 | 16384u64 == 20480u64) by (bit_vector);
    assert(32u64 | 4096u64 | 1u64 == 4129u64) by (bit_vector);
}

/// What the child does, and where each thing stands: the hostname, the swap of the
/// root, a fresh `/proc`, the devices, the host directories, the end of the old
/// root, the sealed base, the working directory, and then the loss of every
/// privilege. Nothing else is done.
pub proof fn law_child_does_this_and_nothing_else(plan: PlanView)
    ensures
        ({
            let all = child_tasks(plan);
            let u: int = if plan.namespaces.contains(Namespace::Uts) {
                1
            } else {
                0
            };
            let p: int = if plan.namespaces.contains(Namespace::Pid) {
                1
            } else {
                0
            };
            let r: int = if plan.readonly {
                1
            } else {
                0
            };
            let d = u + 12 + p + plan.mounts.len();
            &&& all.len() == d + r + 71
            &&& u == 1 ==> all[0] == TaskView::Do(
                ActionView::SetHostname(plan.hostname),
                OnFailureView::Fail("sethostname"@),
            )
            &&& all[u] == TaskView::Do(
                ActionView::Mount {
                    source: None,
                    target: PlaceView::At("/"@),
                    fstype: None,
                    flags: 278528,
                },
                OnFailureView::Fail("make / private"@),
            )
            &&& all[u + 1] == TaskView::Do(
                ActionView::Mount {
                    source: Some(PlaceView::Rootfs),
                    target: PlaceView::Rootfs,
                    fstype: None,
                    flags: 20480,
                },
                OnFailureView::Fail("bind-mount rootfs onto itself"@),
            )
            &&& all[u + 2] == TaskView::Do(
                ActionView::CreateDir(PlaceView::OldRoot),
                OnFailureView::Fail("create .oldroot"@),
            )
            &&& all[u + 3] == TaskView::Do(
                ActionView::PivotRoot,
                OnFailureView::Fail("pivot_root"@),
            )
            &&& all[u + 4] == TaskView::Do(
                ActionView::ChangeDir("/"@),
                OnFailureView::Fail("chdir /"@),
            )
            &&& p == 1 ==> all[u + 5] == TaskView::Do(
                ActionView::Mount {
                    source: Some(PlaceView::At("proc"@)),
                    target: PlaceView::At("/proc"@),
                    fstype: Some("proc"@),
                    flags: 0,
                },
                OnFailureView::Fail("mount /proc"@),
            )
            &&& all[u + 5 + p] == TaskView::Do(
                ActionView::CreateDir(PlaceView::At("/dev"@)),
                OnFailureView::Ignore,
            )
            &&& all[u + 6 + p] == TaskView::Device("null"@)
            &&& all[u + 7 + p] == TaskView::Device("zero"@)
            &&& all[u + 8 + p] == TaskView::Device("full"@)
            &&& all[u + 9 + p] == TaskView::Device("random"@)
            &&& all[u + 10 + p] == TaskView::Device("urandom"@)
            &&& all[u + 11 + p] == TaskView::Device("tty"@)
            &&& forall|k: int|
                0 <= k < plan.mounts.len() ==> all[u + 12 + p + k] == TaskView::Bind(
                    #[trigger] plan.mounts[k],
                )
            &&& all[d] == TaskView::Do(
                ActionView::Detach("/.oldroot"@),
                OnFailureView::Fail("umount old root"@),
            )
            &&& all[d + 1] == TaskView::Do(
                ActionView::RemoveDir("/.oldroot"@),
                OnFailureView::Ignore,
            )
            &&& r == 1 ==> all[d + 2] == TaskView::Do(
                ActionView::Mount {
                    source: None,
                    target: PlaceView::At("/"@),
                    fstype: None,
                    flags: 4129,
                },
                OnFailureView::Fail("remount rootfs read-only"@),
            )
            &&& all[d + 2 + r] == TaskView::Do(
                ActionView::ChangeDir(plan.cwd),
                OnFailureView::Fail("chdir to cwd"@),
            )
            &&& all[d + 3 + r] == TaskView::Do(ActionView::NoNewPrivs, OnFailureView::Ignore)
            &&& all[d + 4 + r] == TaskView::Do(ActionView::ClearAmbient, OnFailureView::Ignore)
            &&& all.subrange(d + 5 + r, d + 69 + r) == Seq::new(
                64,
                |c: int| TaskView::Do(ActionView::DropCapability(c as u8), OnFailureView::Ignore),
            )
            &&& all[d + 69 + r] == TaskView::Do(ActionView::LoadSeccomp, OnFailureView::Ignore)
        }),
{
    lemma_flags();
    let all = child_tasks(plan);
    let a = hostname_tasks(plan);
    let b = pivot_tasks();
    let c = proc_tasks(plan);
    let e = dev_tasks();
    let h = host_tasks(plan.mounts);
    let f = detach_tasks();
    let g = seal_tasks(plan);
    let u = a.len() as int;
    let p = c.len() as int;
    let r = g.len() as int;
    let d = u + 12 + p + plan.mounts.len();
    let base = privileged_tasks(plan);
    assert(base.len() == d + r + 3);
    assert(all[u] == b[0] && all[u + 1] == b[1] && all[u + 2] == b[2]);
    assert(all[u + 3] == b[3] && all[u + 4] == b[4]);
    if p == 1 {
        assert(all[u + 5] == c[0]);
    }
    assert(all[u + 5 + p] == e[0]);
    assert(all[u + 6 + p] == e[1] && all[u + 7 + p] == e[2] && all[u + 8 + p] == e[3]);
    assert(all[u + 9 + p] == e[4] && all[u + 10 + p] == e[5] && all[u + 11 + p] == e[6]);
    assert(e[1] == TaskView::Device(devices()[0]) && e[2] == TaskView::Device(devices()[1]));
    assert forall|k: int| 0 <= k < plan.mounts.len() implies all[u + 12 + p + k]
        == TaskView::Bind(#[trigger] plan.mounts[k]) by {
        assert(all[u + 12 + p + k] == h[k]);
    }
    assert(all[d] == f[0] && all[d + 1] == f[1]);
    if r == 1 {
        assert(all[d + 2] == g[0]);
    }
    let n = d + r + 3;
    let x = deprivilege_tasks();
    assert(all[n] == x[0] && all[n + 1] == x[1]);
    let drops = Seq::new(
        64,
        |c: int| TaskView::Do(ActionView::DropCapability(c as u8), OnFailureView::Ignore),
    );
    let there = all.subrange(n + 2, n + 66);
    assert forall|c: int| 0 <= c < 64 implies there[c] == drops[c] by {
        assert(all[n + 2 + c] == x[2 + c]);
    }
    assert(there =~= drops);
}

/// The namespaces of a plan are asked for by the kernel's flags, each by its own and
/// no other; then, if there is a user namespace, the user becomes root in it, after
/// `setgroups` was denied.
pub proof fn law_namespaces_are_entered(
    namespaces: Seq<Namespace>,
    uid: u32,
    gid: u32,
    attempt: Seq<char>,
)
    ensures
        ({
            let tasks = namespace_tasks(namespaces, uid, gid, attempt);
            &&& tasks[0] matches TaskView::Do(ActionView::Unshare(flags), policy) && {
                &&& policy == OnFailureView::Fail(attempt)
                &&& flags & 0x1000_0000i32 != 0 <==> namespaces.contains(Namespace::User)
                &&& flags & 0x0002_0000i32 != 0 <==> namespaces.contains(Namespace::Mount)
                &&& flags & 0x2000_0000i32 != 0 <==> namespaces.contains(Namespace::Pid)
                &&& flags & 0x0400_0000i32 != 0 <==> namespaces.contains(Namespace::Uts)
                &&& flags & 0x0800_0000i32 != 0 <==> namespaces.contains(Namespace::Ipc)
                &&& flags & 0x4000_0000i32 != 0 <==> namespaces.contains(Namespace::Net)
                &&& flags & !0x7c02_0000i32 == 0
            }
            &&& !namespaces.contains(Namespace::User) ==> tasks.len() == 1
            &&& namespaces.contains(Namespace::User) ==> tasks.skip(1) == seq![
                TaskView::Do(
                    ActionView::WriteFile {
                        path: "/proc/self/uid_map"@,
                        text: "0 "@ + decimal(uid as nat) + " 1"@,
                    },
                    OnFailureView::Fail("write uid_map"@),
                ),
                TaskView::Do(
                    ActionView::WriteFile { path: "/proc/self/setgroups"@, text: "deny"@ },
                    OnFailureView::Ignore,
                ),
                TaskView::Do(
                    ActionView::WriteFile {
                        path: "/proc/self/gid_map"@,
                        text: "0 "@ + decimal(gid as nat) + " 1"@,
                    },
                    OnFailureView::Fail("write gid_map"@),
                ),
            ]
        }),
{
    law_flags_are_the_namespaces(namespaces, Namespace::User);
    law_flags_are_the_namespaces(namespaces, Namespace::Mount);
    law_flags_are_the_namespaces(namespaces, Namespace::Pid);
    law_flags_are_the_namespaces(namespaces, Namespace::Uts);
    law_flags_are_the_namespaces(namespaces, Namespace::Ipc);
    law_flags_are_the_namespaces(namespaces, Namespace::Net);
    let tasks = namespace_tasks(namespaces, uid, gid, attempt);
    assert(tasks[0] == TaskView::Do(
        ActionView::Unshare(flags_of(namespaces)),
        OnFailureView::Fail(attempt),
    ));
}

/// The task that binds what the host has at `source` onto `target`.
pub open spec fn bound(source: Seq<char>, target: Seq<char>) -> TaskView {
    TaskView::Do(
        ActionView::Mount {
            source: Some(PlaceView::At(source)),
            target: PlaceView::At(target),
            fstype: None,
            flags: 20480,
        },
        OnFailureView::Fail("bind mount"@),
    )
}

/// The task that makes what is bound at `target` read-only.
pub open spec fn sealed(target: Seq<char>) -> TaskView {
    TaskView::Do(
        ActionView::Mount {
            source: None,
            target: PlaceView::At(target),
            fstype: None,
            flags: 4129,
        },
        OnFailureView::Fail("remount mount read-only"@),
    )
}

/// A host directory is looked for where the old root is, and bound from there onto
/// its target, which is made first: a directory for a directory, a file for a file.
/// Only a read-only mount is made read-only, after that. One that the host does not
/// have is an error that names it.
pub proof fn law_host_directories_are_bound(
    slashes: nat,
    rel: Seq<char>,
    target: Seq<char>,
    readonly: bool,
    rest: Seq<TaskView>,
)
    requires
        rel.len() > 0 ==> rel[0] != '/',
    ensures
        ({
            let source = Seq::new(slashes, |i: int| '/') + rel;
            let task = TaskView::Bind(MountView { source, target, readonly });
            let seal = if readonly {
                seq![sealed(target)]
            } else {
                Seq::empty()
            };
            &&& request(seq![task] + rest) == RequestView::Probe("/.oldroot/"@ + rel)
            &&& expansion(task, Probe::Missing) == Err::<Seq<TaskView>, ErrorView>(
                ErrorView::Runtime("mount source '"@ + source + "' does not exist on the host"@),
            )
            &&& expansion(task, Probe::Directory) == Ok::<Seq<TaskView>, ErrorView>(
                seq![
                    TaskView::Do(
                        ActionView::CreateDir(PlaceView::At(target)),
                        OnFailureView::Fail("create mount target"@),
                    ),
                    bound("/.oldroot/"@ + rel, target),
                ] + seal,
            )
            &&& expansion(task, Probe::File) == Ok::<Seq<TaskView>, ErrorView>(
                seq![
                    TaskView::Do(ActionView::CreateParent(target), OnFailureView::Ignore),
                    TaskView::Do(ActionView::CreateFile(target), OnFailureView::Ignore),
                    bound("/.oldroot/"@ + rel, target),
                ] + seal,
            )
        }),
{
    lemma_flags();
    law_leading(slashes, '/', rel);
    let source = Seq::new(slashes, |i: int| '/') + rel;
    let task = TaskView::Bind(MountView { source, target, readonly });
    let seal = if readonly {
        seq![sealed(target)]
    } else {
        Seq::empty()
    };
    assert((seq![task] + rest)[0] == task);
    assert(expansion(task, Probe::Directory)->Ok_0 =~= seq![
        TaskView::Do(
            ActionView::CreateDir(PlaceView::At(target)),
            OnFailureView::Fail("create mount target"@),
        ),
        bound("/.oldroot/"@ + rel, target),
    ] + seal);
    assert(expansion(task, Probe::File)->Ok_0 =~= seq![
        TaskView::Do(ActionView::CreateParent(target), OnFailureView::Ignore),
        TaskView::Do(ActionView::CreateFile(target), OnFailureView::Ignore),
        bound("/.oldroot/"@ + rel, target),
    ] + seal);
}

/// A device of the host is looked for where the old root is, and bound from there
/// onto a file in `/dev`, best effort; one that the host does not have is left out.
pub proof fn law_devices_are_bound(name: Seq<char>, rest: Seq<TaskView>, found: Probe)
    ensures
        request(seq![TaskView::Device(name)] + rest) == RequestView::Probe(
            "/.oldroot/dev/"@ + name,
        ),
        expansion(TaskView::Device(name), Probe::Missing) == Ok::<Seq<TaskView>, ErrorView>(
            Seq::empty(),
        ),
        found != Probe::Missing ==> expansion(TaskView::Device(name), found) == Ok::<
            Seq<TaskView>,
            ErrorView,
        >(
            seq![
                TaskView::Do(ActionView::CreateFile("/dev/"@ + name), OnFailureView::Ignore),
                TaskView::Do(
                    ActionView::Mount {
                        source: Some(PlaceView::At("/.oldroot/dev/"@ + name)),
                        target: PlaceView::At("/dev/"@ + name),
                        fstype: None,
                        flags: 4096,
                    },
                    OnFailureView::Ignore,
                ),
            ],
        ),
{
    assert((seq![TaskView::Device(name)] + rest)[0] == TaskView::Device(name));
}

/// How a script takes an answer: what went well, or may fail, is passed over; what
/// must succeed ends it with an error that says what was attempted and why it
/// failed; and what the user is to be told is told, and ends it only if nothing
/// after it makes sense.
pub proof fn law_answers_are_taken_as_meant(
    action: ActionView,
    policy: OnFailureView,
    rest: Seq<TaskView>,
    text: Seq<char>,
    reason: Seq<char>,
)
    ensures
        verdict(policy, None) is Continue,
        verdict(OnFailureView::Ignore, Some(reason)) is Continue,
        verdict(OnFailureView::Fail(text), Some(reason)) == VerdictView::Fail(
            ErrorView::Runtime(text + ": "@ + reason),
        ),
        verdict(OnFailureView::Warn(text), Some(reason)) == VerdictView::Warn(text),
        verdict(OnFailureView::GiveUp(text), Some(reason)) == VerdictView::GiveUp(text),
        ({
            let tasks = seq![TaskView::Do(action, policy)] + rest;
            &&& request(tasks) == RequestView::Perform(action)
            &&& left_after(tasks, VerdictView::Continue) == rest
            &&& left_after(tasks, VerdictView::Warn(text)) == rest
            &&& left_after(tasks, VerdictView::GiveUp(text)).len() == 0
            &&& left_after(tasks, VerdictView::Fail(ErrorView::Runtime(text))).len() == 0
        }),
        request(seq![TaskView::Refuse(text)] + rest) == RequestView::Stop(
            ErrorView::Runtime(text),
        ),
        request(Seq::empty()) is Done,
{
    let tasks = seq![TaskView::Do(action, policy)] + rest;
    assert(tasks[0] == TaskView::Do(action, policy));
    assert(tasks.drop_first() =~= rest);
    assert((seq![TaskView::Refuse(text)] + rest)[0] == TaskView::Refuse(text));
}

/// The cgroup of the runtime is read off the first line that starts with `0::`: it is
/// below where the kernel shows cgroups, without slashes in front.
pub proof fn law_own_cgroup(
    line: Seq<char>,
    before: Seq<char>,
    slashes: nat,
    rel: Seq<char>,
    after: Seq<char>,
    rest: Seq<char>,
)
    requires
        !line.contains('\n'),
        !"0::"@.is_prefix_of(line),
        line.len() == 0 || line[line.len() - 1] != '\r',
        is_blank(before),
        is_blank(after),
        has_no_margin(rel),
        rel.len() > 0,
        rel[0] != '/',
        !(before + (Seq::new(slashes, |i: int| '/') + rel) + after).contains('\n'),
        after.len() == 0 || after[after.len() - 1] != '\r',
        rel[rel.len() - 1] != '\r',
    ensures
        base_of(line + seq!['\n'] + rest) == base_of(rest),
        base_of(
            "0::"@ + (before + (Seq::new(slashes, |i: int| '/') + rel) + after) + seq!['\n'] + rest,
        ) == Some("/sys/fs/cgroup/"@ + rel),
        base_of(Seq::empty()) is None,
{
    reveal_strlit("0::");
    reveal_strlit("/sys/fs/cgroup");
    reveal_strlit("/sys/fs/cgroup/");
    reveal_strlit("/");
    law_lines_of_a_text(line, rest);
    let all = seq![line] + text_lines(rest);
    assert(all.drop_first() =~= text_lines(rest));
    assert(all[0] == line);
    let path = Seq::new(slashes, |i: int| '/') + rel;
    let shown = before + path + after;
    let own = "0::"@ + shown;
    assert(!own.contains('\n')) by {
        if own.contains('\n') {
            let i = choose|i: int| 0 <= i < own.len() && own[i] == '\n';
            if i >= 3 {
                assert(shown[i - 3] == '\n');
            }
        }
    }
    assert(own[own.len() - 1] != '\r') by {
        if after.len() > 0 {
            assert(own[own.len() - 1] == after[after.len() - 1]);
        } else {
            assert(own[own.len() - 1] == rel[rel.len() - 1]);
        }
    }
    law_lines_of_a_text(own, rest);
    law_affixes(shown, "0::"@);
    assert(has_no_margin(path)) by {
        assert(path[path.len() - 1] == rel[rel.len() - 1]);
        assert(slashes > 0 ==> path[0] == '/');
        assert(slashes == 0 ==> path[0] == rel[0]);
    }
    law_trim_takes_the_margin(before, path, after);
    law_leading(slashes, '/', rel);
    let found = seq![own] + text_lines(rest);
    assert(found[0] == own);
    assert(without_prefix(own, "0::"@) == Some(shown));
    assert(without_leading(trimmed(shown), '/') == rel);
    assert("/sys/fs/cgroup"@ + "/"@ + rel =~= "/sys/fs/cgroup/"@ + rel);
}

/// The task of a limit: it is written in full, and the user is told where it is not.
pub open spec fn written(file: Seq<char>, n: u64, warning: Seq<char>) -> TaskView {
    TaskView::Do(
        ActionView::WriteFile { path: file, text: decimal(n as nat) },
        OnFailureView::Warn(warning),
    )
}

/// The limits of a plan go into a cgroup below the runtime's own, which is made in
/// four steps without which there are no limits, as the user is then told; each
/// limit that is set is written there, and none that is not; and that is where the
/// child goes.
pub proof fn law_limits_are_set(
    limits: Limits,
    own: Seq<char>,
    base: Seq<char>,
    pid: u32,
    child: u32,
)
    requires
        limits.memory_max is Some || limits.pids_max is Some,
        base_of(own) == Some(base),
        base.len() > 0,
    ensures
        ({
            let below = if base[base.len() - 1] == '/' {
                base
            } else {
                base + "/"@
            };
            let dir = below + "cocoon-"@ + decimal(pid as nat);
            let give_up = OnFailureView::GiveUp(
                "cgroup limits requested but no delegated writable cgroup v2 is available; \
                 continuing without enforcement"@,
            );
            &&& cgroup_for(limits, Some(own), pid) == Some(
                (
                    dir,
                    seq![
                        TaskView::Do(
                            ActionView::CreateDir(PlaceView::At(below + "cocoon-mgr"@)),
                            give_up,
                        ),
                        TaskView::Do(
                            ActionView::WriteFile {
                                path: below + "cocoon-mgr/cgroup.procs"@,
                                text: decimal(pid as nat),
                            },
                            give_up,
                        ),
                        TaskView::Do(
                            ActionView::WriteFile {
                                path: below + "cgroup.subtree_control"@,
                                text: "+memory +pids"@,
                            },
                            give_up,
                        ),
                        TaskView::Do(ActionView::CreateDir(PlaceView::At(dir)), give_up),
                    ] + (match limits.memory_max {
                        Some(n) => seq![
                            written(
                                dir + "/memory.max"@,
                                n,
                                "could not set memory.max; continuing without that limit"@,
                            ),
                        ],
                        None => Seq::empty(),
                    }) + (match limits.pids_max {
                        Some(n) => seq![
                            written(
                                dir + "/pids.max"@,
                                n,
                                "could not set pids.max; continuing without that limit"@,
                            ),
                        ],
                        None => Seq::empty(),
                    }),
                ),
            )
            &&& enroll_task(dir, child) == TaskView::Do(
                ActionView::WriteFile {
                    path: dir + "/cgroup.procs"@,
                    text: decimal(child as nat),
                },
                OnFailureView::Warn(
                    "cgroup limits requested but no delegated writable cgroup v2 is available; \
                 continuing without enforcement"@,
                ),
            )
        }),
        cgroup_for(Limits { memory_max: None, pids_max: None }, Some(own), pid) is None,
        cgroup_for(limits, None, pid) is None,
{
    reveal_strlit("/");
    reveal_strlit("cocoon-");
    reveal_strlit("cocoon-mgr");
    reveal_strlit("cgroup.procs");
    reveal_strlit("/cgroup.procs");
    reveal_strlit("cocoon-mgr/cgroup.procs");
    reveal_strlit("cgroup.subtree_control");
    reveal_strlit("memory.max");
    reveal_strlit("/memory.max");
    reveal_strlit("pids.max");
    reveal_strlit("/pids.max");
    let digits = decimal(pid as nat);
    crate::text::lemma_decimal(pid as nat);
    assert(crate::text::is_digit(digits[digits.len() - 1]));
    let below = if base[base.len() - 1] == '/' {
        base
    } else {
        base + "/"@
    };
    let dir = below + "cocoon-"@ + digits;
    assert(run_dir(base, pid) =~= dir);
    assert(dir[dir.len() - 1] == digits[digits.len() - 1]);
    let manager = below + "cocoon-mgr"@;
    assert(crate::cgroup::manager_dir(base) =~= manager);
    assert(manager[manager.len() - 1] == 'r');
    assert(manager + "/"@ + "cgroup.procs"@ =~= below + "cocoon-mgr/cgroup.procs"@);
    assert(dir + "/"@ + "memory.max"@ =~= dir + "/memory.max"@);
    assert(dir + "/"@ + "pids.max"@ =~= dir + "/pids.max"@);
    assert(dir + "/"@ + "cgroup.procs"@ =~= dir + "/cgroup.procs"@);
    assert(cgroup_tasks(limits, base, pid).len() >= 4);
}

/// A runtime in the root cgroup, which is shown as a slash or several, has its cgroup
/// where the kernel shows cgroups.
pub proof fn law_root_cgroup(slashes: nat, rest: Seq<char>)
    requires
        slashes > 0,
    ensures
        base_of("0::"@ + Seq::new(slashes, |i: int| '/') + seq!['\n'] + rest) == Some(
            "/sys/fs/cgroup/"@,
        ),
{
    reveal_strlit("0::");
    reveal_strlit("/sys/fs/cgroup");
    reveal_strlit("/sys/fs/cgroup/");
    reveal_strlit("/");
    let none = Seq::<char>::empty();
    let shown = Seq::new(slashes, |i: int| '/');
    let own = "0::"@ + shown;
    assert(!own.contains('\n'));
    assert(own[own.len() - 1] == '/');
    law_lines_of_a_text(own, rest);
    law_affixes(shown, "0::"@);
    law_trim_takes_the_margin(none, shown, none);
    assert(none + shown + none =~= shown);
    law_leading(slashes, '/', none);
    assert(shown + none =~= shown);
    let found = seq![own] + text_lines(rest);
    assert(found[0] == own);
    assert(without_prefix(own, "0::"@) == Some(shown));
    assert(without_leading(trimmed(shown), '/') == none);
    assert("/sys/fs/cgroup"@ + "/"@ + none =~= "/sys/fs/cgroup/"@);
}

/// A path below another stands behind it, with one slash between them where it does
/// not end in one; an absolute path stays what it is.
pub proof fn law_paths_are_joined(a: Seq<char>, b: Seq<char>)
    ensures
        joined_path(a, seq!['/'] + b) == seq!['/'] + b,
        b.len() == 0 || b[0] != '/' ==> joined_path(a + seq!['/'], b) == a + seq!['/'] + b,
        (b.len() == 0 || b[0] != '/') && a.len() > 0 && a.last() != '/' ==> joined_path(a, b) == a
            + seq!['/'] + b,
        joined_path(Seq::empty(), b) == b,
{
    reveal_strlit("/");
    assert((seq!['/'] + b)[0] == '/');
    assert((a + seq!['/']).last() == '/');
    assert("/"@ =~= seq!['/']);
    assert(Seq::<char>::empty() + b =~= b);
}

} // verus!
