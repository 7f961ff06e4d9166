//! From a plan to an isolated process: the requests, their order, and what a
//! failure means; the seccomp filter; the cgroup.
use cocoon::cgroup::{
    cgroup_base, cgroup_dir, counts_oom_kills, join_path, number_text, plan_cgroup, setup_cgroup,
};
use cocoon::launch::{self, Answer, Launch};
use cocoon::plan::Limits;
use cocoon::sandbox::{
    child_setup, clone_flag, clone_flags, enter_namespaces, environment, has_namespace,
    CAPABILITIES, DEFAULT_PATH,
};
use cocoon::script::{
    apply_bind_mount, apply_device, Action, OnFailure, Place, Probe, Request, Script, Task,
    Verdict, BIND_TREE, MS_BIND, MS_PRIVATE, MS_RDONLY, MS_REC, MS_REMOUNT, PRIVATE_TREE, READ_ONLY,
};
use cocoon::seccomp::{denied_syscalls, seccomp_program, syscall_number, Arch, Syscall};
use cocoon::{Config, Error, Namespace, Plan};

fn plan(text: &str) -> Plan {
    Plan::from_config(&Config::parse(text).unwrap()).unwrap()
}

fn at(path: &str) -> Place {
    Place::At(path.to_string())
}

fn fail(attempt: &str) -> OnFailure {
    OnFailure::Fail(attempt.to_string())
}

#[test]
fn flags_are_the_kernels() {
    assert_eq!(clone_flag(Namespace::User), libc::CLONE_NEWUSER);
    assert_eq!(clone_flag(Namespace::Mount), libc::CLONE_NEWNS);
    assert_eq!(clone_flag(Namespace::Pid), libc::CLONE_NEWPID);
    assert_eq!(clone_flag(Namespace::Uts), libc::CLONE_NEWUTS);
    assert_eq!(clone_flag(Namespace::Ipc), libc::CLONE_NEWIPC);
    assert_eq!(clone_flag(Namespace::Net), libc::CLONE_NEWNET);
    assert_eq!(MS_RDONLY, libc::MS_RDONLY);
    assert_eq!(MS_REMOUNT, libc::MS_REMOUNT);
    assert_eq!(MS_BIND, libc::MS_BIND);
    assert_eq!(MS_REC, libc::MS_REC);
    assert_eq!(MS_PRIVATE, libc::MS_PRIVATE);
    assert_eq!(PRIVATE_TREE, libc::MS_REC | libc::MS_PRIVATE);
    assert_eq!(BIND_TREE, libc::MS_BIND | libc::MS_REC);
    assert_eq!(READ_ONLY, libc::MS_REMOUNT | libc::MS_BIND | libc::MS_RDONLY);
    assert_eq!(cocoon::monitor::SIGKILL as i32, libc::SIGKILL);
    assert_eq!(cocoon::seccomp::EPERM as i32, libc::EPERM);
}

#[test]
fn clone_flags_are_the_union() {
    let p = plan("argv = x\nnet = isolated");
    let all = libc::CLONE_NEWUSER
        | libc::CLONE_NEWNS
        | libc::CLONE_NEWPID
        | libc::CLONE_NEWUTS
        | libc::CLONE_NEWIPC
        | libc::CLONE_NEWNET;
    assert_eq!(clone_flags(&p.namespaces), all);
    assert_eq!(clone_flags(&vec![]), 0);
    assert_eq!(clone_flags(&vec![Namespace::Uts, Namespace::Uts]), libc::CLONE_NEWUTS);
    assert!(has_namespace(&p.namespaces, Namespace::Net));
    assert!(!has_namespace(&vec![Namespace::User], Namespace::Net));
}

#[test]
fn ids_are_mapped_after_groups_are_denied() {
    let tasks = enter_namespaces(&plan("argv = x"), 1000, 100, "unshare namespaces");
    let write = |path: &str, text: &str| Action::WriteFile {
        path: path.to_string(),
        text: text.to_string(),
    };
    assert_eq!(tasks.len(), 4);
    assert_eq!(
        tasks[0],
        Task::Do(
            Action::Unshare(clone_flags(&plan("argv = x").namespaces)),
            fail("unshare namespaces")
        )
    );
    assert_eq!(tasks[1], Task::Do(write("/proc/self/uid_map", "0 1000 1"), fail("write uid_map")));
    assert_eq!(tasks[2], Task::Do(write("/proc/self/setgroups", "deny"), OnFailure::Ignore));
    assert_eq!(tasks[3], Task::Do(write("/proc/self/gid_map", "0 100 1"), fail("write gid_map")));
    let mut bare = plan("argv = x");
    bare.namespaces = vec![Namespace::Mount];
    assert_eq!(enter_namespaces(&bare, 1, 2, "u").len(), 1);
}

#[test]
fn child_does_everything_in_order() {
    let p = plan(
        "hostname = h\ncwd = /w\nargv = /bin/a b\nenv = K=v\nreadonly = true\n\
         mount = /in:/i:ro\nmount = /out:/o:rw",
    );
    let tasks = child_setup(&p);
    let mount = |source: Option<Place>, target: Place, fstype: Option<&str>, flags: u64| {
        Action::Mount {
            source,
            target,
            fstype: fstype.map(|s| s.to_string()),
            flags,
        }
    };
    let mut expected = vec![
        Task::Do(Action::SetHostname("h".to_string()), fail("sethostname")),
        Task::Do(mount(None, at("/"), None, PRIVATE_TREE), fail("make / private")),
        Task::Do(
            mount(Some(Place::Rootfs), Place::Rootfs, None, BIND_TREE),
            fail("bind-mount rootfs onto itself"),
        ),
        Task::Do(Action::CreateDir(Place::OldRoot), fail("create .oldroot")),
        Task::Do(Action::PivotRoot, fail("pivot_root")),
        Task::Do(Action::ChangeDir("/".to_string()), fail("chdir /")),
        Task::Do(mount(Some(at("proc")), at("/proc"), Some("proc"), 0), fail("mount /proc")),
        Task::Do(Action::CreateDir(at("/dev")), OnFailure::Ignore),
    ];
    for node in ["null", "zero", "full", "random", "urandom", "tty"] {
        expected.push(Task::Device(node.to_string()));
    }
    expected.push(Task::Bind(p.mounts[0].clone()));
    expected.push(Task::Bind(p.mounts[1].clone()));
    expected.push(Task::Do(Action::Detach("/.oldroot".to_string()), fail("umount old root")));
    expected.push(Task::Do(Action::RemoveDir("/.oldroot".to_string()), OnFailure::Ignore));
    expected.push(Task::Do(
        mount(None, at("/"), None, READ_ONLY),
        fail("remount rootfs read-only"),
    ));
    expected.push(Task::Do(Action::ChangeDir("/w".to_string()), fail("chdir to cwd")));
    expected.push(Task::Do(Action::NoNewPrivs, OnFailure::Ignore));
    expected.push(Task::Do(Action::ClearAmbient, OnFailure::Ignore));
    for cap in 0..CAPABILITIES {
        expected.push(Task::Do(Action::DropCapability(cap), OnFailure::Ignore));
    }
    expected.push(Task::Do(Action::LoadSeccomp, OnFailure::Ignore));
    expected.push(Task::Do(
        Action::Exec {
            argv: vec!["/bin/a".to_string(), "b".to_string()],
            env: vec!["K=v".to_string(), format!("PATH={DEFAULT_PATH}")],
        },
        fail("exec"),
    ));
    assert_eq!(CAPABILITIES, 64);
    assert_eq!(tasks, expected);
}

#[test]
fn namespaces_that_are_not_there_need_no_setup() {
    let mut p = plan("argv = x");
    p.namespaces = vec![Namespace::User, Namespace::Mount];
    let tasks = child_setup(&p);
    assert!(!tasks.iter().any(|t| matches!(t, Task::Do(Action::SetHostname(_), _))));
    assert!(!tasks
        .iter()
        .any(|t| matches!(t, Task::Do(Action::Mount { fstype: Some(_), .. }, _))));
}

#[test]
fn nul_bytes_are_refused_at_the_very_end() {
    let mut p = plan("argv = x");
    p.argv.push("a\0b".to_string());
    assert_eq!(
        child_setup(&p).last(),
        Some(&Task::Refuse("argv contains a NUL byte".to_string()))
    );
    let mut p = plan("argv = x");
    p.env.push(("K\0".to_string(), "v".to_string()));
    assert_eq!(
        child_setup(&p).last(),
        Some(&Task::Refuse("env contains a NUL byte".to_string()))
    );
    let mut s = Script::new(vec![Task::Refuse("no".to_string())]);
    assert!(matches!(s.next(), Request::Stop(Error::Runtime(m)) if m == "no"));
    s = Script::new(vec![]);
    assert!(matches!(s.next(), Request::Done));
}

#[test]
fn the_search_path_is_added_only_where_it_is_missing() {
    let pair = |k: &str, v: &str| (k.to_string(), v.to_string());
    assert_eq!(environment(&vec![]), vec![format!("PATH={DEFAULT_PATH}")]);
    assert_eq!(
        environment(&vec![pair("PATH", "/bin"), pair("A", "b=c")]),
        vec!["PATH=/bin", "A=b=c"]
    );
    assert_eq!(
        environment(&vec![pair("PATHS", "/x")]),
        vec!["PATHS=/x".to_string(), format!("PATH={DEFAULT_PATH}")]
    );
}

#[test]
fn binds_depend_on_what_is_there() {
    let p = plan("argv = x\nmount = //a/b:/t:ro\nmount = /a:/t:rw");
    let bind = |source: &str| Action::Mount {
        source: Some(at(source)),
        target: at("/t"),
        fstype: None,
        flags: BIND_TREE,
    };
    let seal = Action::Mount {
        source: None,
        target: at("/t"),
        fstype: None,
        flags: READ_ONLY,
    };
    assert_eq!(
        apply_bind_mount(&p.mounts[0], Probe::Directory).unwrap(),
        vec![
            Task::Do(Action::CreateDir(at("/t")), fail("create mount target")),
            Task::Do(bind("/.oldroot/a/b"), fail("bind mount")),
            Task::Do(seal, fail("remount mount read-only")),
        ]
    );
    assert_eq!(
        apply_bind_mount(&p.mounts[1], Probe::File).unwrap(),
        vec![
            Task::Do(Action::CreateParent("/t".to_string()), OnFailure::Ignore),
            Task::Do(Action::CreateFile("/t".to_string()), OnFailure::Ignore),
            Task::Do(bind("/.oldroot/a"), fail("bind mount")),
        ]
    );
    assert_eq!(
        apply_bind_mount(&p.mounts[0], Probe::Missing),
        Err(Error::Runtime(
            "mount source '//a/b' does not exist on the host".to_string()
        ))
    );
    assert_eq!(apply_device("tty", Probe::Missing), vec![]);
    assert_eq!(
        apply_device("null", Probe::File),
        vec![
            Task::Do(Action::CreateFile("/dev/null".to_string()), OnFailure::Ignore),
            Task::Do(
                Action::Mount {
                    source: Some(at("/.oldroot/dev/null")),
                    target: at("/dev/null"),
                    fstype: None,
                    flags: MS_BIND,
                },
                OnFailure::Ignore
            ),
        ]
    );
}

#[test]
fn scripts_go_on_or_stop() {
    let task = |f: OnFailure| Task::Do(Action::PivotRoot, f);
    let end = || Task::Do(Action::NoNewPrivs, OnFailure::Ignore);
    let why = || Some("EPERM: no".to_string());
    let mut s = Script::new(vec![task(fail("pivot_root")), end()]);
    assert!(matches!(s.next(), Request::Perform(Action::PivotRoot)));
    assert_eq!(s.performed(None), Verdict::Continue);
    assert!(matches!(s.next(), Request::Perform(Action::NoNewPrivs)));
    let mut s = Script::new(vec![task(fail("pivot_root")), end()]);
    assert_eq!(
        s.performed(why()),
        Verdict::Fail(Error::Runtime("pivot_root: EPERM: no".to_string()))
    );
    assert!(matches!(s.next(), Request::Done));
    let mut s = Script::new(vec![task(OnFailure::Ignore), end()]);
    assert_eq!(s.performed(why()), Verdict::Continue);
    assert!(matches!(s.next(), Request::Perform(Action::NoNewPrivs)));
    let mut s = Script::new(vec![task(OnFailure::Warn("careful".to_string())), end()]);
    assert_eq!(s.performed(why()), Verdict::Warn("careful".to_string()));
    assert!(matches!(s.next(), Request::Perform(Action::NoNewPrivs)));
    let mut s = Script::new(vec![task(OnFailure::GiveUp("never mind".to_string())), end()]);
    assert_eq!(s.performed(why()), Verdict::GiveUp("never mind".to_string()));
    assert!(matches!(s.next(), Request::Done));
}

#[test]
fn probes_expand_into_tasks() {
    let p = plan("argv = x\nmount = /a:/t:rw");
    let mut s = Script::new(vec![Task::Bind(p.mounts[0].clone()), Task::Device("tty".to_string())]);
    assert!(matches!(s.next(), Request::Probe(path) if path == "/.oldroot/a"));
    s.probed(Probe::Directory).unwrap();
    assert!(matches!(s.next(), Request::Perform(Action::CreateDir(_))));
    s.performed(None);
    assert!(matches!(s.next(), Request::Perform(Action::Mount { .. })));
    s.performed(None);
    assert!(matches!(s.next(), Request::Probe(path) if path == "/.oldroot/dev/tty"));
    s.probed(Probe::Missing).unwrap();
    assert!(matches!(s.next(), Request::Done));
    let mut s = Script::new(vec![Task::Bind(p.mounts[0].clone()), Task::Device("tty".to_string())]);
    assert!(s.probed(Probe::Missing).is_err());
    assert!(matches!(s.next(), Request::Done));
}

/// A whole child run in which everything goes well asks for every action, and for
/// the program at the end.
#[test]
fn a_smooth_setup_reaches_the_program() {
    let p = plan("argv = /bin/a\nmount = /in:/i:ro");
    let mut s = Script::new(child_setup(&p));
    let mut seen: Vec<String> = vec![];
    loop {
        let answer = match s.next() {
            Request::Done => break,
            Request::Stop(e) => panic!("{e:?}"),
            Request::Probe(path) => {
                seen.push(format!("probe {path}"));
                None
            }
            Request::Perform(a) => {
                seen.push(format!("{a:?}"));
                Some(())
            }
        };
        match answer {
            None => s.probed(Probe::File).unwrap(),
            Some(()) => assert_eq!(s.performed(None), Verdict::Continue),
        }
    }
    let position = |what: &str| {
        seen.iter()
            .position(|line| line.starts_with(what))
            .unwrap_or_else(|| panic!("{what} is missing"))
    };
    assert!(position("PivotRoot") < position("probe /.oldroot/dev/null"));
    assert!(position("probe /.oldroot/dev/tty") < position("probe /.oldroot/in"));
    assert!(position("probe /.oldroot/in") < position("Detach"));
    assert!(position("Detach") < position("NoNewPrivs"));
    assert!(position("NoNewPrivs") < position("DropCapability(0)"));
    assert!(position("DropCapability(63)") < position("LoadSeccomp"));
    assert_eq!(position("LoadSeccomp") + 1, position("Exec"));
    assert_eq!(position("Exec") + 1, seen.len());
}

#[test]
fn syscall_numbers_are_the_kernels() {
    // The number of another call tells which architecture this is.
    let arch = if libc::SYS_openat == 56 {
        Arch::Aarch64
    } else {
        Arch::X8664
    };
    for (call, number) in [
        (Syscall::Keyctl, libc::SYS_keyctl),
        (Syscall::AddKey, libc::SYS_add_key),
        (Syscall::RequestKey, libc::SYS_request_key),
        (Syscall::Ptrace, libc::SYS_ptrace),
        (Syscall::Bpf, libc::SYS_bpf),
        (Syscall::PerfEventOpen, libc::SYS_perf_event_open),
        (Syscall::Mount, libc::SYS_mount),
        (Syscall::Umount2, libc::SYS_umount2),
        (Syscall::Swapon, libc::SYS_swapon),
        (Syscall::Swapoff, libc::SYS_swapoff),
        (Syscall::Reboot, libc::SYS_reboot),
        (Syscall::KexecLoad, libc::SYS_kexec_load),
        (Syscall::InitModule, libc::SYS_init_module),
        (Syscall::FinitModule, libc::SYS_finit_module),
        (Syscall::DeleteModule, libc::SYS_delete_module),
    ] {
        assert_eq!(syscall_number(call, arch), number, "{call:?}");
        assert!(denied_syscalls().contains(&call));
    }
    assert_eq!(denied_syscalls().len(), 15);
}

/// Runs a filter program on a system call, as the kernel does.
fn verdict(program: &[seccompiler::sock_filter], audit_arch: u32, number: u32) -> u32 {
    let mut pc = 0;
    let mut acc = 0;
    loop {
        let i = &program[pc];
        pc += 1;
        match i.code {
            0x20 => acc = if i.k == 0 { number } else { audit_arch },
            0x15 => pc += if acc == i.k { i.jt } else { i.jf } as usize,
            0x05 => pc += i.k as usize,
            0x06 => return i.k,
            other => panic!("unexpected instruction {other:#x}"),
        }
    }
}

#[test]
fn the_filter_denies_exactly_the_dangerous_calls() {
    for (arch, audit) in [(Arch::X8664, 0xc000_003e), (Arch::Aarch64, 0xc000_00b7)] {
        let program = seccomp_program(arch).unwrap();
        assert_eq!(program.len(), 5 * 15 + 5);
        let denied: Vec<u32> = denied_syscalls()
            .iter()
            .map(|s| syscall_number(*s, arch) as u32)
            .collect();
        for n in 0..600u32 {
            let expected = if denied.contains(&n) {
                0x0005_0001 // fail with EPERM
            } else {
                0x7fff_0000 // allow
            };
            assert_eq!(verdict(&program, audit, n), expected, "{arch:?} {n}");
        }
        // Another architecture's calls end the process.
        assert_eq!(verdict(&program, 0x4000_0003, 1), 0x8000_0000);
    }
}

#[test]
fn paths_are_joined_as_the_standard_library_does() {
    for a in ["", "/", "/a", "/a/", "b"] {
        for b in ["", "c", "c/d", "/e"] {
            let theirs = std::path::PathBuf::from(a).join(b);
            assert_eq!(join_path(a, b), theirs.to_str().unwrap(), "{a:?} {b:?}");
        }
    }
}

#[test]
fn the_own_cgroup_is_found() {
    assert_eq!(
        cgroup_base("1:name=x:/y\n0::/user.slice/a \n").as_deref(),
        Some("/sys/fs/cgroup/user.slice/a")
    );
    assert_eq!(cgroup_base("0::/\n").as_deref(), Some("/sys/fs/cgroup/"));
    assert_eq!(cgroup_base("0::a\n0::b").as_deref(), Some("/sys/fs/cgroup/a"));
    assert_eq!(cgroup_base("1:cpu:/x"), None);
    assert_eq!(cgroup_base(""), None);
    assert_eq!(cgroup_dir("/sys/fs/cgroup/", 42), "/sys/fs/cgroup/cocoon-42");
    assert_eq!(number_text(u64::MAX), "18446744073709551615");
}

#[test]
fn limits_make_a_cgroup() {
    let limits = Limits {
        memory_max: Some(1024),
        pids_max: Some(8),
    };
    let (c, tasks) = plan_cgroup(&limits, Some("0::/u"), 7).unwrap();
    assert_eq!(c.dir, "/sys/fs/cgroup/u/cocoon-7");
    let give_up = || {
        OnFailure::GiveUp(
            "cgroup limits requested but no delegated writable cgroup v2 is available; \
             continuing without enforcement"
                .to_string(),
        )
    };
    let write = |path: &str, text: &str| Action::WriteFile {
        path: path.to_string(),
        text: text.to_string(),
    };
    assert_eq!(
        tasks,
        vec![
            Task::Do(Action::CreateDir(at("/sys/fs/cgroup/u/cocoon-mgr")), give_up()),
            Task::Do(write("/sys/fs/cgroup/u/cocoon-mgr/cgroup.procs", "7"), give_up()),
            Task::Do(
                write("/sys/fs/cgroup/u/cgroup.subtree_control", "+memory +pids"),
                give_up()
            ),
            Task::Do(Action::CreateDir(at("/sys/fs/cgroup/u/cocoon-7")), give_up()),
            Task::Do(
                write("/sys/fs/cgroup/u/cocoon-7/memory.max", "1024"),
                OnFailure::Warn(
                    "could not set memory.max; continuing without that limit".to_string()
                )
            ),
            Task::Do(
                write("/sys/fs/cgroup/u/cocoon-7/pids.max", "8"),
                OnFailure::Warn(
                    "could not set pids.max; continuing without that limit".to_string()
                )
            ),
        ]
    );
    assert_eq!(
        c.enroll(99),
        Task::Do(
            write("/sys/fs/cgroup/u/cocoon-7/cgroup.procs", "99"),
            OnFailure::Warn(
                "cgroup limits requested but no delegated writable cgroup v2 is available; \
                 continuing without enforcement"
                    .to_string()
            )
        )
    );
    assert_eq!(c.events_file(), "/sys/fs/cgroup/u/cocoon-7/memory.events");
    let one = Limits {
        memory_max: None,
        pids_max: Some(1),
    };
    assert_eq!(setup_cgroup(&one, "/b", 1).len(), 5);
    assert!(plan_cgroup(&one, None, 1).is_none());
    assert!(plan_cgroup(&one, Some("1:x:/"), 1).is_none());
    let none = Limits {
        memory_max: None,
        pids_max: None,
    };
    assert!(plan_cgroup(&none, Some("0::/u"), 1).is_none());
}

#[test]
fn oom_kills_are_counted() {
    assert!(counts_oom_kills("low 0\nhigh 0\nmax 3\noom 1\noom_kill 1\noom_group_kill 0\n"));
    assert!(!counts_oom_kills("low 0\noom 1\noom_kill 0\noom_group_kill 5\n"));
    assert!(!counts_oom_kills("oom_kill x\n"));
    assert!(!counts_oom_kills("oom_kill\n"));
    assert!(counts_oom_kills("oom_kill   2  \n"));
    assert!(!counts_oom_kills(""));
}

/// Plays a launch in the cgroup `/u`.
fn play(
    p: &Plan,
    measured: bool,
    is_dir: bool,
    fails: impl Fn(&str) -> Option<String>,
) -> (Vec<String>, Vec<String>) {
    play_in(Some("0::/u".to_string()), p, measured, is_dir, fails)
}

/// Plays a launch: every action is answered by `fails`, which says why it fails, if
/// it does; `own` is what the file with the process's cgroups holds, if it can be
/// read. Returns what was asked for and what the user was told.
fn play_in(
    own: Option<String>,
    p: &Plan,
    measured: bool,
    is_dir: bool,
    fails: impl Fn(&str) -> Option<String>,
) -> (Vec<String>, Vec<String>) {
    let mut l = Launch::new(p, measured, 7);
    let mut seen = vec![];
    let mut told = vec![];
    loop {
        let (name, answer) = match l.next() {
            launch::Request::Inspect => (
                "inspect".to_string(),
                Answer::Rootfs {
                    is_dir,
                    shown: "/r".to_string(),
                },
            ),
            launch::Request::Resolve => {
                ("resolve".to_string(), Answer::Performed(fails("resolve")))
            }
            launch::Request::Identify => {
                ("identify".to_string(), Answer::Ids { uid: 5, gid: 6 })
            }
            launch::Request::Perform(a) => {
                let name = match a {
                    Action::WriteFile { path, text } => format!("write {path} {text}"),
                    Action::CreateDir(Place::At(path)) => format!("mkdir {path}"),
                    Action::Unshare(_) => "unshare".to_string(),
                    other => format!("{other:?}"),
                };
                let answer = Answer::Performed(fails(&name));
                (name, answer)
            }
            launch::Request::OpenPipes => {
                ("pipes".to_string(), Answer::Performed(fails("pipes")))
            }
            launch::Request::ReadCgroup => {
                ("cgroup".to_string(), Answer::OwnCgroup(own.clone()))
            }
            launch::Request::Fork => ("fork".to_string(), Answer::Performed(fails("fork"))),
            launch::Request::Ready(c) => {
                seen.push(format!("ready {:?}", c.map(|c| c.dir.clone())));
                return (seen, told);
            }
            launch::Request::Failed(e) => {
                seen.push(e.to_string());
                return (seen, told);
            }
        };
        seen.push(name);
        told.extend(l.step(answer));
    }
}

#[test]
fn a_launch_forks_after_everything_else() {
    let (seen, told) = play(&plan("argv = x"), false, true, |_| None);
    assert_eq!(
        seen,
        vec![
            "inspect",
            "resolve",
            "identify",
            "unshare",
            "write /proc/self/uid_map 0 5 1",
            "write /proc/self/setgroups deny",
            "write /proc/self/gid_map 0 6 1",
            "fork",
            "ready None"
        ]
    );
    assert!(told.is_empty());
    let (seen, _) = play(&plan("argv = x\npids_max = 3"), true, true, |_| None);
    assert_eq!(
        seen[6..],
        [
            "write /proc/self/gid_map 0 6 1",
            "pipes",
            "cgroup",
            "mkdir /sys/fs/cgroup/u/cocoon-mgr",
            "write /sys/fs/cgroup/u/cocoon-mgr/cgroup.procs 7",
            "write /sys/fs/cgroup/u/cgroup.subtree_control +memory +pids",
            "mkdir /sys/fs/cgroup/u/cocoon-7",
            "write /sys/fs/cgroup/u/cocoon-7/pids.max 3",
            "fork",
            "ready Some(\"/sys/fs/cgroup/u/cocoon-7\")"
        ]
    );
}

#[test]
fn a_launch_fails_on_what_it_needs() {
    let p = plan("argv = x");
    let last = |measured: bool, is_dir: bool, what: &'static str| {
        let (seen, _) = play(&p, measured, is_dir, |name| {
            if name.starts_with(what) {
                Some("EPERM".to_string())
            } else {
                None
            }
        });
        seen.last().unwrap().clone()
    };
    assert_eq!(last(false, false, "-"), "runtime error: rootfs '/r' is not a directory");
    assert_eq!(last(false, true, "resolve"), "runtime error: canonicalize rootfs: EPERM");
    assert_eq!(
        last(false, true, "unshare"),
        "runtime error: unshare namespaces (is unprivileged_userns_clone enabled?): EPERM"
    );
    assert_eq!(last(true, true, "unshare"), "runtime error: unshare namespaces: EPERM");
    assert_eq!(
        last(true, true, "write /proc/self/uid_map"),
        "runtime error: write uid_map: EPERM"
    );
    assert_eq!(last(true, true, "write /proc/self/setgroups"), "ready None");
    assert_eq!(
        last(true, true, "write /proc/self/gid_map"),
        "runtime error: write gid_map: EPERM"
    );
    assert_eq!(last(true, true, "pipes"), "runtime error: pipe failed");
    assert_eq!(last(false, true, "fork"), "runtime error: fork: EPERM");
}

#[test]
fn a_launch_goes_on_without_limits() {
    let p = plan("argv = x\nmemory_max = 1\npids_max = 2");
    let (seen, told) = play(&p, false, true, |name| {
        if name.contains("subtree_control") {
            Some("EACCES".to_string())
        } else {
            None
        }
    });
    assert_eq!(seen.last().unwrap(), "ready None");
    assert_eq!(
        told,
        vec![
            "cgroup limits requested but no delegated writable cgroup v2 is available; \
             continuing without enforcement"
        ]
    );
    let (seen, told) = play(&p, false, true, |name| {
        if name.contains(".max") {
            Some("EINVAL".to_string())
        } else {
            None
        }
    });
    assert_eq!(seen.last().unwrap(), "ready Some(\"/sys/fs/cgroup/u/cocoon-7\")");
    assert_eq!(
        told,
        vec![
            "could not set memory.max; continuing without that limit",
            "could not set pids.max; continuing without that limit"
        ]
    );
}

#[test]
fn a_launch_without_a_cgroup_says_so() {
    let p = plan("argv = x\npids_max = 2");
    let told = "cgroup limits requested but no delegated writable cgroup v2 is available; \
                continuing without enforcement";
    for own in [None, Some(String::new()), Some("1:cpu:/a\n".to_string())] {
        let (seen, notices) = play_in(own, &p, false, true, |_| None);
        assert_eq!(seen[7..], ["cgroup", "fork", "ready None"]);
        assert_eq!(notices, vec![told]);
    }
    let (seen, notices) = play_in(None, &plan("argv = x"), false, true, |_| None);
    assert_eq!(seen[7..], ["fork", "ready None"]);
    assert!(notices.is_empty());
}
