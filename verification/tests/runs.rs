//! Watching a run and reporting it; the default root filesystem; the command line.
use cocoon::cli::{complaint, parse_command, Command, ExecOptions, HELP, USAGE_ERROR};
use cocoon::json::{parse, Json};
use cocoon::launch::check_rootfs;
use cocoon::monitor::{
    exit_code, wait_verdict, Channel, ChildAction, ChildEvent, Exit, Monitor,
    ReadAction, ReadEvent, RunStep, Wait, WaitReply,
};
use cocoon::rootfs::{
    applet_names, build_busybox_rootfs, cache_base, find_busybox, library_paths, rootfs_problem,
    BuildStep, CacheBase,
};
use cocoon::supervisor::{Event, Request, Supervisor};
use cocoon::{Error, Outcome};

const MS: u128 = 1_000_000;

fn ended(m: &mut Monitor, exit: Exit, elapsed: u128) {
    assert_eq!(m.child(ChildEvent::Ended(exit), elapsed), ChildAction::Nothing);
}

#[test]
fn outcome_json_is_exact() {
    let o = Outcome {
        exit_code: -1,
        timed_out: true,
        oom_killed: false,
        wall_ms: 340282366920938463463374607431768211455,
        peak_mem_kib: None,
        stdout: "a\"b\\c\nd\re\tf\u{1}\u{1f}\u{7f}\u{e9}".to_string(),
        stderr: String::new(),
    };
    assert_eq!(
        o.to_json(),
        "{\"exit_code\":-1,\"timed_out\":true,\"oom_killed\":false,\
         \"wall_ms\":340282366920938463463374607431768211455,\"peak_mem_kib\":null,\
         \"stdout\":\"a\\\"b\\\\c\\nd\\re\\tf\\u0001\\u001f\u{7f}\u{e9}\",\"stderr\":\"\"}"
    );
}

#[test]
fn outcome_json_reads_back() {
    let mut text = String::new();
    for n in 0..0x300u32 {
        text.push(char::from_u32(n).unwrap());
    }
    let o = Outcome {
        exit_code: i32::MIN,
        timed_out: false,
        oom_killed: true,
        wall_ms: 5,
        peak_mem_kib: Some(u64::MAX),
        stdout: text.clone(),
        stderr: "e".to_string(),
    };
    let json = o.to_json();
    assert!(!json.contains('\n'));
    let v: serde_json::Value = serde_json::from_str(&json).unwrap();
    assert_eq!(v["stdout"].as_str(), Some(text.as_str()));
    assert_eq!(v["exit_code"].as_i64(), Some(i32::MIN as i64));
    assert_eq!(v["peak_mem_kib"].as_u64(), Some(u64::MAX));
    assert_eq!(v["oom_killed"], true);
    assert_eq!(v.as_object().unwrap().len(), 7);
}

#[test]
fn the_parser_reads_an_outcome_back() {
    let o = Outcome {
        exit_code: -9,
        timed_out: true,
        oom_killed: false,
        wall_ms: u64::MAX as u128,
        peak_mem_kib: None,
        stdout: "{\"exit_code\":1},\n\u{0}".to_string(),
        stderr: "\\\"".to_string(),
    };
    let j = parse(&o.to_json()).unwrap();
    assert_eq!(j.get("exit_code"), Some(&Json::integer(-9)));
    assert_eq!(j.get("timed_out"), Some(&Json::Bool(true)));
    assert_eq!(j.get("oom_killed"), Some(&Json::Bool(false)));
    assert_eq!(j.get("wall_ms").unwrap().as_u64(), Some(u64::MAX));
    assert_eq!(j.get("peak_mem_kib"), Some(&Json::Null));
    assert_eq!(j.get("stdout"), Some(&Json::text(&o.stdout)));
    assert_eq!(j.get("stderr"), Some(&Json::text(&o.stderr)));
    let mut o = o;
    o.exit_code = i32::MAX;
    o.wall_ms = 0;
    o.peak_mem_kib = Some(u64::MAX);
    let j = parse(&o.to_json()).unwrap();
    assert_eq!(j.get("exit_code"), Some(&Json::integer(i32::MAX as i64)));
    assert_eq!(j.get("wall_ms"), Some(&Json::integer(0)));
    assert_eq!(j.get("peak_mem_kib").unwrap().as_u64(), Some(u64::MAX));
}

#[test]
fn output_is_captured_until_the_streams_end() {
    let mut m = Monitor::new(None);
    assert!(m.wants(Channel::Stdout) && m.wants(Channel::Stderr));
    assert_eq!(m.read(Channel::Stdout, ReadEvent::Data(b"he".to_vec())), ReadAction::Again);
    assert_eq!(m.read(Channel::Stdout, ReadEvent::Interrupted), ReadAction::Again);
    assert_eq!(m.read(Channel::Stderr, ReadEvent::Data(b"x".to_vec())), ReadAction::Again);
    assert_eq!(m.read(Channel::Stdout, ReadEvent::WouldBlock), ReadAction::Later);
    assert_eq!(m.read(Channel::Stdout, ReadEvent::Data(b"llo\n".to_vec())), ReadAction::Again);
    assert!(!m.finished(0));
    assert_eq!(m.read(Channel::Stdout, ReadEvent::End), ReadAction::Close);
    assert!(!m.wants(Channel::Stdout));
    assert_eq!(m.read(Channel::Stderr, ReadEvent::Failed), ReadAction::Close);
    assert!(m.is_running());
    assert!(!m.finished(1000 * MS));
    ended(&mut m, Exit::Exited(0), 7 * MS + 999_999);
    assert!(!m.is_running());
    assert!(m.finished(0));
    let o = m.outcome(Some(640), None, false);
    assert_eq!(o.stdout, "hello\n");
    assert_eq!(o.stderr, "x");
    assert_eq!(o.wall_ms, 7);
    assert_eq!(o.exit_code, 0);
    assert_eq!(o.peak_mem_kib, Some(640));
    assert!(!o.timed_out && !o.oom_killed);
}

#[test]
fn captured_bytes_become_text() {
    let mut m = Monitor::new(None);
    m.read(Channel::Stdout, ReadEvent::Data("gr\u{fc}n \u{1f41b}".as_bytes().to_vec()));
    m.read(Channel::Stderr, ReadEvent::Data(vec![b'a', 0xff, b'b']));
    ended(&mut m, Exit::Exited(0), 0);
    let o = m.outcome(None, None, false);
    assert_eq!(o.stdout, "gr\u{fc}n \u{1f41b}");
    assert_eq!(o.stderr, "a\u{fffd}b");
    let o = m.report("s".to_string(), "t".to_string(), None, None, false);
    assert_eq!((o.stdout.as_str(), o.stderr.as_str()), ("s", "t"));
}

#[test]
fn time_limits_are_enforced() {
    let mut m = Monitor::new(Some(100));
    assert_eq!(m.child(ChildEvent::Alive, 100 * MS - 1), ChildAction::Nothing);
    assert_eq!(m.child(ChildEvent::Interrupted, 200 * MS), ChildAction::Nothing);
    assert_eq!(m.child(ChildEvent::Alive, 100 * MS), ChildAction::Kill);
    assert_eq!(m.child(ChildEvent::Alive, 101 * MS), ChildAction::Kill);
    ended(&mut m, Exit::Signaled(9), 102 * MS);
    let o = m.outcome(None, None, true);
    assert!(o.timed_out);
    assert!(!o.oom_killed, "the time limit explains the kill");
    assert_eq!(o.exit_code, 137);
    assert_eq!(o.wall_ms, 102);
    let mut free = Monitor::new(None);
    assert_eq!(free.child(ChildEvent::Alive, u128::MAX), ChildAction::Nothing);
}

#[test]
fn a_child_that_ends_in_time_has_not_timed_out() {
    let mut m = Monitor::new(Some(100));
    ended(&mut m, Exit::Exited(3), 150 * MS);
    let o = m.outcome(None, None, false);
    assert!(!o.timed_out);
    assert_eq!(o.exit_code, 3);
}

#[test]
fn a_failed_wait_aborts_the_run() {
    let mut m = Monitor::new(None);
    assert_eq!(
        m.child(ChildEvent::Failed("ECHILD: No child processes".to_string()), 0),
        ChildAction::Abort(Error::Runtime("waitpid: ECHILD: No child processes".to_string()))
    );
}

#[test]
fn waits_are_capped() {
    let m = Monitor::new(None);
    assert_eq!(m.wait(0), Wait::Poll(20));
    assert_eq!(m.wait(u128::MAX), Wait::Poll(20));
    let m = Monitor::new(Some(100));
    assert_eq!(m.wait(0), Wait::Poll(20));
    assert_eq!(m.wait(80 * MS), Wait::Poll(20));
    assert_eq!(m.wait(90 * MS), Wait::Poll(10));
    assert_eq!(m.wait(90 * MS + 1), Wait::Poll(9));
    assert_eq!(m.wait(100 * MS), Wait::Poll(0));
    assert_eq!(m.wait(1000 * MS), Wait::Poll(0));
    assert_eq!(Monitor::new(Some(u64::MAX)).wait(0), Wait::Poll(20));
    let mut m = Monitor::new(None);
    m.read(Channel::Stdout, ReadEvent::End);
    assert_eq!(m.wait(0), Wait::Poll(20));
    m.read(Channel::Stderr, ReadEvent::End);
    assert_eq!(m.wait(0), Wait::Sleep(3));
    ended(&mut m, Exit::Exited(0), 0);
    assert_eq!(m.wait(0), Wait::Skip);
}

#[test]
fn stragglers_get_a_grace_period() {
    let mut m = Monitor::new(None);
    ended(&mut m, Exit::Exited(0), 0);
    assert!(!m.finished(0));
    assert!(!m.finished(500 * MS - 1));
    assert!(m.finished(500 * MS));
}

#[test]
fn running_out_of_memory_is_recognised() {
    let killed = |limited: bool, events: Option<&str>, exit: Exit| {
        let mut m = Monitor::new(None);
        ended(&mut m, exit, 0);
        m.outcome(None, events, limited).oom_killed
    };
    assert!(killed(true, None, Exit::Signaled(9)));
    assert!(!killed(false, None, Exit::Signaled(9)));
    assert!(!killed(true, None, Exit::Signaled(15)));
    assert!(!killed(true, None, Exit::Exited(137)));
    assert!(!killed(true, Some("oom_kill 0\n"), Exit::Exited(1)));
    assert!(killed(false, Some("oom_kill 1\n"), Exit::Exited(1)));
}

#[test]
fn exit_codes_stand_for_ends() {
    assert_eq!(exit_code(Exit::Exited(42)), 42);
    assert_eq!(exit_code(Exit::Signaled(15)), 143);
    assert_eq!(exit_code(Exit::Other), -1);
    let after = |reply: WaitReply| wait_verdict(Some(5), reply, 7 * MS);
    assert_eq!(after(WaitReply::Exited(5)), RunStep::Return(Ok(5)));
    assert_eq!(after(WaitReply::Signaled(9)), RunStep::Return(Ok(137)));
    assert_eq!(after(WaitReply::Interrupted), RunStep::Again);
    assert_eq!(
        after(WaitReply::Unexpected("Continued(Pid(3))".to_string())),
        RunStep::Return(Err(Error::Runtime(
            "unexpected wait status: Continued(Pid(3))".to_string()
        )))
    );
    assert_eq!(
        after(WaitReply::Failed("ECHILD".to_string())),
        RunStep::Return(Err(Error::Runtime("waitpid: ECHILD".to_string())))
    );
}

#[test]
fn an_unmeasured_run_keeps_its_time_limit() {
    assert_eq!(wait_verdict(Some(5), WaitReply::Alive, 5 * MS - 1), RunStep::Pause(3));
    assert_eq!(wait_verdict(Some(5), WaitReply::Alive, 5 * MS), RunStep::Kill);
    assert_eq!(wait_verdict(Some(0), WaitReply::Alive, 0), RunStep::Kill);
    assert_eq!(wait_verdict(None, WaitReply::Alive, u128::MAX), RunStep::Pause(3));
    assert_eq!(wait_verdict(Some(u64::MAX), WaitReply::Alive, u64::MAX as u128), RunStep::Pause(3));
}

#[test]
fn a_rootfs_has_to_be_a_directory() {
    assert_eq!(check_rootfs(true, "/r"), Ok(()));
    assert_eq!(
        check_rootfs(false, "/r"),
        Err(Error::Runtime("rootfs '/r' is not a directory".to_string()))
    );
}

#[test]
fn the_default_rootfs_is_made_of_busybox() {
    assert_eq!(cache_base(true, true), CacheBase::Xdg);
    assert_eq!(cache_base(false, true), CacheBase::Home);
    assert_eq!(cache_base(false, false), CacheBase::Temp);
    assert_eq!(find_busybox(true, true), Some("/usr/bin/busybox"));
    assert_eq!(find_busybox(false, true), Some("/bin/busybox"));
    assert_eq!(find_busybox(false, false), None);
    assert_eq!(rootfs_problem("no"), "cannot prepare default rootfs: no");
    let steps = build_busybox_rootfs("/bin/busybox");
    assert_eq!(steps[0], BuildStep::CreateDir("bin".to_string()));
    assert_eq!(steps[1], BuildStep::CreateDir("proc".to_string()));
    assert_eq!(steps[2], BuildStep::CreateDir("work".to_string()));
    assert_eq!(
        steps[3],
        BuildStep::Copy {
            from: "/bin/busybox".to_string(),
            to: "bin/busybox".to_string()
        }
    );
    assert_eq!(steps.len(), 4 + 21);
    assert_eq!(steps[4], BuildStep::Link("bin/sh".to_string()));
    assert_eq!(steps[24], BuildStep::Link("bin/date".to_string()));
    assert_eq!(applet_names().len(), 21);
    assert_eq!(applet_names()[13], "printf");
}

#[test]
fn libraries_are_found_in_ldd_output() {
    let out = "\tlinux-vdso.so.1 (0x00007ffd)\n\
        \tlibresolv.so.2 => /lib/x86_64-linux-gnu/libresolv.so.2 (0x00007f)\n\
        \tlibc.so.6 => /lib/libc.so.6 (0x0)\n\t/lib64/ld-linux-x86-64.so.2 (0x00007f)\n";
    assert_eq!(
        library_paths(out),
        vec![
            "/lib/x86_64-linux-gnu/libresolv.so.2",
            "/lib/libc.so.6",
            "/lib64/ld-linux-x86-64.so.2"
        ]
    );
    assert!(library_paths("\tnot a dynamic executable\n").is_empty());
    assert!(library_paths("/usr/lib/plain x.so /.s").is_empty());
    assert_eq!(library_paths("/.so"), vec!["/.so"]);
    assert!(library_paths("").is_empty());
}

fn command(args: &[&str]) -> Command {
    parse_command(&args.iter().map(|s| s.to_string()).collect())
}

#[test]
fn commands_are_recognised() {
    let dir = || "d".to_string();
    assert_eq!(command(&[]), Command::Help);
    assert_eq!(command(&["-h"]), Command::Help);
    assert_eq!(command(&["--help", "run"]), Command::Help);
    assert_eq!(command(&["run", "d"]), Command::Run(dir()));
    assert_eq!(command(&["plan", "d", "e"]), Command::Plan(dir()));
    assert_eq!(command(&["spec", "d"]), Command::Spec(dir()));
    assert_eq!(command(&["mcp"]), Command::Mcp);
    assert_eq!(command(&["run"]), Command::MissingDir);
    assert_eq!(command(&["plan"]), Command::MissingDir);
    assert_eq!(command(&["spec"]), Command::MissingDir);
    assert_eq!(command(&["exec"]), Command::MissingDir);
    assert_eq!(command(&["exec", "--json"]), Command::MissingDir);
    assert_eq!(command(&["fly"]), Command::Unknown("fly".to_string()));
    let exec = |json: bool, timeout_ms: Option<u64>| {
        Command::Exec(ExecOptions {
            dir: "d".to_string(),
            json,
            timeout_ms,
        })
    };
    assert_eq!(command(&["exec", "d"]), exec(false, None));
    assert_eq!(command(&["exec", "--json", "d"]), exec(true, None));
    assert_eq!(command(&["exec", "--timeout", "2s", "--json", "d"]), exec(true, Some(2000)));
    assert_eq!(
        command(&["exec", "--timeout", "x", "d"]),
        Command::BadTimeout("x".to_string())
    );
    assert_eq!(command(&["exec", "--timeout"]), Command::BadTimeout(String::new()));
}

#[test]
fn complaints_say_what_is_wrong() {
    assert_eq!(complaint(&command(&["fly"])).as_deref(), Some("unknown command 'fly'"));
    assert_eq!(complaint(&command(&["run"])).as_deref(), Some("expected a bundle directory"));
    assert_eq!(
        complaint(&command(&["exec", "--timeout", "x"])).as_deref(),
        Some("bad --timeout 'x'")
    );
    assert_eq!(complaint(&Command::Help), None);
    assert_eq!(USAGE_ERROR, 2);
    assert!(HELP.contains("\n  cocoon spec <dir>    create a bundle skeleton"));
}

/// Plays a run: `reads` are the answers to the reads of each stream, `looks` those
/// to the looks after the child; the clock goes on by one millisecond a request.
/// Returns what was asked for, and the supervisor at the end.
fn play(
    timeout_ms: Option<u64>,
    mut stdout: Vec<ReadEvent>,
    mut stderr: Vec<ReadEvent>,
    mut looks: Vec<ChildEvent>,
) -> (Vec<String>, Supervisor) {
    let mut s = Supervisor::new(timeout_ms);
    let mut seen = vec![];
    let mut now: u128 = 0;
    loop {
        let request = s.next(now);
        seen.push(format!("{request:?}"));
        now += MS;
        let event = match request {
            Request::Finished | Request::Failed(_) => return (seen, s),
            Request::Wait(_) => Event::Waited,
            Request::Read(Channel::Stdout) => Event::Read(stdout.remove(0)),
            Request::Read(Channel::Stderr) => Event::Read(stderr.remove(0)),
            Request::Close(_) => Event::Closed,
            Request::Look => Event::Child(looks.remove(0)),
            Request::Kill => Event::Killed,
        };
        s.step(event, now);
    }
}

#[test]
fn a_short_run_is_supervised_to_its_end() {
    let (seen, s) = play(
        None,
        vec![
            ReadEvent::Data(b"hi".to_vec()),
            ReadEvent::WouldBlock,
            ReadEvent::End,
        ],
        vec![ReadEvent::End],
        vec![ChildEvent::Alive, ChildEvent::Ended(Exit::Exited(4))],
    );
    assert_eq!(
        seen,
        vec![
            "Wait(Poll(20))",
            "Read(Stdout)",
            "Read(Stdout)",
            "Read(Stderr)",
            "Close(Stderr)",
            "Look",
            "Wait(Poll(20))",
            "Read(Stdout)",
            "Close(Stdout)",
            "Look",
            "Finished"
        ]
    );
    let o = s.monitor().outcome(None, None, false);
    assert_eq!(o.stdout, "hi");
    assert_eq!(o.exit_code, 4);
    assert_eq!(o.wall_ms, 10);
}

#[test]
fn an_overdue_child_is_killed() {
    let (seen, s) = play(
        Some(2),
        vec![ReadEvent::End],
        vec![ReadEvent::End],
        vec![
            ChildEvent::Alive,
            ChildEvent::Interrupted,
            ChildEvent::Ended(Exit::Signaled(9)),
        ],
    );
    assert_eq!(
        seen,
        vec![
            "Wait(Poll(2))",
            "Read(Stdout)",
            "Close(Stdout)",
            "Read(Stderr)",
            "Close(Stderr)",
            "Look",
            "Kill",
            "Wait(Sleep(3))",
            "Look",
            "Wait(Sleep(3))",
            "Look",
            "Finished"
        ]
    );
    assert!(s.monitor().outcome(None, None, true).timed_out);
}

#[test]
fn a_lost_child_is_killed_and_the_streams_are_closed() {
    let (seen, _) = play(
        None,
        vec![ReadEvent::WouldBlock],
        vec![ReadEvent::Failed],
        vec![ChildEvent::Failed("ECHILD".to_string())],
    );
    assert_eq!(
        seen,
        vec![
            "Wait(Poll(20))",
            "Read(Stdout)",
            "Read(Stderr)",
            "Close(Stderr)",
            "Look",
            "Kill",
            "Close(Stdout)",
            "Failed(Runtime(\"waitpid: ECHILD\"))"
        ]
    );
}

#[test]
fn a_straggler_is_cut_off_after_the_grace_period() {
    let mut s = Supervisor::new(None);
    let ended_at = 5 * MS;
    s.step(Event::Waited, 0);
    s.step(Event::Read(ReadEvent::WouldBlock), 0);
    s.step(Event::Read(ReadEvent::WouldBlock), 0);
    s.step(Event::Child(ChildEvent::Ended(Exit::Exited(0))), ended_at);
    let mut round = |now: u128| {
        assert!(matches!(s.next(now), Request::Wait(Wait::Poll(20))));
        s.step(Event::Waited, now);
        s.step(Event::Read(ReadEvent::WouldBlock), now);
        s.step(Event::Read(ReadEvent::WouldBlock), now);
        s.next(now)
    };
    assert!(matches!(round(ended_at + 500 * MS - 1), Request::Wait(_)));
    assert_eq!(round(ended_at + 500 * MS), Request::Close(Channel::Stdout));
    s.step(Event::Closed, 0);
    assert_eq!(s.next(0), Request::Close(Channel::Stderr));
    s.step(Event::Closed, 0);
    assert_eq!(s.next(0), Request::Finished);
}
