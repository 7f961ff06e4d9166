//! What the functions of the library return, call by call, in the fields of what they
//! are given and of what they give back.
use crate::bundle::{config_path, load_bundle, path_below, rootfs_path, Bundle};
use crate::cgroup::{
    cgroup_for, counts_oom_kills, enroll_task, joined_path, number_text, oom_killed, plan_cgroup,
    Cgroup,
};
use crate::child_laws::law_program_gets_its_arguments;
use crate::cli::{command_of, complaint, complaint_text, parse_command, Command};
use crate::config::{
    arguments, config_of, parse_timeout_ms, split_args, timeout_millis, with_timeout, Config,
    ConfigView,
};
use crate::error::{error_text, rt, ErrorView, Result};
use crate::json::{json_parsed, json_rendered, Json, JsonView};
use crate::launch::{check_rootfs, Launch};
use crate::mcp::{
    handle_message, message_line, prepare_tool, reply_to, reply_to_line, serve_line, tool_reply,
    tool_response, tool_run, Reply, ToolRun, ToolRunView,
};
use crate::monitor::{
    after_child, after_read, is_finished, read_action, run_step, started, wait_for, wait_verdict,
    Channel, ChildAction, ChildEvent, Exit, Monitor, ReadAction, ReadEvent, RunStep, Wait,
    WaitReply,
};
use crate::outcome::{outcome_json, Outcome};
use crate::plan::{description, law_plan_namespaces, Limits, Namespace, Plan};
use crate::plan_laws::{law_every_mount_is_shown, mount_line};
use crate::rootfs::{
    build_busybox_rootfs, cache_base, find_busybox, libraries, library_paths, rootfs_problem,
    rootfs_steps, steps_view, words_of, BuildStep, CacheBase,
};
use crate::run_laws::law_outcome_reports_the_run;
use crate::sandbox::{child_setup, child_tasks, enter_namespaces, namespace_tasks};
use crate::script::{
    expansion, left_after, tasks_view, verdict, Action, OnFailure, Probe, Script, Task, Verdict,
};
use crate::seccomp::{compiled_filter, deny_filter, seccomp_program, Arch};
use crate::state::{Container, State};
use crate::supervisor::Supervisor;
use crate::text::{decimal, strings_view, trimmed};
use crate::tool_laws::{is_number, law_tool_memory_limit, law_tool_time_limit};
use vstd::prelude::*;
use vstd::utf8::{decode_utf8, valid_utf8};

verus! {

/// The last task of the child starts the program with every argument of the plan, in
/// order, and with every variable of the plan.
pub proof fn law_setup_starts_the_program(plan: &Plan, r: Vec<Task>)
    requires
        call_ensures(child_setup, (plan,), r),
        forall|i: int|
            0 <= i < plan.argv@.len() ==> !(#[trigger] plan.argv@[i])@.contains('\0'),
        forall|i: int|
            0 <= i < plan.env@.len() ==> !(#[trigger] plan.env@[i]).0@.contains('\0')
                && !plan.env@[i].1@.contains('\0'),
    ensures
        r@.len() > 0,
        r@.last() matches Task::Do(Action::Exec { argv, env }, OnFailure::Fail(attempt)) && {
            &&& attempt@ == "exec"@
            &&& argv@.len() == plan.argv@.len()
            &&& forall|i: int|
                0 <= i < plan.argv@.len() ==> (#[trigger] argv@[i])@ == plan.argv@[i]@
            &&& env@.len() >= plan.env@.len()
            &&& forall|i: int|
                0 <= i < plan.env@.len() ==> (#[trigger] env@[i])@ == plan.env@[i].0@ + "="@
                    + plan.env@[i].1@
        },
{
    let p = plan@;
    assert forall|i: int| 0 <= i < p.argv.len() implies !(#[trigger] p.argv[i]).contains('\0') by {
        assert(p.argv[i] == plan.argv@[i]@);
    }
    assert forall|i: int| 0 <= i < p.env.len() implies !(#[trigger] p.env[i]).0.contains('\0')
        && !p.env[i].1.contains('\0') by {
        assert(p.env[i] == (plan.env@[i].0@, plan.env@[i].1@));
    }
    law_program_gets_its_arguments(p);
    assert(tasks_view(r@).last() == r@.last()@);
    if let Task::Do(Action::Exec { argv, env }, _) = r@.last() {
        let exec = r@.last()@->Do_0;
        assert(exec->argv.len() == argv@.len());
        assert(exec->Exec_env.len() == env@.len());
        assert forall|i: int| 0 <= i < plan.argv@.len() implies (#[trigger] argv@[i])@
            == plan.argv@[i]@ by {
            assert(exec->argv[i] == p.argv[i]);
        }
        assert forall|i: int| 0 <= i < plan.env@.len() implies (#[trigger] env@[i])@
            == plan.env@[i].0@ + "="@ + plan.env@[i].1@ by {
            assert(exec->Exec_env[i] == p.env[i].0 + "="@ + p.env[i].1);
        }
    }
}

/// The report of a run gives the exit code of the child that ended by itself, 128 and
/// the signal of one that a signal ended, whether it was out of time or not, and -1
/// otherwise; and it gives what was captured and measured, stream for stream.
pub proof fn law_reports_tell_how_it_ended(
    m: &Monitor,
    stdout: String,
    stderr: String,
    peak: Option<u64>,
    events: Option<&str>,
    memory_limited: bool,
    r: Outcome,
)
    requires
        m@.exit is Some,
        call_ensures(Monitor::report, (m, stdout, stderr, peak, events, memory_limited), r),
    ensures
        m@.exit matches Some(Exit::Exited(code)) ==> r.exit_code == code,
        m@.exit matches Some(Exit::Signaled(signal)) ==> r.exit_code == 128 + signal,
        m@.exit == Some(Exit::Other) ==> r.exit_code == -1,
        r.timed_out == m@.timed_out,
        r.wall_ms == m@.wall_ms,
        r.peak_mem_kib == peak,
        r.stdout@ == stdout@,
        r.stderr@ == stderr@,
{
    let text = match events {
        Some(text) => Some(text@),
        None => None,
    };
    law_outcome_reports_the_run(m@, stdout@, stderr@, peak, text, memory_limited);
}

/// A tool call that runs has the limits that its arguments name: each if and only if
/// it is named, whether the other is or not.
pub proof fn law_tool_calls_carry_their_limits(args: &Json, run: ToolRun, n: u64)
    requires
        call_ensures(
            prepare_tool,
            (args,),
            std::result::Result::<ToolRun, String>::Ok(run),
        ),
        args@ is Object,
    ensures
        ({
            let m = args@->Object_0;
            &&& run.plan.limits.memory_max == Some(n) <==> m.contains_key("memory_max"@)
                && is_number(m["memory_max"@], n)
            &&& run.plan.limits.memory_max is None <==> !m.contains_key("memory_max"@)
            &&& run.plan.timeout_ms is None <==> !m.contains_key("timeout"@)
            &&& m.contains_key("timeout"@) && is_number(m["timeout"@], n) ==> (
            run.plan.timeout_ms matches Some(ms) && ms == n * 1000)
        }),
{
    let m = args@->Object_0;
    assert(args@ == JsonView::Object(m));
    assert(tool_run(args@)->Ok_0 == run@);
    law_tool_memory_limit(m, n);
    law_tool_time_limit(m, n, Seq::empty());
}

/// Whether a text shows a part of it.
pub open spec fn shows(text: Seq<char>, part: Seq<char>) -> bool {
    exists|i: int|
        0 <= i <= text.len() - part.len() && #[trigger] text.subrange(i, i + part.len()) == part
}

/// The description of a plan has a line for each of its mounts, with its source, its
/// target and whether it can be written.
pub proof fn law_descriptions_show_the_mounts(plan: &Plan, r: String, k: int)
    requires
        call_ensures(Plan::describe, (plan,), r),
        0 <= k < plan.mounts@.len(),
    ensures
        ({
            let m = plan.mounts@[k];
            shows(
                r@,
                "mount      : "@ + m.source@ + " -> "@ + m.target@ + (if m.readonly {
                    " (ro)\n"@
                } else {
                    " (rw)\n"@
                }),
            )
        }),
{
    let m = plan.mounts@[k];
    assert(plan@.mounts[k] == m@);
    law_every_mount_is_shown(plan@, k);
    let line = mount_line(plan@.mounts[k]);
    assert(shows(r@, line));
    assert(line =~= "mount      : "@ + m.source@ + " -> "@ + m.target@ + (if m.readonly {
        " (ro)\n"@
    } else {
        " (rw)\n"@
    }));
}

/// A time limit that is given takes the place of the one in the config, and nothing
/// else of the config changes; where none is given, nothing changes.
pub proof fn law_given_limits_come_first(c: Config, limit: Option<u64>, r: Config)
    requires
        call_ensures(with_timeout, (c, limit), r),
    ensures
        limit is Some ==> r.timeout_ms == limit,
        limit is None ==> r@ == c@,
        r.memory_max == c.memory_max,
        r.pids_max == c.pids_max,
        r.isolate_net == c.isolate_net,
        r.readonly == c.readonly,
        r.hostname@ == c.hostname@,
        r.cwd@ == c.cwd@,
        r@.argv == c@.argv,
        r@.env == c@.env,
        r@.mounts == c@.mounts,
{
    assert(r@.memory_max == c@.memory_max);
}

/// The answers of the small questions: whether there are limits, whether a container
/// runs and how it ended, where files are cached, and where the host's busybox is.
pub proof fn law_small_questions(limits: &Limits, c: &Container, a: bool, b: bool)
    ensures
        forall|r: bool|
            #[trigger] call_ensures(Limits::any, (limits,), r) ==> (r <==> !(
            limits.memory_max is None && limits.pids_max is None)),
        forall|r: bool|
            #[trigger] call_ensures(Container::is_running, (c,), r) ==> (r <==> c.state is Running),
        forall|r: Option<i32>|
            #[trigger] call_ensures(Container::exit_code, (c,), r) ==> {
                &&& r is Some <==> c.state is Stopped
                &&& r matches Some(code) ==> c.state == (State::Stopped { exit_code: code })
            },
        forall|r: CacheBase|
            #[trigger] call_ensures(cache_base, (a, b), r) ==> {
                &&& r is Xdg <==> a
                &&& r is Home <==> !a && b
                &&& r is Temp <==> !a && !b
            },
        forall|r: Option<&'static str>|
            #[trigger] call_ensures(find_busybox, (a, b), r) ==> {
                &&& r is None <==> !a && !b
                &&& r matches Some(path) ==> path@ == if a {
                    "/usr/bin/busybox"@
                } else {
                    "/bin/busybox"@
                }
            },
{
}

/// A container starts once and stops once: from where it was made it can start, from
/// where it runs it can stop, and any other move is refused, with a reason, and leaves
/// it as it was. Its id never changes.
pub proof fn law_containers_start(c: &mut Container, pid: i32, r: Result<()>)
    requires
        call_ensures(Container::start, (c, pid), r),
    ensures
        final(c).id == old(c).id,
        r is Ok <==> old(c).state is Created,
        r is Ok ==> final(c).state == (State::Running { pid }),
        r is Err ==> final(c).state == old(c).state,
{
}

/// As [`law_containers_start`], for a stop.
pub proof fn law_containers_stop(c: &mut Container, code: i32, r: Result<()>)
    requires
        call_ensures(Container::stop, (c, code), r),
    ensures
        final(c).id == old(c).id,
        r is Ok <==> old(c).state is Running,
        r is Ok ==> final(c).state == (State::Stopped { exit_code: code }),
        r is Err ==> final(c).state == old(c).state,
{
}

/// What the readers of text give is what the laws on texts speak of: a bundle's config
/// file, command lines, durations, and the words of the command line.
pub proof fn law_calls_that_read(text: &str, args: &Vec<String>, c: &Command)
    ensures
        forall|r: Result<Config>| #[trigger]
            call_ensures(Config::parse, (text,), r) ==> match r {
                Ok(config) => config_of(text@) == Ok::<ConfigView, ErrorView>(config@),
                Err(e) => config_of(text@) == Err::<ConfigView, ErrorView>(e@),
            },
        forall|r: std::result::Result<Vec<String>, String>| #[trigger]
            call_ensures(split_args, (text,), r) ==> match r {
                Ok(words) => arguments(text@) == Some(strings_view(words@)),
                Err(m) => arguments(text@) is None && m@ == "unterminated quote in argv"@,
            },
        forall|r: Option<u64>| #[trigger]
            call_ensures(parse_timeout_ms, (text,), r) ==> r == timeout_millis(text@),
        forall|r: Command| #[trigger]
            call_ensures(parse_command, (args,), r) ==> r@ == command_of(strings_view(args@)),
        forall|r: Option<String>| #[trigger]
            call_ensures(complaint, (c,), r) ==> match r {
                Some(m) => complaint_text(c@) == Some(m@),
                None => complaint_text(c@) is None,
            },
        forall|r: Vec<String>| #[trigger]
            call_ensures(library_paths, (text,), r) ==> strings_view(r@) == libraries(
                words_of(text@),
            ),
        forall|r: bool| #[trigger]
            call_ensures(counts_oom_kills, (text,), r) ==> r == oom_killed(text@),
{
}

/// A bundle is loaded from its directory: its config is what the config file says, its
/// root filesystem is below the directory, and a file that cannot be read is an error
/// that says which file and why.
pub proof fn law_bundles_are_loaded(
    dir: std::path::PathBuf,
    shown: &str,
    read: std::result::Result<String, String>,
    r: Result<Bundle>,
)
    requires
        call_ensures(load_bundle, (dir, shown, read), r),
    ensures
        r matches Ok(b) ==> {
            &&& read matches Ok(text) && config_of(text@) == Ok::<ConfigView, ErrorView>(b.config@)
            &&& b.dir == dir
            &&& b.rootfs == path_below(dir, "rootfs"@)
        },
        read matches Ok(text) ==> (r is Ok <==> config_of(text@) is Ok),
        read matches Err(reason) ==> (r matches Err(e) && e@ == ErrorView::Config(
            "cannot read "@ + shown@ + ": "@ + reason@,
        )),
        forall|p: std::path::PathBuf| #[trigger]
            call_ensures(config_path, (&dir,), p) ==> p == path_below(dir, "cocoon.conf"@),
        forall|p: std::path::PathBuf| #[trigger]
            call_ensures(rootfs_path, (&dir,), p) ==> p == path_below(dir, "rootfs"@),
{
}

/// The plan of a config has its fields, one for one, and the limits of the config are
/// its limits.
pub proof fn law_plans_are_made_of_configs(cfg: &Config, plan: Plan)
    requires
        call_ensures(Plan::from_config, (cfg,), Ok::<Plan, crate::error::Error>(plan)),
    ensures
        plan.hostname@ == cfg.hostname@,
        plan.cwd@ == cfg.cwd@,
        plan.argv@.len() == cfg.argv@.len(),
        forall|i: int| 0 <= i < plan.argv@.len() ==> (#[trigger] plan.argv@[i])@ == cfg.argv@[i]@,
        plan.env@.len() == cfg.env@.len(),
        forall|i: int|
            0 <= i < plan.env@.len() ==> (#[trigger] plan.env@[i]).0@ == cfg.env@[i].0@
                && plan.env@[i].1@ == cfg.env@[i].1@,
        plan.mounts@.len() == cfg.mounts@.len(),
        forall|i: int|
            0 <= i < plan.mounts@.len() ==> {
                let a = #[trigger] plan.mounts@[i];
                let b = cfg.mounts@[i];
                a.source@ == b.source@ && a.target@ == b.target@ && a.readonly == b.readonly
            },
        plan.readonly == cfg.readonly,
        plan.timeout_ms == cfg.timeout_ms,
        plan.limits.memory_max == cfg.memory_max,
        plan.limits.pids_max == cfg.pids_max,
        plan.namespaces@.contains(Namespace::Net) <==> cfg.isolate_net,
{
    let p = plan@;
    let c = cfg@;
    law_plan_namespaces(c);
    assert(p.argv.len() == plan.argv@.len() && c.argv.len() == cfg.argv@.len());
    assert forall|i: int| 0 <= i < plan.argv@.len() implies (#[trigger] plan.argv@[i])@
        == cfg.argv@[i]@ by {
        assert(p.argv[i] == c.argv[i]);
    }
    assert(p.env.len() == plan.env@.len() && c.env.len() == cfg.env@.len());
    assert forall|i: int| 0 <= i < plan.env@.len() implies (#[trigger] plan.env@[i]).0@
        == cfg.env@[i].0@ && plan.env@[i].1@ == cfg.env@[i].1@ by {
        assert(p.env[i] == c.env[i]);
    }
    assert(p.mounts.len() == plan.mounts@.len() && c.mounts.len() == cfg.mounts@.len());
    assert forall|i: int| 0 <= i < plan.mounts@.len() implies {
        let a = #[trigger] plan.mounts@[i];
        let b = cfg.mounts@[i];
        a.source@ == b.source@ && a.target@ == b.target@ && a.readonly == b.readonly
    } by {
        assert(p.mounts[i] == c.mounts[i]);
    }
}

/// What is asked of the system is what the laws on scripts and launches speak of.
pub proof fn law_calls_that_ask(
    plan: &Plan,
    measured: bool,
    pid: u32,
    uid: u32,
    gid: u32,
    attempt: &str,
    own: Option<&str>,
    group: &Cgroup,
    launch: &Launch<'_>,
    script: &Script,
)
    ensures
        forall|r: Vec<Task>| #[trigger]
            call_ensures(child_setup, (plan,), r) ==> tasks_view(r@) == child_tasks(plan@),
        forall|r: Vec<Task>| #[trigger]
            call_ensures(enter_namespaces, (plan, uid, gid, attempt), r) ==> tasks_view(r@)
                == namespace_tasks(plan.namespaces@, uid, gid, attempt@),
        forall|r: Option<(Cgroup, Vec<Task>)>| #[trigger]
            call_ensures(plan_cgroup, (&plan.limits, own, pid), r) ==> {
                let made = cgroup_for(
                    plan.limits,
                    match own {
                        Some(text) => Some(text@),
                        None => None,
                    },
                    pid,
                );
                match r {
                    Some((c, tasks)) => made == Some((c.dir@, tasks_view(tasks@))),
                    None => made is None,
                }
            },
        forall|r: Task| #[trigger]
            call_ensures(Cgroup::enroll, (group, pid), r) ==> r@ == enroll_task(group.dir@, pid),
        forall|r: String| #[trigger]
            call_ensures(Cgroup::events_file, (group,), r) ==> r@ == joined_path(
                group.dir@,
                "memory.events"@,
            ),
        forall|r: Launch<'_>| #[trigger]
            call_ensures(Launch::new, (plan, measured, pid), r) ==> r@
                == crate::launch::beginning(plan@, measured, pid),
        forall|r: crate::launch::Request<'_>| #[trigger]
            call_ensures(Launch::next, (launch,), r) ==> r@ == crate::launch::request(launch@),
        forall|r: crate::script::Request<'_>| #[trigger]
            call_ensures(Script::next, (script,), r) ==> r@ == crate::script::request(script@),
        forall|r: bool| #[trigger]
            call_ensures(Script::is_done, (script,), r) ==> (r <==> script@.len() == 0),
{
}

/// An answer to a script is taken as its first task means it, and what is left is what
/// follows from that.
pub proof fn law_scripts_take_answers(
    script: &mut Script,
    failure: Option<String>,
    found: Probe,
    r: Verdict,
    probed: Result<()>,
)
    ensures
        call_ensures(Script::performed, (script, failure), r) ==> {
            &&& r@ == verdict(
                old(script)@[0]->Do_1,
                match failure {
                    Some(reason) => Some(reason@),
                    None => None,
                },
            )
            &&& final(script)@ == left_after(old(script)@, r@)
        },
        call_ensures(Script::probed, (script, found), probed) ==> match probed {
            Ok(_) => expansion(old(script)@[0], found) matches Ok(tasks) && final(script)@ == tasks
                + old(script)@.drop_first(),
            Err(e) => expansion(old(script)@[0], found) matches Err(why) && e@ == why,
        },
{
}

/// An answer takes a launch one step further.
pub proof fn law_launches_take_answers(
    launch: &mut Launch<'_>,
    a: crate::launch::Answer,
    r: Option<String>,
)
    requires
        call_ensures(Launch::step, (launch, a), r),
    ensures
        final(launch)@ == crate::launch::stepped(old(launch)@, a),
        match r {
            Some(m) => crate::launch::notice(old(launch)@, a) == Some(m@),
            None => crate::launch::notice(old(launch)@, a) is None,
        },
{
}

/// What is asked while a run goes on is what the laws on runs speak of.
pub proof fn law_calls_that_watch(
    m: &Monitor,
    s: &Supervisor,
    limit: Option<u64>,
    reply: WaitReply,
    channel: Channel,
    elapsed: u128,
)
    ensures
        forall|r: Monitor| #[trigger]
            call_ensures(Monitor::new, (limit,), r) ==> r@ == started(limit),
        forall|r: Wait| #[trigger]
            call_ensures(Monitor::wait, (m, elapsed), r) ==> r == wait_for(m@, elapsed),
        forall|r: bool| #[trigger]
            call_ensures(Monitor::wants, (m, channel), r) ==> r == match channel {
                Channel::Stdout => m@.stdout_open,
                Channel::Stderr => m@.stderr_open,
            },
        forall|r: bool| #[trigger]
            call_ensures(Monitor::is_running, (m,), r) ==> (r <==> m@.exit is None),
        forall|r: bool| #[trigger]
            call_ensures(Monitor::finished, (m, elapsed), r) ==> r == is_finished(m@, elapsed),
        forall|r: RunStep| #[trigger]
            call_ensures(wait_verdict, (limit, reply, elapsed), r) ==> r@ == run_step(
                limit,
                reply,
                elapsed,
            ),
        forall|r: Supervisor| #[trigger]
            call_ensures(Supervisor::new, (limit,), r) ==> r@ == crate::supervisor::beginning(
                limit,
            ),
        forall|r: crate::supervisor::Request| #[trigger]
            call_ensures(Supervisor::next, (s, elapsed), r) ==> r@ == crate::supervisor::request(
                s@,
                elapsed,
            ),
        forall|r: &Monitor| #[trigger]
            call_ensures(Supervisor::monitor, (s,), r) ==> r@ == s@.run,
{
}

/// What happens while a run goes on is taken in as the laws on runs say.
pub proof fn law_runs_take_events(
    m: &mut Monitor,
    s: &mut Supervisor,
    channel: Channel,
    read: ReadEvent,
    action: ReadAction,
    event: crate::supervisor::Event,
    elapsed: u128,
)
    ensures
        call_ensures(Monitor::read, (m, channel, read), action) ==> final(m)@ == after_read(
            old(m)@,
            channel,
            read,
        ) && action == read_action(read),
        call_ensures(Supervisor::step, (s, event, elapsed), ()) ==> final(s)@
            == crate::supervisor::stepped(old(s)@, event, elapsed),
{
}

/// A look at the child is taken in as the laws on runs say; a child that is out of
/// time, and no other, is killed; and one that cannot be watched is given up, with the
/// reason.
pub proof fn law_looks_are_taken_in(
    m: &mut Monitor,
    event: ChildEvent,
    elapsed: u128,
    action: ChildAction,
)
    requires
        call_ensures(Monitor::child, (m, event, elapsed), action),
    ensures
        final(m)@ == after_child(old(m)@, event, elapsed),
        action is Kill <==> event is Alive && (old(m)@.timeout_ms matches Some(ms) && elapsed >= ms
            * 1_000_000),
        event matches ChildEvent::Failed(reason) ==> (action matches ChildAction::Abort(e) && e@
            == ErrorView::Runtime("waitpid: "@ + reason@)),
        action is Abort ==> event is Failed,
{
    reveal_strlit("waitpid");
    reveal_strlit(": ");
    reveal_strlit("waitpid: ");
    assert("waitpid"@ + ": "@ =~= "waitpid: "@);

}

/// The texts of an outcome are those of the bytes that were captured, each stream in
/// its own place.
pub proof fn law_outcomes_hold_what_was_captured(
    m: &Monitor,
    peak: Option<u64>,
    events: Option<&str>,
    memory_limited: bool,
    r: Outcome,
)
    requires
        m@.exit is Some,
        call_ensures(Monitor::outcome, (m, peak, events, memory_limited), r),
    ensures
        valid_utf8(m@.stdout) ==> r.stdout@ == decode_utf8(m@.stdout),
        valid_utf8(m@.stderr) ==> r.stderr@ == decode_utf8(m@.stderr),
        m@.exit matches Some(Exit::Exited(code)) ==> r.exit_code == code,
        m@.exit matches Some(Exit::Signaled(signal)) ==> r.exit_code == 128 + signal,
        r.timed_out == m@.timed_out,
        r.peak_mem_kib == peak,
{
}

/// What the server makes of lines, messages and results is what the laws on them
/// speak of; what it writes is one line.
pub proof fn law_calls_that_serve(
    args: &Json,
    line: &str,
    message: Json,
    id: Json,
    result: std::result::Result<Outcome, String>,
)
    ensures
        forall|r: std::result::Result<ToolRun, String>| #[trigger]
            call_ensures(prepare_tool, (args,), r) ==> match r {
                Ok(run) => tool_run(args@) == Ok::<ToolRunView, Seq<char>>(run@),
                Err(m) => tool_run(args@) == Err::<ToolRunView, Seq<char>>(m@),
            },
        forall|r: Reply| #[trigger]
            call_ensures(serve_line, (line,), r) ==> r@ == reply_to_line(
                line@,
                json_parsed(trimmed(line@)),
            ),
        forall|r: Reply| #[trigger]
            call_ensures(handle_message, (message,), r) ==> r@ == reply_to(message@),
        forall|r: Json| #[trigger]
            call_ensures(tool_reply, (id, result), r) ==> r@ == tool_response(
                id@,
                match result {
                    Ok(o) => Ok(o@),
                    Err(m) => Err(m@),
                },
            ),
        forall|r: String| #[trigger]
            call_ensures(message_line, (message,), r) ==> r@ == json_rendered(message@) + seq![
                '\n',
            ],
{
}

/// What is shown to the user is what the laws on texts speak of.
pub proof fn law_calls_that_show(
    plan: &Plan,
    o: &Outcome,
    e: &crate::error::Error,
    n: u64,
    ctx: &str,
    reason: &str,
    busybox: &str,
)
    ensures
        forall|r: String| #[trigger]
            call_ensures(Plan::describe, (plan,), r) ==> r@ == description(plan@),
        forall|r: String| #[trigger]
            call_ensures(Outcome::to_json, (o,), r) ==> r@ == outcome_json(o@),
        forall|r: String| #[trigger]
            call_ensures(crate::error::Error::to_string, (e,), r) ==> r@ == error_text(e@),
        forall|r: crate::error::Error| #[trigger]
            call_ensures(rt, (ctx, reason), r) ==> r@ == ErrorView::Runtime(
                ctx@ + ": "@ + reason@,
            ),
        forall|r: String| #[trigger]
            call_ensures(number_text, (n,), r) ==> r@ == decimal(n as nat),
        forall|r: String| #[trigger]
            call_ensures(rootfs_problem, (reason,), r) ==> r@ == "cannot prepare default rootfs: "@
                + reason@,
        forall|r: Vec<BuildStep>| #[trigger]
            call_ensures(build_busybox_rootfs, (busybox,), r) ==> steps_view(r@) == rootfs_steps(
                busybox@,
            ),
        forall|r: Result<()>| #[trigger]
            call_ensures(check_rootfs, (true, reason), r) ==> r is Ok,
        forall|r: Result<()>| #[trigger]
            call_ensures(check_rootfs, (false, reason), r) ==> (r matches Err(e) && e@
                == ErrorView::Runtime("rootfs '"@ + reason@ + "' is not a directory"@)),
{
    assert(forall|r: String| #[trigger]
        call_ensures(rootfs_problem, (reason,), r) ==> r@
            =~= "cannot prepare default rootfs: "@ + reason@);
}

/// The program of an architecture's filter is the compiled form of the filter that
/// denies what the laws on system calls speak of.
pub proof fn law_programs_are_compiled_filters(
    arch: Arch,
    r: Option<Vec<seccompiler::sock_filter>>,
)
    requires
        call_ensures(seccomp_program, (arch,), r),
    ensures
        r matches Some(program) && compiled_filter(deny_filter(arch)) == Some(program@),
{
}

/// A config, a plan and an outcome mean what their fields hold, field by field.
pub proof fn law_fields_are_meant(c: Config, p: Plan, o: Outcome, i: int)
    ensures
        c@.hostname == c.hostname@ && p@.hostname == p.hostname@,
        c@.cwd == c.cwd@ && p@.cwd == p.cwd@,
        c@.argv.len() == c.argv@.len() && p@.argv.len() == p.argv@.len(),
        0 <= i < c.argv@.len() ==> c@.argv[i] == c.argv@[i]@,
        0 <= i < p.argv@.len() ==> p@.argv[i] == p.argv@[i]@,
        c@.env.len() == c.env@.len() && p@.env.len() == p.env@.len(),
        0 <= i < c.env@.len() ==> c@.env[i] == (c.env@[i].0@, c.env@[i].1@),
        0 <= i < p.env@.len() ==> p@.env[i] == (p.env@[i].0@, p.env@[i].1@),
        c@.mounts.len() == c.mounts@.len() && p@.mounts.len() == p.mounts@.len(),
        0 <= i < c.mounts@.len() ==> {
            &&& c@.mounts[i].source == c.mounts@[i].source@
            &&& c@.mounts[i].target == c.mounts@[i].target@
            &&& c@.mounts[i].readonly == c.mounts@[i].readonly
        },
        0 <= i < p.mounts@.len() ==> {
            &&& p@.mounts[i].source == p.mounts@[i].source@
            &&& p@.mounts[i].target == p.mounts@[i].target@
            &&& p@.mounts[i].readonly == p.mounts@[i].readonly
        },
        c@.readonly == c.readonly && p@.readonly == p.readonly,
        c@.timeout_ms == c.timeout_ms && p@.timeout_ms == p.timeout_ms,
        c@.memory_max == c.memory_max && p@.limits.memory_max == p.limits.memory_max,
        c@.pids_max == c.pids_max && p@.limits.pids_max == p.limits.pids_max,
        c@.isolate_net == c.isolate_net,
        p@.namespaces == p.namespaces@,
        o@.exit_code == o.exit_code,
        o@.timed_out == o.timed_out,
        o@.oom_killed == o.oom_killed,
        o@.wall_ms == o.wall_ms,
        o@.peak_mem_kib == o.peak_mem_kib,
        o@.stdout == o.stdout@,
        o@.stderr == o.stderr@,
{
}

} // verus!
