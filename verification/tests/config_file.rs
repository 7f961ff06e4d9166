//! The config file, the plan that follows from it, and the lifecycle.
use cocoon::bundle::{config_path, rootfs_path};
use cocoon::config::{
    parse_timeout_ms, split_args, strip_comment, with_timeout, Config, Mount,
};
use cocoon::text::{chars_of, is_white_space, lines, parse_unsigned, push_decimal, string_of, trim};
use cocoon::{load_bundle, plan_bundle, Container, Error, Namespace, Plan, State, DEFAULT_CONFIG};
use std::path::PathBuf;

fn refused(text: &str) -> String {
    Config::parse(text).unwrap_err().to_string()
}

fn uncommented(line: &str) -> String {
    string_of(strip_comment(chars_of(line).as_slice()))
}

#[test]
fn every_fault_names_its_line() {
    assert_eq!(refused("argv = x\n\nnonsense"), "config error: line 3: expected 'key = value'");
    assert_eq!(refused("argv = \"x"), "config error: line 1: unterminated quote in argv");
    assert_eq!(refused("argv = x\nenv = A"), "config error: line 2: env must be KEY=VALUE");
    assert_eq!(
        refused("argv = x\nnet = maybe"),
        "config error: line 2: net must be 'host' or 'isolated', got 'maybe'"
    );
    assert_eq!(
        refused("readonly = yes"),
        "config error: line 1: readonly must be 'true' or 'false', got 'yes'"
    );
    assert_eq!(
        refused("memory_max = 99999999999999999999999999"),
        "config error: line 1: memory_max must be a non-negative integer"
    );
    assert_eq!(
        refused("pids_max = -1"),
        "config error: line 1: pids_max must be a non-negative integer"
    );
    assert_eq!(
        refused("timeout = soon"),
        "config error: line 1: timeout must be like '5s', '500ms', '2m', or a number of seconds"
    );
    assert_eq!(
        refused("mount = /a:/b"),
        "config error: line 1: mount must be 'SOURCE:TARGET:ro|rw'"
    );
    assert_eq!(
        refused("mount = a:/b:ro"),
        "config error: line 1: mount source and target must be absolute paths"
    );
    assert_eq!(
        refused("mount = /a:b:ro"),
        "config error: line 1: mount source and target must be absolute paths"
    );
    assert_eq!(
        refused("mount = /a:/b:rx"),
        "config error: line 1: mount flag must be 'ro' or 'rw', got 'rx'"
    );
    assert_eq!(
        refused("profile = loose"),
        "config error: line 1: profile must be 'strict' or 'build', got 'loose'"
    );
    assert_eq!(refused("bogus = 1"), "config error: line 1: unknown key 'bogus'");
    assert_eq!(refused(""), "config error: config must set a non-empty 'argv'");
    assert_eq!(refused("argv ="), "config error: config must set a non-empty 'argv'");
}

#[test]
fn the_last_line_wins_and_lists_grow() {
    let c = Config::parse(
        "argv = /a b\nargv = /c\nhostname = a\nhostname = b\nenv = K = v\nenv = K=w=x\n\
         mount = /h : /t : ro\nmount = /i:/u:rw\nmemory_max = +5\ntimeout = 2m\nreadonly = true\n",
    )
    .unwrap();
    assert_eq!(c.argv, vec!["/c"]);
    assert_eq!(c.hostname, "b");
    assert_eq!(
        c.env,
        vec![
            ("K".to_string(), " v".to_string()),
            ("K".to_string(), "w=x".to_string())
        ]
    );
    assert_eq!(
        c.mounts,
        vec![
            Mount {
                source: "/h".to_string(),
                target: "/t".to_string(),
                readonly: true
            },
            Mount {
                source: "/i".to_string(),
                target: "/u".to_string(),
                readonly: false
            }
        ]
    );
    assert_eq!(c.memory_max, Some(5));
    assert_eq!(c.timeout_ms, Some(120_000));
    assert!(c.readonly);
}

#[test]
fn profiles_fill_in_what_is_not_set() {
    let strict = Config::parse("profile = strict\nargv = x").unwrap();
    assert!(strict.isolate_net);
    assert!(strict.readonly);
    assert_eq!(strict.timeout_ms, Some(5_000));
    assert_eq!(strict.memory_max, Some(134_217_728));
    let build = Config::parse("argv = x\nprofile = build").unwrap();
    assert!(build.isolate_net);
    assert!(!build.readonly);
    assert_eq!(build.timeout_ms, Some(300_000));
    assert_eq!(build.memory_max, Some(1_073_741_824));
    // An explicit line wins, wherever it stands.
    let mine = Config::parse(
        "net = host\nprofile = strict\nargv = x\nreadonly = false\ntimeout = 1\nmemory_max = 9",
    )
    .unwrap();
    assert!(!mine.isolate_net);
    assert!(!mine.readonly);
    assert_eq!(mine.timeout_ms, Some(1_000));
    assert_eq!(mine.memory_max, Some(9));
    assert_eq!(mine.pids_max, None);
}

#[test]
fn the_default_config_parses_to_the_defaults() {
    let c = Config::parse(DEFAULT_CONFIG).unwrap();
    let mut expected = Config::default();
    expected.argv = vec!["/bin/sh".to_string()];
    expected.env = vec![(
        "PATH".to_string(),
        "/usr/local/sbin:/usr/local/bin:/usr/sbin:/usr/bin:/sbin:/bin".to_string(),
    )];
    assert_eq!(c, expected);
}

#[test]
fn comments_end_lines() {
    assert_eq!(uncommented("# all"), "");
    assert_eq!(uncommented("a # b"), "a ");
    assert_eq!(uncommented("a#b"), "a#b");
    assert_eq!(uncommented("\"a # b\" # c"), "\"a # b\" ");
    assert_eq!(uncommented("a\t#b"), "a\t");
    assert_eq!(uncommented(""), "");
}

#[test]
fn quoted_arguments_come_back_as_they_were() {
    for words in [
        vec!["a b", "c\"d", "e\\f", "", "#x"],
        vec!["\u{e9}\u{2003}", "tab\there"],
    ] {
        let mut line = String::new();
        for w in &words {
            line.push('"');
            line.push_str(&w.replace('\\', "\\\\").replace('"', "\\\""));
            line.push_str("\" ");
        }
        assert_eq!(split_args(&line).unwrap(), words);
    }
}

#[test]
fn split_args_corner_cases() {
    assert_eq!(split_args("").unwrap(), Vec::<String>::new());
    assert_eq!(split_args("\"\"").unwrap(), vec![""]);
    assert_eq!(split_args("a\"b c\"d").unwrap(), vec!["ab cd"]);
    assert_eq!(split_args("a\\ b").unwrap(), vec!["a\\", "b"]);
    assert_eq!(split_args("\"a\\\"b\"").unwrap(), vec!["a\"b"]);
    assert_eq!(split_args("\"a\\").unwrap_err(), "unterminated quote in argv");
    assert_eq!(split_args("/bin/sh\0evil").unwrap(), vec!["/bin/sh\0evil"]);
}

#[test]
fn durations_have_units() {
    assert_eq!(parse_timeout_ms("5s"), Some(5_000));
    assert_eq!(parse_timeout_ms("500ms"), Some(500));
    assert_eq!(parse_timeout_ms("2m"), Some(120_000));
    assert_eq!(parse_timeout_ms("7"), Some(7_000));
    assert_eq!(parse_timeout_ms(" 7 s "), Some(7_000));
    assert_eq!(parse_timeout_ms("+1m"), Some(60_000));
    assert_eq!(parse_timeout_ms("18446744073709551615ms"), Some(u64::MAX));
    assert_eq!(parse_timeout_ms("18446744073709551615s"), None);
    assert_eq!(parse_timeout_ms("18446744073709551616ms"), None);
    assert_eq!(parse_timeout_ms("s"), None);
    assert_eq!(parse_timeout_ms(""), None);
    assert_eq!(parse_timeout_ms("1.5s"), None);
    assert_eq!(parse_timeout_ms("-1s"), None);
}

#[test]
fn white_space_is_what_the_standard_library_says() {
    for n in 0..=0x10ffffu32 {
        if let Some(c) = char::from_u32(n) {
            assert_eq!(is_white_space(c), c.is_whitespace(), "U+{n:04X}");
        }
    }
}

#[test]
fn text_functions_agree_with_the_standard_library() {
    for s in ["", "\n", "a", "a\n", "a\r\nb\r", "\n\na", "a\nb\n\n", "\r\n", "\u{2003}x \u{85}"] {
        let chars = chars_of(s);
        let mine: Vec<String> = lines(chars.as_slice()).iter().map(|l| string_of(l)).collect();
        let theirs: Vec<&str> = s.lines().collect();
        assert_eq!(mine, theirs, "{s:?}");
        assert_eq!(string_of(trim(chars.as_slice())), s.trim());
    }
    for s in ["", "+", "+0", "007", "18446744073709551615", "18446744073709551616", "1a", "++1", "-0"] {
        assert_eq!(parse_unsigned(chars_of(s).as_slice()), s.parse::<u64>().ok(), "{s:?}");
    }
    for n in [0u128, 9, 10, 1234567890, u128::MAX] {
        let mut s = "n=".to_string();
        push_decimal(&mut s, n);
        assert_eq!(s, format!("n={n}"));
    }
}

#[test]
fn plans_need_something_to_run_in_an_absolute_place() {
    let e = Plan::from_config(&Config::default()).unwrap_err();
    assert_eq!(e.to_string(), "plan error: argv is empty; nothing to run");
    let mut c = Config::parse("argv = x").unwrap();
    c.cwd = "rel".to_string();
    let e = Plan::from_config(&c).unwrap_err();
    assert_eq!(e.to_string(), "plan error: cwd must be an absolute path, got 'rel'");
    c.cwd = String::new();
    let e = Plan::from_config(&c).unwrap_err();
    assert_eq!(e.to_string(), "plan error: cwd must be an absolute path, got ''");
}

#[test]
fn plans_carry_the_config() {
    let c = Config::parse(
        "hostname = h\ncwd = /w\nargv = a b\nenv = K=v\nreadonly = true\nmemory_max = 7\n\
         pids_max = 8\ntimeout = 9ms\nmount = /s:/t:ro\nnet = isolated",
    )
    .unwrap();
    let p = Plan::from_config(&c).unwrap();
    assert_eq!(p.hostname, c.hostname);
    assert_eq!(p.cwd, c.cwd);
    assert_eq!(p.argv, c.argv);
    assert_eq!(p.env, c.env);
    assert_eq!(p.mounts, c.mounts);
    assert!(p.readonly);
    assert_eq!(p.timeout_ms, Some(9));
    assert_eq!(p.limits.memory_max, Some(7));
    assert_eq!(p.limits.pids_max, Some(8));
    assert!(p.limits.any());
    assert_eq!(p.namespaces.last(), Some(&Namespace::Net));
    assert_eq!(p.namespaces.len(), 6);
    assert_eq!(
        p.describe(),
        "namespaces : user, mount, pid, uts, ipc, net\n\
         hostname   : h\n\
         cwd        : /w\n\
         argv       : a b\n\
         rootfs     : read-only\n\
         hardening  : no_new_privs, dropped capabilities, minimal /dev\n\
         env        : 1 var(s)\n\
         memory_max : 7 bytes\n\
         pids_max   : 8\n\
         timeout    : 9 ms\n\
         mount      : /s -> /t (ro)\n"
    );
    let plain = Plan::from_config(&Config::parse("argv = x").unwrap()).unwrap();
    assert!(!plain.limits.any());
    assert_eq!(
        plain.describe(),
        "namespaces : user, mount, pid, uts, ipc\n\
         hostname   : cocoon\n\
         cwd        : /\n\
         argv       : x\n\
         rootfs     : read-write\n\
         hardening  : no_new_privs, dropped capabilities, minimal /dev\n"
    );
    assert_eq!(Namespace::Uts.name(), "uts");
}

#[test]
fn bundles_are_read_or_refused() {
    let dir = PathBuf::from("/b");
    assert_eq!(config_path(&dir), PathBuf::from("/b/cocoon.conf"));
    assert_eq!(rootfs_path(&dir), PathBuf::from("/b/rootfs"));
    let b = load_bundle(dir.clone(), "/b/cocoon.conf", Ok("argv = x".to_string())).unwrap();
    assert_eq!(b.dir, dir);
    assert_eq!(b.rootfs, PathBuf::from("/b/rootfs"));
    assert_eq!(b.config.argv, vec!["x"]);
    let e = load_bundle(
        dir.clone(),
        "/b/cocoon.conf",
        Err("No such file or directory (os error 2)".to_string()),
    )
    .unwrap_err();
    assert_eq!(
        e,
        Error::Config(
            "cannot read /b/cocoon.conf: No such file or directory (os error 2)".to_string()
        )
    );
    let p = plan_bundle(dir.clone(), "c", Ok("argv = x y".to_string())).unwrap();
    assert_eq!(p.argv, vec!["x", "y"]);
    let e = plan_bundle(dir.clone(), "c", Ok("argv = x\ncwd = r".to_string()));
    assert!(matches!(e, Err(Error::Plan(_))));
    let e = plan_bundle(dir, "c", Ok("argv".to_string()));
    assert!(matches!(e, Err(Error::Config(_))));
}

#[test]
fn a_time_limit_replaces_that_of_the_config() {
    let config = || Config::parse("argv = x\ntimeout = 5s\nhostname = h").unwrap();
    let c = with_timeout(config(), Some(7));
    assert_eq!(c.timeout_ms, Some(7));
    assert_eq!(c.argv, vec!["x"]);
    assert_eq!(c.hostname, "h");
    assert_eq!(with_timeout(config(), None).timeout_ms, Some(5000));
    let bare = Config::parse("argv = x").unwrap();
    assert_eq!(with_timeout(bare, None).timeout_ms, None);
}

#[test]
fn a_quoted_hash_is_kept_after_an_escaped_quote() {
    let line = "argv = /bin/echo \"a \\\" # b\"";
    assert_eq!(uncommented(line), line);
    assert_eq!(uncommented("argv=\"a \\\" # b\" # c"), "argv=\"a \\\" # b\" ");
    assert_eq!(uncommented("argv = \"a \\\\\" # b"), "argv = \"a \\\\\" ");
    assert_eq!(uncommented(" argv = a \\\" # b"), " argv = a \\\" # b");
    let c = Config::parse("argv = /bin/echo \"a \\\" # b\"").unwrap();
    assert_eq!(c.argv, vec!["/bin/echo", "a \" # b"]);
    let c = Config::parse("argv = /bin/echo \"a \\\" # b\" # said").unwrap();
    assert_eq!(c.argv, vec!["/bin/echo", "a \" # b"]);
    let c = Config::parse("argv = \"\\\\\" # c").unwrap();
    assert_eq!(c.argv, vec!["\\"]);
    let c = Config::parse("argv = \"#\" \" # \" \"\\\"\" #").unwrap();
    assert_eq!(c.argv, vec!["#", " # ", "\""]);
}

#[test]
fn a_backslash_escapes_nothing_on_other_lines() {
    assert_eq!(uncommented("env = A=\"\\\" # c"), "env = A=\"\\\" ");
    assert_eq!(uncommented("hostname = \"\\\" # c"), "hostname = \"\\\" ");
    assert_eq!(uncommented("\"a \\\" # b\" # c"), "\"a \\\" ");
    assert_eq!(uncommented("# argv = \"a\""), "");
    assert_eq!(uncommented("env = argv=\"\\\" # c"), "env = argv=\"\\\" ");
    let c = Config::parse("argv = x\nenv = A=\"\\\" # c\nhostname = \"\\\" # d").unwrap();
    assert_eq!(c.env, vec![("A".to_string(), "\"\\\"".to_string())]);
    assert_eq!(c.hostname, "\"\\\"");
}

#[test]
fn lifecycle_refusals_leave_the_state_alone() {
    let mut ct = Container::create("c1".to_string());
    assert_eq!(ct.id, "c1");
    let e = ct.stop(1).unwrap_err();
    assert!(matches!(e, Error::State(_)));
    assert_eq!(ct.state, State::Created);
    assert_eq!(ct.exit_code(), None);
    ct.start(7).unwrap();
    assert_eq!(ct.state, State::Running { pid: 7 });
    assert!(ct.start(8).is_err());
    assert_eq!(ct.state, State::Running { pid: 7 });
    assert_eq!(ct.exit_code(), None);
    ct.stop(-3).unwrap();
    assert!(!ct.is_running());
    assert_eq!(ct.exit_code(), Some(-3));
    assert!(ct.stop(0).is_err());
    assert!(ct.start(9).is_err());
    assert_eq!(ct.exit_code(), Some(-3));
}

#[test]
fn errors_say_where_they_come_from() {
    let m = "m".to_string();
    assert_eq!(Error::Config(m.clone()).to_string(), "config error: m");
    assert_eq!(Error::Plan(m.clone()).to_string(), "plan error: m");
    assert_eq!(Error::State(m.clone()).to_string(), "state error: m");
    assert_eq!(Error::Runtime(m.clone()).to_string(), "runtime error: m");
    assert_eq!(Error::Unsupported(m).to_string(), "unsupported: m");
}
