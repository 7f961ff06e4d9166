//! What holds of every config file, beyond what each parsing function states.
use crate::config::{
    after_line, after_lines, arguments, comment_index, config_of, config_of_lines, duration_parts,
    is_absolute, line_meaning, mount_entry, quote_state, sets_argv, starts_comment, timeout_millis,
    uncommented, Line, MountView, Profile, ProgressView, BUILD_MEMORY_MAX, BUILD_TIMEOUT_MS,
    STRICT_MEMORY_MAX, STRICT_TIMEOUT_MS,
};
use crate::error::ErrorView;
use crate::text::{
    decimal, is_digit, is_white, lemma_decimal, split_at_first, text_lines, trim_end, trim_start,
    trimmed, unsigned_value,
};
use vstd::prelude::*;

verus! {

/// The value that the last of the first `n` lines with this key gives it.
pub open spec fn last_value(lines: Seq<Seq<char>>, n: nat, key: Seq<char>) -> Option<Seq<char>>
    decreases n,
{
    if n == 0 {
        None
    } else {
        match line_meaning(lines[n - 1]) {
            Line::Entry(k, v) => if k == key {
                Some(v)
            } else {
                last_value(lines, (n - 1) as nat, key)
            },
            _ => last_value(lines, (n - 1) as nat, key),
        }
    }
}

/// The values that the first `n` lines give this key, in order.
pub open spec fn all_values(lines: Seq<Seq<char>>, n: nat, key: Seq<char>) -> Seq<Seq<char>>
    decreases n,
{
    if n == 0 {
        Seq::empty()
    } else {
        let before = all_values(lines, (n - 1) as nat, key);
        match line_meaning(lines[n - 1]) {
            Line::Entry(k, v) => if k == key {
                before.push(v)
            } else {
                before
            },
            _ => before,
        }
    }
}

/// Whether `env` entry `e` is what the value `v` says.
pub open spec fn env_matches(e: (Seq<char>, Seq<char>), v: Seq<char>) -> bool {
    match split_at_first(v, '=') {
        Some((name, text)) => e == (trimmed(name), text),
        None => false,
    }
}

/// Whether mount `m` is what the value `v` says.
pub open spec fn mount_matches(m: MountView, v: Seq<char>) -> bool {
    mount_entry(v, 0) == std::result::Result::<MountView, ErrorView>::Ok(m)
}

/// The profile that a value names.
pub open spec fn profile_of(v: Option<Seq<char>>) -> Option<Profile> {
    match v {
        Some(name) => if name == "strict"@ {
            Some(Profile::Strict)
        } else {
            Some(Profile::Build)
        },
        None => None,
    }
}

/// Whether `p` holds what the first `n` lines say, key by key.
pub open spec fn matches_lines(p: ProgressView, lines: Seq<Seq<char>>, n: nat) -> bool {
    let c = p.config;
    let envs = all_values(lines, n, "env"@);
    let mounts = all_values(lines, n, "mount"@);
    &&& c.hostname == match last_value(lines, n, "hostname"@) {
        Some(v) => v,
        None => "cocoon"@,
    }
    &&& c.cwd == match last_value(lines, n, "cwd"@) {
        Some(v) => v,
        None => "/"@,
    }
    &&& p.saw_argv == (last_value(lines, n, "argv"@) is Some)
    &&& match last_value(lines, n, "argv"@) {
        Some(v) => arguments(v) == Some(c.argv),
        None => c.argv.len() == 0,
    }
    &&& c.env.len() == envs.len()
    &&& forall|i: int| 0 <= i < envs.len() ==> env_matches(#[trigger] c.env[i], envs[i])
    &&& p.seen.net == (last_value(lines, n, "net"@) is Some)
    &&& c.isolate_net == (last_value(lines, n, "net"@) == Some("isolated"@))
    &&& p.seen.readonly == (last_value(lines, n, "readonly"@) is Some)
    &&& c.readonly == (last_value(lines, n, "readonly"@) == Some("true"@))
    &&& p.seen.memory_max == (last_value(lines, n, "memory_max"@) is Some)
    &&& c.memory_max == match last_value(lines, n, "memory_max"@) {
        Some(v) => unsigned_value(v),
        None => None,
    }
    &&& c.memory_max is Some == p.seen.memory_max
    &&& c.pids_max == match last_value(lines, n, "pids_max"@) {
        Some(v) => unsigned_value(v),
        None => None,
    }
    &&& p.seen.timeout == (last_value(lines, n, "timeout"@) is Some)
    &&& c.timeout_ms == match last_value(lines, n, "timeout"@) {
        Some(v) => timeout_millis(v),
        None => None,
    }
    &&& c.timeout_ms is Some == p.seen.timeout
    &&& c.mounts.len() == mounts.len()
    &&& forall|i: int| 0 <= i < mounts.len() ==> mount_matches(#[trigger] c.mounts[i], mounts[i])
    &&& p.profile == profile_of(last_value(lines, n, "profile"@))
}

/// No two keys are spelled alike.
pub(crate) proof fn lemma_keys_differ()
    ensures
        "hostname"@.len() == 8 && "hostname"@[0] == 'h',
        "cwd"@.len() == 3 && "cwd"@[0] == 'c',
        "argv"@.len() == 4,
        "env"@.len() == 3 && "env"@[0] == 'e',
        "net"@.len() == 3 && "net"@[0] == 'n',
        "readonly"@.len() == 8 && "readonly"@[0] == 'r',
        "memory_max"@.len() == 10,
        "pids_max"@.len() == 8 && "pids_max"@[0] == 'p',
        "timeout"@.len() == 7 && "timeout"@[0] == 't',
        "mount"@.len() == 5,
        "profile"@.len() == 7 && "profile"@[0] == 'p',
        "isolated"@ != "host"@,
        "true"@ != "false"@,
        "strict"@ != "build"@,
{
    reveal_strlit("hostname");
    reveal_strlit("cwd");
    reveal_strlit("argv");
    reveal_strlit("env");
    reveal_strlit("net");
    reveal_strlit("readonly");
    reveal_strlit("memory_max");
    reveal_strlit("pids_max");
    reveal_strlit("timeout");
    reveal_strlit("mount");
    reveal_strlit("profile");
    reveal_strlit("host");
    reveal_strlit("isolated");
    reveal_strlit("true");
    reveal_strlit("false");
    reveal_strlit("strict");
    reveal_strlit("build");
    assert("isolated"@.len() != "host"@.len());
    assert("true"@.len() != "false"@.len());
    assert("strict"@.len() != "build"@.len());
}

/// What a mount value denotes does not depend on the line it stands in.
proof fn lemma_mount_line(v: Seq<char>, a: nat, b: nat)
    ensures
        mount_entry(v, a) is Ok ==> mount_entry(v, b) == mount_entry(v, a),
{
}

/// The reading keeps what the lines say, key by key.
#[verifier::rlimit(40)]
pub(crate) proof fn lemma_matches_lines(lines: Seq<Seq<char>>, n: nat)
    requires
        n <= lines.len(),
        after_lines(lines, n) is Ok,
    ensures
        matches_lines(after_lines(lines, n)->Ok_0, lines, n),
    decreases n,
{
    lemma_keys_differ();
    if n > 0 {
        let before = after_lines(lines, (n - 1) as nat)->Ok_0;
        lemma_matches_lines(lines, (n - 1) as nat);
        let after = after_lines(lines, n)->Ok_0;
        match line_meaning(lines[n - 1]) {
            Line::Entry(key, value) => {
                lemma_mount_line(value, n, 0);
            },
            _ => {},
        }
    }
}

/// A config that parses is what its lines say, key by key. Of the lines with one
/// key the last one counts, wherever it stands, except that `env` and `mount`
/// add up in order. An explicit line wins over the profile, before or after it;
/// the profile decides the network, the base, the timeout and the memory only
/// where no line does.
pub proof fn law_config_says_what_its_lines_say(text: Seq<char>)
    requires
        config_of(text) is Ok,
    ensures
        ({
            let lines = text_lines(text);
            let n = lines.len();
            let c = config_of(text)->Ok_0;
            let profile = profile_of(last_value(lines, n, "profile"@));
            let envs = all_values(lines, n, "env"@);
            let mounts = all_values(lines, n, "mount"@);
            &&& c.hostname == match last_value(lines, n, "hostname"@) {
                Some(v) => v,
                None => "cocoon"@,
            }
            &&& c.cwd == match last_value(lines, n, "cwd"@) {
                Some(v) => v,
                None => "/"@,
            }
            &&& last_value(lines, n, "argv"@) matches Some(v) && arguments(v) == Some(c.argv)
            &&& c.env.len() == envs.len()
            &&& forall|i: int| 0 <= i < envs.len() ==> env_matches(#[trigger] c.env[i], envs[i])
            &&& c.isolate_net == match last_value(lines, n, "net"@) {
                Some(v) => v == "isolated"@,
                None => profile is Some,
            }
            &&& c.readonly == match last_value(lines, n, "readonly"@) {
                Some(v) => v == "true"@,
                None => profile == Some(Profile::Strict),
            }
            &&& c.memory_max == match (last_value(lines, n, "memory_max"@), profile) {
                (Some(v), _) => unsigned_value(v),
                (None, Some(Profile::Strict)) => Some(STRICT_MEMORY_MAX),
                (None, Some(Profile::Build)) => Some(BUILD_MEMORY_MAX),
                (None, None) => None,
            }
            &&& c.pids_max == match last_value(lines, n, "pids_max"@) {
                Some(v) => unsigned_value(v),
                None => None,
            }
            &&& c.timeout_ms == match (last_value(lines, n, "timeout"@), profile) {
                (Some(v), _) => timeout_millis(v),
                (None, Some(Profile::Strict)) => Some(STRICT_TIMEOUT_MS),
                (None, Some(Profile::Build)) => Some(BUILD_TIMEOUT_MS),
                (None, None) => None,
            }
            &&& c.mounts.len() == mounts.len()
            &&& forall|i: int|
                0 <= i < mounts.len() ==> mount_matches(#[trigger] c.mounts[i], mounts[i])
        }),
{
    let lines = text_lines(text);
    lemma_matches_lines(lines, lines.len());
}

/// A config that parses names a command to run, and every mount in it joins two
/// absolute paths.
pub proof fn law_parsed_config_is_valid(text: Seq<char>)
    requires
        config_of(text) is Ok,
    ensures
        config_of(text)->Ok_0.argv.len() > 0,
        forall|i: int|
            0 <= i < config_of(text)->Ok_0.mounts.len() ==> is_absolute(
                (#[trigger] config_of(text)->Ok_0.mounts[i]).source,
            ) && is_absolute(config_of(text)->Ok_0.mounts[i].target),
{
    let lines = text_lines(text);
    lemma_matches_lines(lines, lines.len());
    let c = config_of(text)->Ok_0;
    let mounts = all_values(lines, lines.len(), "mount"@);
    assert forall|i: int| 0 <= i < c.mounts.len() implies is_absolute(
        (#[trigger] c.mounts[i]).source,
    ) && is_absolute(c.mounts[i].target) by {
        assert(mount_matches(c.mounts[i], mounts[i]));
    }
}

/// A line that says nothing can stand anywhere: with or without it the same
/// configs parse, to the same result.
pub proof fn law_blank_lines_are_ignored(lines: Seq<Seq<char>>, i: int, blank: Seq<char>)
    requires
        0 <= i <= lines.len(),
        line_meaning(blank) is Blank,
    ensures
        config_of_lines(lines.insert(i, blank)) is Ok <==> config_of_lines(lines) is Ok,
        config_of_lines(lines) is Ok ==> config_of_lines(lines.insert(i, blank))
            == config_of_lines(lines),
{
    let more = lines.insert(i, blank);
    lemma_insert_blank(lines, i, blank, lines.len());
    assert(more.len() == lines.len() + 1);
}

/// What a line says, if it says something right, does not depend on its number.
proof fn lemma_line_number(p: ProgressView, raw: Seq<char>, a: nat, b: nat)
    ensures
        after_line(p, raw, a) is Ok <==> after_line(p, raw, b) is Ok,
        after_line(p, raw, a) is Ok ==> after_line(p, raw, b) == after_line(p, raw, a),
{
    match line_meaning(raw) {
        Line::Entry(key, value) => {
            lemma_mount_line(value, a, b);
            lemma_mount_line(value, b, a);
        },
        _ => {},
    }
}

/// The reading with and without one blank line, up to line `n` of the lines
/// without it.
proof fn lemma_insert_blank(lines: Seq<Seq<char>>, i: int, blank: Seq<char>, n: nat)
    requires
        0 <= i <= lines.len(),
        n <= lines.len(),
        line_meaning(blank) is Blank,
    ensures
        ({
            let more = lines.insert(i, blank);
            let a = after_lines(lines, n);
            let b = after_lines(more, n);
            let c = after_lines(more, n + 1);
            &&& n <= i ==> a == b
            &&& n >= i ==> (a is Ok <==> c is Ok) && (a is Ok ==> a == c)
        }),
    decreases n,
{
    let more = lines.insert(i, blank);
    if n > 0 {
        lemma_insert_blank(lines, i, blank, (n - 1) as nat);
        if n <= i {
            assert(more[n - 1] == lines[n - 1]);
        } else {
            assert(more[n as int] == lines[n - 1]);
            let before = after_lines(lines, (n - 1) as nat);
            if before is Ok {
                lemma_line_number(before->Ok_0, lines[n - 1], n, n + 1);
            }
        }
    }
    if n == i {
        assert(more[n as int] == blank);
    }
}

/// White space, then a `#`, then anything: such a line says nothing.
pub proof fn law_comment_line_is_blank(indent: Seq<char>, comment: Seq<char>)
    requires
        forall|i: int| 0 <= i < indent.len() ==> is_white(#[trigger] indent[i]),
    ensures
        line_meaning(indent + seq!['#'] + comment) is Blank,
        line_meaning(indent) is Blank,
{
    let line = indent + seq!['#'] + comment;
    let n = indent.len() as int;
    assert forall|j: int| 0 <= j < n implies indent[j] != '"' by {
        assert(is_white(indent[j]));
    }
    lemma_quoteless(indent, sets_argv(line));
    assert(line.take(n) =~= indent);
    assert(starts_comment(line, n));
    assert forall|i: int| 0 <= i < n implies !starts_comment(line, i) by {
        assert(line[i] == indent[i]);
    }
    lemma_comment_index(line, 0, n);
    assert(uncommented(line) =~= indent);
    assert forall|i: int| 0 <= i < n implies !starts_comment(indent, i) by {
        assert(is_white(indent[i]));
    }
    lemma_comment_index(indent, 0, n);
    assert(uncommented(indent) =~= indent);
    lemma_trim_white(indent);
}

/// A text without quotes opens none.
pub(crate) proof fn lemma_quoteless(s: Seq<char>, escapes: bool)
    requires
        forall|i: int| 0 <= i < s.len() ==> s[i] != '"',
    ensures
        quote_state(s, escapes) == (false, false),
    decreases s.len(),
{
    if s.len() > 0 {
        lemma_quoteless(s.drop_last(), escapes);
    }
}

/// The first place where a comment starts is the one before which none does.
pub(crate) proof fn lemma_comment_index(line: Seq<char>, i: int, n: int)
    requires
        0 <= i <= n <= line.len(),
        n == line.len() || starts_comment(line, n),
        forall|j: int| i <= j < n ==> !starts_comment(line, j),
    ensures
        comment_index(line, i) == n,
    decreases n - i,
{
    if i < n {
        lemma_comment_index(line, i + 1, n);
    }
}

proof fn lemma_trim_white(s: Seq<char>)
    requires
        forall|i: int| 0 <= i < s.len() ==> is_white(#[trigger] s[i]),
    ensures
        trimmed(s).len() == 0,
    decreases s.len(),
{
    if s.len() > 0 {
        assert(is_white(s[0]));
        lemma_trim_white(s.drop_first());
    }
}

/// A number of milliseconds, seconds or minutes, or a bare number of seconds,
/// lasts as long as it says; it is refused only where a `u64` cannot hold it.
pub proof fn law_durations(n: u64)
    ensures
        timeout_millis(decimal(n as nat) + "ms"@) == Some(n),
        timeout_millis(decimal(n as nat) + "s"@) == scaled(n, 1000),
        timeout_millis(decimal(n as nat) + "m"@) == scaled(n, 60_000),
        timeout_millis(decimal(n as nat)) == scaled(n, 1000),
{
    let d = decimal(n as nat);
    lemma_number(n);
    reveal_strlit("ms");
    reveal_strlit("s");
    reveal_strlit("m");
    lemma_milliseconds(d);
    lemma_seconds(d);
    lemma_minutes(d);
    lemma_no_unit(d);
    lemma_trim_nothing(d + "ms"@);
    lemma_trim_nothing(d + "s"@);
    lemma_trim_nothing(d + "m"@);
    lemma_duration(d + "ms"@, d, 1, n);
    lemma_duration(d + "s"@, d, 1000, n);
    lemma_duration(d + "m"@, d, 60_000, n);
    lemma_duration(d, d, 1000, n);
}

/// A number in decimal notation starts and ends with a digit and reads back.
proof fn lemma_number(n: u64)
    ensures
        ({
            let d = decimal(n as nat);
            &&& d.len() > 0
            &&& is_digit(d[0])
            &&& is_digit(d[d.len() - 1])
            &&& trimmed(d) == d
            &&& unsigned_value(d) == Some(n)
        }),
{
    let d = decimal(n as nat);
    lemma_decimal(n as nat);
    crate::text::law_decimal_round_trip(n);
    assert(is_digit(d[0]));
    assert(is_digit(d[d.len() - 1]));
    lemma_trim_nothing(d);
}

/// A number and `ms`.
proof fn lemma_milliseconds(d: Seq<char>)
    ensures
        duration_parts(d + "ms"@) == (d, 1nat),
{
    reveal_strlit("ms");
    let ms = d + "ms"@;
    assert(ms.subrange(d.len() as int, ms.len() as int) =~= "ms"@);
    assert(ms.take(ms.len() - 2) =~= d);
}

/// A number and `s`.
proof fn lemma_seconds(d: Seq<char>)
    requires
        d.len() > 0,
        is_digit(d[d.len() - 1]),
    ensures
        duration_parts(d + "s"@) == (d, 1000nat),
{
    reveal_strlit("ms");
    reveal_strlit("s");
    let s = d + "s"@;
    let tail = s.subrange(s.len() - 2, s.len() as int);
    assert(tail[0] == d[d.len() - 1]);
    assert("ms"@[0] == 'm');
    assert(tail != "ms"@);
    assert(s.subrange(d.len() as int, s.len() as int) =~= "s"@);
    assert(s.take(s.len() - 1) =~= d);
}

/// A number and `m`.
proof fn lemma_minutes(d: Seq<char>)
    ensures
        duration_parts(d + "m"@) == (d, 60_000nat),
{
    reveal_strlit("ms");
    reveal_strlit("s");
    reveal_strlit("m");
    let m = d + "m"@;
    assert(m[m.len() - 1] == 'm');
    assert("ms"@[1] == 's' && "s"@[0] == 's');
    assert(!"ms"@.is_suffix_of(m));
    assert(!"s"@.is_suffix_of(m));
    assert(m.subrange(d.len() as int, m.len() as int) =~= "m"@);
    assert(m.take(m.len() - 1) =~= d);
}

/// A number alone.
proof fn lemma_no_unit(d: Seq<char>)
    requires
        d.len() > 0,
        is_digit(d[d.len() - 1]),
    ensures
        duration_parts(d) == (d, 1000nat),
{
    reveal_strlit("ms");
    reveal_strlit("s");
    reveal_strlit("m");
    assert("ms"@[1] == 's' && "s"@[0] == 's' && "m"@[0] == 'm');
    assert(!"ms"@.is_suffix_of(d));
    assert(!"s"@.is_suffix_of(d));
    assert(!"m"@.is_suffix_of(d));
}

/// A duration lasts its number times its unit.
proof fn lemma_duration(v: Seq<char>, number: Seq<char>, unit: nat, n: u64)
    requires
        trimmed(v) == v,
        duration_parts(v) == (number, unit),
        trimmed(number) == number,
        unsigned_value(number) == Some(n),
    ensures
        timeout_millis(v) == scaled(n, unit),
        unit == 1 ==> scaled(n, unit) == Some(n),
{
    assert(n * 1 == n);
}

/// `n` times `unit`, if a `u64` can hold it.
pub open spec fn scaled(n: u64, unit: nat) -> Option<u64> {
    if n * unit <= u64::MAX {
        Some((n * unit) as u64)
    } else {
        None
    }
}

proof fn lemma_trim_nothing(s: Seq<char>)
    requires
        s.len() > 0,
        !is_white(s[0]),
        !is_white(s.last()),
    ensures
        trimmed(s) == s,
{
    assert(trim_start(s) == s);
    assert(trim_end(s) == s);
}

} // verus!
