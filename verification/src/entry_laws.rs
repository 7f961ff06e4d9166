//! What each line of a config file sets, and to what.
use crate::config::{
    after_entry, after_line, after_lines, arguments, config_of, config_of_lines, finished,
    line_meaning, mount_entry, starts_comment, timeout_millis, uncommented, ConfigView, Line,
    MountView,
};
use crate::config_laws::{lemma_comment_index, lemma_keys_differ, lemma_matches_lines};
use crate::error::ErrorView;
use crate::text::{
    decimal, is_white, split_at_first, split_parts, text_lines, trim_start, trimmed,
    unsigned_value,
};
use crate::text_laws::{
    has_no_margin, is_blank, law_affixes, law_lines_of_a_text, law_parts, law_split_at_the_first,
    law_trim_takes_the_margin,
};
use vstd::prelude::*;

verus! {

/// What is wrong with a line, by its number.
pub open spec fn fault(line: nat, what: Seq<char>) -> ErrorView {
    ErrorView::Config("line "@ + decimal(line) + ": "@ + what)
}

/// A text with white space round it.
pub open spec fn padded(a: Seq<char>, s: Seq<char>, b: Seq<char>) -> Seq<char> {
    a + s + b
}

/// White space round a text adds no other character.
proof fn lemma_padded(a: Seq<char>, s: Seq<char>, b: Seq<char>, c: char)
    requires
        is_blank(a),
        is_blank(b),
        !is_white(c),
        !s.contains(c),
    ensures
        !padded(a, s, b).contains(c),
{
    let t = padded(a, s, b);
    if t.contains(c) {
        let i = choose|i: int| 0 <= i < t.len() && t[i] == c;
        if i < a.len() {
            assert(is_white(a[i]));
        } else if i < a.len() + s.len() {
            assert(s[i - a.len()] == c);
        } else {
            assert(is_white(b[i - a.len() - s.len()]));
        }
    }
}

/// A mount value is a source, a target and a flag between colons, with any white
/// space round them: two absolute paths, kept as they are, and `ro` or `rw`. Any
/// other flag, a path that is not absolute, and any other number of parts are
/// refused.
pub proof fn law_mount_values(
    source: Seq<char>,
    target: Seq<char>,
    flag: Seq<char>,
    blank: Seq<Seq<char>>,
    line: nat,
)
    requires
        !source.contains(':'),
        !target.contains(':'),
        !flag.contains(':'),
        has_no_margin(source),
        has_no_margin(target),
        has_no_margin(flag),
        blank.len() == 6,
        is_blank(blank[0]) && is_blank(blank[1]) && is_blank(blank[2]),
        is_blank(blank[3]) && is_blank(blank[4]) && is_blank(blank[5]),
    ensures
        ({
            let value = padded(blank[0], source, blank[1]) + seq![':'] + (padded(
                blank[2],
                target,
                blank[3],
            ) + seq![':'] + padded(blank[4], flag, blank[5]));
            let rooted = source.len() > 0 && source[0] == '/' && target.len() > 0 && target[0]
                == '/';
            let read = mount_entry(value, line);
            &&& rooted && flag == "ro"@ ==> read == Ok::<MountView, ErrorView>(
                MountView { source, target, readonly: true },
            )
            &&& rooted && flag == "rw"@ ==> read == Ok::<MountView, ErrorView>(
                MountView { source, target, readonly: false },
            )
            &&& rooted && flag != "ro"@ && flag != "rw"@ ==> read == Err::<MountView, ErrorView>(
                fault(line, "mount flag must be 'ro' or 'rw', got '"@ + flag + "'"@),
            )
            &&& !rooted ==> read == Err::<MountView, ErrorView>(
                fault(line, "mount source and target must be absolute paths"@),
            )
        }),
{
    let a = padded(blank[0], source, blank[1]);
    let b = padded(blank[2], target, blank[3]);
    let c = padded(blank[4], flag, blank[5]);
    assert(!is_white(':'));
    lemma_padded(blank[0], source, blank[1], ':');
    lemma_padded(blank[2], target, blank[3], ':');
    lemma_padded(blank[4], flag, blank[5], ':');
    law_parts(a, ':', b + seq![':'] + c);
    law_parts(b, ':', c);
    law_parts(c, ':', Seq::empty());
    let value = a + seq![':'] + (b + seq![':'] + c);
    let parts = split_parts(value, ':');
    assert(parts =~= seq![a, b, c]);
    law_trim_takes_the_margin(blank[0], source, blank[1]);
    law_trim_takes_the_margin(blank[2], target, blank[3]);
    law_trim_takes_the_margin(blank[4], flag, blank[5]);
    reveal_strlit("ro");
    reveal_strlit("rw");
    assert("ro"@[1] == 'o' && "rw"@[1] == 'w');
}

/// A mount value has three parts, no fewer and no more.
pub proof fn law_mount_values_have_three_parts(
    a: Seq<char>,
    b: Seq<char>,
    c: Seq<char>,
    rest: Seq<char>,
    line: nat,
)
    requires
        !a.contains(':'),
        !b.contains(':'),
        !c.contains(':'),
    ensures
        mount_entry(a, line) == Err::<MountView, ErrorView>(
            fault(line, "mount must be 'SOURCE:TARGET:ro|rw'"@),
        ),
        mount_entry(a + seq![':'] + b, line) == Err::<MountView, ErrorView>(
            fault(line, "mount must be 'SOURCE:TARGET:ro|rw'"@),
        ),
        mount_entry(
            a + seq![':'] + (b + seq![':'] + (c + seq![':'] + rest)),
            line,
        ) == Err::<MountView, ErrorView>(fault(line, "mount must be 'SOURCE:TARGET:ro|rw'"@)),
{
    law_parts(a, ':', b);
    law_parts(b, ':', Seq::empty());
    let cr = c + seq![':'] + rest;
    law_parts(a, ':', b + seq![':'] + cr);
    law_parts(b, ':', cr);
    law_parts(c, ':', rest);
    lemma_some_part(rest, ':');
}

/// There is always at least one part.
proof fn lemma_some_part(s: Seq<char>, c: char)
    ensures
        split_parts(s, c).len() >= 1,
{
}

/// A duration lasts its number times its unit: milliseconds, seconds, minutes, or
/// seconds where there is no unit; white space round the number and the unit does not
/// matter. What is no number, or lasts too long for a `u64`, is no duration.
pub proof fn law_durations_in_general(
    before: Seq<char>,
    number: Seq<char>,
    gap: Seq<char>,
    after: Seq<char>,
)
    requires
        is_blank(before),
        is_blank(gap),
        is_blank(after),
        number.len() > 0,
        !is_white(number[0]),
        '0' <= number[number.len() - 1] <= '9',
    ensures
        timeout_millis(padded(before, number + gap + "ms"@, after)) == lasting(number, 1),
        timeout_millis(padded(before, number + gap + "s"@, after)) == lasting(number, 1000),
        timeout_millis(padded(before, number + gap + "m"@, after)) == lasting(number, 60_000),
        timeout_millis(padded(before, number, after)) == lasting(number, 1000),
{
    let last = number[number.len() - 1];
    assert(!is_white(last)) by {
        assert(last as u32 >= 48 && last as u32 <= 57);
    }
    assert(last != 'm' && last != 's');
    reveal_strlit("ms");
    reveal_strlit("s");
    reveal_strlit("m");
    let none = Seq::<char>::empty();
    law_trim_takes_the_margin(none, number, gap);
    law_trim_takes_the_margin(none, number, none);
    assert(none + number + gap =~= number + gap);
    assert(none + number + none =~= number);
    let head = number + gap;
    let ms = head + "ms"@;
    let s = head + "s"@;
    let m = head + "m"@;
    law_trim_takes_the_margin(before, ms, after);
    law_trim_takes_the_margin(before, s, after);
    law_trim_takes_the_margin(before, m, after);
    law_trim_takes_the_margin(before, number, after);
    law_affixes(head, "ms"@);
    law_affixes(head, "s"@);
    law_affixes(head, "m"@);
    assert(head[head.len() - 1] != 'm') by {
        if gap.len() > 0 {
            assert(head[head.len() - 1] == gap[gap.len() - 1]);
            assert(is_white(gap[gap.len() - 1]));
        } else {
            assert(head[head.len() - 1] == last);
        }
    }
    assert(!"ms"@.is_suffix_of(s)) by {
        assert(s[s.len() - 2] == head[head.len() - 1]);
        if "ms"@.is_suffix_of(s) {
            assert(s.subrange(s.len() - 2, s.len() as int)[0] == "ms"@[0]);
        }
    }
    assert(m[m.len() - 1] == 'm');
    assert(!"ms"@.is_suffix_of(m)) by {
        if "ms"@.is_suffix_of(m) {
            assert(m.subrange(m.len() - 2, m.len() as int)[1] == "ms"@[1]);
        }
    }
    assert(!"s"@.is_suffix_of(m)) by {
        if "s"@.is_suffix_of(m) {
            assert(m.subrange(m.len() - 1, m.len() as int)[0] == "s"@[0]);
        }
    }
    assert(!"ms"@.is_suffix_of(number)) by {
        if "ms"@.is_suffix_of(number) {
            assert(number.subrange(number.len() - 2, number.len() as int)[1] == "ms"@[1]);
        }
    }
    assert(!"s"@.is_suffix_of(number)) by {
        if "s"@.is_suffix_of(number) {
            assert(number.subrange(number.len() - 1, number.len() as int)[0] == "s"@[0]);
        }
    }
    assert(!"m"@.is_suffix_of(number)) by {
        if "m"@.is_suffix_of(number) {
            assert(number.subrange(number.len() - 1, number.len() as int)[0] == "m"@[0]);
        }
    }
    if unsigned_value(number) is Some {
        let n = unsigned_value(number)->0;
        assert(n * 1 == n);
    }
}

/// How many milliseconds a number of units lasts, if a `u64` can hold them.
pub open spec fn lasting(number: Seq<char>, unit: int) -> Option<u64> {
    match unsigned_value(number) {
        Some(n) => if n * unit <= 0xffff_ffff_ffff_ffff {
            Some((n * unit) as u64)
        } else {
            None
        },
        None => None,
    }
}

/// A line without a `#` says its key and its value, whatever white space stands round
/// them: they are what stands before and after the first equals sign.
pub proof fn law_lines_say_key_and_value(key: Seq<char>, value: Seq<char>, blank: Seq<Seq<char>>)
    requires
        key.len() > 0,
        has_no_margin(key),
        has_no_margin(value),
        !key.contains('='),
        !key.contains('#'),
        !value.contains('#'),
        blank.len() == 4,
        is_blank(blank[0]) && is_blank(blank[1]) && is_blank(blank[2]) && is_blank(blank[3]),
    ensures
        line_meaning(
            padded(blank[0], key, blank[1]) + seq!['='] + padded(blank[2], value, blank[3]),
        ) == Line::Entry(key, value),
{
    let none = Seq::<char>::empty();
    let line = padded(blank[0], key, blank[1]) + seq!['='] + padded(blank[2], value, blank[3]);
    assert(!is_white('#') && !is_white('='));
    lemma_padded(blank[0], key, blank[1], '#');
    lemma_padded(blank[2], value, blank[3], '#');
    lemma_uncommented(line);
    let left = key + blank[1];
    lemma_padded(none, key, blank[1], '=');
    assert(padded(none, key, blank[1]) =~= left);
    law_trim_takes_the_margin(none, key, blank[1]);
    if value.len() > 0 {
        let right = blank[2] + value;
        let core = left + seq!['='] + right;
        assert(core[core.len() - 1] == value[value.len() - 1]);
        assert(core[0] == key[0]);
        assert(padded(blank[0], core, blank[3]) =~= line);
        law_trim_takes_the_margin(blank[0], core, blank[3]);
        law_split_at_the_first(left, '=', right);
        law_trim_takes_the_margin(blank[2], value, none);
        assert(blank[2] + value + none =~= right);
    } else {
        let core = left + seq!['='];
        let after = blank[2] + blank[3];
        assert(core[0] == key[0]);
        assert forall|i: int| 0 <= i < after.len() implies is_white(#[trigger] after[i]) by {
            if i < blank[2].len() {
                assert(is_white(blank[2][i]));
            } else {
                assert(is_white(blank[3][i - blank[2].len()]));
            }
        }
        assert(padded(blank[0], core, after) =~= line);
        law_trim_takes_the_margin(blank[0], core, after);
        law_split_at_the_first(left, '=', none);
        assert(left + seq!['='] + none =~= core);
        law_trim_takes_the_margin(none, none, none);
        assert(none + none + none =~= none);
        assert(value =~= none);
    }
}

/// A line without a `#` has no comment.
proof fn lemma_uncommented(line: Seq<char>)
    requires
        !line.contains('#'),
    ensures
        uncommented(line) == line,
{
    assert forall|i: int| 0 <= i < line.len() implies !starts_comment(line, i) by {
        assert(line.contains(line[i]));
    }
    lemma_comment_index(line, 0, line.len() as int);
    assert(line.take(line.len() as int) =~= line);
}

/// A line is cut where its first comment starts, and nowhere else.
pub proof fn law_comments_are_cut_off(line: Seq<char>, n: int)
    requires
        0 <= n <= line.len(),
        forall|i: int| 0 <= i < n ==> !starts_comment(line, i),
        n == line.len() || starts_comment(line, n),
    ensures
        uncommented(line) == line.take(n),
{
    lemma_comment_index(line, 0, n);
}

/// A note after a line does not change what it says: white space, a `#`, and
/// anything. (Here the line holds no quotes.)
pub proof fn law_notes_say_nothing(line: Seq<char>, gap: char, note: Seq<char>)
    requires
        !line.contains('#'),
        !line.contains('"'),
        is_white(gap),
    ensures
        line_meaning(line + seq![gap, '#'] + note) == line_meaning(line),
{
    let noted = line + seq![gap, '#'] + note;
    let n = line.len() as int + 1;
    lemma_uncommented(line);
    assert forall|i: int| 0 <= i < n implies !starts_comment(noted, i) by {
        if i < line.len() {
            assert(line.contains(line[i]));
        }
    }
    let head = noted.take(n);
    assert forall|i: int| 0 <= i < head.len() implies head[i] != '"' by {
        if i < line.len() {
            assert(line.contains(line[i]));
        }
    }
    crate::config_laws::lemma_quoteless(head, crate::config::sets_argv(noted));
    assert(noted[n] == '#' && noted[n - 1] == gap);
    law_comments_are_cut_off(noted, n);
    assert(head =~= line.push(gap));
    lemma_trailing_white(line, gap);
}

/// White space at the end of a text is trimmed away.
proof fn lemma_trailing_white(s: Seq<char>, gap: char)
    requires
        is_white(gap),
    ensures
        trimmed(s.push(gap)) == trimmed(s),
    decreases s.len(),
{
    let t = s.push(gap);
    if s.len() > 0 && is_white(s[0]) {
        assert(t.drop_first() =~= s.drop_first().push(gap));
        lemma_trailing_white(s.drop_first(), gap);
    } else if s.len() == 0 {
        assert(t.drop_first() =~= Seq::<char>::empty());
        assert(trim_start(t.drop_first()) == t.drop_first());
        assert(trim_start(t) == trim_start(t.drop_first()));
        assert(s =~= Seq::<char>::empty());
    } else {
        assert(t.drop_last() =~= s);
    }
}

/// A line without an equals sign says nothing if it is blank, and else is no line at
/// all.
pub proof fn law_lines_without_an_equals_sign(line: Seq<char>, blank: Seq<Seq<char>>)
    requires
        has_no_margin(line),
        !line.contains('='),
        !line.contains('#'),
        blank.len() == 2,
        is_blank(blank[0]) && is_blank(blank[1]),
    ensures
        line.len() == 0 ==> line_meaning(padded(blank[0], line, blank[1])) is Blank,
        line.len() > 0 ==> line_meaning(padded(blank[0], line, blank[1])) is Malformed,
{
    assert(!is_white('#'));
    lemma_padded(blank[0], line, blank[1], '#');
    lemma_uncommented(padded(blank[0], line, blank[1]));
    law_trim_takes_the_margin(blank[0], line, blank[1]);
    law_split_at_the_first(line, '=', Seq::empty());
}

/// What is known after some lines and one more.
proof fn lemma_one_more_line(lines: Seq<Seq<char>>, raw: Seq<char>)
    ensures
        after_lines(lines.push(raw), lines.len() + 1) == match after_lines(lines, lines.len()) {
            Ok(p) => after_line(p, raw, lines.len() + 1),
            Err(e) => Err(e),
        },
{
    let more = lines.push(raw);
    lemma_same_lines(lines, raw, lines.len());
    assert(more[lines.len() as int] == raw);
}

/// The lines before are read as they were.
proof fn lemma_same_lines(lines: Seq<Seq<char>>, raw: Seq<char>, n: nat)
    requires
        n <= lines.len(),
    ensures
        after_lines(lines.push(raw), n) == after_lines(lines, n),
    decreases n,
{
    if n > 0 {
        lemma_same_lines(lines, raw, (n - 1) as nat);
        assert(lines.push(raw)[n - 1] == lines[n - 1]);
    }
}

/// One more line at the end of a config sets what its key says to its value, and
/// changes nothing else, whatever profile there is; `env` and `mount` add to what
/// there was.
#[verifier::rlimit(40)]
pub proof fn law_one_more_line(
    lines: Seq<Seq<char>>,
    raw: Seq<char>,
    key: Seq<char>,
    value: Seq<char>,
)
    requires
        config_of_lines(lines) is Ok,
        line_meaning(raw) == Line::Entry(key, value),
    ensures
        ({
            let c = config_of_lines(lines)->Ok_0;
            let longer = config_of_lines(lines.push(raw));
            &&& key == "hostname"@ ==> longer == Ok::<ConfigView, ErrorView>(
                ConfigView { hostname: value, ..c },
            )
            &&& key == "cwd"@ ==> longer == Ok::<ConfigView, ErrorView>(
                ConfigView { cwd: value, ..c },
            )
            &&& key == "net"@ && value == "host"@ ==> longer == Ok::<ConfigView, ErrorView>(
                ConfigView { isolate_net: false, ..c },
            )
            &&& key == "net"@ && value == "isolated"@ ==> longer == Ok::<ConfigView, ErrorView>(
                ConfigView { isolate_net: true, ..c },
            )
            &&& key == "readonly"@ && value == "true"@ ==> longer == Ok::<ConfigView, ErrorView>(
                ConfigView { readonly: true, ..c },
            )
            &&& key == "readonly"@ && value == "false"@ ==> longer == Ok::<ConfigView, ErrorView>(
                ConfigView { readonly: false, ..c },
            )
            &&& key == "memory_max"@ && unsigned_value(value) is Some ==> longer == Ok::<
                ConfigView,
                ErrorView,
            >(ConfigView { memory_max: unsigned_value(value), ..c })
            &&& key == "pids_max"@ && unsigned_value(value) is Some ==> longer == Ok::<
                ConfigView,
                ErrorView,
            >(ConfigView { pids_max: unsigned_value(value), ..c })
            &&& key == "timeout"@ && timeout_millis(value) is Some ==> longer == Ok::<
                ConfigView,
                ErrorView,
            >(ConfigView { timeout_ms: timeout_millis(value), ..c })
            &&& key == "argv"@ && (arguments(value) matches Some(argv) && argv.len() > 0)
                ==> longer == Ok::<ConfigView, ErrorView>(
                ConfigView { argv: arguments(value)->0, ..c },
            )
            &&& key == "mount"@ && mount_entry(value, lines.len() + 1) is Ok ==> longer == Ok::<
                ConfigView,
                ErrorView,
            >(
                ConfigView {
                    mounts: c.mounts.push(mount_entry(value, lines.len() + 1)->Ok_0),
                    ..c
                },
            )
        }),
{
    lemma_keys_differ();
    lemma_one_more_line(lines, raw);
    let p = after_lines(lines, lines.len())->Ok_0;
    let q = after_line(p, raw, lines.len() + 1);
    assert(q == after_entry(p, key, value, lines.len() + 1));
    if q is Ok {
        let longer = config_of_lines(lines.push(raw));
        assert(longer == finished(q->Ok_0));
    }
}

/// A variable at the end of a config is added to those there are: its name is what
/// stands before the first equals sign, without white space round it, and its value
/// is all that stands after that.
pub proof fn law_one_more_variable(
    lines: Seq<Seq<char>>,
    raw: Seq<char>,
    name: Seq<char>,
    after: Seq<char>,
    text: Seq<char>,
)
    requires
        config_of_lines(lines) is Ok,
        !name.contains('='),
        has_no_margin(name),
        is_blank(after),
        line_meaning(raw) == Line::Entry("env"@, name + after + seq!['='] + text),
    ensures
        config_of_lines(lines.push(raw)) == Ok::<ConfigView, ErrorView>(
            ConfigView {
                env: config_of_lines(lines)->Ok_0.env.push((name, text)),
                ..config_of_lines(lines)->Ok_0
            },
        ),
{
    lemma_keys_differ();
    lemma_one_more_line(lines, raw);
    let none = Seq::<char>::empty();
    assert(!is_white('='));
    lemma_padded(none, name, after, '=');
    assert(padded(none, name, after) =~= name + after);
    law_split_at_the_first(name + after, '=', text);
    law_trim_takes_the_margin(none, name, after);
    let value = name + after + seq!['='] + text;
    let p = after_lines(lines, lines.len())->Ok_0;
    assert(split_at_first(value, '=') == Some((name + after, text)));
    assert(trimmed(name + after) == name);
}

/// A profile at the end of a config fills in the network, the base, the time limit
/// and the memory limit where no line has set them; and it changes nothing else.
pub proof fn law_profiles_fill_in(lines: Seq<Seq<char>>, raw: Seq<char>, name: Seq<char>)
    requires
        config_of_lines(lines) is Ok,
        line_meaning(raw) == Line::Entry("profile"@, name),
        name == "strict"@ || name == "build"@,
    ensures
        ({
            let c = config_of_lines(lines)->Ok_0;
            let n = lines.len();
            let set = |key: Seq<char>| crate::config_laws::last_value(lines, n, key) is Some;
            let strict = name == "strict"@;
            config_of_lines(lines.push(raw)) matches Ok(d) && {
                &&& d.hostname == c.hostname && d.cwd == c.cwd && d.argv == c.argv
                &&& d.env == c.env && d.mounts == c.mounts && d.pids_max == c.pids_max
                &&& d.isolate_net == (if set("net"@) {
                    c.isolate_net
                } else {
                    true
                })
                &&& d.readonly == (if set("readonly"@) {
                    c.readonly
                } else {
                    strict
                })
                &&& d.timeout_ms == (if set("timeout"@) {
                    c.timeout_ms
                } else if strict {
                    Some(5000u64)
                } else {
                    Some(300_000u64)
                })
                &&& d.memory_max == (if set("memory_max"@) {
                    c.memory_max
                } else if strict {
                    Some(134_217_728u64)
                } else {
                    Some(1_073_741_824u64)
                })
            }
        }),
{
    lemma_keys_differ();
    lemma_one_more_line(lines, raw);
    lemma_matches_lines(lines, lines.len());
}

/// A config of one line that sets the argv has everything else at its default.
pub proof fn law_defaults(raw: Seq<char>, value: Seq<char>)
    requires
        line_meaning(raw) == Line::Entry("argv"@, value),
        arguments(value) matches Some(argv) && argv.len() > 0,
    ensures
        config_of_lines(seq![raw]) == Ok::<ConfigView, ErrorView>(
            ConfigView {
                hostname: "cocoon"@,
                cwd: "/"@,
                argv: arguments(value)->0,
                env: Seq::empty(),
                isolate_net: false,
                readonly: false,
                memory_max: None,
                pids_max: None,
                timeout_ms: None,
                mounts: Seq::empty(),
            },
        ),
{
    lemma_keys_differ();
    lemma_one_more_line(Seq::empty(), raw);
    assert(Seq::<Seq<char>>::empty().push(raw) =~= seq![raw]);
}

/// The first line that is wrong is what a config is refused for, by its number and
/// what is wrong with it, however many lines follow.
#[verifier::rlimit(40)]
pub proof fn law_the_first_fault_counts(
    lines: Seq<Seq<char>>,
    k: int,
    key: Seq<char>,
    value: Seq<char>,
)
    requires
        0 <= k < lines.len(),
        after_lines(lines, k as nat) is Ok,
    ensures
        ({
            let read = config_of_lines(lines);
            let refused = |what: Seq<char>| read == Err::<ConfigView, ErrorView>(
                fault((k + 1) as nat, what),
            );
            let says = |name: Seq<char>| line_meaning(lines[k]) == Line::Entry(name, value);
            &&& line_meaning(lines[k]) is Malformed ==> refused("expected 'key = value'"@)
            &&& says("argv"@) && arguments(value) is None ==> refused(
                "unterminated quote in argv"@,
            )
            &&& says("env"@) && !value.contains('=') ==> refused("env must be KEY=VALUE"@)
            &&& says("net"@) && value != "host"@ && value != "isolated"@ ==> refused(
                "net must be 'host' or 'isolated', got '"@ + value + "'"@,
            )
            &&& says("readonly"@) && value != "true"@ && value != "false"@ ==> refused(
                "readonly must be 'true' or 'false', got '"@ + value + "'"@,
            )
            &&& says("memory_max"@) && unsigned_value(value) is None ==> refused(
                "memory_max must be a non-negative integer"@,
            )
            &&& says("pids_max"@) && unsigned_value(value) is None ==> refused(
                "pids_max must be a non-negative integer"@,
            )
            &&& says("timeout"@) && timeout_millis(value) is None ==> refused(
                "timeout must be like '5s', '500ms', '2m', or a number of seconds"@,
            )
            &&& says("mount"@) && (mount_entry(value, (k + 1) as nat) is Err) ==> read == Err::<
                ConfigView,
                ErrorView,
            >(mount_entry(value, (k + 1) as nat)->Err_0)
            &&& says("profile"@) && value != "strict"@ && value != "build"@ ==> refused(
                "profile must be 'strict' or 'build', got '"@ + value + "'"@,
            )
            &&& line_meaning(lines[k]) == Line::Entry(key, value) && key != "hostname"@ && key
                != "cwd"@ && key != "argv"@ && key != "env"@ && key != "net"@ && key
                != "readonly"@ && key != "memory_max"@ && key != "pids_max"@ && key != "timeout"@
                && key != "mount"@ && key != "profile"@ ==> refused(
                "unknown key '"@ + key + "'"@,
            )
        }),
{
    lemma_keys_differ();
    let n = (k + 1) as nat;
    if after_lines(lines, n) is Err {
        lemma_stays_wrong(lines, n, lines.len());
    }
    if !value.contains('=') {
        law_split_at_the_first(value, '=', Seq::empty());
    }
    reveal_strlit("memory_max");
    reveal_strlit("pids_max");
    reveal_strlit(" must be a non-negative integer");
    reveal_strlit("memory_max must be a non-negative integer");
    reveal_strlit("pids_max must be a non-negative integer");
    assert("memory_max"@ + " must be a non-negative integer"@
        =~= "memory_max must be a non-negative integer"@);
    assert("pids_max"@ + " must be a non-negative integer"@
        =~= "pids_max must be a non-negative integer"@);
}

/// Once the reading has failed, further lines change nothing.
proof fn lemma_stays_wrong(lines: Seq<Seq<char>>, m: nat, n: nat)
    requires
        m <= n,
        after_lines(lines, m) is Err,
    ensures
        after_lines(lines, n) == after_lines(lines, m),
    decreases n - m,
{
    if m < n {
        lemma_stays_wrong(lines, m, (n - 1) as nat);
    }
}

/// A config whose lines are all right is refused only if it names no command.
pub proof fn law_a_config_needs_a_command(lines: Seq<Seq<char>>)
    requires
        after_lines(lines, lines.len()) is Ok,
    ensures
        ({
            let last = crate::config_laws::last_value(lines, lines.len(), "argv"@);
            let none = last is None || arguments(last->0) == Some(Seq::<Seq<char>>::empty());
            &&& none ==> config_of_lines(lines) == Err::<ConfigView, ErrorView>(
                ErrorView::Config("config must set a non-empty 'argv'"@),
            )
            &&& !none ==> config_of_lines(lines) is Ok
        }),
{
    lemma_matches_lines(lines, lines.len());
    let p = after_lines(lines, lines.len())->Ok_0;
    if p.config.argv.len() == 0 {
        assert(p.config.argv =~= Seq::<Seq<char>>::empty());
    }
}

/// A line at the end of a text whose last line is ended is one more line of it.
pub proof fn law_text_grows_by_lines(text: Seq<char>, line: Seq<char>)
    requires
        text.len() == 0 || text[text.len() - 1] == '\n',
        line.len() > 0,
        !line.contains('\n'),
    ensures
        text_lines(text + line) == text_lines(text).push(line),
        config_of(text + line) == config_of_lines(text_lines(text).push(line)),
    decreases text.len(),
{
    law_lines_of_a_text(line, Seq::empty());
    if text.len() == 0 {
        assert(text + line =~= line);
        assert(text =~= Seq::<char>::empty());
        assert(text_lines(text) =~= Seq::<Seq<char>>::empty());
        assert(text_lines(text).push(line) =~= seq![line]);
    } else {
        let p = crate::text::position(text, '\n');
        crate::text::lemma_position(text, '\n');
        assert(p < text.len()) by {
            if p == text.len() {
                assert(text[text.len() - 1] != '\n');
            }
        }
        let rest = text.skip(p + 1);
        let whole = text + line;
        crate::text::lemma_position_is(whole, '\n', p);
        assert(whole.take(p) =~= text.take(p));
        assert(whole.skip(p + 1) =~= rest + line);
        assert(rest.len() == 0 || rest[rest.len() - 1] == '\n') by {
            if rest.len() > 0 {
                assert(rest[rest.len() - 1] == text[text.len() - 1]);
            }
        }
        law_text_grows_by_lines(rest, line);
        assert(text_lines(whole) =~= text_lines(text).push(line));
    }
}

/// A mount line at the end of a config file adds the mount that it spells: from its
/// source, at its target, and read-only exactly if it says `ro`.
pub proof fn law_mount_lines(
    text: Seq<char>,
    source: Seq<char>,
    target: Seq<char>,
    readonly: bool,
)
    requires
        config_of(text) is Ok,
        text[text.len() - 1] == '\n',
        source.len() > 0 && source[0] == '/' && has_no_margin(source),
        target.len() > 0 && target[0] == '/' && has_no_margin(target),
        !source.contains(':') && !source.contains('#') && !source.contains('\n'),
        !target.contains(':') && !target.contains('#') && !target.contains('\n'),
    ensures
        config_of(
            text + ("mount = "@ + source + ":"@ + target + (if readonly {
                ":ro"@
            } else {
                ":rw"@
            })),
        ) == Ok::<ConfigView, ErrorView>(
            ConfigView {
                mounts: config_of(text)->Ok_0.mounts.push(MountView { source, target, readonly }),
                ..config_of(text)->Ok_0
            },
        ),
{
    reveal_strlit("mount = ");
    reveal_strlit("mount");
    reveal_strlit(":");
    reveal_strlit(":ro");
    reveal_strlit(":rw");
    reveal_strlit("ro");
    reveal_strlit("rw");
    let flag = if readonly {
        "ro"@
    } else {
        "rw"@
    };
    let tail = if readonly {
        ":ro"@
    } else {
        ":rw"@
    };
    assert(tail =~= seq![':'] + flag);
    let none = Seq::<char>::empty();
    let space = seq![' '];
    let value = source + seq![':'] + (target + seq![':'] + flag);
    let line = "mount = "@ + source + ":"@ + target + tail;
    assert(is_white(' ') && !is_white('m') && !is_white('t') && !is_white('o') && !is_white('w'));
    assert(is_blank(space) && is_blank(none));
    lemma_holds_no(source, target, flag, '#');
    lemma_holds_no(source, target, flag, '\n');
    assert(value[0] == source[0]);
    assert(value[value.len() - 1] == flag[1]);
    assert(!"mount"@.contains('=') && !"mount"@.contains('#'));
    law_lines_say_key_and_value("mount"@, value, seq![none, space, space, none]);
    assert(line =~= padded(none, "mount"@, space) + seq!['='] + padded(space, value, none));
    let blanks = seq![none, none, none, none, none, none];
    law_mount_values(source, target, flag, blanks, text_lines(text).len() + 1);
    assert(padded(none, source, none) =~= source);
    assert(padded(none, target, none) =~= target);
    assert(padded(none, flag, none) =~= flag);
    assert(!line.contains('\n')) by {
        if line.contains('\n') {
            let i = choose|i: int| 0 <= i < line.len() && line[i] == '\n';
            if i >= 8 {
                assert(line[i] == value[i - 8]);
                assert(value.contains('\n'));
            }
        }
    }
    assert(text.len() > 0) by {
        if text.len() == 0 {
            assert(text =~= none);
            law_lines_of_a_text(none, none);
        }
    }
    law_text_grows_by_lines(text, line);
    law_one_more_line(text_lines(text), line, "mount"@, value);
}

/// What the parts of a mount value do not hold, the value does not.
proof fn lemma_holds_no(source: Seq<char>, target: Seq<char>, flag: Seq<char>, c: char)
    requires
        !source.contains(c),
        !target.contains(c),
        !flag.contains(c),
        c != ':',
    ensures
        !(source + seq![':'] + (target + seq![':'] + flag)).contains(c),
{
    let value = source + seq![':'] + (target + seq![':'] + flag);
    if value.contains(c) {
        let i = choose|i: int| 0 <= i < value.len() && value[i] == c;
        let n = source.len() as int;
        let m = target.len() as int;
        if i < n {
            assert(source[i] == c);
        } else if n < i <= n + m {
            assert(target[i - n - 1] == c);
        } else if i > n + m + 1 {
            assert(flag[i - n - m - 2] == c);
        }
    }
}

} // verus!
