//! What holds of every command line, in a config file and out of it.
use crate::config::{
    after_lines, arguments, arguments_from, comment_at, comment_index, config_of, default_config,
    extended, line_meaning, quote_state, sets_argv, starts_comment, uncommented, ConfigView, Line,
};
use crate::config_laws::{lemma_comment_index, lemma_keys_differ, lemma_quoteless};
use crate::error::ErrorView;
use crate::text::{
    is_white, lemma_position, lemma_position_is, position, split_at_first, text_lines, trim_end,
    trim_start, trimmed,
};
use vstd::prelude::*;

verus! {

/// `arg` with a backslash before every double quote and every backslash.
pub open spec fn escaped(arg: Seq<char>) -> Seq<char>
    decreases arg.len(),
{
    if arg.len() == 0 {
        Seq::empty()
    } else if arg[0] == '"' || arg[0] == '\\' {
        seq!['\\', arg[0]] + escaped(arg.drop_first())
    } else {
        seq![arg[0]] + escaped(arg.drop_first())
    }
}

/// `arg` between double quotes.
pub open spec fn quoted(arg: Seq<char>) -> Seq<char> {
    seq!['"'] + escaped(arg) + seq!['"']
}

/// A command line that spells out `args`: each between quotes, then a space.
pub open spec fn command_line(args: Seq<Seq<char>>) -> Seq<char>
    decreases args.len(),
{
    if args.len() == 0 {
        Seq::empty()
    } else {
        quoted(args[0]) + seq![' '] + command_line(args.drop_first())
    }
}

/// Every list of arguments can be written as a command line, and splitting that
/// line gives the arguments back: whatever characters they hold, empty ones too.
pub proof fn law_quoted_arguments_round_trip(args: Seq<Seq<char>>)
    ensures
        arguments(command_line(args)) == Some(args),
    decreases args.len(),
{
    let line = command_line(args);
    if args.len() > 0 {
        let later = command_line(args.drop_first());
        let tail = seq![' '] + later;
        let rest = seq!['"'] + tail;
        assert(line =~= seq!['"'] + (escaped(args[0]) + rest));
        assert(line.drop_first() =~= escaped(args[0]) + rest);
        lemma_escaped_reads_back(args[0], rest, Seq::empty());
        assert(Seq::<char>::empty() + args[0] =~= args[0]);
        assert(rest.drop_first() =~= tail);
        assert(tail.drop_first() =~= later);
        assert(is_white(' '));
        law_quoted_arguments_round_trip(args.drop_first());
        assert(arguments_from(tail, false, Some(args[0])) == Some(
            seq![args[0]] + args.drop_first(),
        ));
        assert(seq![args[0]] + args.drop_first() =~= args);
    } else {
        assert(args =~= Seq::<Seq<char>>::empty());
    }
}

/// Between quotes, an escaped text is read as the text.
proof fn lemma_escaped_reads_back(arg: Seq<char>, rest: Seq<char>, token: Seq<char>)
    ensures
        arguments_from(escaped(arg) + rest, true, Some(token)) == arguments_from(
            rest,
            true,
            Some(token + arg),
        ),
    decreases arg.len(),
{
    if arg.len() == 0 {
        assert(escaped(arg) + rest =~= rest);
        assert(token + arg =~= token);
    } else {
        let s = escaped(arg) + rest;
        let later = escaped(arg.drop_first()) + rest;
        lemma_escaped_reads_back(arg.drop_first(), rest, token.push(arg[0]));
        assert(token.push(arg[0]) + arg.drop_first() =~= token + arg);
        if arg[0] == '"' || arg[0] == '\\' {
            assert(s.skip(2) =~= later);
            assert(s[0] == '\\' && s[1] == arg[0]);
        } else {
            assert(s.drop_first() =~= later);
            assert(s[0] == arg[0]);
        }
    }
}

/// A text between quotes, as the quotes of a line see it: it opens and closes
/// them, and no comment starts in it, whatever characters it holds.
proof fn lemma_quoted_is_kept(before: Seq<char>, arg: Seq<char>, k: int)
    requires
        quote_state(before, true) == (false, false),
        0 <= k <= escaped(arg).len(),
    ensures
        quote_state(before + seq!['"'] + escaped(arg).take(k), true).0,
        quote_state(before + quoted(arg), true) == (false, false),
{
    let open = before.push('"');
    assert(open.drop_last() =~= before);
    assert(quote_state(open, true) == (true, false));
    lemma_escaped_stays_open(open, arg);
    assert(before + seq!['"'] + escaped(arg).take(k) =~= open + escaped(arg).take(k));
    let inside = open + escaped(arg);
    assert(open + escaped(arg).take(escaped(arg).len() as int) =~= inside);
    assert((before + quoted(arg)).drop_last() =~= inside);
    assert((before + quoted(arg)).last() == '"');
}

/// Between quotes, an escaped text leaves them open, wherever it is cut, and none
/// of its characters is left to escape at its end.
proof fn lemma_escaped_stays_open(open: Seq<char>, arg: Seq<char>)
    requires
        quote_state(open, true) == (true, false),
    ensures
        quote_state(open + escaped(arg), true) == (true, false),
        forall|k: int|
            0 <= k <= escaped(arg).len() ==> quote_state(
                #[trigger] (open + escaped(arg).take(k)),
                true,
            ).0,
    decreases arg.len(),
{
    let e = escaped(arg);
    if arg.len() == 0 {
        assert(open + e =~= open);
        assert forall|k: int| 0 <= k <= e.len() implies quote_state(
            #[trigger] (open + e.take(k)),
            true,
        ).0 by {
            assert(open + e.take(k) =~= open);
        }
    } else {
        let rest = escaped(arg.drop_first());
        let special = arg[0] == '"' || arg[0] == '\\';
        let one = open.push(e[0]);
        let next = if special {
            one.push(e[1])
        } else {
            one
        };
        assert(one.drop_last() =~= open);
        assert(quote_state(one, true) == (true, special));
        if special {
            assert(next.drop_last() =~= one);
        }
        assert(quote_state(next, true) == (true, false));
        lemma_escaped_stays_open(next, arg.drop_first());
        assert(open + e =~= next + rest);
        let m: int = if special {
            2
        } else {
            1
        };
        assert forall|k: int| 0 <= k <= e.len() implies quote_state(
            #[trigger] (open + e.take(k)),
            true,
        ).0 by {
            if k == 0 {
                assert(open + e.take(k) =~= open);
            } else if k < m {
                assert(open + e.take(k) =~= one);
            } else {
                assert(open + e.take(k) =~= next + rest.take(k - m));
            }
        }
    }
}

/// No comment starts in a command line of quoted arguments, after any text that
/// leaves no quote open and holds no comment itself.
proof fn lemma_command_line_is_kept(before: Seq<char>, args: Seq<Seq<char>>)
    requires
        quote_state(before, true) == (false, false),
        forall|i: int| 0 <= i < before.len() ==> !comment_at(before, i, true),
    ensures
        ({
            let line = before + command_line(args);
            forall|i: int| 0 <= i < line.len() ==> !comment_at(line, i, true)
        }),
    decreases args.len(),
{
    let line = before + command_line(args);
    if args.len() == 0 {
        assert(line =~= before);
    } else {
        let q = quoted(args[0]);
        let e = escaped(args[0]);
        let next = before + q + seq![' '];
        lemma_quoted_is_kept(before, args[0], 0);
        assert(next.drop_last() =~= before + q);
        assert(next.last() == ' ');
        assert(quote_state(next, true) == (false, false));
        assert forall|i: int| 0 <= i < next.len() implies !comment_at(next, i, true) by {
            let n = before.len() as int;
            if i < n {
                assert(next.take(i) =~= before.take(i));
                assert(!comment_at(before, i, true));
            } else if n < i <= n + e.len() {
                lemma_quoted_is_kept(before, args[0], i - n - 1);
                assert(next.take(i) =~= before + seq!['"'] + e.take(i - n - 1));
            }
        }
        lemma_command_line_is_kept(next, args.drop_first());
        assert(next + command_line(args.drop_first()) =~= line);
    }
}

/// What a comment takes for an open quote, the arguments take for one, too: after a
/// text that leaves `quoted` open or closed, the rest leaves a quote open if and only
/// if it yields no arguments.
proof fn lemma_quotes_agree(before: Seq<char>, s: Seq<char>, quoted: bool, token: Option<Seq<char>>)
    requires
        quote_state(before, true) == (quoted, false),
    ensures
        arguments_from(s, quoted, token) is None <==> quote_state(before + s, true).0,
    decreases s.len(),
{
    if s.len() == 0 {
        assert(before + s =~= before);
    } else {
        let first = before.push(s[0]);
        assert(first.drop_last() =~= before);
        if s[0] == '"' {
            assert(first + s.drop_first() =~= before + s);
            let grown = match token {
                Some(t) => Some(t),
                None => Some(Seq::empty()),
            };
            lemma_quotes_agree(first, s.drop_first(), !quoted, grown);
        } else if s[0] == '\\' && quoted {
            if s.len() == 1 {
                assert(first =~= before + s);
            } else {
                let second = first.push(s[1]);
                assert(second.drop_last() =~= first);
                assert(quote_state(first, true) == (true, true));
                assert(second + s.skip(2) =~= before + s);
                lemma_quotes_agree(second, s.skip(2), true, extended(token, s[1]));
            }
        } else {
            assert(first + s.drop_first() =~= before + s);
            if is_white(s[0]) && !quoted {
                lemma_quotes_agree(first, s.drop_first(), false, None);
            } else {
                lemma_quotes_agree(first, s.drop_first(), quoted, extended(token, s[0]));
            }
        }
    }
}

/// Comments and arguments agree on quotes: in a line that sets the argv, a comment
/// starts only where the line up to it leaves no quote open, as the arguments read
/// quotes. So no `#` inside a quoted argument starts one, whatever stands before it.
pub proof fn law_comments_respect_quotes(line: Seq<char>, i: int)
    requires
        sets_argv(line),
        starts_comment(line, i),
    ensures
        arguments(line.take(i)) is Some,
{
    let head = line.take(i);
    let none = Seq::<char>::empty();
    lemma_quotes_agree(none, head, false, None);
    assert(none + head =~= head);
}

/// In any other line every double quote opens or closes: a comment starts at a `#`,
/// at the start or after white space, with an even number of quotes before it.
pub proof fn law_other_lines_have_bare_quotes(line: Seq<char>, i: int)
    requires
        !sets_argv(line),
        0 <= i < line.len(),
    ensures
        starts_comment(line, i) <==> line[i] == '#' && (i == 0 || is_white(line[i - 1]))
            && line.take(i).filter(|c: char| c == '"').len() % 2 == 0,
{
    lemma_bare_quotes(line.take(i));
}

/// Without escapes, a quote is open after an odd number of them.
proof fn lemma_bare_quotes(s: Seq<char>)
    ensures
        quote_state(s, false) == (s.filter(|c: char| c == '"').len() % 2 == 1, false),
    decreases s.len(),
{
    reveal(Seq::filter);
    if s.len() > 0 {
        lemma_bare_quotes(s.drop_last());
    }
}

/// The line whose quotes are read as those of arguments is the one whose value is
/// read as arguments: the one with the key `argv`, once its comment is cut off.
pub proof fn law_argv_lines(raw: Seq<char>)
    ensures
        sets_argv(raw) <==> (line_meaning(raw) matches Line::Entry(key, _) && key == "argv"@),
{
    let n = comment_index(raw, 0);
    let p = position(raw, '=');
    let u = uncommented(raw);
    lemma_comment_bounds(raw, 0);
    lemma_position(raw, '=');
    if p < n {
        lemma_position_is(u, '=', p);
        assert(u.take(p) =~= raw.take(p));
        lemma_key_of_trimmed(u);
    } else {
        lemma_position_is(u, '=', n);
        lemma_nothing_to_split(u);
        if p < raw.len() && sets_argv(raw) {
            let key = raw.take(p);
            assert(key[n] == '#');
            assert(!is_white('#'));
            lemma_trim_keeps(key, n);
            reveal_strlit("argv");
            assert(!"argv"@.contains('#'));
        }
    }
}

/// A comment, if there is one, starts with a `#`.
proof fn lemma_comment_bounds(line: Seq<char>, i: int)
    requires
        0 <= i <= line.len(),
    ensures
        i <= comment_index(line, i) <= line.len(),
        comment_index(line, i) < line.len() ==> line[comment_index(line, i)] == '#',
    decreases line.len() - i,
{
    if i < line.len() && !starts_comment(line, i) {
        lemma_comment_bounds(line, i + 1);
    }
}

/// Trimming keeps what is not white space.
proof fn lemma_trim_keeps(s: Seq<char>, i: int)
    requires
        0 <= i < s.len(),
        !is_white(s[i]),
    ensures
        trimmed(s).contains(s[i]),
    decreases s.len(),
{
    if is_white(s[0]) {
        assert(s.drop_first()[i - 1] == s[i]);
        lemma_trim_keeps(s.drop_first(), i - 1);
    } else {
        lemma_trim_end_keeps(s, i);
    }
}

/// Trimming the end keeps what is not white space.
proof fn lemma_trim_end_keeps(s: Seq<char>, i: int)
    requires
        0 <= i < s.len(),
        !is_white(s[i]),
    ensures
        trim_end(s).contains(s[i]),
    decreases s.len(),
{
    if is_white(s.last()) {
        assert(s.drop_last()[i] == s[i]);
        lemma_trim_end_keeps(s.drop_last(), i);
    } else {
        assert(s[i] == trim_end(s)[i]);
    }
}

/// The key of a line is the same whether white space is cut off before or after the
/// line is split.
proof fn lemma_key_of_trimmed(s: Seq<char>)
    requires
        position(s, '=') < s.len(),
    ensures
        split_at_first(trimmed(s), '=') matches Some((key, _)) && trimmed(key) == trimmed(
            s.take(position(s, '=')),
        ),
        trimmed(s).len() > 0,
    decreases s.len(),
{
    let p = position(s, '=');
    lemma_position(s, '=');
    assert(!is_white('='));
    if is_white(s[0]) {
        let rest = s.drop_first();
        lemma_key_of_trimmed(rest);
        assert(s.take(p).drop_first() =~= rest.take(p - 1));
    } else {
        lemma_key_of_trimmed_end(s);
    }
}

/// Cutting white space off the end of a line leaves its key as it is.
proof fn lemma_key_of_trimmed_end(s: Seq<char>)
    requires
        position(s, '=') < s.len(),
    ensures
        position(trim_end(s), '=') == position(s, '='),
        position(s, '=') < trim_end(s).len(),
        trim_end(s).take(position(s, '=')) == s.take(position(s, '=')),
    decreases s.len(),
{
    let p = position(s, '=');
    lemma_position(s, '=');
    assert(!is_white('='));
    if is_white(s.last()) {
        let rest = s.drop_last();
        lemma_position_is(rest, '=', p);
        lemma_key_of_trimmed_end(rest);
        assert(rest.take(p) =~= s.take(p));
    }
}

/// Where there is nothing to split at, there is nothing after trimming.
proof fn lemma_nothing_to_split(s: Seq<char>)
    requires
        position(s, '=') == s.len(),
    ensures
        split_at_first(trimmed(s), '=') is None,
    decreases s.len(),
{
    lemma_position(s, '=');
    if s.len() > 0 && is_white(s[0]) {
        lemma_nothing_to_split(s.drop_first());
    } else {
        lemma_nothing_to_split_before_the_end(s);
    }
}

/// Where there is nothing to split at, there is nothing after trimming the end.
proof fn lemma_nothing_to_split_before_the_end(s: Seq<char>)
    requires
        position(s, '=') == s.len(),
    ensures
        split_at_first(trim_end(s), '=') is None,
    decreases s.len(),
{
    lemma_position(s, '=');
    if s.len() > 0 && is_white(s.last()) {
        lemma_position_is(s.drop_last(), '=', s.len() - 1);
        lemma_nothing_to_split_before_the_end(s.drop_last());
    }
}

/// The config line that sets the command to these arguments, each between quotes.
pub open spec fn argv_line(args: Seq<Seq<char>>) -> Seq<char> {
    "argv = "@ + command_line(args)
}

/// A `#` inside a quoted argv is kept, whatever else stands there: nothing of a
/// line that sets the command to quoted arguments is a comment.
pub proof fn law_quoted_hash_is_kept(args: Seq<Seq<char>>)
    ensures
        uncommented(argv_line(args)) == argv_line(args),
{
    let head = "argv = "@;
    let line = argv_line(args);
    reveal_strlit("argv = ");
    lemma_plain_head();
    lemma_argv_line(args);
    assert forall|i: int| 0 <= i < head.len() implies !comment_at(head, i, true) by {}
    lemma_command_line_is_kept(head, args);
    lemma_comment_index(line, 0, line.len() as int);
    assert(line.take(line.len() as int) =~= line);
}

/// A space after a command line changes nothing.
proof fn lemma_trailing_space(s: Seq<char>, quoted: bool, token: Option<Seq<char>>)
    requires
        arguments_from(s.push(' '), quoted, token) is Some,
    ensures
        arguments_from(s, quoted, token) == arguments_from(s.push(' '), quoted, token),
    decreases s.len(),
{
    let t = s.push(' ');
    assert(is_white(' '));
    if s.len() == 0 {
        assert(t.drop_first() =~= Seq::<char>::empty());
        assert(arguments_from(t.drop_first(), quoted, None) == if quoted {
            None
        } else {
            Some(Seq::<Seq<char>>::empty())
        });
        if let Some(word) = token {
            assert(seq![word] + Seq::<Seq<char>>::empty() =~= seq![word]);
        }
        if quoted {
            assert(arguments_from(t.drop_first(), true, extended(token, ' ')) is None);
        }
    } else {
        assert(t[0] == s[0]);
        assert(t.drop_first() =~= s.drop_first().push(' '));
        if s[0] == '"' {
            let grown = match token {
                Some(w) => Some(w),
                None => Some(Seq::empty()),
            };
            lemma_trailing_space(s.drop_first(), !quoted, grown);
        } else if s[0] == '\\' && quoted {
            if s.len() == 1 {
                assert(t.skip(2) =~= Seq::<char>::empty());
                assert(arguments_from(t.skip(2), true, extended(token, t[1])) is None);
            } else {
                assert(t.skip(2) =~= s.skip(2).push(' '));
                assert(t[1] == s[1]);
                lemma_trailing_space(s.skip(2), true, extended(token, s[1]));
            }
        } else if is_white(s[0]) && !quoted {
            lemma_trailing_space(s.drop_first(), false, None);
        } else {
            lemma_trailing_space(s.drop_first(), quoted, extended(token, s[0]));
        }
    }
}

/// A command line of at least one argument starts with a quote and ends with a
/// quote and a space.
proof fn lemma_command_line_ends(args: Seq<Seq<char>>)
    requires
        args.len() > 0,
    ensures
        command_line(args).len() >= 3,
        command_line(args)[0] == '"',
        command_line(args).last() == ' ',
        command_line(args).drop_last().last() == '"',
    decreases args.len(),
{
    let line = command_line(args);
    let rest = command_line(args.drop_first());
    let q = quoted(args[0]);
    assert(line[0] == q[0]);
    if args.len() > 1 {
        lemma_command_line_ends(args.drop_first());
        assert(line.last() == rest.last());
        assert(line.drop_last().last() == rest.drop_last().last());
    } else {
        assert(rest =~= Seq::<char>::empty());
        assert(line =~= q + seq![' ']);
        assert(line.drop_last() =~= q);
    }
}

/// Escaping adds no line feed.
proof fn lemma_escaped_is_one_line(arg: Seq<char>)
    requires
        !arg.contains('\n'),
    ensures
        forall|i: int| 0 <= i < escaped(arg).len() ==> escaped(arg)[i] != '\n',
    decreases arg.len(),
{
    if arg.len() > 0 {
        let rest = arg.drop_first();
        assert(arg.contains(arg[0]));
        assert(!rest.contains('\n')) by {
            if rest.contains('\n') {
                let i = choose|i: int| 0 <= i < rest.len() && rest[i] == '\n';
                assert(arg[i + 1] == '\n');
            }
        }
        lemma_escaped_is_one_line(rest);
        let e = escaped(arg);
        let m = e.len() - escaped(rest).len();
        assert forall|i: int| 0 <= i < e.len() implies e[i] != '\n' by {
            if i >= m {
                assert(e[i] == escaped(rest)[i - m]);
            }
        }
    }
}

/// A command line holds no line feed that its arguments do not hold.
proof fn lemma_command_line_is_one_line(args: Seq<Seq<char>>)
    requires
        forall|i: int| 0 <= i < args.len() ==> !(#[trigger] args[i]).contains('\n'),
    ensures
        forall|i: int| 0 <= i < command_line(args).len() ==> command_line(args)[i] != '\n',
    decreases args.len(),
{
    if args.len() > 0 {
        let rest = args.drop_first();
        assert forall|i: int| 0 <= i < rest.len() implies !(#[trigger] rest[i]).contains(
            '\n',
        ) by {
            assert(!args[i + 1].contains('\n'));
        }
        lemma_command_line_is_one_line(rest);
        assert(!args[0].contains('\n'));
        lemma_escaped_is_one_line(args[0]);
        let line = command_line(args);
        let e = escaped(args[0]);
        assert forall|i: int| 0 <= i < line.len() implies line[i] != '\n' by {
            if 1 <= i <= e.len() {
                assert(line[i] == e[i - 1]);
            } else if i >= e.len() + 3 {
                assert(line[i] == command_line(rest)[i - e.len() - 3]);
            }
        }
    }
}

/// Any command can be set: a config of the one line that spells out its
/// arguments, each between quotes, is the default with these arguments, whatever
/// characters but line feeds they hold.
pub proof fn law_any_command_can_be_set(args: Seq<Seq<char>>)
    requires
        args.len() > 0,
        forall|i: int| 0 <= i < args.len() ==> !(#[trigger] args[i]).contains('\n'),
    ensures
        config_of(argv_line(args)) == Ok::<ConfigView, ErrorView>(
            ConfigView { argv: args, ..default_config() },
        ),
{
    let line = argv_line(args);
    let command = command_line(args);
    let core = command.drop_last();
    reveal_strlit("argv = ");
    reveal_strlit("argv");
    let head = "argv = "@;
    assert(head =~= seq!['a', 'r', 'g', 'v', ' ', '=', ' ']);
    assert("argv"@ =~= seq!['a', 'r', 'g', 'v']);
    lemma_command_line_ends(args);
    lemma_command_line_is_one_line(args);
    law_quoted_hash_is_kept(args);
    law_quoted_arguments_round_trip(args);
    // The text is one line.
    assert forall|i: int| 0 <= i < line.len() implies line[i] != '\n' by {
        if i >= 7 {
            assert(line[i] == command[i - 7]);
        }
    }
    lemma_position_is(line, '\n', line.len() as int);
    let all = text_lines(line);
    assert(all =~= seq![line]);
    // Trimming takes the last space.
    let kept = line.drop_last();
    assert(kept =~= head + core);
    assert(kept.last() == core.last());
    assert(is_white(' ') && !is_white('"') && !is_white('a') && !is_white('v'));
    assert(trim_start(line) == line);
    assert(line.last() == ' ');
    assert(trim_end(line) == trim_end(kept));
    assert(trim_end(kept) == kept);
    // It splits at the first equals sign.
    lemma_position_is(kept, '=', 5);
    let key = kept.take(5);
    let value = kept.skip(6);
    assert(key =~= "argv"@.push(' '));
    assert(key.drop_last() =~= "argv"@);
    assert(trim_start(key) == key);
    assert(trim_end("argv"@) == "argv"@);
    assert(trimmed(key) == "argv"@);
    assert(value =~= seq![' '] + core);
    assert(value.drop_first() =~= core);
    assert(core[0] == command[0]);
    assert(trim_start(core) == core);
    assert(trim_end(core) == core);
    assert(trimmed(value) == core);
    assert(line_meaning(line) == Line::Entry("argv"@, core));
    // The value reads as the arguments.
    assert(core.push(' ') =~= command);
    lemma_trailing_space(core, false, None);
    lemma_keys_differ();
    reveal_with_fuel(after_lines, 2);
    assert(all[0] == line);
    assert(all.len() == 1);
}

/// The line sets the argv.
proof fn lemma_argv_line(args: Seq<Seq<char>>)
    ensures
        sets_argv(argv_line(args)),
{
    let line = argv_line(args);
    reveal_strlit("argv = ");
    reveal_strlit("argv");
    lemma_position_is(line, '=', 5);
    let key = line.take(5);
    assert(key =~= "argv"@.push(' '));
    assert(key.drop_last() =~= "argv"@);
    assert(is_white(' ') && !is_white('a') && !is_white('v'));
    assert(trim_start(key) == key);
    assert(trim_end("argv"@) == "argv"@);
}

/// The start of the line opens no quote.
proof fn lemma_plain_head()
    ensures
        quote_state("argv = "@, true) == (false, false),
{
    reveal_strlit("argv = ");
    lemma_quoteless("argv = "@, true);
}

/// Whether `word` needs no quotes: it is not empty and holds neither white space
/// nor a double quote.
pub open spec fn is_plain_word(word: Seq<char>) -> bool {
    &&& word.len() > 0
    &&& forall|i: int| 0 <= i < word.len() ==> !is_white(#[trigger] word[i]) && word[i] != '"'
}

/// The words with a space after each.
pub open spec fn spaced(words: Seq<Seq<char>>) -> Seq<char>
    decreases words.len(),
{
    if words.len() == 0 {
        Seq::empty()
    } else {
        words[0] + seq![' '] + spaced(words.drop_first())
    }
}

/// Plain words separated by spaces are the arguments as they stand.
pub proof fn law_plain_words_split_at_spaces(words: Seq<Seq<char>>)
    requires
        forall|i: int| 0 <= i < words.len() ==> is_plain_word(#[trigger] words[i]),
    ensures
        arguments(spaced(words)) == Some(words),
    decreases words.len(),
{
    if words.len() > 0 {
        let later = spaced(words.drop_first());
        let tail = seq![' '] + later;
        let word = words[0];
        assert(is_plain_word(word));
        assert(spaced(words) =~= word + tail);
        lemma_plain_word_reads_back(word, tail, None);
        assert(tail.drop_first() =~= later);
        assert forall|i: int| 0 <= i < words.drop_first().len() implies is_plain_word(
            #[trigger] words.drop_first()[i],
        ) by {
            assert(is_plain_word(words[i + 1]));
        }
        law_plain_words_split_at_spaces(words.drop_first());
        assert(is_white(' '));
        assert(arguments_from(tail, false, Some(word)) == Some(
            seq![word] + words.drop_first(),
        ));
        assert(seq![word] + words.drop_first() =~= words);
    } else {
        assert(words =~= Seq::<Seq<char>>::empty());
    }
}

/// Outside quotes, the characters of a plain word join the token being read.
proof fn lemma_plain_word_reads_back(word: Seq<char>, rest: Seq<char>, token: Option<Seq<char>>)
    requires
        is_plain_word(word),
    ensures
        arguments_from(word + rest, false, token) == arguments_from(
            rest,
            false,
            Some(
                match token {
                    Some(t) => t + word,
                    None => word,
                },
            ),
        ),
    decreases word.len(),
{
    let s = word + rest;
    assert(s[0] == word[0]);
    assert(!is_white(word[0]));
    let grown = extended(token, word[0]);
    assert(s.drop_first() =~= word.drop_first() + rest);
    let all = match token {
        Some(t) => t + word,
        None => word,
    };
    if word.len() == 1 {
        assert(s.drop_first() =~= rest);
        assert(grown->0 =~= all);
    } else {
        assert forall|i: int| 0 <= i < word.drop_first().len() implies !is_white(
            #[trigger] word.drop_first()[i],
        ) && word.drop_first()[i] != '"' by {
            assert(!is_white(word[i + 1]));
        }
        lemma_plain_word_reads_back(word.drop_first(), rest, grown);
        assert(grown->0 + word.drop_first() =~= all);
    }
}

/// A piece of an argument: some characters as they are, or some between quotes, each
/// with or without a backslash before it.
pub enum Piece {
    Plain(Seq<char>),
    Quoted(Seq<(bool, char)>),
}

/// Whether characters can stand between quotes: a double quote or a backslash has a
/// backslash before it.
pub open spec fn can_be_quoted(items: Seq<(bool, char)>) -> bool {
    forall|i: int|
        0 <= i < items.len() ==> (#[trigger] items[i]).0 || (items[i].1 != '"' && items[i].1
            != '\\')
}

/// Whether a piece is one: plain characters are neither white space nor a double
/// quote, and those between quotes can stand there.
pub open spec fn is_piece(p: Piece) -> bool {
    match p {
        Piece::Plain(s) => s.len() > 0 && forall|i: int|
            0 <= i < s.len() ==> !is_white(#[trigger] s[i]) && s[i] != '"',
        Piece::Quoted(items) => can_be_quoted(items),
    }
}

/// What stands between the quotes.
pub open spec fn between_quotes(items: Seq<(bool, char)>) -> Seq<char>
    decreases items.len(),
{
    if items.len() == 0 {
        Seq::empty()
    } else {
        (if items[0].0 {
            seq!['\\', items[0].1]
        } else {
            seq![items[0].1]
        }) + between_quotes(items.drop_first())
    }
}

/// How a piece is written.
pub open spec fn piece_text(p: Piece) -> Seq<char> {
    match p {
        Piece::Plain(s) => s,
        Piece::Quoted(items) => seq!['"'] + between_quotes(items) + seq!['"'],
    }
}

/// What a piece stands for.
pub open spec fn piece_meaning(p: Piece) -> Seq<char> {
    match p {
        Piece::Plain(s) => s,
        Piece::Quoted(items) => Seq::new(items.len(), |i: int| items[i].1),
    }
}

/// How pieces are written, one after another.
pub open spec fn pieces_text(pieces: Seq<Piece>) -> Seq<char>
    decreases pieces.len(),
{
    if pieces.len() == 0 {
        Seq::empty()
    } else {
        piece_text(pieces[0]) + pieces_text(pieces.drop_first())
    }
}

/// What pieces stand for, one after another.
pub open spec fn pieces_meaning(pieces: Seq<Piece>) -> Seq<char>
    decreases pieces.len(),
{
    if pieces.len() == 0 {
        Seq::empty()
    } else {
        piece_meaning(pieces[0]) + pieces_meaning(pieces.drop_first())
    }
}

/// Between quotes, each character stands for itself, with or without a backslash.
proof fn lemma_between_quotes(items: Seq<(bool, char)>, rest: Seq<char>, token: Seq<char>)
    requires
        can_be_quoted(items),
    ensures
        arguments_from(between_quotes(items) + rest, true, Some(token)) == arguments_from(
            rest,
            true,
            Some(token + Seq::new(items.len(), |i: int| items[i].1)),
        ),
    decreases items.len(),
{
    let meant = Seq::new(items.len(), |i: int| items[i].1);
    let s = between_quotes(items) + rest;
    if items.len() == 0 {
        assert(s =~= rest);
        assert(token + meant =~= token);
    } else {
        let later = items.drop_first();
        assert(can_be_quoted(later)) by {
            assert forall|i: int| 0 <= i < later.len() implies (#[trigger] later[i]).0 || (
            later[i].1 != '"' && later[i].1 != '\\') by {
                assert(items[i + 1] == later[i]);
            }
        }
        lemma_between_quotes(later, rest, token.push(items[0].1));
        assert(token.push(items[0].1) + Seq::new(later.len(), |i: int| later[i].1) =~= token
            + meant);
        let t = between_quotes(later) + rest;
        if items[0].0 {
            assert(s.skip(2) =~= t);
            assert(s[0] == '\\' && s[1] == items[0].1);
        } else {
            assert(s.drop_first() =~= t);
            assert(s[0] == items[0].1);
            assert(items[0].1 != '"' && items[0].1 != '\\');
        }
    }
}

/// A piece adds what it stands for to the argument being read.
proof fn lemma_piece(p: Piece, rest: Seq<char>, token: Option<Seq<char>>)
    requires
        is_piece(p),
    ensures
        arguments_from(piece_text(p) + rest, false, token) == arguments_from(
            rest,
            false,
            Some(
                match token {
                    Some(t) => t + piece_meaning(p),
                    None => piece_meaning(p),
                },
            ),
        ),
{
    match p {
        Piece::Plain(s) => {
            lemma_plain_word_reads_back(s, rest, token);
        },
        Piece::Quoted(items) => {
            let start = match token {
                Some(t) => t,
                None => Seq::empty(),
            };
            let close = seq!['"'] + rest;
            let s = piece_text(p) + rest;
            assert(s[0] == '"');
            assert(s.drop_first() =~= between_quotes(items) + close);
            lemma_between_quotes(items, close, start);
            assert(close.drop_first() =~= rest);
            assert(Seq::<char>::empty() + piece_meaning(p) =~= piece_meaning(p));
        },
    }
}

/// Pieces without a gap make one argument.
proof fn lemma_pieces(pieces: Seq<Piece>, rest: Seq<char>, token: Option<Seq<char>>)
    requires
        forall|i: int| 0 <= i < pieces.len() ==> is_piece(#[trigger] pieces[i]),
    ensures
        pieces.len() > 0 ==> arguments_from(pieces_text(pieces) + rest, false, token)
            == arguments_from(
            rest,
            false,
            Some(
                match token {
                    Some(t) => t + pieces_meaning(pieces),
                    None => pieces_meaning(pieces),
                },
            ),
        ),
    decreases pieces.len(),
{
    if pieces.len() > 0 {
        let later = pieces.drop_first();
        let tail = pieces_text(later) + rest;
        assert(is_piece(pieces[0]));
        lemma_piece(pieces[0], tail, token);
        assert(pieces_text(pieces) + rest =~= piece_text(pieces[0]) + tail);
        let grown = match token {
            Some(t) => t + piece_meaning(pieces[0]),
            None => piece_meaning(pieces[0]),
        };
        assert forall|i: int| 0 <= i < later.len() implies is_piece(#[trigger] later[i]) by {
            assert(is_piece(pieces[i + 1]));
        }
        lemma_pieces(later, rest, Some(grown));
        let all = match token {
            Some(t) => t + pieces_meaning(pieces),
            None => pieces_meaning(pieces),
        };
        assert(grown + pieces_meaning(later) =~= all);
        if later.len() == 0 {
            assert(tail =~= rest);
            assert(grown =~= all);
        }
    }
}

/// How a command line is read: pieces without a gap make one argument, of what each
/// of them stands for; white space ends it, and the rest of the line is read the same
/// way; and a quote that is not closed leaves no arguments.
pub proof fn law_arguments_are_made_of_pieces(
    pieces: Seq<Piece>,
    gap: char,
    rest: Seq<char>,
    open: Seq<(bool, char)>,
)
    requires
        pieces.len() > 0,
        forall|i: int| 0 <= i < pieces.len() ==> is_piece(#[trigger] pieces[i]),
        is_white(gap),
        can_be_quoted(open),
    ensures
        arguments(pieces_text(pieces)) == Some(seq![pieces_meaning(pieces)]),
        arguments(pieces_text(pieces) + (seq![gap] + rest)) == match arguments(rest) {
            Some(more) => Some(seq![pieces_meaning(pieces)] + more),
            None => None,
        },
        arguments(seq![gap] + rest) == arguments(rest),
        arguments(Seq::empty()) == Some(Seq::<Seq<char>>::empty()),
        arguments(seq!['"'] + between_quotes(open)) is None,
        arguments(pieces_text(pieces) + (seq!['"'] + between_quotes(open))) is None,
{
    let none = Seq::<char>::empty();
    lemma_pieces(pieces, none, None);
    assert(pieces_text(pieces) + none =~= pieces_text(pieces));
    let tail = seq![gap] + rest;
    lemma_pieces(pieces, tail, None);
    assert(tail.drop_first() =~= rest);
    assert(tail[0] == gap);
    assert(gap != '"') by {
        assert(!is_white('"'));
    }
    let unclosed = seq!['"'] + between_quotes(open);
    lemma_pieces(pieces, unclosed, None);
    assert(unclosed.drop_first() =~= between_quotes(open) + none);
    lemma_between_quotes(open, none, none);
    lemma_between_quotes(open, none, pieces_meaning(pieces));
    assert(unclosed[0] == '"');
}

} // verus!
