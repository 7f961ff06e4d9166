//! What holds of text: what the functions on it keep, and how what they give for a
//! longer text follows from what they give for a shorter one.
use crate::text::{
    decimal, is_white, joined, lemma_position_is, split_at_first, split_parts, text_lines,
    trim_end, trimmed, unsigned_value, without_leading, without_prefix, without_suffix,
};
use vstd::arithmetic::power::{lemma_pow0, lemma_pow_positive, pow};
use vstd::prelude::*;

verus! {

/// Whether a text is white space and nothing else.
pub open spec fn is_blank(s: Seq<char>) -> bool {
    forall|i: int| 0 <= i < s.len() ==> is_white(#[trigger] s[i])
}

/// Whether a text has no white space at its ends.
pub open spec fn has_no_margin(s: Seq<char>) -> bool {
    s.len() > 0 ==> !is_white(s[0]) && !is_white(s[s.len() - 1])
}

/// White space, among the characters of ASCII, is the space, the tabs, the ends of line
/// and the end of page; among the others, it is the next-line character and the spaces
/// and separators.
pub proof fn law_white_space(c: char)
    ensures
        (c as u32) < 0x80 ==> (is_white(c) <==> c == ' ' || c == '\t' || c == '\n' || c == '\r' || c
            == '\x0b' || c == '\x0c'),
        (c as u32) >= 0x80 ==> (is_white(c) <==> c == '\u{85}' || c == '\u{a0}' || c == '\u{1680}'
            || ('\u{2000}' <= c && c <= '\u{200a}') || c == '\u{2028}' || c == '\u{2029}' || c
            == '\u{202f}' || c == '\u{205f}' || c == '\u{3000}'),
{
}

/// Trimming takes the white space at both ends, and nothing else.
pub proof fn law_trim_takes_the_margin(before: Seq<char>, s: Seq<char>, after: Seq<char>)
    requires
        is_blank(before),
        is_blank(after),
        has_no_margin(s),
    ensures
        trimmed(before + s + after) == s,
    decreases before.len() + after.len(),
{
    let t = before + s + after;
    if before.len() > 0 {
        let less = before.drop_first();
        assert(is_white(before[0]));
        assert forall|i: int| 0 <= i < less.len() implies is_white(#[trigger] less[i]) by {
            assert(is_white(before[i + 1]));
        }
        assert(t.drop_first() =~= less + s + after);
        law_trim_takes_the_margin(less, s, after);
    } else if s.len() > 0 {
        assert(t[0] == s[0]);
        assert(t =~= s + after);
        lemma_trim_end(s, after);
    } else {
        assert(t =~= after);
        if after.len() > 0 {
            let less = after.drop_first();
            assert(is_white(after[0]));
            assert forall|i: int| 0 <= i < less.len() implies is_white(#[trigger] less[i]) by {
                assert(is_white(after[i + 1]));
            }
            law_trim_takes_the_margin(Seq::empty(), s, less);
            assert(Seq::<char>::empty() + s + less =~= less);
        }
    }
}

/// Trimming the end takes the white space there.
proof fn lemma_trim_end(s: Seq<char>, after: Seq<char>)
    requires
        is_blank(after),
        s.len() > 0,
        !is_white(s.last()),
    ensures
        trim_end(s + after) == s,
    decreases after.len(),
{
    let t = s + after;
    if after.len() > 0 {
        let less = after.drop_last();
        assert(is_white(after[after.len() - 1]));
        assert(t.last() == after.last());
        assert(t.drop_last() =~= s + less);
        lemma_trim_end(s, less);
    } else {
        assert(t =~= s);
    }
}

/// A text splits at the first separator: what stands before it and what stands
/// after it are kept as they are. Where there is none, it does not split.
pub proof fn law_split_at_the_first(a: Seq<char>, c: char, b: Seq<char>)
    requires
        !a.contains(c),
    ensures
        split_at_first(a + seq![c] + b, c) == Some((a, b)),
        split_at_first(a, c) is None,
{
    let s = a + seq![c] + b;
    assert forall|i: int| 0 <= i < a.len() implies a[i] != c by {
        assert(a.contains(a[i]));
    }
    lemma_position_is(s, c, a.len() as int);
    lemma_position_is(a, c, a.len() as int);
    assert(s.take(a.len() as int) =~= a);
    assert(s.skip(a.len() as int + 1) =~= b);
}

/// The parts between separators: the first one, then those of the rest. A text
/// without a separator is its only part.
pub proof fn law_parts(a: Seq<char>, c: char, b: Seq<char>)
    requires
        !a.contains(c),
    ensures
        split_parts(a + seq![c] + b, c) == seq![a] + split_parts(b, c),
        split_parts(a, c) == seq![a],
{
    let s = a + seq![c] + b;
    assert forall|i: int| 0 <= i < a.len() implies a[i] != c by {
        assert(a.contains(a[i]));
    }
    lemma_position_is(s, c, a.len() as int);
    lemma_position_is(a, c, a.len() as int);
    assert(s.take(a.len() as int) =~= a);
    assert(s.skip(a.len() as int + 1) =~= b);
}

/// The lines of a text: the first one, without its line feed and a carriage return
/// before that, then those of the rest. What follows the last line feed is a line as
/// it stands, if it is not empty.
pub proof fn law_lines_of_a_text(line: Seq<char>, rest: Seq<char>)
    requires
        !line.contains('\n'),
    ensures
        text_lines(line + seq!['\r', '\n'] + rest) == seq![line] + text_lines(rest),
        line.len() == 0 || line[line.len() - 1] != '\r' ==> text_lines(line + seq!['\n'] + rest)
            == seq![line] + text_lines(rest),
        line.len() > 0 ==> text_lines(line) == seq![line],
        text_lines(Seq::empty()) == Seq::<Seq<char>>::empty(),
{
    let n = line.len() as int;
    assert forall|i: int| 0 <= i < n implies line[i] != '\n' by {
        assert(line.contains(line[i]));
    }
    let s = line + seq!['\n'] + rest;
    lemma_position_is(s, '\n', n);
    assert(s.take(n) =~= line);
    assert(s.skip(n + 1) =~= rest);
    let t = line + seq!['\r', '\n'] + rest;
    lemma_position_is(t, '\n', n + 1);
    assert(t.take(n + 1) =~= line.push('\r'));
    assert(t.take(n + 1).drop_last() =~= line);
    assert(t.skip(n + 2) =~= rest);
    lemma_position_is(line, '\n', n);
}

/// Two lists joined are the one joined, the separator, and the other joined; one
/// part is joined as it is, and none to nothing.
pub proof fn law_joined_lists(a: Seq<Seq<char>>, b: Seq<Seq<char>>, sep: Seq<char>)
    ensures
        a.len() > 0 && b.len() > 0 ==> joined(a + b, sep) == joined(a, sep) + sep + joined(b, sep),
        a.len() == 1 ==> joined(a, sep) == a[0],
        a.len() == 0 ==> joined(a, sep).len() == 0,
    decreases b.len(),
{
    if a.len() > 0 && b.len() > 0 {
        let all = a + b;
        assert(all.last() == b.last());
        if b.len() == 1 {
            assert(all.drop_last() =~= a);
        } else {
            let less = b.drop_last();
            assert(all.drop_last() =~= a + less);
            law_joined_lists(a, less, sep);
            assert(joined(all, sep) =~= joined(a, sep) + sep + joined(b, sep));
        }
    }
}

/// The digits of a number in decimal notation: the one at place `i` from the right
/// is what is left of the number there, and there are no more of them than it takes.
pub proof fn law_digits_of_a_number(n: nat, i: nat)
    ensures
        decimal(n).len() > 0,
        i < decimal(n).len() ==> decimal(n)[decimal(n).len() - 1 - i] as int == 48 + (n as int
            / pow(10, i)) % 10,
        n < pow(10, decimal(n).len()),
        n == 0 ==> decimal(n).len() == 1,
        n > 0 ==> decimal(n)[0] != '0',
    decreases n,
{
    let d = decimal(n);
    lemma_pow0(10);
    vstd::arithmetic::power::lemma_pow1(10);
    if n >= 10 {
        let less = n / 10;
        let e = decimal(less);
        assert(d.last() as int == 48 + n % 10);
        law_digits_of_a_number(less, 0);
        assert(d[0] == e[0]);
        lemma_next_power(n, e.len());
        if i > 0 && i < d.len() {
            let j = (i - 1) as nat;
            law_digits_of_a_number(less, j);
            assert(d[d.len() - 1 - i] == e[e.len() - 1 - j]);
            lemma_shifted(n, j);
        }
    } else {
        assert(d.last() as int == 48 + n);
    }
}

/// A number is below a power of ten if its tenth is below the one before.
proof fn lemma_next_power(n: nat, k: nat)
    ensures
        n / 10 < pow(10, k) ==> n < pow(10, k + 1),
{
    vstd::arithmetic::power::lemma_pow_adds(10, k, 1);
    vstd::arithmetic::power::lemma_pow1(10);
}

/// Dividing by ten once more is dividing by the next power.
proof fn lemma_shifted(n: nat, j: nat)
    ensures
        (n as int) / pow(10, j + 1) == ((n / 10) as int) / pow(10, j),
{
    vstd::arithmetic::power::lemma_pow_adds(10, 1, j);
    vstd::arithmetic::power::lemma_pow1(10);
    lemma_pow_positive(10, j);
    vstd::arithmetic::div_mod::lemma_div_denominator(n as int, 10, pow(10, j));
}

/// Reading a number, digit by digit: a digit denotes itself, one more digit makes
/// ten of what there was, and what a `u64` cannot hold is no number. A plus sign in
/// front changes nothing.
pub proof fn law_numbers_read_digit_by_digit(s: Seq<char>, c: char)
    requires
        '0' <= c <= '9',
    ensures
        unsigned_value(seq![c]) == Some((c as u64 - '0' as u64) as u64),
        unsigned_value(s) matches Some(n) ==> unsigned_value(s.push(c)) == (if n * 10 + (c as int
            - '0' as int) <= u64::MAX {
            Some((n * 10 + (c as int - '0' as int)) as u64)
        } else {
            None
        }),
        s.len() > 0 && s[0] != '+' ==> unsigned_value(seq!['+'] + s) == unsigned_value(s),
{
    let one = seq![c];
    assert(one.drop_last() =~= Seq::<char>::empty());
    assert(crate::text::digits_value(one.drop_last()) == 0);
    let more = s.push(c);
    assert((seq!['+'] + s).drop_first() =~= s);
    if unsigned_value(s) is Some {
        let digits = if s[0] == '+' {
            s.drop_first()
        } else {
            s
        };
        let longer = if s[0] == '+' {
            more.drop_first()
        } else {
            more
        };
        assert(more[0] == s[0]);
        assert(longer =~= digits.push(c));
        assert(longer.drop_last() =~= digits);
        assert forall|i: int| 0 <= i < longer.len() implies crate::text::is_digit(
            #[trigger] longer[i],
        ) by {
            if i < digits.len() {
                assert(crate::text::is_digit(digits[i]));
            }
        }
    }
}

/// Only digits make a number: any other character spoils it, but for one plus sign
/// in front; and there has to be a digit.
pub proof fn law_only_digits_make_a_number(s: Seq<char>, i: int)
    requires
        0 <= i < s.len(),
        !('0' <= s[i] <= '9'),
        s[i] != '+' || i > 0,
    ensures
        unsigned_value(s) is None,
        unsigned_value(Seq::empty()) is None,
        unsigned_value(seq!['+']) is None,
{
    assert(seq!['+'].drop_first().len() == 0);
    if s[0] == '+' {
        assert(!crate::text::is_digit(s.drop_first()[i - 1]));
    } else {
        assert(!crate::text::is_digit(s[i]));
    }
}

/// A number that a `u64` cannot hold stays one, however many digits follow.
pub proof fn law_too_large_stays_too_large(s: Seq<char>, c: char)
    requires
        '0' <= c <= '9',
        s.len() > 0,
        unsigned_value(s) is None,
        s != seq!['+'],
    ensures
        unsigned_value(s.push(c)) is None,
{
    let more = s.push(c);
    let digits = if s[0] == '+' {
        s.drop_first()
    } else {
        s
    };
    let longer = if s[0] == '+' {
        more.drop_first()
    } else {
        more
    };
    assert(more[0] == s[0]);
    assert(longer =~= digits.push(c));
    assert(longer.drop_last() =~= digits);
    if s[0] == '+' && digits.len() == 0 {
        assert(s =~= seq!['+']);
    }
    if crate::text::all_digits(longer) {
        assert forall|i: int| 0 <= i < digits.len() implies crate::text::is_digit(
            #[trigger] digits[i],
        ) by {
            assert(longer[i] == digits[i]);
        }
    }
}

/// What is cut off the front or the end of a text is exactly what was asked for,
/// and it is cut off exactly where it is there.
pub proof fn law_affixes(s: Seq<char>, affix: Seq<char>)
    ensures
        without_prefix(affix + s, affix) == Some(s),
        without_suffix(s + affix, affix) == Some(s),
        without_prefix(s, affix) matches Some(t) ==> s == affix + t,
        without_suffix(s, affix) matches Some(t) ==> s == t + affix,
{
    assert((affix + s).skip(affix.len() as int) =~= s);
    assert((s + affix).take(s.len() as int) =~= s);
    assert((s + affix).subrange(s.len() as int, (s + affix).len() as int) =~= affix);
    if let Some(t) = without_prefix(s, affix) {
        assert(s =~= affix + t);
    }
    if let Some(t) = without_suffix(s, affix) {
        assert(s =~= t + affix);
    }
}

/// A character at the front is cut off as often as it stands there, and no more.
pub proof fn law_leading(n: nat, c: char, s: Seq<char>)
    requires
        s.len() > 0 ==> s[0] != c,
    ensures
        without_leading(Seq::new(n, |i: int| c) + s, c) == s,
    decreases n,
{
    let t = Seq::new(n, |i: int| c) + s;
    if n > 0 {
        let less = (n - 1) as nat;
        law_leading(less, c, s);
        assert(t.drop_first() =~= Seq::new(less, |i: int| c) + s);
    } else {
        assert(t =~= s);
    }
}

} // verus!
