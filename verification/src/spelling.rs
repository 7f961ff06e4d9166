//! How JSON objects of plain values are written, on one line, and how they read.
use crate::text::{
    all_digits, chars_of, decimal, digits_value, is_digit, lemma_decimal, push_decimal,
};
use vstd::prelude::*;

verus! {

/// The hexadecimal digit for `d`, which is less than sixteen.
pub open spec fn hex_digit(d: nat) -> char {
    if d < 10 {
        (48 + d) as char
    } else {
        (87 + d) as char
    }
}

/// How a character is written inside a JSON string.
pub open spec fn json_char(c: char) -> Seq<char> {
    if c == '"' {
        seq!['\\', '"']
    } else if c == '\\' {
        seq!['\\', '\\']
    } else if c == '\n' {
        seq!['\\', 'n']
    } else if c == '\r' {
        seq!['\\', 'r']
    } else if c == '\t' {
        seq!['\\', 't']
    } else if (c as u32) < 0x20 {
        let n = c as u32;
        seq!['\\', 'u', '0', '0', hex_digit((n / 16) as nat), hex_digit((n % 16) as nat)]
    } else {
        seq![c]
    }
}

/// The characters of `s` as a JSON string holds them.
pub open spec fn json_chars(s: Seq<char>) -> Seq<char>
    decreases s.len(),
{
    if s.len() == 0 {
        Seq::empty()
    } else {
        json_chars(s.drop_last()) + json_char(s.last())
    }
}

/// `s` as a JSON string.
pub open spec fn json_string(s: Seq<char>) -> Seq<char> {
    seq!['"'] + json_chars(s) + seq!['"']
}

/// `true` or `false`.
pub open spec fn json_bool(b: bool) -> Seq<char> {
    if b {
        "true"@
    } else {
        "false"@
    }
}

/// A signed number in decimal notation.
pub open spec fn signed_decimal(n: int) -> Seq<char> {
    if n < 0 {
        seq!['-'] + decimal((-n) as nat)
    } else {
        decimal(n as nat)
    }
}

/// A plain value: anything but an array or an object. Numbers are integers.
pub enum Scalar {
    Null,
    Bool(bool),
    Integer(int),
    Text(Seq<char>),
}

/// A plain value as it is written.
pub open spec fn scalar_text(v: Scalar) -> Seq<char> {
    match v {
        Scalar::Null => "null"@,
        Scalar::Bool(b) => json_bool(b),
        Scalar::Integer(n) => signed_decimal(n),
        Scalar::Text(s) => json_string(s),
    }
}

/// A member of an object as it is written.
pub open spec fn member_text(m: (Seq<char>, Scalar)) -> Seq<char> {
    json_string(m.0) + seq![':'] + scalar_text(m.1)
}

/// Members one after another, with commas between them.
pub open spec fn members_text(members: Seq<(Seq<char>, Scalar)>) -> Seq<char>
    decreases members.len(),
{
    if members.len() == 0 {
        Seq::empty()
    } else if members.len() == 1 {
        member_text(members[0])
    } else {
        members_text(members.drop_last()) + seq![','] + member_text(members.last())
    }
}

/// An object with these members, in this order, as it is written: on one line and
/// without spaces.
pub open spec fn object_text(members: Seq<(Seq<char>, Scalar)>) -> Seq<char> {
    seq!['{'] + members_text(members) + seq!['}']
}

/// A plain value to be written.
pub enum Plain<'a> {
    Null,
    Bool(bool),
    Signed(i32),
    Unsigned(u128),
    Text(&'a str),
}

impl<'a> View for Plain<'a> {
    type V = Scalar;

    open spec fn view(&self) -> Scalar {
        match self {
            Plain::Null => Scalar::Null,
            Plain::Bool(b) => Scalar::Bool(*b),
            Plain::Signed(n) => Scalar::Integer(*n as int),
            Plain::Unsigned(n) => Scalar::Integer(*n as int),
            Plain::Text(s) => Scalar::Text(s@),
        }
    }
}

/// Appends one hexadecimal digit.
fn push_hex(out: &mut String, d: u32)
    requires
        d < 16,
    ensures
        final(out)@ == old(out)@.push(hex_digit(d as nat)),
{
    let code: u8 = if d < 10 {
        48 + d as u8
    } else {
        87 + d as u8
    };
    out.push(code as char);
}

/// Appends `v` as a JSON string.
fn push_json_string(out: &mut String, v: &str)
    ensures
        final(out)@ == old(out)@ + json_string(v@),
{
    let chars = chars_of(v);
    let mut i: usize = 0;
    out.push('"');
    assert(out@ =~= old(out)@ + seq!['"'] + json_chars(v@.take(0)));
    while i < chars.len()
        invariant
            i <= chars@.len(),
            chars@ == v@,
            out@ == old(out)@ + seq!['"'] + json_chars(v@.take(i as int)),
        decreases chars@.len() - i,
    {
        let c = chars[i];
        let n: u32 = c as u32;
        let ghost before = out@;
        if c == '"' {
            out.push('\\');
            out.push('"');
        } else if c == '\\' {
            out.push('\\');
            out.push('\\');
        } else if c == '\n' {
            out.push('\\');
            out.push('n');
        } else if c == '\r' {
            out.push('\\');
            out.push('r');
        } else if c == '\t' {
            out.push('\\');
            out.push('t');
        } else if n < 0x20 {
            out.push('\\');
            out.push('u');
            out.push('0');
            out.push('0');
            push_hex(out, n / 16);
            push_hex(out, n % 16);
        } else {
            out.push(c);
        }
        assert(out@ =~= before + json_char(c));
        assert(v@.take(i + 1).drop_last() =~= v@.take(i as int));
        assert(out@ =~= old(out)@ + seq!['"'] + json_chars(v@.take(i + 1)));
        i += 1;
    }
    assert(v@.take(i as int) =~= v@);
    out.push('"');
    assert(out@ =~= old(out)@ + json_string(v@));
}

/// Appends a signed number.
fn push_signed(out: &mut String, n: i32)
    ensures
        final(out)@ == old(out)@ + signed_decimal(n as int),
{
    if n < 0 {
        out.push('-');
        push_decimal(out, (-(n as i64)) as u128);
    } else {
        push_decimal(out, n as u128);
    }
    assert(out@ =~= old(out)@ + signed_decimal(n as int));
}

/// Appends `true` or `false`.
fn push_bool(out: &mut String, b: bool)
    ensures
        final(out)@ == old(out)@ + json_bool(b),
{
    out.append(
        if b {
            "true"
        } else {
            "false"
        },
    );
}

/// Appends a plain value.
fn push_value(out: &mut String, v: Plain<'_>)
    ensures
        final(out)@ == old(out)@ + scalar_text(v@),
{
    match v {
        Plain::Null => {
            out.append("null");
        },
        Plain::Bool(b) => {
            push_bool(out, b);
        },
        Plain::Signed(n) => {
            push_signed(out, n);
        },
        Plain::Unsigned(n) => {
            push_decimal(out, n);
        },
        Plain::Text(s) => {
            push_json_string(out, s);
        },
    }
}

/// Appends a member, after a comma if it is not the first.
pub fn push_member(out: &mut String, first: bool, name: &str, v: Plain<'_>)
    ensures
        final(out)@ == old(out)@ + (if first {
            Seq::empty()
        } else {
            seq![',']
        }) + member_text((name@, v@)),
{
    if !first {
        out.push(',');
    }
    let ghost before = out@;
    push_json_string(out, name);
    out.push(':');
    push_value(out, v);
    assert(out@ =~= before + member_text((name@, v@)));
    assert(out@ =~= old(out)@ + (if first {
        Seq::empty()
    } else {
        seq![',']
    }) + member_text((name@, v@)));
}

/// The value of a hexadecimal digit.
pub open spec fn hex_value(c: char) -> Option<nat> {
    if '0' <= c <= '9' {
        Some((c as u32 - 48) as nat)
    } else if 'a' <= c <= 'f' {
        Some((c as u32 - 87) as nat)
    } else if 'A' <= c <= 'F' {
        Some((c as u32 - 55) as nat)
    } else {
        None
    }
}

/// The character that `\u` and these four hexadecimal digits stand for, leaving
/// aside the surrogates.
pub open spec fn unicode_escape(digits: Seq<char>) -> Option<char> {
    match (hex_value(digits[0]), hex_value(digits[1]), hex_value(digits[2]), hex_value(digits[3])) {
        (Some(a), Some(b), Some(c), Some(d)) => {
            let n = a * 4096 + b * 256 + c * 16 + d;
            if 0xd800 <= n <= 0xdfff {
                None
            } else {
                Some(n as char)
            }
        },
        _ => None,
    }
}

/// The text that the inside of a JSON string stands for, as JSON defines it;
/// none if it cannot stand there.
pub open spec fn json_text(s: Seq<char>) -> Option<Seq<char>>
    decreases s.len(),
{
    if s.len() == 0 {
        Some(Seq::empty())
    } else if s[0] == '"' || (s[0] as u32) < 0x20 {
        None
    } else if s[0] != '\\' {
        with_first(Some(s[0]), json_text(s.drop_first()))
    } else if s.len() < 2 {
        None
    } else if s[1] == 'u' {
        if s.len() < 6 {
            None
        } else {
            with_first(unicode_escape(s.subrange(2, 6)), json_text(s.skip(6)))
        }
    } else {
        let c = if s[1] == '"' || s[1] == '\\' || s[1] == '/' {
            Some(s[1])
        } else if s[1] == 'b' {
            Some('\u{8}')
        } else if s[1] == 'f' {
            Some('\u{c}')
        } else if s[1] == 'n' {
            Some('\n')
        } else if s[1] == 'r' {
            Some('\r')
        } else if s[1] == 't' {
            Some('\t')
        } else {
            None
        };
        with_first(c, json_text(s.skip(2)))
    }
}

/// `c`, then `rest`, if there are both.
pub open spec fn with_first(c: Option<char>, rest: Option<Seq<char>>) -> Option<Seq<char>> {
    match (c, rest) {
        (Some(c), Some(rest)) => Some(seq![c] + rest),
        _ => None,
    }
}

/// What is written as a JSON string reads back as the text it was made of.
#[verifier::rlimit(40)]
pub proof fn law_json_string_round_trip(s: Seq<char>)
    ensures
        json_text(json_chars(s)) == Some(s),
    decreases s.len(),
{
    if s.len() == 0 {
        assert(s =~= Seq::<char>::empty());
    } else {
        let c = s[0];
        let rest = json_chars(s.drop_first());
        lemma_json_chars_front(s);
        law_json_string_round_trip(s.drop_first());
        let all = json_char(c) + rest;
        assert(seq![c] + s.drop_first() =~= s);
        if json_char(c).len() == 1 {
            assert(all.drop_first() =~= rest);
        } else if json_char(c).len() == 2 {
            assert(all.skip(2) =~= rest);
        } else {
            assert(all.skip(6) =~= rest);
            let digits = all.subrange(2, 6);
            let n = c as u32;
            assert(digits[0] == '0' && digits[1] == '0');
            assert(digits[2] == hex_digit((n / 16) as nat));
            assert(digits[3] == hex_digit((n % 16) as nat));
            assert(hex_value(digits[2]) == Some((n / 16) as nat));
            assert(hex_value(digits[3]) == Some((n % 16) as nat));
            assert(hex_value('0') == Some(0nat));
            assert((n / 16) * 16 + n % 16 == n);
            lemma_code_point(c);
            assert(unicode_escape(digits) == Some(n as char));
        }
    }
}

/// A character is its code point.
proof fn lemma_code_point(c: char)
    ensures
        c as u32 as char == c,
{
}

/// The escaping goes character by character from the front, too.
proof fn lemma_json_chars_front(s: Seq<char>)
    requires
        s.len() > 0,
    ensures
        json_chars(s) == json_char(s[0]) + json_chars(s.drop_first()),
    decreases s.len(),
{
    if s.len() == 1 {
        assert(s.drop_first() =~= Seq::<char>::empty());
        assert(s.drop_last() =~= Seq::<char>::empty());
        assert(json_chars(s) =~= json_char(s[0]) + json_chars(s.drop_first()));
    } else {
        lemma_json_chars_front(s.drop_last());
        assert(s.drop_first().drop_last() =~= s.drop_last().drop_first());
        assert(s.drop_first().last() == s.last());
        assert(json_chars(s) =~= json_char(s[0]) + json_chars(s.drop_first()));
    }
}

/// Whether no character of `s` is a control character below the space.
pub open spec fn is_printable(s: Seq<char>) -> bool {
    forall|i: int| 0 <= i < s.len() ==> (#[trigger] s[i]) as u32 >= 0x20
}

/// A written string holds no control character.
proof fn lemma_json_chars_printable(s: Seq<char>)
    ensures
        is_printable(json_chars(s)),
    decreases s.len(),
{
    if s.len() > 0 {
        lemma_json_chars_printable(s.drop_last());
        assert(is_printable(json_char(s.last())));
    }
}

/// A word: digits, letters and the minus sign.
pub open spec fn is_word(s: Seq<char>) -> bool {
    forall|i: int| 0 <= i < s.len() ==> is_word_char(#[trigger] s[i])
}

/// A character of a word.
pub open spec fn is_word_char(c: char) -> bool {
    '0' <= c <= '9' || 'a' <= c <= 'z' || c == '-'
}

/// How far it is to the double quote that closes a string, from just after the one
/// that opens it.
pub open spec fn closing_quote(s: Seq<char>) -> nat
    decreases s.len(),
{
    if s.len() == 0 || s[0] == '"' {
        0
    } else if s[0] == '\\' && s.len() >= 2 {
        2 + closing_quote(s.skip(2))
    } else {
        1 + closing_quote(s.drop_first())
    }
}

/// Reads a string off the front of `s`: its text, and what follows.
pub open spec fn read_string(s: Seq<char>) -> Option<(Seq<char>, Seq<char>)> {
    let t = s.drop_first();
    let e = closing_quote(t) as int;
    if s.len() == 0 || s[0] != '"' || e >= t.len() {
        None
    } else {
        match json_text(t.take(e)) {
            Some(text) => Some((text, t.skip(e + 1))),
            None => None,
        }
    }
}

/// How long the word at the front of `s` is.
pub open spec fn word_length(s: Seq<char>) -> nat
    decreases s.len(),
{
    if s.len() == 0 || !is_word_char(s[0]) {
        0
    } else {
        1 + word_length(s.drop_first())
    }
}

/// The number that some digits denote, without leading zeros.
pub open spec fn read_digits(w: Seq<char>) -> Option<int> {
    if w.len() > 0 && all_digits(w) && (w.len() == 1 || w[0] != '0') {
        Some(digits_value(w) as int)
    } else {
        None
    }
}

/// The plain value that a word stands for.
pub open spec fn read_word(w: Seq<char>) -> Option<Scalar> {
    if w == "null"@ {
        Some(Scalar::Null)
    } else if w == "true"@ {
        Some(Scalar::Bool(true))
    } else if w == "false"@ {
        Some(Scalar::Bool(false))
    } else if w.len() > 0 && w[0] == '-' {
        match read_digits(w.drop_first()) {
            Some(n) => Some(Scalar::Integer(-n)),
            None => None,
        }
    } else {
        match read_digits(w) {
            Some(n) => Some(Scalar::Integer(n)),
            None => None,
        }
    }
}

/// Reads a plain value off the front of `s`: the value, and what follows.
pub open spec fn read_scalar(s: Seq<char>) -> Option<(Scalar, Seq<char>)> {
    if s.len() > 0 && s[0] == '"' {
        match read_string(s) {
            Some((text, rest)) => Some((Scalar::Text(text), rest)),
            None => None,
        }
    } else {
        match read_word(s.take(word_length(s) as int)) {
            Some(v) => Some((v, s.skip(word_length(s) as int))),
            None => None,
        }
    }
}

/// Reads a member off the front of `s`: its name, its value, and what follows.
pub open spec fn read_member(s: Seq<char>) -> Option<((Seq<char>, Scalar), Seq<char>)> {
    match read_string(s) {
        Some((name, rest)) => if rest.len() > 0 && rest[0] == ':' {
            match read_scalar(rest.drop_first()) {
                Some((v, rest)) => Some(((name, v), rest)),
                None => None,
            }
        } else {
            None
        },
        None => None,
    }
}

/// Reads members up to the brace that closes their object, after which nothing
/// follows.
pub open spec fn read_members(s: Seq<char>) -> Option<Seq<(Seq<char>, Scalar)>>
    decreases s.len(),
    via read_members_decreases
{
    match read_member(s) {
        Some((m, rest)) => if rest == seq!['}'] {
            Some(seq![m])
        } else if rest.len() > 0 && rest[0] == ',' {
            match read_members(rest.drop_first()) {
                Some(more) => Some(seq![m] + more),
                None => None,
            }
        } else {
            None
        },
        None => None,
    }
}

#[via_fn]
proof fn read_members_decreases(s: Seq<char>) {
    lemma_member_takes(s);
}

/// Reading a member takes something.
proof fn lemma_member_takes(s: Seq<char>)
    ensures
        read_member(s) matches Some((m, rest)) ==> rest.len() < s.len(),
{
    if let Some((name, rest)) = read_string(s) {
        assert(rest.len() < s.len());
        if rest.len() > 0 {
            lemma_word_length(rest.drop_first());
        }
    }
}

/// A word is no longer than the text, and it is made of its characters.
proof fn lemma_word_length(s: Seq<char>)
    ensures
        word_length(s) <= s.len(),
        forall|i: int| 0 <= i < word_length(s) ==> is_word_char(#[trigger] s[i]),
        word_length(s) < s.len() ==> !is_word_char(s[word_length(s) as int]),
    decreases s.len(),
{
    if s.len() > 0 && is_word_char(s[0]) {
        let rest = s.drop_first();
        lemma_word_length(rest);
        assert forall|i: int| 0 <= i < word_length(s) implies is_word_char(#[trigger] s[i]) by {
            if i > 0 {
                assert(rest[i - 1] == s[i]);
            }
        }
    }
}

/// Reads an object of plain values, written without spaces: its members, in the
/// order in which they stand.
pub open spec fn read_object(s: Seq<char>) -> Option<Seq<(Seq<char>, Scalar)>> {
    if s == seq!['{', '}'] {
        Some(Seq::empty())
    } else if s.len() > 0 && s[0] == '{' {
        read_members(s.drop_first())
    } else {
        None
    }
}

/// The quote that closes a written string is the one at its end.
proof fn lemma_closing_quote(x: Seq<char>, rest: Seq<char>)
    ensures
        closing_quote(json_chars(x) + (seq!['"'] + rest)) == json_chars(x).len(),
    decreases x.len(),
{
    let s = json_chars(x) + (seq!['"'] + rest);
    if x.len() > 0 {
        let later = json_chars(x.drop_first()) + (seq!['"'] + rest);
        let c = json_char(x[0]);
        lemma_json_chars_front(x);
        lemma_closing_quote(x.drop_first(), rest);
        assert(s =~= c + later);
        if c.len() == 1 {
            assert(s.drop_first() =~= later);
            assert(s[0] == c[0]);
        } else if c.len() == 2 {
            assert(s.skip(2) =~= later);
            assert(s[0] == c[0]);
        } else {
            lemma_hex_escape(x[0], later);
            assert(s[0] == c[0]);
        }
    }
}

/// The six characters of an escape by number hold no quote, and only one
/// backslash.
proof fn lemma_hex_escape(c: char, later: Seq<char>)
    requires
        json_char(c).len() == 6,
    ensures
        closing_quote(json_char(c) + later) == 6 + closing_quote(later),
{
    let e = json_char(c);
    let s = e + later;
    let n = c as u32;
    assert(hex_value(hex_digit((n / 16) as nat)) is Some);
    assert(hex_value(hex_digit((n % 16) as nat)) is Some);
    let s2 = s.skip(2);
    let s3 = s2.drop_first();
    let s4 = s3.drop_first();
    let s5 = s4.drop_first();
    assert(s[0] == e[0] && s2[0] == e[2] && s3[0] == e[3] && s4[0] == e[4] && s5[0] == e[5]);
    assert(s5.drop_first() =~= later);
    assert(closing_quote(s5) == 1 + closing_quote(later));
    assert(closing_quote(s4) == 1 + closing_quote(s5));
    assert(closing_quote(s3) == 1 + closing_quote(s4));
    assert(closing_quote(s2) == 1 + closing_quote(s3));
}

/// A written string reads back.
proof fn lemma_string_reads_back(x: Seq<char>, rest: Seq<char>)
    ensures
        read_string(json_string(x) + rest) == Some((x, rest)),
{
    let s = json_string(x) + rest;
    let t = s.drop_first();
    let e = json_chars(x).len() as int;
    assert(t =~= json_chars(x) + (seq!['"'] + rest));
    lemma_closing_quote(x, rest);
    law_json_string_round_trip(x);
    assert(t.take(e) =~= json_chars(x));
    assert(t.skip(e + 1) =~= rest);
}

/// A word ends where no character of one follows.
proof fn lemma_word_ends(w: Seq<char>, rest: Seq<char>)
    requires
        is_word(w),
        rest.len() > 0,
        !is_word_char(rest[0]),
    ensures
        word_length(w + rest) == w.len(),
        (w + rest).take(w.len() as int) == w,
        (w + rest).skip(w.len() as int) == rest,
{
    let s = w + rest;
    lemma_word_length(s);
    let n = w.len() as int;
    assert(s[n] == rest[0]);
    if word_length(s) < n {
        assert(s[word_length(s) as int] == w[word_length(s) as int]);
    }
    assert(s.take(n) =~= w);
    assert(s.skip(n) =~= rest);
}

/// A written number is a word of digits without leading zeros that denotes it.
proof fn lemma_digits_read_back(n: nat)
    ensures
        is_word(decimal(n)),
        is_digit(decimal(n)[0]),
        decimal(n).len() > 0,
        read_digits(decimal(n)) == Some(n as int),
    decreases n,
{
    let d = decimal(n);
    lemma_decimal(n);
    assert forall|i: int| 0 <= i < d.len() implies is_word_char(#[trigger] d[i]) by {
        assert(is_digit(d[i]));
    }
    assert(is_digit(d[0]));
    lemma_no_leading_zero(n);
}

/// A written number that is not zero does not start with a zero.
proof fn lemma_no_leading_zero(n: nat)
    ensures
        n > 0 ==> decimal(n)[0] != '0',
        n < 10 ==> decimal(n).len() == 1,
        decimal(n).len() > 0,
    decreases n,
{
    if n >= 10 {
        lemma_no_leading_zero(n / 10);
        assert(decimal(n)[0] == decimal(n / 10)[0]);
    }
}

/// A written plain value other than a text is a word, and reads back.
proof fn lemma_word_reads_back(v: Scalar)
    requires
        !(v is Text),
    ensures
        is_word(scalar_text(v)),
        scalar_text(v).len() > 0,
        read_word(scalar_text(v)) == Some(v),
{
    reveal_strlit("null");
    reveal_strlit("true");
    reveal_strlit("false");
    assert("null"@[0] == 'n' && "true"@[0] == 't' && "false"@[0] == 'f');
    if let Scalar::Integer(n) = v {
        let d = scalar_text(v);
        if n < 0 {
            lemma_digits_read_back((-n) as nat);
            assert(d[0] == '-');
            assert(d.drop_first() =~= decimal((-n) as nat));
            assert forall|i: int| 0 <= i < d.len() implies is_word_char(#[trigger] d[i]) by {
                if i > 0 {
                    assert(d[i] == decimal((-n) as nat)[i - 1]);
                }
            }
        } else {
            lemma_digits_read_back(n as nat);
        }
    }
}

/// A written plain value reads back, where something follows that is no part of it.
proof fn lemma_scalar_reads_back(v: Scalar, rest: Seq<char>)
    requires
        rest.len() > 0,
        !is_word_char(rest[0]),
    ensures
        read_scalar(scalar_text(v) + rest) == Some((v, rest)),
{
    let s = scalar_text(v) + rest;
    match v {
        Scalar::Text(x) => {
            lemma_string_reads_back(x, rest);
            assert(s[0] == json_string(x)[0]);
        },
        _ => {
            lemma_word_reads_back(v);
            lemma_word_ends(scalar_text(v), rest);
            assert(s[0] == scalar_text(v)[0]);
            assert(is_word_char(s[0]));
        },
    }
}

/// A written member reads back, where something follows that is no part of it.
proof fn lemma_member_reads_back(m: (Seq<char>, Scalar), rest: Seq<char>)
    requires
        rest.len() > 0,
        !is_word_char(rest[0]),
    ensures
        read_member(member_text(m) + rest) == Some((m, rest)),
{
    let after = seq![':'] + (scalar_text(m.1) + rest);
    assert(member_text(m) + rest =~= json_string(m.0) + after);
    lemma_string_reads_back(m.0, after);
    assert(after.drop_first() =~= scalar_text(m.1) + rest);
    lemma_scalar_reads_back(m.1, rest);
}

/// Members are written from the front, too.
proof fn lemma_members_front(members: Seq<(Seq<char>, Scalar)>)
    requires
        members.len() > 1,
    ensures
        members_text(members) == member_text(members[0]) + seq![','] + members_text(
            members.drop_first(),
        ),
    decreases members.len(),
{
    let rest = members.drop_first();
    let before = members.drop_last();
    let last = members.last();
    if members.len() == 2 {
        assert(rest[0] == last);
        assert(before[0] == members[0]);
        assert(members_text(before) == member_text(members[0]));
        assert(members_text(rest) == member_text(last));
    } else {
        lemma_members_front(before);
        assert(rest.drop_last() =~= before.drop_first());
        assert(rest.last() == last);
        assert(before[0] == members[0]);
        assert(members_text(members) =~= member_text(members[0]) + seq![','] + members_text(rest));
    }
}

/// Written members read back.
#[verifier::spinoff_prover]
proof fn lemma_members_read_back(members: Seq<(Seq<char>, Scalar)>)
    requires
        members.len() > 0,
    ensures
        read_members(members_text(members) + seq!['}']) == Some(members),
    decreases members.len(),
{
    let s = members_text(members) + seq!['}'];
    let m = members[0];
    if members.len() == 1 {
        lemma_member_reads_back(m, seq!['}']);
        assert(seq![m] =~= members);
    } else {
        let more = members.drop_first();
        let rest = seq![','] + (members_text(more) + seq!['}']);
        lemma_members_front(members);
        assert(s =~= member_text(m) + rest);
        lemma_member_reads_back(m, rest);
        assert(rest != seq!['}']) by {
            assert(rest[0] == ',');
        }
        assert(rest.drop_first() =~= members_text(more) + seq!['}']);
        lemma_members_read_back(more);
        assert(seq![m] + more =~= members);
    }
}

/// A written object reads back: each member, in order, with the value it had.
#[verifier::spinoff_prover]
pub proof fn law_object_reads_back(members: Seq<(Seq<char>, Scalar)>)
    ensures
        read_object(object_text(members)) == Some(members),
{
    let s = object_text(members);
    if members.len() == 0 {
        assert(s =~= seq!['{', '}']);
        assert(members =~= Seq::<(Seq<char>, Scalar)>::empty());
    } else {
        let rest = members_text(members) + seq!['}'];
        assert(s.len() > 2) by {
            lemma_members_long(members);
        }
        assert(s != seq!['{', '}']) by {
            assert(seq!['{', '}'].len() == 2);
        }
        assert(s[0] == '{');
        assert(s.drop_first() =~= rest);
        assert(read_members(rest) == Some(members)) by {
            lemma_members_read_back(members);
        }
    }
}

/// Members take more than nothing.
proof fn lemma_members_long(members: Seq<(Seq<char>, Scalar)>)
    requires
        members.len() > 0,
    ensures
        members_text(members).len() > 0,
{
    assert(member_text(members[0]).len() > 0);
    assert(member_text(members.last()).len() > 0);
}

/// A written object is a single line, whatever texts it holds: no line feed and no
/// other control character stands in it.
pub proof fn law_object_is_one_line(members: Seq<(Seq<char>, Scalar)>)
    ensures
        is_printable(object_text(members)),
{
    lemma_members_printable(members);
}

/// Written members hold no control character.
proof fn lemma_members_printable(members: Seq<(Seq<char>, Scalar)>)
    ensures
        is_printable(members_text(members)),
    decreases members.len(),
{
    if members.len() == 1 {
        lemma_member_printable(members[0]);
    } else if members.len() > 1 {
        lemma_members_printable(members.drop_last());
        lemma_member_printable(members.last());
    }
}

/// A written member holds no control character.
proof fn lemma_member_printable(m: (Seq<char>, Scalar))
    ensures
        is_printable(member_text(m)),
{
    lemma_json_chars_printable(m.0);
    match m.1 {
        Scalar::Text(s) => {
            lemma_json_chars_printable(s);
        },
        _ => {
            lemma_word_reads_back(m.1);
            let w = scalar_text(m.1);
            assert forall|i: int| 0 <= i < w.len() implies (#[trigger] w[i]) as u32 >= 0x20 by {
                assert(is_word_char(w[i]));
            }
        },
    }
}

} // verus!
