//! The structured result of a measured run, and its JSON form.
use crate::json::{
    denotes, is_object_of, is_readable, json_parsed, member, number_of_integer, parse,
    unsigned_of, Json, JsonView,
};
use crate::spelling::{
    is_printable, law_object_is_one_line, law_object_reads_back, members_text, object_text,
    push_member, read_object, Scalar, Plain,
};
use vstd::prelude::*;

verus! {

/// The structured result of a measured run: what a caller (a CI script, or an
/// AI agent) gets back from one sandboxed execution.
#[derive(Debug, Clone)]
pub struct Outcome {
    pub exit_code: i32,
    pub timed_out: bool,
    pub oom_killed: bool,
    pub wall_ms: u128,
    pub peak_mem_kib: Option<u64>,
    pub stdout: String,
    pub stderr: String,
}

/// The meaning of an [`Outcome`].
#[verifier::ext_equal]
pub struct OutcomeView {
    pub exit_code: i32,
    pub timed_out: bool,
    pub oom_killed: bool,
    pub wall_ms: u128,
    pub peak_mem_kib: Option<u64>,
    pub stdout: Seq<char>,
    pub stderr: Seq<char>,
}

impl View for Outcome {
    type V = OutcomeView;

    open spec fn view(&self) -> OutcomeView {
        OutcomeView {
            exit_code: self.exit_code,
            timed_out: self.timed_out,
            oom_killed: self.oom_killed,
            wall_ms: self.wall_ms,
            peak_mem_kib: self.peak_mem_kib,
            stdout: self.stdout@,
            stderr: self.stderr@,
        }
    }
}

/// The members of an outcome's JSON object.
pub open spec fn outcome_members(o: OutcomeView) -> Seq<(Seq<char>, Scalar)> {
    seq![
        ("exit_code"@, Scalar::Integer(o.exit_code as int)),
        ("timed_out"@, Scalar::Bool(o.timed_out)),
        ("oom_killed"@, Scalar::Bool(o.oom_killed)),
        ("wall_ms"@, Scalar::Integer(o.wall_ms as int)),
        (
            "peak_mem_kib"@,
            match o.peak_mem_kib {
                Some(k) => Scalar::Integer(k as int),
                None => Scalar::Null,
            },
        ),
        ("stdout"@, Scalar::Text(o.stdout)),
        ("stderr"@, Scalar::Text(o.stderr)),
    ]
}

/// An outcome as a JSON object.
pub open spec fn outcome_json(o: OutcomeView) -> Seq<char> {
    object_text(outcome_members(o))
}

/// Appends one more member to an object that is being written.
fn push_next(out: &mut String, first: bool, name: &str, v: Plain<'_>, Ghost(done): Ghost<
    Seq<(Seq<char>, Scalar)>,
>)
    requires
        first == (done.len() == 0),
        old(out)@ == seq!['{'] + members_text(done),
    ensures
        final(out)@ == seq!['{'] + members_text(done.push((name@, v@))),
{
    push_member(out, first, name, v);
    let ghost more = done.push((name@, v@));
    assert(more.drop_last() =~= done);
    assert(out@ =~= seq!['{'] + members_text(more));
}

impl Outcome {
    /// Serializes to one line of JSON.
    pub fn to_json(&self) -> (r: String)
        ensures
            r@ == outcome_json(self@),
    {
        let ghost all = outcome_members(self@);
        let mut o = String::new();
        o.push('{');
        assert(o@ =~= seq!['{'] + members_text(all.take(0)));
        push_next(&mut o, true, "exit_code", Plain::Signed(self.exit_code), Ghost(all.take(0)));
        assert(all.take(1) =~= all.take(0).push(all[0]));
        push_next(&mut o, false, "timed_out", Plain::Bool(self.timed_out), Ghost(all.take(1)));
        assert(all.take(2) =~= all.take(1).push(all[1]));
        push_next(&mut o, false, "oom_killed", Plain::Bool(self.oom_killed), Ghost(all.take(2)));
        assert(all.take(3) =~= all.take(2).push(all[2]));
        push_next(&mut o, false, "wall_ms", Plain::Unsigned(self.wall_ms), Ghost(all.take(3)));
        assert(all.take(4) =~= all.take(3).push(all[3]));
        let peak = match self.peak_mem_kib {
            Some(k) => Plain::Unsigned(k as u128),
            None => Plain::Null,
        };
        push_next(&mut o, false, "peak_mem_kib", peak, Ghost(all.take(4)));
        assert(all.take(5) =~= all.take(4).push(all[4]));
        push_next(&mut o, false, "stdout", Plain::Text(self.stdout.as_str()), Ghost(all.take(5)));
        assert(all.take(6) =~= all.take(5).push(all[5]));
        push_next(&mut o, false, "stderr", Plain::Text(self.stderr.as_str()), Ghost(all.take(6)));
        assert(all =~= all.take(6).push(all[6]));
        o.push('}');
        assert(o@ =~= outcome_json(self@));
        o
    }
}

/// The JSON form of an outcome is a single line, whatever the process wrote: it
/// holds no line feed and no other control character.
pub proof fn law_outcome_is_one_line(o: OutcomeView)
    ensures
        is_printable(outcome_json(o)),
{
    law_object_is_one_line(outcome_members(o));
}

/// The JSON form of an outcome reads back: exactly its members, each with the value
/// of its field.
pub proof fn law_outcome_reads_back(o: OutcomeView)
    ensures
        read_object(outcome_json(o)) == Some(outcome_members(o)),
{
    law_object_reads_back(outcome_members(o));
}

/// A JSON parser reads an outcome back: what `parse` makes of its JSON form, which
/// is one line, is an object with exactly its members, each equal to its field. The
/// peak is null if it was not measured. (A wall clock time of more than 2^64 - 1
/// milliseconds is a float to the parser.)
pub proof fn law_parsed_outcome(o: OutcomeView, text: &str, r: Option<Json>)
    requires
        o.wall_ms <= u64::MAX,
        text@ == outcome_json(o),
        call_ensures(parse, (text,), r),
    ensures
        is_printable(text@),
        r is Some,
        json_parsed(text@) == Some(r->0@),
        is_object_of(r->0@, outcome_members(o)),
        member(r->0@, "exit_code"@) == Some(
            JsonView::Number(number_of_integer(o.exit_code as i64)),
        ),
        member(r->0@, "timed_out"@) == Some(JsonView::Bool(o.timed_out)),
        member(r->0@, "oom_killed"@) == Some(JsonView::Bool(o.oom_killed)),
        member(r->0@, "wall_ms"@) matches Some(v) && unsigned_of(v) == Some(o.wall_ms as u64),
        member(r->0@, "peak_mem_kib"@) matches Some(v) && match o.peak_mem_kib {
            Some(k) => unsigned_of(v) == Some(k),
            None => v is Null,
        },
        member(r->0@, "stdout"@) == Some(JsonView::Text(o.stdout)),
        member(r->0@, "stderr"@) == Some(JsonView::Text(o.stderr)),
{
    law_outcome_is_one_line(o);
    let m = outcome_members(o);
    reveal_strlit("exit_code");
    reveal_strlit("timed_out");
    reveal_strlit("oom_killed");
    reveal_strlit("wall_ms");
    reveal_strlit("peak_mem_kib");
    reveal_strlit("stdout");
    reveal_strlit("stderr");
    assert("exit_code"@[0] == 'e' && "timed_out"@[0] == 't' && "oom_killed"@[0] == 'o');
    assert("wall_ms"@[0] == 'w' && "peak_mem_kib"@[0] == 'p');
    assert("stdout"@[3] == 'o' && "stderr"@[3] == 'e');
    assert(is_readable(m));
    let v = r->0@;
    assert(denotes(v->Object_0[m[0].0], m[0].1) && denotes(v->Object_0[m[1].0], m[1].1));
    assert(denotes(v->Object_0[m[2].0], m[2].1) && denotes(v->Object_0[m[3].0], m[3].1));
    assert(denotes(v->Object_0[m[4].0], m[4].1) && denotes(v->Object_0[m[5].0], m[5].1));
    assert(denotes(v->Object_0[m[6].0], m[6].1));
}

/// The JSON form tells everything about an outcome: two outcomes with the same
/// form are the same.
pub proof fn law_outcome_json_is_faithful(a: OutcomeView, b: OutcomeView)
    requires
        outcome_json(a) == outcome_json(b),
    ensures
        a == b,
{
    law_outcome_reads_back(a);
    law_outcome_reads_back(b);
    let x = outcome_members(a);
    let y = outcome_members(b);
    assert(x[0] == y[0] && x[1] == y[1] && x[2] == y[2] && x[3] == y[3]);
    assert(x[4] == y[4] && x[5] == y[5] && x[6] == y[6]);
    assert(a =~= b);
}

} // verus!
