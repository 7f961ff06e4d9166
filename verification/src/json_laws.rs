//! How JSON is written, character by character and member by member, and what is found
//! in a value.
use crate::json::{items_model, members_model, number_as_unsigned, texts, Json, JsonView};
use crate::outcome::{outcome_json, outcome_members, OutcomeView};
use crate::spelling::{
    json_char, json_chars, json_string, member_text, members_text, object_text, scalar_text, Scalar,
};
use crate::text::{decimal, strings_view};
use vstd::prelude::*;

verus! {

/// How a character is written between the quotes of a JSON string: the quote, the
/// backslash, the ends of line and the tab by a backslash and a letter or sign, any
/// other control character by its number in four hexadecimal digits, and every other
/// character by itself.
pub open spec fn written_as(c: char) -> Seq<char> {
    if c == '"' {
        "\\\""@
    } else if c == '\\' {
        "\\\\"@
    } else if c == '\n' {
        "\\n"@
    } else if c == '\r' {
        "\\r"@
    } else if c == '\t' {
        "\\t"@
    } else if (c as u32) < 16 {
        "\\u000"@ + seq!["0123456789abcdef"@[c as int]]
    } else if (c as u32) < 32 {
        "\\u001"@ + seq!["0123456789abcdef"@[c as int - 16]]
    } else {
        seq![c]
    }
}

/// A JSON string grows by a character where the text does, before its closing quote.
pub proof fn law_json_strings(s: Seq<char>, c: char)
    ensures
        json_string(Seq::empty()) == seq!['"', '"'],
        json_string(s.push(c)) == json_string(s).drop_last() + written_as(c) + seq!['"'],
{
    lemma_written_as(c);
    assert(s.push(c).drop_last() =~= s);
    assert(json_string(s).drop_last() =~= seq!['"'] + json_chars(s));
    assert(json_string(s.push(c)) =~= seq!['"'] + json_chars(s) + json_char(c) + seq!['"']);
    assert(json_string(Seq::empty()) =~= seq!['"', '"']);
}

/// A character is written as it is said to be.
proof fn lemma_written_as(c: char)
    ensures
        json_char(c) == written_as(c),
{
    reveal_strlit("\\\"");
    reveal_strlit("\\\\");
    reveal_strlit("\\n");
    reveal_strlit("\\r");
    reveal_strlit("\\t");
    reveal_strlit("\\u000");
    reveal_strlit("\\u001");
    reveal_strlit("0123456789abcdef");
    assert(json_char(c) =~= written_as(c));
}

/// How a plain value is written.
pub open spec fn value_as(v: Scalar) -> Seq<char> {
    match v {
        Scalar::Null => "null"@,
        Scalar::Bool(true) => "true"@,
        Scalar::Bool(false) => "false"@,
        Scalar::Integer(n) => if n < 0 {
            "-"@ + decimal((-n) as nat)
        } else {
            decimal(n as nat)
        },
        Scalar::Text(s) => json_string(s),
    }
}

/// An object grows by a member, with a comma between two, before its closing brace; and
/// a member is its name, a colon and its value.
pub proof fn law_objects_grow(members: Seq<(Seq<char>, Scalar)>, name: Seq<char>, v: Scalar)
    ensures
        object_text(Seq::empty()) == "{}"@,
        object_text(members.push((name, v))) == object_text(members).drop_last() + (
        if members.len() == 0 {
            ""@
        } else {
            ","@
        }) + json_string(name) + ":"@ + value_as(v) + "}"@,
{
    reveal_strlit("{}");
    reveal_strlit("");
    reveal_strlit(",");
    reveal_strlit(":");
    reveal_strlit("}");
    reveal_strlit("-");
    let more = members.push((name, v));
    assert(scalar_text(v) =~= value_as(v));
    assert(more.drop_last() =~= members);
    assert(object_text(members).drop_last() =~= seq!['{'] + members_text(members));
    assert(member_text((name, v)) =~= json_string(name) + ":"@ + value_as(v));
    assert(object_text(Seq::empty()) =~= "{}"@);
    assert(object_text(more) =~= object_text(members).drop_last() + (if members.len() == 0 {
        ""@
    } else {
        ","@
    }) + json_string(name) + ":"@ + value_as(v) + "}"@);
}

/// The JSON form of an outcome is the object with these members, in this order.
pub proof fn law_outcomes_are_objects(o: OutcomeView)
    ensures
        outcome_json(o) == object_text(
            seq![
                ("exit_code"@, Scalar::Integer(o.exit_code as int)),
                ("timed_out"@, Scalar::Bool(o.timed_out)),
                ("oom_killed"@, Scalar::Bool(o.oom_killed)),
                ("wall_ms"@, Scalar::Integer(o.wall_ms as int)),
                (
                    "peak_mem_kib"@,
                    if o.peak_mem_kib is Some {
                        Scalar::Integer(o.peak_mem_kib->0 as int)
                    } else {
                        Scalar::Null
                    },
                ),
                ("stdout"@, Scalar::Text(o.stdout)),
                ("stderr"@, Scalar::Text(o.stderr)),
            ],
        ),
{
    let members = seq![
        ("exit_code"@, Scalar::Integer(o.exit_code as int)),
        ("timed_out"@, Scalar::Bool(o.timed_out)),
        ("oom_killed"@, Scalar::Bool(o.oom_killed)),
        ("wall_ms"@, Scalar::Integer(o.wall_ms as int)),
        (
            "peak_mem_kib"@,
            if o.peak_mem_kib is Some {
                Scalar::Integer(o.peak_mem_kib->0 as int)
            } else {
                Scalar::Null
            },
        ),
        ("stdout"@, Scalar::Text(o.stdout)),
        ("stderr"@, Scalar::Text(o.stderr)),
    ];
    assert(outcome_members(o) =~= members);
}

/// A value is what it holds: the items of an array in order, and the members of an
/// object by name, of which the last with a name counts.
pub proof fn law_values_are_what_they_hold(
    items: Seq<Json>,
    item: Json,
    members: Seq<(String, Json)>,
    name: String,
)
    ensures
        items_model(Seq::empty()) == Seq::<JsonView>::empty(),
        items_model(items.push(item)) == items_model(items).push(item@),
        members_model(Seq::empty()) == Map::<Seq<char>, JsonView>::empty(),
        members_model(members.push((name, item))) == members_model(members).insert(name@, item@),
{
    assert(items.push(item).drop_last() =~= items);
    assert(members.push((name, item)).drop_last() =~= members);
}

/// What is found in a value: a member where it is an object that has one of that name,
/// a text where it is one, and an unsigned number where it is one.
pub proof fn law_what_is_found(j: &Json, name: &str)
    ensures
        forall|r: Option<&Json>| #[trigger]
            call_ensures(Json::get, (j, name), r) ==> {
                &&& r is Some <==> (j@ matches JsonView::Object(m) && m.contains_key(name@))
                &&& r matches Some(v) ==> v@ == (j@->Object_0)[name@]
            },
        forall|r: Option<&str>| #[trigger]
            call_ensures(Json::as_str, (j,), r) ==> match r {
                Some(s) => j@ == JsonView::Text(s@),
                None => !(j@ is Text),
            },
        forall|r: Option<u64>| #[trigger]
            call_ensures(Json::as_u64, (j,), r) ==> match r {
                Some(n) => j@ matches JsonView::Number(x) && number_as_unsigned(x) == Some(n),
                None => j@ matches JsonView::Number(x) ==> number_as_unsigned(x) is None,
            },
{
}

/// The texts of an array are all of its items, in order, if each of them is a text.
pub proof fn law_texts_are_all_or_none(items: &Vec<Json>, r: Option<Vec<String>>)
    requires
        call_ensures(texts, (items,), r),
    ensures
        r is Some <==> forall|i: int| 0 <= i < items@.len() ==> (#[trigger] items@[i])@ is Text,
        r matches Some(v) ==> v@.len() == items@.len() && forall|i: int|
            0 <= i < v@.len() ==> items@[i]@ == JsonView::Text(#[trigger] v@[i]@),
{
    lemma_items(items@);
    let seen = items_model(items@);
    if let Some(v) = r {
        assert(strings_view(v@).len() == v@.len());
        assert forall|i: int| 0 <= i < v@.len() implies items@[i]@ == JsonView::Text(
            #[trigger] v@[i]@,
        ) by {
            assert(seen[i] == items@[i]@);
            assert(strings_view(v@)[i] == v@[i]@);
        }
        assert forall|i: int| 0 <= i < items@.len() implies (#[trigger] items@[i])@ is Text by {
            assert(seen[i] == items@[i]@);
        }
    } else if forall|i: int| 0 <= i < items@.len() ==> (#[trigger] items@[i])@ is Text {
        assert forall|i: int| 0 <= i < seen.len() implies #[trigger] seen[i] is Text by {
            assert(seen[i] == items@[i]@);
        }
    }
}

/// The items of an array, one by one.
proof fn lemma_items(items: Seq<Json>)
    ensures
        items_model(items).len() == items.len(),
        forall|i: int| 0 <= i < items.len() ==> #[trigger] items_model(items)[i] == items[i]@,
    decreases items.len(),
{
    if items.len() > 0 {
        lemma_items(items.drop_last());
    }
}

} // verus!
