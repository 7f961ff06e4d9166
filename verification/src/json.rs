//! JSON values, and their text form as `serde_json` reads and writes it.
//!
//! The library works on its own type, [`Json`], which is plain data. Text
//! becomes a [`Json`] by way of [`parse`], and a [`Json`] becomes text by way of
//! [`render`]; both hand the work to `serde_json`.
use crate::spelling::{object_text, Scalar};
use crate::text::{chars_of, spells, strings_view};
use vstd::prelude::*;

verus! {

/// A JSON value as `serde_json` holds it.
#[verifier::external_type_specification]
#[verifier::external_body]
pub struct ExValue(serde_json::Value);

/// A JSON number as `serde_json` holds it: an integer or a float.
#[verifier::external_type_specification]
#[verifier::external_body]
pub struct ExNumber(serde_json::Number);

/// A JSON value. Of the members of an object with one name the last one counts.
#[derive(Debug, PartialEq)]
pub enum Json {
    Null,
    Bool(bool),
    Number(serde_json::Number),
    Text(String),
    Array(Vec<Json>),
    Object(Vec<(String, Json)>),
}

/// What a JSON value is, apart from how it is stored.
pub enum JsonView {
    Null,
    Bool(bool),
    Number(serde_json::Number),
    Text(Seq<char>),
    Array(Seq<JsonView>),
    Object(Map<Seq<char>, JsonView>),
}

impl Json {
    /// What the value is.
    pub open spec fn model(self) -> JsonView
        decreases self,
    {
        match self {
            Json::Null => JsonView::Null,
            Json::Bool(b) => JsonView::Bool(b),
            Json::Number(n) => JsonView::Number(n),
            Json::Text(s) => JsonView::Text(s@),
            Json::Array(items) => JsonView::Array(items_model(items@)),
            Json::Object(members) => JsonView::Object(members_model(members@)),
        }
    }
}

impl View for Json {
    type V = JsonView;

    open spec fn view(&self) -> JsonView {
        self.model()
    }
}

/// What the items of an array are.
pub open spec fn items_model(items: Seq<Json>) -> Seq<JsonView>
    decreases items,
{
    if items.len() == 0 {
        Seq::empty()
    } else {
        items_model(items.drop_last()).push(items.last().model())
    }
}

/// What the members of an object are.
pub open spec fn members_model(members: Seq<(String, Json)>) -> Map<Seq<char>, JsonView>
    decreases members,
{
    if members.len() == 0 {
        Map::empty()
    } else {
        members_model(members.drop_last()).insert(members.last().0@, members.last().1.model())
    }
}

/// The member of an object with this name; nothing else has members.
pub open spec fn member(v: JsonView, name: Seq<char>) -> Option<JsonView> {
    match v {
        JsonView::Object(m) => if m.contains_key(name) {
            Some(m[name])
        } else {
            None
        },
        _ => None,
    }
}

/// The unsigned integer that a number is, if it is one: what
/// `serde_json::Number::as_u64` returns.
pub uninterp spec fn number_as_unsigned(n: serde_json::Number) -> Option<u64>;

/// The number that `serde_json` makes of an integer.
pub uninterp spec fn number_of_integer(i: i64) -> serde_json::Number;

/// The contents of a `serde_json::Value`.
pub uninterp spec fn value_contents(v: serde_json::Value) -> JsonView;

/// The JSON value that `serde_json` reads from a text; none if the text is not
/// JSON to it.
pub uninterp spec fn json_parsed(text: Seq<char>) -> Option<JsonView>;

/// The text that `serde_json` writes for a JSON value.
pub uninterp spec fn json_rendered(v: JsonView) -> Seq<char>;

/// Whether a number is an integer.
pub open spec fn is_integer(n: serde_json::Number) -> bool {
    number_as_unsigned(n) is Some || exists|i: i64| n == #[trigger] number_of_integer(i)
}

/// Whether the numbers in a value are all integers and it nests at most `depth`
/// levels deep.
pub open spec fn is_simple(v: JsonView, depth: nat) -> bool
    decreases depth,
{
    match v {
        JsonView::Null | JsonView::Bool(_) | JsonView::Text(_) => true,
        JsonView::Number(n) => is_integer(n),
        JsonView::Array(items) => depth > 0 && forall|i: int|
            0 <= i < items.len() ==> is_simple(#[trigger] items[i], (depth - 1) as nat),
        JsonView::Object(m) => depth > 0 && m.dom().finite() && forall|k: Seq<char>| #[trigger]
            m.contains_key(k) ==> is_simple(m[k], (depth - 1) as nat),
    }
}

/// How deep a value may nest so that it is sure to be read back.
pub const SAFE_DEPTH: u32 = 100;

/// Whether a value is this plain value.
pub open spec fn denotes(v: JsonView, s: Scalar) -> bool {
    match s {
        Scalar::Null => v is Null,
        Scalar::Bool(b) => v == JsonView::Bool(b),
        Scalar::Text(t) => v == JsonView::Text(t),
        Scalar::Integer(i) => v matches JsonView::Number(n) && {
            &&& i64::MIN <= i <= i64::MAX ==> n == number_of_integer(i as i64)
            &&& 0 <= i <= u64::MAX ==> number_as_unsigned(n) == Some(i as u64)
        },
    }
}

/// Whether a value is the object with exactly these members.
pub open spec fn is_object_of(v: JsonView, members: Seq<(Seq<char>, Scalar)>) -> bool {
    v matches JsonView::Object(m) && {
        &&& forall|name: Seq<char>| #[trigger]
            m.contains_key(name) <==> exists|i: int|
                0 <= i < members.len() && (#[trigger] members[i]).0 == name
        &&& forall|i: int|
            0 <= i < members.len() ==> denotes(m[(#[trigger] members[i]).0], members[i].1)
    }
}

/// Whether no two members share a name, and every integer is one that an `i64` or a
/// `u64` can hold.
pub open spec fn is_readable(members: Seq<(Seq<char>, Scalar)>) -> bool {
    &&& forall|i: int, j: int|
        0 <= i < j < members.len() ==> (#[trigger] members[i]).0 != (#[trigger] members[j]).0
    &&& forall|i: int|
        0 <= i < members.len() ==> ((#[trigger] members[i]).1 matches Scalar::Integer(n)
            ==> i64::MIN <= n <= u64::MAX)
}

/// Whether reading `text` gave the object that it spells, where it spells one of
/// plain values.
pub open spec fn keeps_objects(text: Seq<char>, read: Option<JsonView>) -> bool {
    forall|members: Seq<(Seq<char>, Scalar)>|
        text == #[trigger] object_text(members) && is_readable(members) ==> (read matches Some(v)
            && is_object_of(v, members))
}

/// Calls `serde_json::Number::as_u64`, whose result depends on the number alone.
#[verifier::external_body]
fn number_to_u64(n: &serde_json::Number) -> (r: Option<u64>)
    ensures
        r == number_as_unsigned(*n),
{
    n.as_u64()
}

/// Makes a number of an integer by `serde_json::Number::from`. Read back as an
/// unsigned integer it is the integer, unless that is negative.
#[verifier::external_body]
fn integer_to_number(i: i64) -> (r: serde_json::Number)
    ensures
        r == number_of_integer(i),
        number_as_unsigned(r) == if i >= 0 {
            Some(i as u64)
        } else {
            None
        },
{
    serde_json::Number::from(i)
}

/// A `serde_json::Value` taken apart, one level deep.
enum Parts {
    Null,
    Bool(bool),
    Number(serde_json::Number),
    Text(String),
    Array(Vec<serde_json::Value>),
    Object(Vec<(String, serde_json::Value)>),
}

/// What the items of a `serde_json` array are.
spec fn items_contents(items: Seq<serde_json::Value>) -> Seq<JsonView> {
    Seq::new(items.len(), |i: int| value_contents(items[i]))
}

/// What the members of a `serde_json` object are, the last of each name.
spec fn members_contents(members: Seq<(String, serde_json::Value)>) -> Map<Seq<char>, JsonView>
    decreases members.len(),
{
    if members.len() == 0 {
        Map::empty()
    } else {
        members_contents(members.drop_last()).insert(
            members.last().0@,
            value_contents(members.last().1),
        )
    }
}

/// That no two members of a `serde_json` object have one name.
spec fn names_differ(members: Seq<(String, serde_json::Value)>) -> bool {
    forall|i: int, j: int|
        0 <= i < j < members.len() ==> (#[trigger] members[i]).0@ != (#[trigger] members[j]).0@
}

/// Where no two members have one name, each of them counts.
proof fn lemma_each_member_counts(members: Seq<(String, serde_json::Value)>, k: int)
    requires
        names_differ(members),
        0 <= k < members.len(),
    ensures
        members_contents(members).contains_key(members[k].0@),
        members_contents(members)[members[k].0@] == value_contents(members[k].1),
        members_contents(members).dom().finite(),
    decreases members.len(),
{
    let before = members.drop_last();
    if k < before.len() {
        assert(before[k] == members[k]);
        assert(names_differ(before)) by {
            assert forall|i: int, j: int| 0 <= i < j < before.len() implies (
            #[trigger] before[i]).0@ != (#[trigger] before[j]).0@ by {
                assert(before[i] == members[i] && before[j] == members[j]);
            }
        }
        lemma_each_member_counts(before, k);
    } else if before.len() > 0 {
        assert(names_differ(before)) by {
            assert forall|i: int, j: int| 0 <= i < j < before.len() implies (
            #[trigger] before[i]).0@ != (#[trigger] before[j]).0@ by {
                assert(before[i] == members[i] && before[j] == members[j]);
            }
        }
        lemma_each_member_counts(before, 0);
    }
}

impl Parts {
    spec fn model(self) -> JsonView {
        match self {
            Parts::Null => JsonView::Null,
            Parts::Bool(b) => JsonView::Bool(b),
            Parts::Number(n) => JsonView::Number(n),
            Parts::Text(s) => JsonView::Text(s@),
            Parts::Array(items) => JsonView::Array(items_contents(items@)),
            Parts::Object(members) => JsonView::Object(members_contents(members@)),
        }
    }
}

/// Takes a `serde_json::Value` apart: its variant, and what the variant holds.
/// The members of an object are those that the iterator of its
/// `serde_json::Map` yields, each name once.
#[verifier::external_body]
fn take_apart(v: serde_json::Value) -> (r: Parts)
    ensures
        r.model() == value_contents(v),
        r matches Parts::Object(members) ==> names_differ(members@),
{
    match v {
        serde_json::Value::Null => Parts::Null,
        serde_json::Value::Bool(b) => Parts::Bool(b),
        serde_json::Value::Number(n) => Parts::Number(n),
        serde_json::Value::String(s) => Parts::Text(s),
        serde_json::Value::Array(items) => Parts::Array(items),
        serde_json::Value::Object(members) => Parts::Object(members.into_iter().collect()),
    }
}

/// Puts a `serde_json::Value` together. An object is collected into a
/// `serde_json::Map`, in which a later member replaces an earlier one with its
/// name.
#[verifier::external_body]
fn put_together(parts: Parts) -> (r: serde_json::Value)
    ensures
        value_contents(r) == parts.model(),
{
    match parts {
        Parts::Null => serde_json::Value::Null,
        Parts::Bool(b) => serde_json::Value::Bool(b),
        Parts::Number(n) => serde_json::Value::Number(n),
        Parts::Text(s) => serde_json::Value::String(s),
        Parts::Array(items) => serde_json::Value::Array(items),
        Parts::Object(members) => serde_json::Value::Object(members.into_iter().collect()),
    }
}

/// Reads a text by `serde_json::from_str`, into a `serde_json::Value`. What the
/// error says is dropped. A text that spells an object of plain values, with
/// integers that fit and no name twice, is read as that object.
#[verifier::external_body]
fn value_from_text(text: &str) -> (r: Option<serde_json::Value>)
    ensures
        match r {
            Some(v) => json_parsed(text@) == Some(value_contents(v)) && keeps_objects(
                text@,
                Some(value_contents(v)),
            ),
            None => json_parsed(text@) is None && keeps_objects(text@, None),
        },
{
    serde_json::from_str(text).ok()
}

/// Writes a `serde_json::Value` by its `to_string`, the compact form. Control
/// characters inside strings are escaped and none stands between the tokens, so
/// the text holds no line feed. From the text of a value without floats that does
/// not nest too deep for `serde_json::from_str`, that reads the value back. (A
/// float may come back changed in its last digits.)
#[verifier::external_body]
fn value_to_text(v: &serde_json::Value) -> (r: String)
    ensures
        r@ == json_rendered(value_contents(*v)),
        forall|i: int| 0 <= i < r@.len() ==> r@[i] != '\n',
        is_simple(value_contents(*v), SAFE_DEPTH as nat) ==> json_parsed(r@) == Some(
            value_contents(*v),
        ),
{
    v.to_string()
}

/// Turns a `serde_json::Value` into a [`Json`].
fn from_value(v: serde_json::Value) -> (r: Json)
    ensures
        r@ == value_contents(v),
    decreases value_contents(v),
{
    let parts = take_apart(v);
    match parts {
        Parts::Null => Json::Null,
        Parts::Bool(b) => Json::Bool(b),
        Parts::Number(n) => Json::Number(n),
        Parts::Text(s) => Json::Text(s),
        Parts::Array(items) => {
            let ghost all = items@;
            let mut out: Vec<Json> = Vec::new();
            for item in it: items.into_iter()
                invariant
                    it.seq() == all,
                    value_contents(v) == JsonView::Array(items_contents(all)),
                    items_model(out@) == items_contents(all).take(it.index() as int),
            {
                let ghost k = it.index() as int;
                assert(item == all[k]);
                assert(items_contents(all)[k] == value_contents(item));
                assert(decreases_to!(value_contents(v) => value_contents(v)->Array_0));
                assert(decreases_to!(items_contents(all) => items_contents(all)[k]));
                let ghost before = out@;
                let made = from_value(item);
                out.push(made);
                assert(out@.drop_last() =~= before);
                assert(items_contents(all).take(k + 1) =~= items_contents(all).take(k).push(
                    made@,
                ));
            }
            assert(items_contents(all).take(all.len() as int) =~= items_contents(all));
            Json::Array(out)
        },
        Parts::Object(members) => {
            let ghost all = members@;
            let mut out: Vec<(String, Json)> = Vec::new();
            for entry in it: members.into_iter()
                invariant
                    it.seq() == all,
                    value_contents(v) == JsonView::Object(members_contents(all)),
                    names_differ(all),
                    members_model(out@) == members_contents(all.take(it.index() as int)),
            {
                let ghost k = it.index() as int;
                assert(entry == all[k]);
                let (name, value) = entry;
                let ghost before = out@;
                proof {
                    lemma_each_member_counts(all, k);
                }
                assert(decreases_to!(value_contents(v) => value_contents(v)->Object_0));
                assert(decreases_to!(members_contents(all) => members_contents(all)[name@]));
                let made = from_value(value);
                out.push((name, made));
                assert(out@.drop_last() =~= before);
                assert(all.take(k + 1).drop_last() =~= all.take(k));
            }
            assert(all.take(all.len() as int) =~= all);
            Json::Object(out)
        },
    }
}

/// Turns a [`Json`] into a `serde_json::Value`.
fn to_value(j: Json) -> (r: serde_json::Value)
    ensures
        value_contents(r) == j@,
    decreases j,
{
    match j {
        Json::Null => put_together(Parts::Null),
        Json::Bool(b) => put_together(Parts::Bool(b)),
        Json::Number(n) => put_together(Parts::Number(n)),
        Json::Text(s) => put_together(Parts::Text(s)),
        Json::Array(items) => {
            let ghost all = items@;
            let mut out: Vec<serde_json::Value> = Vec::new();
            for item in it: items.into_iter()
                invariant
                    it.seq() == all,
                    j == Json::Array(items),
                    all == items@,
                    items_contents(out@) == items_model(all.take(it.index() as int)),
            {
                let ghost k = it.index() as int;
                let ghost before = out@;
                assert(item == all[k]);
                assert(decreases_to!(j => j->Array_0));
                assert(decreases_to!(j->Array_0 => j->Array_0@));
                assert(decreases_to!(all => all[k]));
                let made = to_value(item);
                out.push(made);
                assert(all.take(k + 1).drop_last() =~= all.take(k));
                assert(items_contents(out@) =~= items_contents(before).push(value_contents(made)));
            }
            assert(all.take(all.len() as int) =~= all);
            put_together(Parts::Array(out))
        },
        Json::Object(members) => {
            let ghost all = members@;
            let mut out: Vec<(String, serde_json::Value)> = Vec::new();
            for entry in it: members.into_iter()
                invariant
                    it.seq() == all,
                    j == Json::Object(members),
                    all == members@,
                    members_contents(out@) == members_model(all.take(it.index() as int)),
            {
                let ghost k = it.index() as int;
                let ghost before = out@;
                assert(entry == all[k]);
                assert(decreases_to!(j => j->Object_0));
                assert(decreases_to!(j->Object_0 => j->Object_0@));
                assert(decreases_to!(all => all[k]));
                let (name, value) = entry;
                let made = to_value(value);
                out.push((name, made));
                assert(all.take(k + 1).drop_last() =~= all.take(k));
                assert(out@.drop_last() =~= before);
            }
            assert(all.take(all.len() as int) =~= all);
            put_together(Parts::Object(out))
        },
    }
}

/// The JSON value that a text spells; none if it spells none. An object of plain
/// values is read as it is written.
pub fn parse(text: &str) -> (r: Option<Json>)
    ensures
        match r {
            Some(j) => json_parsed(text@) == Some(j@) && keeps_objects(text@, Some(j@)),
            None => json_parsed(text@) is None && keeps_objects(text@, None),
        },
{
    match value_from_text(text) {
        Some(v) => Some(from_value(v)),
        None => None,
    }
}

/// The compact text of a JSON value, on one line. A simple value is read back from
/// it as it was.
pub fn render(j: Json) -> (r: String)
    ensures
        r@ == json_rendered(j@),
        forall|i: int| 0 <= i < r@.len() ==> r@[i] != '\n',
        is_simple(j@, SAFE_DEPTH as nat) ==> json_parsed(r@) == Some(j@),
{
    let v = to_value(j);
    value_to_text(&v)
}

impl Json {
    /// The value that is this text.
    pub fn text(s: &str) -> (r: Json)
        ensures
            r@ == JsonView::Text(s@),
    {
        Json::Text(s.to_string())
    }

    /// The value that is this integer.
    pub fn integer(i: i64) -> (r: Json)
        ensures
            r@ == JsonView::Number(number_of_integer(i)),
            unsigned_of(r@) == if i >= 0 {
                Some(i as u64)
            } else {
                None
            },
    {
        Json::Number(integer_to_number(i))
    }

    /// The member of an object with this name, the last one if there are several.
    /// Other values have no members.
    pub fn get(&self, name: &str) -> (r: Option<&Json>)
        ensures
            match r {
                Some(j) => member(self@, name@) == Some(j@),
                None => member(self@, name@) is None,
            },
    {
        match self {
            Json::Object(members) => {
                let wanted = chars_of(name);
                let mut k: usize = members.len();
                assert(members@.take(members@.len() as int) =~= members@);
                while k > 0
                    invariant
                        k <= members@.len(),
                        wanted@ == name@,
                        self@ == JsonView::Object(members_model(members@)),
                        member(self@, name@) == member(
                            JsonView::Object(members_model(members@.take(k as int))),
                            name@,
                        ),
                    decreases k,
                {
                    k = k - 1;
                    assert(members@.take(k + 1).drop_last() =~= members@.take(k as int));
                    if spells(wanted.as_slice(), members[k].0.as_str()) {
                        return Some(&members[k].1);
                    }
                }
                None
            },
            _ => None,
        }
    }

    /// The member of an object with this name, as [`Json::get`] finds it; the rest
    /// of the object is dropped.
    pub fn into_member(self, name: &str) -> (r: Option<Json>)
        ensures
            match r {
                Some(j) => member(self@, name@) == Some(j@),
                None => member(self@, name@) is None,
            },
    {
        match self {
            Json::Object(members) => {
                let wanted = chars_of(name);
                let ghost all = members@;
                let mut rest = members;
                while rest.len() > 0
                    invariant
                        wanted@ == name@,
                        self@ == JsonView::Object(members_model(all)),
                        member(self@, name@) == member(
                            JsonView::Object(members_model(rest@)),
                            name@,
                        ),
                    decreases rest@.len(),
                {
                    let ghost before = rest@;
                    if let Some((other, value)) = rest.pop() {
                        assert(before.drop_last() =~= rest@);
                        if spells(wanted.as_slice(), other.as_str()) {
                            return Some(value);
                        }
                    }
                }
                None
            },
            _ => None,
        }
    }

    /// The text that the value is, if it is one.
    pub fn as_str(&self) -> (r: Option<&str>)
        ensures
            match r {
                Some(s) => self@ == JsonView::Text(s@),
                None => !(self@ is Text),
            },
    {
        match self {
            Json::Text(s) => Some(s.as_str()),
            _ => None,
        }
    }

    /// The unsigned integer that the value is, if it is one.
    pub fn as_u64(&self) -> (r: Option<u64>)
        ensures
            r == unsigned_of(self@),
    {
        match self {
            Json::Number(n) => number_to_u64(n),
            _ => None,
        }
    }
}

/// The unsigned integer that a value is, if it is one.
pub open spec fn unsigned_of(v: JsonView) -> Option<u64> {
    match v {
        JsonView::Number(n) => number_as_unsigned(n),
        _ => None,
    }
}

/// An array of one item.
pub fn list_of_one(a: Json) -> (r: Json)
    ensures
        r@ == JsonView::Array(seq![a@]),
{
    let mut items: Vec<Json> = Vec::new();
    items.push(a);
    assert(items@.drop_last() =~= Seq::<Json>::empty());
    assert(items_model(items@.drop_last()) =~= Seq::<JsonView>::empty());
    assert(items_model(items@) =~= seq![a@]);
    Json::Array(items)
}

/// An array of two items.
pub fn list_of_two(a: Json, b: Json) -> (r: Json)
    ensures
        r@ == JsonView::Array(seq![a@, b@]),
{
    let mut items: Vec<Json> = Vec::new();
    items.push(a);
    assert(items@.drop_last() =~= Seq::<Json>::empty());
    assert(items_model(items@.drop_last()) =~= Seq::<JsonView>::empty());
    assert(items_model(items@) =~= seq![a@]);
    let ghost one = items@;
    items.push(b);
    assert(items@.drop_last() =~= one);
    assert(items_model(items@) =~= seq![a@, b@]);
    Json::Array(items)
}

/// The item of an array.
proof fn lemma_item(items: Seq<Json>, i: int)
    requires
        0 <= i < items.len(),
    ensures
        items_model(items).len() == items.len(),
        items_model(items)[i] == items[i]@,
    decreases items.len(),
{
    let before = items.drop_last();
    if i < before.len() {
        lemma_item(before, i);
    } else if before.len() > 0 {
        lemma_item(before, 0);
    } else {
        assert(items_model(before) =~= Seq::<JsonView>::empty());
    }
}

/// The texts of an array that holds nothing else.
pub open spec fn texts_of(items: Seq<JsonView>) -> Option<Seq<Seq<char>>> {
    if forall|i: int| 0 <= i < items.len() ==> (#[trigger] items[i]) is Text {
        Some(Seq::new(items.len(), |i: int| items[i]->Text_0))
    } else {
        None
    }
}

/// The texts of an array that holds nothing else.
pub fn texts(items: &Vec<Json>) -> (r: Option<Vec<String>>)
    ensures
        match r {
            Some(v) => texts_of(items_model(items@)) == Some(strings_view(v@)),
            None => texts_of(items_model(items@)) is None,
        },
{
    let mut out: Vec<String> = Vec::new();
    let mut k: usize = 0;
    let ghost model = items_model(items@);
    proof {
        if items@.len() > 0 {
            lemma_item(items@, 0);
        }
    }
    while k < items.len()
        invariant
            k <= items@.len(),
            out@.len() == k,
            model == items_model(items@),
            model.len() == items@.len(),
            forall|i: int| 0 <= i < k ==> (#[trigger] model[i]) is Text,
            forall|i: int| 0 <= i < k ==> (#[trigger] out@[i])@ == model[i]->Text_0,
        decreases items@.len() - k,
    {
        proof {
            lemma_item(items@, k as int);
        }
        match items[k].as_str() {
            Some(s) => {
                out.push(s.to_string());
            },
            None => {
                assert(!(model[k as int] is Text));
                return None;
            },
        }
        k += 1;
    }
    assert(texts_of(model)->Some_0 =~= strings_view(out@));
    Some(out)
}

/// Adds a member to those of an object.
pub fn with(members: Vec<(String, Json)>, name: &str, value: Json) -> (r: Vec<(String, Json)>)
    ensures
        members_model(r@) == members_model(members@).insert(name@, value@),
{
    let mut r = members;
    r.push((name.to_string(), value));
    assert(r@.drop_last() =~= members@);
    r
}

} // verus!
