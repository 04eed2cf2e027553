//! The JSON reader and writer, `serde_json`, and the plain values that stand for what it holds.
use crate::floats::float_bits;
use crate::json::{fields, floatless, names_differ, nested_within, plain, Json, Tree};
use crate::text::same;
use serde_json::Value;
use vstd::prelude::*;

verus! {

/// `serde_json::Value`, a JSON value as the reader hands it out. It is carried, never looked into.
#[verifier::external_type_specification]
#[verifier::external_body]
pub struct ExValue(serde_json::Value);

/// What a `serde_json::Value` holds.
pub uninterp spec fn value_tree(v: Value) -> Tree;

/// What `serde_json::from_str` makes of a text: the tree it spells, or the reader's sentence on why
/// it spells none.
pub uninterp spec fn json_read(text: Seq<char>) -> Result<Tree, Seq<char>>;

/// The text in which `serde_json` writes a value, as its `Display` does.
pub uninterp spec fn json_text(value: Tree) -> Seq<char>;

/// How deep the reader follows arrays and objects into one another.
pub const MOST_NESTED: u64 = 127;

/// `serde_json::from_str` into a `Value`. Claimed: which text is read, as what, and with which
/// sentence another is refused, depends on the text alone; and what is read is nested no deeper than
/// the reader follows.
#[verifier::external_body]
fn parse_value(text: &str) -> (r: Result<Value, String>)
    ensures
        match r {
            Ok(v) => json_read(text@) == Ok::<Tree, Seq<char>>(value_tree(v)) && nested_within(
                value_tree(v),
                MOST_NESTED as nat,
            ),
            Err(e) => json_read(text@) == Err::<Tree, Seq<char>>(e@),
        },
{
    serde_json::from_str::<Value>(text).map_err(|e| e.to_string())
}

/// One level of a `serde_json::Value`: what it is, and the values that it is made of.
pub enum Parts {
    Null,
    Bool(bool),
    Unsigned(u64),
    Negative(i64),
    Float(u64),
    Text(String),
    Array(Vec<Value>),
    Object(Vec<(String, Value)>),
}

/// What the values of a list hold.
pub open spec fn held_by(list: Seq<Value>) -> Seq<Tree> {
    Seq::new(list.len(), |i: int| value_tree(list[i]))
}

/// What the fields of a list of them hold.
pub open spec fn held_under(list: Seq<(String, Value)>) -> Map<Seq<char>, Tree>
    decreases list.len(),
{
    if list.len() == 0 {
        Map::empty()
    } else {
        held_under(list.drop_last()).insert(list.last().0@, value_tree(list.last().1))
    }
}

/// What a value holds, from its parts.
pub open spec fn parts_tree(parts: Parts) -> Tree {
    match parts {
        Parts::Null => Tree::Null,
        Parts::Bool(b) => Tree::Bool(b),
        Parts::Unsigned(n) => Tree::Unsigned(n),
        Parts::Negative(n) => Tree::Negative(n),
        Parts::Float(bits) => Tree::Float(bits),
        Parts::Text(s) => Tree::Text(s@),
        Parts::Array(a) => Tree::Array(held_by(a@)),
        Parts::Object(o) => Tree::Object(held_under(o@)),
    }
}

/// No two fields have one name.
pub open spec fn distinct_names(list: Seq<(String, Value)>) -> bool {
    forall|i: int, j: int|
        0 <= i < j < list.len() ==> (#[trigger] list[i]).0@ != (#[trigger] list[j]).0@
}

/// A `serde_json::Value`, variant for variant. A number is told apart by `as_u64`, `as_i64` and
/// `as_f64`. Claimed: what the value holds is what its parts hold, an object has one field of a name,
/// and what `as_i64` alone gives is below zero.
#[verifier::external_body]
fn unpack(v: Value) -> (r: Parts)
    ensures
        value_tree(v) == parts_tree(r),
        r matches Parts::Object(o) ==> distinct_names(o@),
        r matches Parts::Negative(n) ==> n < 0,
{
    match v {
        Value::Null => Parts::Null,
        Value::Bool(b) => Parts::Bool(b),
        Value::Number(n) => match (n.as_u64(), n.as_i64()) {
            (Some(u), _) => Parts::Unsigned(u),
            (None, Some(i)) => Parts::Negative(i),
            (None, None) => Parts::Float(n.as_f64().unwrap_or_default().to_bits()),
        },
        Value::String(s) => Parts::Text(s),
        Value::Array(a) => Parts::Array(a),
        Value::Object(o) => Parts::Object(o.into_iter().collect()),
    }
}

/// Each of the fields is in the object, where no two have one name.
proof fn lemma_held_under(list: Seq<(String, Value)>, i: int)
    requires
        distinct_names(list),
        0 <= i < list.len(),
    ensures
        held_under(list).dom().finite(),
        held_under(list).dom().contains(list[i].0@),
        held_under(list)[list[i].0@] == value_tree(list[i].1),
    decreases list.len(),
{
    let head = list.drop_last();
    assert(list.last() == list[list.len() - 1]);
    if i < list.len() - 1 {
        lemma_held_under(head, i);
    } else if list.len() > 1 {
        lemma_held_under(head, 0);
    } else {
        assert(held_under(head) == Map::<Seq<char>, Tree>::empty());
    }
}

/// A `serde_json::Value` as plain values.
fn json_of(v: Value) -> (r: Json)
    ensures
        r@ == value_tree(v),
        floatless(r@) ==> plain(r),
    decreases value_tree(v),
{
    let ghost whole = value_tree(v);
    match unpack(v) {
        Parts::Null => Json::Null,
        Parts::Bool(b) => Json::Bool(b),
        Parts::Unsigned(n) => Json::Unsigned(n),
        Parts::Negative(n) => Json::Negative(n),
        Parts::Float(bits) => Json::Float(bits),
        Parts::Text(s) => Json::Text(s),
        Parts::Array(a) => {
            let ghost items = a@;
            let mut out: Vec<Json> = Vec::new();
            for x in it: a.into_iter()
                invariant
                    it.seq() == items,
                    whole == value_tree(v),
                    whole == Tree::Array(held_by(items)),
                    out@.len() == it.index(),
                    forall|k: int|
                        0 <= k < it.index() ==> (#[trigger] out@[k])@ == value_tree(items[k]),
                    forall|k: int|
                        0 <= k < it.index() && floatless(value_tree(items[k])) ==> plain(
                            #[trigger] out@[k],
                        ),
            {
                assert(x == items[it.index() as int]);
                assert(decreases_to!(whole => whole->Array_0));
                assert(decreases_to!(whole->Array_0 => whole->Array_0[it.index() as int]));
                out.push(json_of(x));
            }
            let r = Json::array(out);
            assert(r@->Array_0 =~= held_by(items));
            proof {
                if floatless(whole) {
                    assert forall|k: int| 0 <= k < out@.len() implies plain(#[trigger] out@[k]) by {
                        assert(floatless(whole->Array_0[k]));
                    }
                }
            }
            r
        },
        Parts::Object(o) => {
            let ghost items = o@;
            let mut out: Vec<(String, Json)> = Vec::new();
            assert(items.take(0) =~= Seq::<(String, Value)>::empty());
            for x in it: o.into_iter()
                invariant
                    it.seq() == items,
                    whole == value_tree(v),
                    whole == Tree::Object(held_under(items)),
                    distinct_names(items),
                    fields(out@) == held_under(items.take(it.index() as int)),
                    out@.len() == it.index(),
                    forall|k: int|
                        0 <= k < it.index() ==> (#[trigger] out@[k]).0@ == items[k].0@ && (floatless(
                            value_tree(items[k].1),
                        ) ==> plain(out@[k].1)),
            {
                let ghost n = it.index() as int;
                assert(x == items[n]);
                proof {
                    lemma_held_under(items, n);
                    assert(decreases_to!(whole => whole->Object_0));
                    assert(decreases_to!(whole->Object_0 => whole->Object_0[items[n].0@]));
                }
                let ghost before = out@;
                out.push((x.0, json_of(x.1)));
                assert(out@.drop_last() =~= before);
                assert(items.take(n + 1).drop_last() =~= items.take(n));
            }
            assert(items.take(items.len() as int) =~= items);
            proof {
                assert(names_differ(out@)) by {
                    assert forall|a: int, b: int| 0 <= a < b < out@.len() implies (
                    #[trigger] out@[a]).0@ != (#[trigger] out@[b]).0@ by {
                        assert(items[a].0@ != items[b].0@);
                    }
                }
                if floatless(whole) {
                    assert forall|k: int| 0 <= k < out@.len() implies plain(
                        (#[trigger] out@[k]).1,
                    ) by {
                        lemma_held_under(items, k);
                        assert(floatless(whole->Object_0[items[k].0@]));
                    }
                }
            }
            Json::Object(out)
        },
    }
}

/// Whether a value is read again as it was written: no number in it is a float, whose decimal digits
/// may be read as its neighbour, and it is nested no deeper than the reader follows.
pub open spec fn rereads(t: Tree) -> bool {
    floatless(t) && nested_within(t, MOST_NESTED as nat)
}

/// `serde_json::Value`'s `Display`. Claimed: the text depends on what the value holds alone, and
/// `serde_json::from_str` reads a value off it again that is the same, but for floats and for nesting
/// that it does not follow.
#[verifier::external_body]
fn value_text(v: &Value) -> (r: String)
    ensures
        r@ == json_text(value_tree(*v)),
        match json_read(r@) {
            Ok(t) => rereads(value_tree(*v)) ==> t == value_tree(*v),
            Err(_) => !rereads(value_tree(*v)),
        },
{
    v.to_string()
}

/// `serde_json::Number::as_f64` of a whole number, by its IEEE 754 bits. It is the cast of the number
/// to a float, which gives the closest one, and of two that are as close the even one. Claimed: these
/// are the bits of that float.
#[verifier::external_body]
pub(crate) fn bits_of(n: u64) -> (r: u64)
    ensures
        r == float_bits(n),
{
    serde_json::Number::from(n).as_f64().unwrap_or_default().to_bits()
}

/// The value that `text` spells, or the reader's sentence on why it spells none.
pub fn read(text: &str) -> (r: Result<Json, String>)
    ensures
        match r {
            Ok(j) => json_read(text@) == Ok::<Tree, Seq<char>>(j@) && (floatless(j@) ==> plain(j)),
            Err(e) => json_read(text@) == Err::<Tree, Seq<char>>(e@),
        },
{
    match parse_value(text) {
        Ok(v) => Ok(json_of(v)),
        Err(e) => Err(e),
    }
}

/// The value that `text` spells and the text in which the writer would spell it, or the reader's
/// sentence on why it spells none.
pub fn read_and_rewrite(text: &str) -> (r: Result<(Json, String), String>)
    ensures
        match r {
            Ok(p) => {
                &&& json_read(text@) == Ok::<Tree, Seq<char>>(p.0@)
                &&& p.1@ == json_text(p.0@)
                &&& floatless(p.0@) ==> plain(p.0) && json_read(p.1@) == Ok::<Tree, Seq<char>>(p.0@)
            },
            Err(e) => json_read(text@) == Err::<Tree, Seq<char>>(e@),
        },
{
    match parse_value(text) {
        Ok(v) => {
            let written = value_text(&v);
            Ok((json_of(v), written))
        },
        Err(e) => Err(e),
    }
}

/// A `serde_json::Value` made of parts: its variants, `From` for whole numbers, and `Map` from fields
/// of which no two have one name. Claimed: what the value holds is what its parts hold.
#[verifier::external_body]
fn pack(parts: Parts) -> (r: Value)
    requires
        !(parts is Float),
        parts matches Parts::Negative(n) ==> n < 0,
        parts matches Parts::Object(o) ==> distinct_names(o@),
    ensures
        value_tree(r) == parts_tree(parts),
{
    match parts {
        Parts::Null | Parts::Float(_) => Value::Null,
        Parts::Bool(b) => Value::Bool(b),
        Parts::Unsigned(n) => Value::from(n),
        Parts::Negative(n) => Value::from(n),
        Parts::Text(s) => Value::String(s),
        Parts::Array(a) => Value::Array(a),
        Parts::Object(o) => Value::Object(o.into_iter().collect()),
    }
}

/// Whether no two fields of the list have one name.
fn has_distinct_names(o: &Vec<(String, Json)>) -> (r: bool)
    ensures
        r == names_differ(o@),
{
    let mut j: usize = 0;
    while j < o.len()
        invariant
            j <= o@.len(),
            names_differ(o@.take(j as int)),
        decreases o@.len() - j,
    {
        let mut i: usize = 0;
        while i < j
            invariant
                i <= j < o@.len(),
                forall|k: int| 0 <= k < i ==> (#[trigger] o@[k]).0@ != o@[j as int].0@,
            decreases j - i,
        {
            if same(o[i].0.as_str(), o[j].0.as_str()) {
                assert(o@[i as int].0@ == o@[j as int].0@);
                return false;
            }
            i += 1;
        }
        assert forall|a: int, b: int| 0 <= a < b < j + 1 implies (#[trigger] o@.take(j + 1)[a]).0@
            != (#[trigger] o@.take(j + 1)[b]).0@ by {
            if b < j {
                assert(o@.take(j as int)[a].0@ != o@.take(j as int)[b].0@);
            }
        }
        j += 1;
    }
    assert(o@.take(o@.len() as int) =~= o@);
    true
}

/// A plain value as a `serde_json::Value`; `None` for any other.
fn value_of(j: &Json) -> (r: Option<Value>)
    ensures
        match r {
            Some(v) => plain(*j) && value_tree(v) == j@,
            None => !plain(*j),
        },
    decreases j,
{
    match j {
        Json::Null => Some(pack(Parts::Null)),
        Json::Bool(b) => Some(pack(Parts::Bool(*b))),
        Json::Unsigned(n) => Some(pack(Parts::Unsigned(*n))),
        Json::Negative(n) => if *n < 0 {
            Some(pack(Parts::Negative(*n)))
        } else {
            None
        },
        Json::Float(_) => None,
        Json::Text(s) => Some(pack(Parts::Text(s.clone()))),
        Json::Array(a) => {
            let mut out: Vec<Value> = Vec::new();
            let mut i: usize = 0;
            while i < a.len()
                invariant
                    i <= a@.len(),
                    out@.len() == i,
                    *j == Json::Array(*a),
                    forall|k: int| 0 <= k < i ==> plain(#[trigger] a@[k]),
                    forall|k: int| 0 <= k < i ==> value_tree(#[trigger] out@[k]) == a@[k]@,
                    decreases_to!(j => a),
                decreases a@.len() - i,
            {
                match value_of(&a[i]) {
                    Some(v) => out.push(v),
                    None => {
                        proof {
                            if plain(*j) {
                                let items = j->Array_0@;
                                assert(items[i as int] == a@[i as int]);
                                assert(plain(items[i as int]));
                            }
                        }
                        return None;
                    },
                }
                i += 1;
            }
            assert(held_by(out@) =~= j@->Array_0);
            Some(pack(Parts::Array(out)))
        },
        Json::Object(o) => {
            if !has_distinct_names(o) {
                return None;
            }
            let mut out: Vec<(String, Value)> = Vec::new();
            let mut i: usize = 0;
            assert(o@.take(0) =~= Seq::<(String, Json)>::empty());
            while i < o.len()
                invariant
                    i <= o@.len(),
                    out@.len() == i,
                    *j == Json::Object(*o),
                    names_differ(o@),
                    forall|k: int| 0 <= k < i ==> plain((#[trigger] o@[k]).1),
                    forall|k: int| 0 <= k < i ==> (#[trigger] out@[k]).0@ == o@[k].0@,
                    held_under(out@) == fields(o@.take(i as int)),
                    decreases_to!(j => o),
                decreases o@.len() - i,
            {
                assert(decreases_to!(o@[i as int] => o@[i as int].1));
                match value_of(&o[i].1) {
                    Some(v) => {
                        let ghost before = out@;
                        out.push((o[i].0.clone(), v));
                        assert(out@.drop_last() =~= before);
                        assert(o@.take(i + 1).drop_last() =~= o@.take(i as int));
                    },
                    None => {
                        assert(!plain(o@[i as int].1));
                        return None;
                    },
                }
                i += 1;
            }
            assert(o@.take(o@.len() as int) =~= o@);
            assert forall|a: int, b: int| 0 <= a < b < out@.len() implies (#[trigger] out@[a]).0@
                != (#[trigger] out@[b]).0@ by {
                assert(o@[a].0@ != o@[b].0@);
            }
            Some(pack(Parts::Object(out)))
        },
    }
}

/// A plain value as the writer spells it; `None` for any other.
pub fn spell(j: &Json) -> (r: Option<String>)
    ensures
        match r {
            Some(text) => plain(*j) && text@ == json_text(j@) && (rereads(j@) ==> json_read(text@)
                == Ok::<Tree, Seq<char>>(j@)),
            None => !plain(*j),
        },
{
    match value_of(j) {
        Some(v) => Some(value_text(&v)),
        None => None,
    }
}

} // verus!
