//! JSON text: reading and writing it with `serde_json`.
use crate::json;
use crate::json::{Json, JsonView};
use crate::text;
use vstd::prelude::*;

verus! {

/// `serde_json::Value`, the tree that `serde_json` reads into and writes from.
#[verifier::external_type_specification]
#[verifier::external_body]
pub struct ExValue(serde_json::Value);

/// What a `serde_json::Value` holds.
pub uninterp spec fn value_view(v: serde_json::Value) -> JsonView;

/// One level of a `serde_json::Value`.
enum Node {
    Null,
    Bool(bool),
    Num(serde_json::Number),
    Str(String),
    Array(Vec<serde_json::Value>),
    Object(Vec<(String, serde_json::Value)>),
}

/// The members of an object, by name.
spec fn members(v: Seq<(String, serde_json::Value)>) -> Map<Seq<char>, JsonView>
    decreases v.len(),
{
    if v.len() == 0 {
        Map::empty()
    } else {
        members(v.drop_last()).insert(v.last().0@, value_view(v.last().1))
    }
}

impl Node {
    spec fn view(&self) -> JsonView {
        match self {
            Node::Null => JsonView::Null,
            Node::Bool(b) => JsonView::Bool(*b),
            Node::Num(n) => JsonView::Num(json::number_view(*n)),
            Node::Str(s) => JsonView::Str(s@),
            Node::Array(v) => JsonView::Array(v@.map_values(|x: serde_json::Value| value_view(x))),
            Node::Object(v) => JsonView::Object(members(v@)),
        }
    }
}

/// Takes a `serde_json::Value` apart by its variant. An object's members come
/// out of `serde_json::Map::into_iter`, each name once.
#[verifier::external_body]
fn open_value(v: serde_json::Value) -> (r: Node)
    ensures
        r@ == value_view(v),
        r matches Node::Object(m) ==> named_once(m@),
{
    match v {
        serde_json::Value::Null => Node::Null,
        serde_json::Value::Bool(b) => Node::Bool(b),
        serde_json::Value::Number(n) => Node::Num(n),
        serde_json::Value::String(s) => Node::Str(s),
        serde_json::Value::Array(a) => Node::Array(a),
        serde_json::Value::Object(m) => Node::Object(m.into_iter().collect()),
    }
}

/// Whether each name stands once.
spec fn named_once(v: Seq<(String, serde_json::Value)>) -> bool {
    forall|i: int, j: int| 0 <= i < j < v.len() ==> (#[trigger] v[i]).0@ != (#[trigger] v[j]).0@
}

/// Puts a `serde_json::Value` together from one of its variants. The members of
/// an object, each name once, are collected into a `serde_json::Map`.
#[verifier::external_body]
fn close_value(n: Node) -> (r: serde_json::Value)
    requires
        n matches Node::Object(m) ==> named_once(m@),
    ensures
        value_view(r) == n@,
{
    match n {
        Node::Null => serde_json::Value::Null,
        Node::Bool(b) => serde_json::Value::Bool(b),
        Node::Num(n) => serde_json::Value::Number(n),
        Node::Str(s) => serde_json::Value::String(s),
        Node::Array(a) => serde_json::Value::Array(a),
        Node::Object(m) => serde_json::Value::Object(m.into_iter().collect()),
    }
}

/// What `serde_json` reads from a text: the value, or the message of the error.
pub uninterp spec fn parsed(text: Seq<char>) -> Result<JsonView, Seq<char>>;

/// `serde_json::from_str` into a `serde_json::Value`, with the error as its
/// text.
#[verifier::external_body]
fn read_value(text: &str) -> (r: Result<serde_json::Value, String>)
    ensures
        match r {
            Ok(v) => parsed(text@) matches Ok(j) && j == value_view(v),
            Err(e) => parsed(text@) matches Err(m) && m == e@,
        },
{
    serde_json::from_str(text).map_err(|e| e.to_string())
}

/// What `serde_json` reads from bytes: the value, or the message of the error.
pub uninterp spec fn parsed_bytes(bytes: Seq<u8>) -> Result<JsonView, Seq<char>>;

/// `serde_json::from_slice` into a `serde_json::Value`, with the error as its
/// text.
#[verifier::external_body]
fn read_value_bytes(bytes: &[u8]) -> (r: Result<serde_json::Value, String>)
    ensures
        match r {
            Ok(v) => parsed_bytes(bytes@) matches Ok(j) && j == value_view(v),
            Err(e) => parsed_bytes(bytes@) matches Err(m) && m == e@,
        },
{
    serde_json::from_slice(bytes).map_err(|e| e.to_string())
}

/// The text that `serde_json` writes for a value: compact, with the members of
/// each object in the order of their names.
pub uninterp spec fn written(v: JsonView) -> Seq<char>;

/// Whether a value is an object with no members but strings.
pub open spec fn is_flat_text(v: JsonView) -> bool {
    v matches JsonView::Object(m) && forall|k: Seq<char>|
        m.contains_key(k) ==> #[trigger] m[k] is Str
}

/// Whether `serde_json` reads `text` as `v`.
pub open spec fn reads_as(text: Seq<char>, v: JsonView) -> bool {
    parsed(text) == Ok::<JsonView, Seq<char>>(v)
}

/// `to_string` on a `serde_json::Value` writes it as compact JSON text. Strings
/// are escaped so that reading gives them back: an object with no members but
/// strings is what its text reads as.
#[verifier::external_body]
fn write_value(v: &serde_json::Value) -> (r: String)
    ensures
        r@ == written(value_view(*v)),
        is_flat_text(value_view(*v)) ==> reads_as(r@, value_view(*v)),
{
    v.to_string()
}

/// Where each name stands once, it names the value that stands with it.
proof fn members_at(v: Seq<(String, serde_json::Value)>, i: int)
    requires
        0 <= i < v.len(),
        named_once(v),
    ensures
        members(v).contains_key(v[i].0@),
        members(v)[v[i].0@] == value_view(v[i].1),
    decreases v.len(),
{
    if i < v.len() - 1 {
        members_at(v.drop_last(), i);
        assert(v[i].0@ != v[v.len() - 1].0@);
    }
}

/// Giving a member another value inserts that value.
proof fn members_set(v: Seq<(String, serde_json::Value)>, p: int, e: (String, serde_json::Value))
    requires
        0 <= p < v.len(),
        named_once(v),
        v[p].0@ == e.0@,
    ensures
        members(v.update(p, e)) == members(v).insert(e.0@, value_view(e.1)),
        named_once(v.update(p, e)),
    decreases v.len(),
{
    broadcast use vstd::map::group_map_axioms;

    let n = v.len() - 1;
    let w = v.update(p, e);
    let front = v.drop_last();
    let x = value_view(e.1);
    if p == n {
        assert(w.drop_last() =~= front);
        assert(members(front).insert(e.0@, x) =~= members(v).insert(e.0@, x));
    } else {
        members_set(front, p, e);
        assert(w.drop_last() =~= front.update(p, e));
        assert(v[p].0@ != v[n].0@);
        let y = value_view(v[n].1);
        assert(members(front).insert(e.0@, x).insert(v[n].0@, y) =~= members(front).insert(
            v[n].0@,
            y,
        ).insert(e.0@, x));
    }
}

/// Where the member of a name stands, if there is one.
fn find_member(v: &Vec<(String, serde_json::Value)>, key: &str) -> (r: Option<usize>)
    ensures
        match r {
            Some(p) => p < v@.len() && v@[p as int].0@ == key@,
            None => forall|k: int| 0 <= k < v@.len() ==> (#[trigger] v@[k]).0@ != key@,
        },
{
    let mut i: usize = 0;
    while i < v.len()
        invariant
            i <= v@.len(),
            forall|k: int| 0 <= k < i ==> (#[trigger] v@[k]).0@ != key@,
        decreases v@.len() - i,
    {
        if text::same_text(v[i].0.as_str(), key) {
            return Some(i);
        }
        i = i + 1;
    }
    None
}

/// A `Json` of what a `serde_json::Value` holds.
pub fn from_value(v: serde_json::Value) -> (r: Json)
    ensures
        r@ == value_view(v),
    decreases value_view(v),
{
    broadcast use vstd::map::group_map_axioms;

    match open_value(v) {
        Node::Null => Json::Null,
        Node::Bool(b) => Json::Bool(b),
        Node::Num(n) => Json::Num(n),
        Node::Str(s) => Json::Str(s),
        Node::Array(mut a) => {
            let ghost all = a@;
            let ghost views = all.map_values(|x: serde_json::Value| value_view(x));
            let mut out: Vec<Json> = Vec::new();
            while a.len() > 0
                invariant
                    value_view(v) == JsonView::Array(views),
                    views == all.map_values(|x: serde_json::Value| value_view(x)),
                    a@.len() + out@.len() == all.len(),
                    a@ == all.skip(out@.len() as int),
                    forall|k: int| 0 <= k < out@.len() ==> (#[trigger] out@[k])@ == views[k],
                decreases a@.len(),
            {
                let ghost k = out@.len() as int;
                let x = a.remove(0);
                proof {
                    assert(x == all[k]);
                    assert(views[k] == value_view(x));
                    assert(decreases_to!(value_view(v) => value_view(v)->Array_0[k]));
                    assert(all.skip(k).remove(0) =~= all.skip(k + 1));
                }
                out.push(from_value(x));
            }
            assert(json::items_view(out@) =~= views);
            Json::Array(out)
        },
        Node::Object(mut m) => {
            let ghost all = m@;
            let mut out: Vec<(String, Json)> = Vec::new();
            assert(all.take(0) =~= Seq::<(String, serde_json::Value)>::empty());
            while m.len() > 0
                invariant
                    value_view(v) == JsonView::Object(members(all)),
                    m@.len() + out@.len() == all.len(),
                    m@ == all.skip(out@.len() as int),
                    json::entries_view(out@) == members(all.take(out@.len() as int)),
                    named_once(all),
                decreases m@.len(),
            {
                let ghost k = out@.len() as int;
                let e = m.remove(0);
                proof {
                    assert(e == all[k]);
                    assert(all.skip(k).remove(0) =~= all.skip(k + 1));
                    assert(all.take(k + 1).drop_last() =~= all.take(k));
                    assert(all.take(k + 1).last() == e);
                    members_at(all, k);
                    assert(decreases_to!(value_view(v) => value_view(v)->Object_0[e.0@]));
                }
                let j = from_value(e.1);
                let pair = (e.0, j);
                proof {
                    json::entries_push(out@, pair);
                }
                out.push(pair);
            }
            assert(all.take(all.len() as int) =~= all);
            Json::Object(out)
        },
    }
}

/// A `serde_json::Value` that holds what a `Json` says. Of members of one name
/// the last counts.
pub fn to_value(j: &Json) -> (r: serde_json::Value)
    ensures
        value_view(r) == j@,
    decreases j,
{
    match j {
        Json::Null => close_value(Node::Null),
        Json::Bool(b) => close_value(Node::Bool(*b)),
        Json::Num(n) => close_value(Node::Num(json::clone_number(n))),
        Json::Str(s) => close_value(Node::Str(s.clone())),
        Json::Array(v) => {
            let mut out: Vec<serde_json::Value> = Vec::new();
            let mut i: usize = 0;
            while i < v.len()
                invariant
                    *j == Json::Array(*v),
                    i <= v@.len(),
                    out@.len() == i,
                    forall|k: int| 0 <= k < i ==> value_view(#[trigger] out@[k]) == v@[k]@,
                decreases v@.len() - i,
            {
                assert(decreases_to!(*j => j->Array_0@[i as int]));
                out.push(to_value(&v[i]));
                i = i + 1;
            }
            assert(out@.map_values(|x: serde_json::Value| value_view(x)) =~= json::items_view(v@));
            close_value(Node::Array(out))
        },
        Json::Object(v) => {
            let mut out: Vec<(String, serde_json::Value)> = Vec::new();
            let mut i: usize = 0;
            assert(v@.subrange(0, 0) =~= Seq::<(String, Json)>::empty());
            while i < v.len()
                invariant
                    *j == Json::Object(*v),
                    i <= v@.len(),
                    named_once(out@),
                    members(out@) == json::entries_view(v@.subrange(0, i as int)),
                decreases v@.len() - i,
            {
                assert(decreases_to!(*j => j->Object_0@[i as int].1));
                let e = (v[i].0.clone(), to_value(&v[i].1));
                proof {
                    let front = v@.subrange(0, i as int);
                    json::entries_push(front, v@[i as int]);
                    assert(front.push(v@[i as int]) =~= v@.subrange(0, i + 1));
                    assert(out@.push(e).drop_last() =~= out@);
                }
                match find_member(&out, e.0.as_str()) {
                    Some(p) => {
                        proof {
                            members_set(out@, p as int, e);
                        }
                        out.set(p, e);
                    },
                    None => {
                        out.push(e);
                    },
                }
                i = i + 1;
            }
            assert(v@.subrange(0, v@.len() as int) =~= v@);
            close_value(Node::Object(out))
        },
    }
}

/// Reads a JSON text.
pub fn parse(text: &str) -> (r: Result<Json, String>)
    ensures
        match r {
            Ok(j) => parsed(text@) == Ok::<JsonView, Seq<char>>(j@),
            Err(e) => parsed(text@) == Err::<JsonView, Seq<char>>(e@),
        },
{
    match read_value(text) {
        Ok(v) => Ok(from_value(v)),
        Err(e) => Err(e),
    }
}

/// Reads a JSON text in its encoded form.
pub fn parse_bytes(bytes: &[u8]) -> (r: Result<Json, String>)
    ensures
        match r {
            Ok(j) => parsed_bytes(bytes@) == Ok::<JsonView, Seq<char>>(j@),
            Err(e) => parsed_bytes(bytes@) == Err::<JsonView, Seq<char>>(e@),
        },
{
    match read_value_bytes(bytes) {
        Ok(v) => Ok(from_value(v)),
        Err(e) => Err(e),
    }
}

/// Writes a value as compact JSON text, with the members of each object in the
/// order of their names.
pub fn write(j: &Json) -> (r: String)
    ensures
        r@ == written(j@),
        is_flat_text(j@) ==> reads_as(r@, j@),
{
    let v = to_value(j);
    write_value(&v)
}

} // verus!
