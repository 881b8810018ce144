//! JSON values.
//!
//! A `Json` is a tree of plain values. Its view is a `JsonView`, in which an
//! object is a map: the order of its members is of no account, and the last
//! member of a given name is the one that counts.
use crate::text;
use vstd::prelude::*;
use vstd::string::*;

verus! {

// ---------------------------------------------------------------------------
// Numbers
// ---------------------------------------------------------------------------

/// A number as `serde_json` keeps it: a non-negative integer, a negative one,
/// or a finite floating-point number, by its bits.
pub enum NumberView {
    PosInt(u64),
    NegInt(i64),
    Float(u64),
}

/// `serde_json::Number`, carried through unread but for what is stated below.
#[verifier::external_type_specification]
#[verifier::external_body]
pub struct ExNumber(serde_json::Number);

/// What a `serde_json::Number` holds.
pub uninterp spec fn number_view(n: serde_json::Number) -> NumberView;

/// The `u64` that a number is, where it is one.
pub open spec fn number_as_u64(n: NumberView) -> Option<u64> {
    match n {
        NumberView::PosInt(u) => Some(u),
        _ => None,
    }
}

/// Whether bits are those of a floating-point zero, of either sign.
pub open spec fn zero_bits(b: u64) -> bool {
    b == 0 || b == 0x8000_0000_0000_0000
}

/// Whether two numbers are equal: integers by their values, floating-point
/// numbers as IEEE 754 has it, which tells the two zeros from nothing.
pub open spec fn numbers_agree(a: NumberView, b: NumberView) -> bool {
    match (a, b) {
        (NumberView::PosInt(x), NumberView::PosInt(y)) => x == y,
        (NumberView::NegInt(x), NumberView::NegInt(y)) => x == y,
        (NumberView::Float(x), NumberView::Float(y)) => x == y || (zero_bits(x) && zero_bits(y)),
        _ => false,
    }
}

/// `serde_json::Number::as_u64` gives the value of a non-negative integer, and
/// nothing for any other number.
pub assume_specification[ serde_json::Number::as_u64 ](n: &serde_json::Number) -> (r: Option<u64>)
    ensures
        r == number_as_u64(number_view(*n)),
;

/// `clone` on a `serde_json::Number` gives a number that holds the same.
#[verifier::external_body]
pub(crate) fn clone_number(n: &serde_json::Number) -> (r: serde_json::Number)
    ensures
        number_view(r) == number_view(*n),
{
    n.clone()
}

/// `==` on `serde_json::Number` compares numbers of one kind by their values;
/// numbers of different kinds are never equal.
#[verifier::external_body]
fn same_number(a: &serde_json::Number, b: &serde_json::Number) -> (r: bool)
    ensures
        r == numbers_agree(number_view(*a), number_view(*b)),
{
    a == b
}

/// `serde_json::Number::from` on a `u64` gives the non-negative integer.
#[verifier::external_body]
fn number_of(n: u64) -> (r: serde_json::Number)
    ensures
        number_view(r) == NumberView::PosInt(n),
{
    serde_json::Number::from(n)
}

// ---------------------------------------------------------------------------
// Values and their views
// ---------------------------------------------------------------------------

/// A JSON value. The members of an object stand in the order in which they
/// were added.
#[derive(Debug)]
pub enum Json {
    Null,
    Bool(bool),
    Num(serde_json::Number),
    Str(String),
    Array(Vec<Json>),
    Object(Vec<(String, Json)>),
}

/// What a JSON value says.
#[verifier::ext_equal]
pub enum JsonView {
    Null,
    Bool(bool),
    Num(NumberView),
    Str(Seq<char>),
    Array(Seq<JsonView>),
    Object(Map<Seq<char>, JsonView>),
}

/// The views of the items of an array.
pub open spec fn items_view(v: Seq<Json>) -> Seq<JsonView>
    decreases v,
{
    Seq::new(
        v.len(),
        |i: int|
            if 0 <= i < v.len() {
                v[i].view()
            } else {
                JsonView::Null
            },
    )
}

/// The members of an object, by name.
pub open spec fn entries_view(v: Seq<(String, Json)>) -> Map<Seq<char>, JsonView>
    decreases v,
{
    if v.len() == 0 {
        Map::empty()
    } else {
        let last = v[v.len() - 1];
        entries_view(v.subrange(0, v.len() - 1)).insert(last.0@, last.1.view())
    }
}

impl Json {
    pub open spec fn view(&self) -> JsonView
        decreases self,
    {
        match self {
            Json::Null => JsonView::Null,
            Json::Bool(b) => JsonView::Bool(*b),
            Json::Num(n) => JsonView::Num(number_view(*n)),
            Json::Str(s) => JsonView::Str(s@),
            Json::Array(v) => JsonView::Array(items_view(v@)),
            Json::Object(v) => JsonView::Object(entries_view(v@)),
        }
    }
}

// ---------------------------------------------------------------------------
// What a view says
// ---------------------------------------------------------------------------

impl JsonView {
    /// The object without members.
    pub open spec fn object() -> JsonView {
        JsonView::Object(Map::empty())
    }

    /// An object with one member more, or with another value for it; anything
    /// else unchanged.
    pub open spec fn with(self, key: Seq<char>, value: JsonView) -> JsonView {
        match self {
            JsonView::Object(m) => JsonView::Object(m.insert(key, value)),
            _ => self,
        }
    }

    /// An object without one of its members; anything else unchanged.
    pub open spec fn without(self, key: Seq<char>) -> JsonView {
        match self {
            JsonView::Object(m) => JsonView::Object(m.remove(key)),
            _ => self,
        }
    }

    /// The member of an object by its name.
    pub open spec fn get(self, key: Seq<char>) -> Option<JsonView> {
        match self {
            JsonView::Object(m) => if m.contains_key(key) {
                Some(m[key])
            } else {
                None
            },
            _ => None,
        }
    }

    pub open spec fn as_str(self) -> Option<Seq<char>> {
        match self {
            JsonView::Str(s) => Some(s),
            _ => None,
        }
    }

    pub open spec fn as_array(self) -> Option<Seq<JsonView>> {
        match self {
            JsonView::Array(v) => Some(v),
            _ => None,
        }
    }

    pub open spec fn as_u64(self) -> Option<u64> {
        match self {
            JsonView::Num(n) => number_as_u64(n),
            _ => None,
        }
    }

    pub open spec fn as_bool(self) -> Option<bool> {
        match self {
            JsonView::Bool(b) => Some(b),
            _ => None,
        }
    }

    /// The member by its name, where it is a string.
    pub open spec fn get_str(self, key: Seq<char>) -> Option<Seq<char>> {
        match self.get(key) {
            Some(v) => v.as_str(),
            None => None,
        }
    }

    /// The member by its name, where it is a string; else `default`.
    pub open spec fn str_or(self, key: Seq<char>, default: Seq<char>) -> Seq<char> {
        match self.get_str(key) {
            Some(s) => s,
            None => default,
        }
    }

    /// The member by its name, where it is an array.
    pub open spec fn get_array(self, key: Seq<char>) -> Option<Seq<JsonView>> {
        match self.get(key) {
            Some(v) => v.as_array(),
            None => None,
        }
    }

    /// The items of the member by its name: none where it is no array.
    pub open spec fn items_at(self, key: Seq<char>) -> Seq<JsonView> {
        match self.get_array(key) {
            Some(v) => v,
            None => Seq::empty(),
        }
    }

    /// The member by its name, where it is a non-negative integer.
    pub open spec fn get_u64(self, key: Seq<char>) -> Option<u64> {
        match self.get(key) {
            Some(v) => v.as_u64(),
            None => None,
        }
    }

    /// The member by its name, where it is a boolean.
    pub open spec fn get_bool(self, key: Seq<char>) -> Option<bool> {
        match self.get(key) {
            Some(v) => v.as_bool(),
            None => None,
        }
    }

    /// The member `inner` of the member `outer`.
    pub open spec fn get_in(self, outer: Seq<char>, inner: Seq<char>) -> Option<JsonView> {
        match self.get(outer) {
            Some(v) => v.get(inner),
            None => None,
        }
    }

    /// The member `inner` of the member `outer`, where it is a string.
    pub open spec fn get_str_in(self, outer: Seq<char>, inner: Seq<char>) -> Option<Seq<char>> {
        match self.get_in(outer, inner) {
            Some(v) => v.as_str(),
            None => None,
        }
    }

    /// Whether the member by that name is the string `s`.
    pub open spec fn says(self, key: Seq<char>, s: Seq<char>) -> bool {
        self.get_str(key) == Some(s)
    }

    /// A non-negative integer.
    pub open spec fn number(n: u64) -> JsonView {
        JsonView::Num(NumberView::PosInt(n))
    }

    /// A value where there is one, else null.
    pub open spec fn or_null(v: Option<JsonView>) -> JsonView {
        match v {
            Some(v) => v,
            None => JsonView::Null,
        }
    }
}

/// The view of a value that may be absent.
pub open spec fn opt_view(v: Option<&Json>) -> Option<JsonView> {
    match v {
        Some(v) => Some(v.view()),
        None => None,
    }
}

/// The views of the items of an array that may be absent.
pub open spec fn opt_items(v: Option<&Vec<Json>>) -> Option<Seq<JsonView>> {
    match v {
        Some(v) => Some(items_view(v@)),
        None => None,
    }
}

/// Adding an item at the end adds its view at the end.
pub proof fn items_push(v: Seq<Json>, x: Json)
    ensures
        items_view(v.push(x)) == items_view(v).push(x.view()),
{
    assert(items_view(v.push(x)) =~= items_view(v).push(x.view()));
}

/// Adding a member at the end inserts it.
pub proof fn entries_push(v: Seq<(String, Json)>, e: (String, Json))
    ensures
        entries_view(v.push(e)) == entries_view(v).insert(e.0@, e.1.view()),
{
    assert(v.push(e).subrange(0, v.len() as int) =~= v);
}

/// Taking out a member named `key` changes nothing but that member.
proof fn entries_remove(v: Seq<(String, Json)>, i: int, key: Seq<char>)
    requires
        0 <= i < v.len(),
        v[i].0@ == key,
    ensures
        entries_view(v.remove(i)).remove(key) == entries_view(v).remove(key),
    decreases v.len(),
{
    let n = v.len() - 1;
    let front = v.subrange(0, n);
    if i == n {
        assert(v.remove(i) =~= front);
        assert(entries_view(front).insert(key, v[n].1.view()).remove(key) =~= entries_view(
            front,
        ).remove(key));
    } else {
        entries_remove(front, i, key);
        let w = v.remove(i);
        assert(w.subrange(0, w.len() - 1) =~= front.remove(i));
        assert(w[w.len() - 1] == v[n]);
        let k = v[n].0@;
        let x = v[n].1.view();
        let a = entries_view(front.remove(i));
        let b = entries_view(front);
        if k == key {
            assert(a.insert(k, x).remove(key) =~= a.remove(key));
            assert(b.insert(k, x).remove(key) =~= b.remove(key));
        } else {
            assert(a.insert(k, x).remove(key) =~= a.remove(key).insert(k, x));
            assert(b.insert(k, x).remove(key) =~= b.remove(key).insert(k, x));
        }
    }
}

/// Where no member is named `key`, the map has no such key.
proof fn entries_absent(v: Seq<(String, Json)>, key: Seq<char>)
    requires
        forall|i: int| 0 <= i < v.len() ==> (#[trigger] v[i]).0@ != key,
    ensures
        !entries_view(v).contains_key(key),
    decreases v.len(),
{
    if v.len() > 0 {
        let front = v.subrange(0, v.len() - 1);
        assert forall|i: int| 0 <= i < front.len() implies (#[trigger] front[i]).0@ != key by {
            assert(front[i] == v[i]);
        }
        entries_absent(front, key);
        assert(v[v.len() - 1].0@ != key);
    }
}

/// Every member's name is a key.
pub proof fn entries_present(v: Seq<(String, Json)>, i: int)
    requires
        0 <= i < v.len(),
    ensures
        entries_view(v).contains_key(v[i].0@),
    decreases v.len(),
{
    let front = v.subrange(0, v.len() - 1);
    if i < v.len() - 1 {
        entries_present(front, i);
        assert(front[i] == v[i]);
    }
}

/// Every key is some member's name.
pub proof fn entries_key(v: Seq<(String, Json)>, key: Seq<char>) -> (i: int)
    requires
        entries_view(v).contains_key(key),
    ensures
        0 <= i < v.len(),
        v[i].0@ == key,
    decreases v.len(),
{
    if v.len() == 0 {
        0
    } else if v[v.len() - 1].0@ == key {
        v.len() - 1
    } else {
        let front = v.subrange(0, v.len() - 1);
        let i = entries_key(front, key);
        assert(front[i] == v[i]);
        i
    }
}

// ---------------------------------------------------------------------------
// Reading and building values
// ---------------------------------------------------------------------------

/// The last member named `key`.
fn find_entry<'a>(v: &'a Vec<(String, Json)>, key: &str) -> (r: Option<&'a Json>)
    ensures
        opt_view(r) == JsonView::Object(entries_view(v@)).get(key@),
        r matches Some(j) ==> exists|i: int| 0 <= i < v@.len() && (#[trigger] v@[i]).1 == *j,
{
    let mut i: usize = v.len();
    assert(v@.subrange(0, i as int) =~= v@);
    while i > 0
        invariant
            i <= v@.len(),
            JsonView::Object(entries_view(v@.subrange(0, i as int))).get(key@) == JsonView::Object(
                entries_view(v@),
            ).get(key@),
        decreases i,
    {
        let ghost w = v@.subrange(0, i as int);
        assert(w.subrange(0, i - 1) =~= v@.subrange(0, i - 1));
        assert(w[i - 1] == v@[i - 1]);
        i = i - 1;
        if text::same_text(v[i].0.as_str(), key) {
            return Some(&v[i].1);
        }
    }
    None
}

impl Json {
    /// The object without members.
    pub fn object() -> (r: Json)
        ensures
            r@ == JsonView::object(),
    {
        Json::Object(Vec::new())
    }

    /// The string `s`.
    pub fn string(s: &str) -> (r: Json)
        ensures
            r@ == JsonView::Str(s@),
    {
        Json::Str(s.to_owned())
    }

    /// The non-negative integer `n`.
    pub fn number(n: u64) -> (r: Json)
        ensures
            r@ == JsonView::number(n),
    {
        Json::Num(number_of(n))
    }

    /// Gives an object one member more, or another value for it.
    pub fn set(&mut self, key: &str, value: Json)
        ensures
            final(self)@ == old(self)@.with(key@, value@),
    {
        self.unset(key);
        if let Json::Object(v) = self {
            let ghost before = v@;
            let e = (key.to_owned(), value);
            proof {
                entries_push(before, e);
            }
            v.push(e);
            assert(old(self)@ matches JsonView::Object(m) && m.remove(key@).insert(key@, value@)
                =~= m.insert(key@, value@));
        }
    }

    /// Takes a member out of an object.
    pub fn unset(&mut self, key: &str)
        ensures
            final(self)@ == old(self)@.without(key@),
    {
        if let Json::Object(v) = self {
            let ghost m = entries_view(v@);
            let mut i: usize = v.len();
            while i > 0
                invariant
                    i <= v@.len(),
                    entries_view(v@).remove(key@) == m.remove(key@),
                    forall|k: int| i <= k < v@.len() ==> (#[trigger] v@[k]).0@ != key@,
                decreases i,
            {
                i = i - 1;
                if text::same_text(v[i].0.as_str(), key) {
                    proof {
                        entries_remove(v@, i as int, key@);
                    }
                    let _ = v.remove(i);
                }
            }
            proof {
                entries_absent(v@, key@);
                assert(entries_view(v@).remove(key@) =~= entries_view(v@));
            }
        }
    }

    /// An object with one member more, or with another value for it.
    pub fn with(self, key: &str, value: Json) -> (r: Json)
        ensures
            r@ == self@.with(key@, value@),
    {
        let mut r = self;
        r.set(key, value);
        r
    }

    /// The member of an object by its name.
    pub fn get(&self, key: &str) -> (r: Option<&Json>)
        ensures
            opt_view(r) == self@.get(key@),
    {
        match self {
            Json::Object(v) => find_entry(v, key),
            _ => None,
        }
    }

    pub fn as_str(&self) -> (r: Option<&str>)
        ensures
            text::opt_text(r) == self@.as_str(),
    {
        match self {
            Json::Str(s) => Some(s.as_str()),
            _ => None,
        }
    }

    pub fn as_array(&self) -> (r: Option<&Vec<Json>>)
        ensures
            opt_items(r) == self@.as_array(),
    {
        match self {
            Json::Array(v) => Some(v),
            _ => None,
        }
    }

    pub fn as_u64(&self) -> (r: Option<u64>)
        ensures
            r == self@.as_u64(),
    {
        match self {
            Json::Num(n) => n.as_u64(),
            _ => None,
        }
    }

    pub fn as_bool(&self) -> (r: Option<bool>)
        ensures
            r == self@.as_bool(),
    {
        match self {
            Json::Bool(b) => Some(*b),
            _ => None,
        }
    }

    pub fn is_null(&self) -> (r: bool)
        ensures
            r == (self@ is Null),
    {
        match self {
            Json::Null => true,
            _ => false,
        }
    }

    pub fn is_object(&self) -> (r: bool)
        ensures
            r == (self@ is Object),
    {
        match self {
            Json::Object(_) => true,
            _ => false,
        }
    }

    /// The member by its name, where it is a string.
    pub fn get_str(&self, key: &str) -> (r: Option<&str>)
        ensures
            text::opt_text(r) == self@.get_str(key@),
    {
        match self.get(key) {
            Some(v) => v.as_str(),
            None => None,
        }
    }

    /// The member by its name, where it is a string; else `default`.
    pub fn str_or<'a>(&'a self, key: &str, default: &'a str) -> (r: &'a str)
        ensures
            r@ == self@.str_or(key@, default@),
    {
        match self.get_str(key) {
            Some(s) => s,
            None => default,
        }
    }

    /// The member by its name, where it is an array.
    pub fn get_array(&self, key: &str) -> (r: Option<&Vec<Json>>)
        ensures
            opt_items(r) == self@.get_array(key@),
    {
        match self.get(key) {
            Some(v) => v.as_array(),
            None => None,
        }
    }

    /// The member by its name, where it is a non-negative integer.
    pub fn get_u64(&self, key: &str) -> (r: Option<u64>)
        ensures
            r == self@.get_u64(key@),
    {
        match self.get(key) {
            Some(v) => v.as_u64(),
            None => None,
        }
    }

    /// The member by its name, where it is a boolean.
    pub fn get_bool(&self, key: &str) -> (r: Option<bool>)
        ensures
            r == self@.get_bool(key@),
    {
        match self.get(key) {
            Some(v) => v.as_bool(),
            None => None,
        }
    }

    /// The member `inner` of the member `outer`.
    pub fn get_in(&self, outer: &str, inner: &str) -> (r: Option<&Json>)
        ensures
            opt_view(r) == self@.get_in(outer@, inner@),
    {
        match self.get(outer) {
            Some(v) => v.get(inner),
            None => None,
        }
    }

    /// The member `inner` of the member `outer`, where it is a string.
    pub fn get_str_in(&self, outer: &str, inner: &str) -> (r: Option<&str>)
        ensures
            text::opt_text(r) == self@.get_str_in(outer@, inner@),
    {
        match self.get_in(outer, inner) {
            Some(v) => v.as_str(),
            None => None,
        }
    }

    /// Whether the member by that name is the string `s`.
    pub fn says(&self, key: &str, s: &str) -> (r: bool)
        ensures
            r == self@.says(key@, s@),
    {
        text::is_text(self.get_str(key), s)
    }

    /// Another value that says the same.
    pub fn copy(&self) -> (r: Json)
        ensures
            r@ == self@,
        decreases self,
    {
        match self {
            Json::Null => Json::Null,
            Json::Bool(b) => Json::Bool(*b),
            Json::Num(n) => Json::Num(clone_number(n)),
            Json::Str(s) => Json::Str(s.clone()),
            Json::Array(v) => {
                let mut out: Vec<Json> = Vec::new();
                let mut i: usize = 0;
                while i < v.len()
                    invariant
                        *self == Json::Array(*v),
                        i <= v@.len(),
                        out@.len() == i,
                        forall|k: int| 0 <= k < i ==> (#[trigger] out@[k]).view() == v@[k].view(),
                    decreases v@.len() - i,
                {
                    assert(decreases_to!(*self => self->Array_0@[i as int]));
                    out.push(v[i].copy());
                    i = i + 1;
                }
                assert(items_view(out@) =~= items_view(v@));
                Json::Array(out)
            },
            Json::Object(v) => {
                let mut out: Vec<(String, Json)> = Vec::new();
                let mut i: usize = 0;
                assert(v@.subrange(0, 0) =~= Seq::<(String, Json)>::empty());
                while i < v.len()
                    invariant
                        *self == Json::Object(*v),
                        i <= v@.len(),
                        entries_view(out@) == entries_view(v@.subrange(0, i as int)),
                    decreases v@.len() - i,
                {
                    assert(decreases_to!(*self => self->Object_0@[i as int].1));
                    let e = (v[i].0.clone(), v[i].1.copy());
                    proof {
                        entries_push(out@, e);
                        entries_push(v@.subrange(0, i as int), v@[i as int]);
                        assert(v@.subrange(0, i as int).push(v@[i as int]) =~= v@.subrange(
                            0,
                            i + 1,
                        ));
                    }
                    out.push(e);
                    i = i + 1;
                }
                assert(v@.subrange(0, v@.len() as int) =~= v@);
                Json::Object(out)
            },
        }
    }

    /// Another value that says the same as `v`; null where there is none.
    pub fn copy_or_null(v: Option<&Json>) -> (r: Json)
        ensures
            r@ == JsonView::or_null(opt_view(v)),
    {
        match v {
            Some(v) => v.copy(),
            None => Json::Null,
        }
    }
}

// ---------------------------------------------------------------------------
// Equality
// ---------------------------------------------------------------------------

impl JsonView {
    /// Whether two values are equal, with numbers compared as numbers.
    pub open spec fn agrees(self, other: JsonView) -> bool
        decreases self,
    {
        match (self, other) {
            (JsonView::Null, JsonView::Null) => true,
            (JsonView::Bool(a), JsonView::Bool(b)) => a == b,
            (JsonView::Num(a), JsonView::Num(b)) => numbers_agree(a, b),
            (JsonView::Str(a), JsonView::Str(b)) => a == b,
            (JsonView::Array(a), JsonView::Array(b)) => {
                &&& a.len() == b.len()
                &&& forall|i: int| 0 <= i < a.len() ==> (#[trigger] a[i]).agrees(b[i])
            },
            (JsonView::Object(a), JsonView::Object(b)) => {
                &&& a.dom() == b.dom()
                &&& forall|k: Seq<char>| a.contains_key(k) ==> (#[trigger] a[k]).agrees(b[k])
            },
            _ => false,
        }
    }
}

impl Json {
    /// Whether two values are equal, with numbers compared as numbers.
    pub fn agrees(&self, other: &Json) -> (r: bool)
        ensures
            r == self@.agrees(other@),
        decreases self,
    {
        match (self, other) {
            (Json::Null, Json::Null) => true,
            (Json::Bool(a), Json::Bool(b)) => *a == *b,
            (Json::Num(a), Json::Num(b)) => same_number(a, b),
            (Json::Str(a), Json::Str(b)) => text::same_text(a.as_str(), b.as_str()),
            (Json::Array(a), Json::Array(b)) => {
                if a.len() != b.len() {
                    return false;
                }
                let mut i: usize = 0;
                while i < a.len()
                    invariant
                        *self == Json::Array(*a),
                        *other == Json::Array(*b),
                        a@.len() == b@.len(),
                        i <= a@.len(),
                        forall|k: int|
                            0 <= k < i ==> (#[trigger] items_view(a@)[k]).agrees(items_view(b@)[k]),
                    decreases a@.len() - i,
                {
                    assert(decreases_to!(*self => self->Array_0@[i as int]));
                    if !a[i].agrees(&b[i]) {
                        assert(!items_view(a@)[i as int].agrees(items_view(b@)[i as int]));
                        return false;
                    }
                    i = i + 1;
                }
                proof {
                    let x = items_view(a@);
                    let y = items_view(b@);
                    assert(x.len() == y.len());
                    assert(forall|k: int| 0 <= k < x.len() ==> (#[trigger] x[k]).agrees(y[k]));
                    assert(JsonView::Array(x).agrees(JsonView::Array(y)));
                }
                true
            },
            (Json::Object(a), Json::Object(b)) => {
                let ghost ma = entries_view(a@);
                let ghost mb = entries_view(b@);
                let mut i: usize = 0;
                while i < a.len()
                    invariant
                        *self == Json::Object(*a),
                        *other == Json::Object(*b),
                        ma == entries_view(a@),
                        mb == entries_view(b@),
                        i <= a@.len(),
                        forall|k: int|
                            0 <= k < i ==> mb.contains_key((#[trigger] a@[k]).0@)
                                && ma[a@[k].0@].agrees(mb[a@[k].0@]),
                    decreases a@.len() - i,
                {
                    let key = a[i].0.as_str();
                    proof {
                        entries_present(a@, i as int);
                    }
                    match (find_entry(a, key), find_entry(b, key)) {
                        (Some(x), Some(y)) => {
                            proof {
                                let k = choose|k: int| 0 <= k < a@.len() && (#[trigger] a@[k]).1 == *x;
                                assert(decreases_to!(*self => self->Object_0@[k].1));
                            }
                            if !x.agrees(y) {
                                assert(!ma[key@].agrees(mb[key@]));
                                return false;
                            }
                        },
                        _ => {
                            assert(ma.contains_key(key@) && !mb.contains_key(key@));
                            return false;
                        },
                    }
                    i = i + 1;
                }
                let mut j: usize = 0;
                while j < b.len()
                    invariant
                        ma == entries_view(a@),
                        mb == entries_view(b@),
                        *self == Json::Object(*a),
                        *other == Json::Object(*b),
                        j <= b@.len(),
                        forall|k: int| 0 <= k < j ==> ma.contains_key((#[trigger] b@[k]).0@),
                    decreases b@.len() - j,
                {
                    let key = b[j].0.as_str();
                    proof {
                        entries_present(b@, j as int);
                    }
                    if find_entry(a, key).is_none() {
                        assert(mb.dom().contains(key@) && !ma.dom().contains(key@));
                        return false;
                    }
                    j = j + 1;
                }
                proof {
                    assert forall|k: Seq<char>| ma.contains_key(k) implies mb.contains_key(k)
                        && (#[trigger] ma[k]).agrees(mb[k]) by {
                        let n = entries_key(a@, k);
                        assert(a@[n].0@ == k);
                    }
                    assert forall|k: Seq<char>| ma.dom().contains(k) <==> #[trigger] mb.dom().contains(
                        k,
                    ) by {
                        if mb.contains_key(k) {
                            let n = entries_key(b@, k);
                            assert(b@[n].0@ == k);
                        }
                        if ma.contains_key(k) {
                            let n = entries_key(a@, k);
                            assert(a@[n].0@ == k);
                        }
                    }
                    assert(ma.dom() =~= mb.dom());
                }
                true
            },
            _ => false,
        }
    }
}

// ---------------------------------------------------------------------------
// Names of members
// ---------------------------------------------------------------------------

/// The views of string slices.
pub open spec fn names(v: Seq<&str>) -> Seq<Seq<char>> {
    v.map_values(|s: &str| s@)
}

/// Whether `key` names a member that is not among `allowed`.
pub open spec fn is_unknown(
    m: Map<Seq<char>, JsonView>,
    allowed: Seq<Seq<char>>,
    key: Seq<char>,
) -> bool {
    m.contains_key(key) && !allowed.contains(key)
}

/// Whether `key` is the first such name in lexicographic order.
pub open spec fn is_first_unknown(
    m: Map<Seq<char>, JsonView>,
    allowed: Seq<Seq<char>>,
    key: Seq<char>,
) -> bool {
    &&& is_unknown(m, allowed, key)
    &&& forall|k: Seq<char>| #[trigger] is_unknown(m, allowed, k) ==> text::lex_le(key, k)
}

/// The first name, in lexicographic order, of a member that is not among
/// `allowed`.
pub open spec fn first_unknown(m: Map<Seq<char>, JsonView>, allowed: Seq<Seq<char>>) -> Option<
    Seq<char>,
> {
    if exists|k: Seq<char>| #[trigger] is_unknown(m, allowed, k) {
        Some(choose|k: Seq<char>| is_first_unknown(m, allowed, k))
    } else {
        None
    }
}

fn is_named(allowed: &Vec<&str>, key: &str) -> (r: bool)
    ensures
        r == names(allowed@).contains(key@),
{
    let mut i: usize = 0;
    while i < allowed.len()
        invariant
            i <= allowed@.len(),
            forall|k: int| 0 <= k < i ==> (#[trigger] names(allowed@)[k]) != key@,
        decreases allowed@.len() - i,
    {
        if text::same_text(allowed[i], key) {
            assert(names(allowed@)[i as int] == key@);
            return true;
        }
        i = i + 1;
    }
    false
}

impl Json {
    /// The first name, in lexicographic order, of a member that is not among
    /// `allowed`; none where this is no object.
    pub fn first_unknown(&self, allowed: &Vec<&str>) -> (r: Option<String>)
        ensures
            text::opt_string(r) == (match self@ {
                JsonView::Object(m) => first_unknown(m, names(allowed@)),
                _ => None,
            }),
    {
        match self {
            Json::Object(v) => {
                let ghost m = entries_view(v@);
                let ghost ns = names(allowed@);
                let mut best: Option<usize> = None;
                let mut i: usize = 0;
                while i < v.len()
                    invariant
                        i <= v@.len(),
                        m == entries_view(v@),
                        ns == names(allowed@),
                        best matches Some(b) ==> b < i && is_unknown(m, ns, v@[b as int].0@),
                        forall|k: int|
                            0 <= k < i && is_unknown(m, ns, (#[trigger] v@[k]).0@) ==> best is Some
                                && text::lex_le(v@[best->0 as int].0@, v@[k].0@),
                    decreases v@.len() - i,
                {
                    let key = v[i].0.as_str();
                    proof {
                        entries_present(v@, i as int);
                    }
                    if !is_named(allowed, key) {
                        match best {
                            None => {
                                proof {
                                    text::lex_le_total(key@, key@);
                                }
                                best = Some(i);
                            },
                            Some(b) => {
                                let ghost was = v@[b as int].0@;
                                proof {
                                    text::lex_le_total(key@, was);
                                    text::lex_le_total(key@, key@);
                                }
                                if text::is_lex_le(key, v[b].0.as_str()) {
                                    proof {
                                        assert forall|k: int|
                                            0 <= k < i && is_unknown(
                                                m,
                                                ns,
                                                (#[trigger] v@[k]).0@,
                                            ) implies text::lex_le(key@, v@[k].0@) by {
                                            text::lex_le_transitive(key@, was, v@[k].0@);
                                        }
                                    }
                                    best = Some(i);
                                }
                            },
                        }
                    }
                    i = i + 1;
                }
                proof {
                    assert forall|k: Seq<char>| #[trigger] is_unknown(m, ns, k) implies best is Some
                        && text::lex_le(v@[best->0 as int].0@, k) by {
                        let n = entries_key(v@, k);
                        assert(v@[n].0@ == k);
                    }
                }
                match best {
                    Some(b) => {
                        proof {
                            let key = v@[b as int].0@;
                            assert(is_first_unknown(m, ns, key));
                            let c = choose|k: Seq<char>| is_first_unknown(m, ns, k);
                            text::lex_le_antisymmetric(c, key);
                        }
                        Some(v[b].0.clone())
                    },
                    None => None,
                }
            },
            _ => None,
        }
    }
}

/// Copies of the items of an array.
pub fn copy_items(v: &Vec<Json>) -> (r: Vec<Json>)
    ensures
        items_view(r@) == items_view(v@),
{
    let mut out: Vec<Json> = Vec::new();
    let mut i: usize = 0;
    while i < v.len()
        invariant
            i <= v@.len(),
            out@.len() == i,
            forall|k: int| 0 <= k < i ==> (#[trigger] out@[k]).view() == v@[k].view(),
        decreases v@.len() - i,
    {
        out.push(v[i].copy());
        i = i + 1;
    }
    assert(items_view(out@) =~= items_view(v@));
    out
}

} // verus!
