//! What JSON values say, by what they are made of.
use crate::json::{JsonView, NumberView};
use crate::json;
use vstd::prelude::*;

verus! {

/// A member that is set is there, and no other member changes. A member that is
/// taken out is gone, and no other member changes.
pub proof fn members_are_set(v: JsonView, key: Seq<char>, value: JsonView, other: Seq<char>)
    requires
        v is Object,
    ensures
        v.with(key, value).get(key) == Some(value),
        v.with(key, value) is Object,
        other != key ==> v.with(key, value).get(other) == v.get(other),
        v.without(key).get(key) is None,
        v.without(key) is Object,
        other != key ==> v.without(key).get(other) == v.get(other),
        JsonView::object().get(other) is None,
{
    broadcast use vstd::map::group_map_axioms;

}

/// Objects with the same members are the same.
pub proof fn members_make_an_object(a: JsonView, b: JsonView)
    requires
        a is Object,
        b is Object,
        forall|key: Seq<char>| #[trigger] a.get(key) == b.get(key),
    ensures
        a == b,
{
    broadcast use vstd::map::group_map_axioms;

    let m = a->Object_0;
    let n = b->Object_0;
    assert forall|key: Seq<char>| #[trigger] m.contains_key(key) == n.contains_key(key) by {
        assert(a.get(key) == b.get(key));
    }
    assert forall|key: Seq<char>| m.contains_key(key) implies #[trigger] m[key] == n[key] by {
        assert(a.get(key) == b.get(key));
    }
    assert(m =~= n);
}

/// Only an object has members.
pub proof fn only_objects_have_members(v: JsonView, key: Seq<char>, value: JsonView)
    requires
        !(v is Object),
    ensures
        v.get(key) is None,
        v.with(key, value) == v,
        v.without(key) == v,
{
}

/// What a member is read as: a text, a list, a truth value or a number only where
/// it is one.
pub proof fn members_are_read(
    v: JsonView,
    key: Seq<char>,
    s: Seq<char>,
    items: Seq<JsonView>,
    b: bool,
    n: u64,
)
    ensures
        v.says(key, s) <==> v.get(key) == Some(JsonView::Str(s)),
        v.get_str(key) == Some(s) <==> v.get(key) == Some(JsonView::Str(s)),
        v.get_array(key) == Some(items) <==> v.get(key) == Some(JsonView::Array(items)),
        v.get_bool(key) == Some(b) <==> v.get(key) == Some(JsonView::Bool(b)),
        v.get_u64(key) == Some(n) <==> v.get(key) == Some(JsonView::Num(NumberView::PosInt(n))),
        v.get_u64(key) == Some(n) <==> v.get(key) == Some(JsonView::number(n)),
        v.get(key) == Some(JsonView::Str(s)) ==> v.str_or(key, s + s) == s,
        !(v.get(key) is Some && v.get(key)->0 is Str) ==> v.str_or(key, s) == s && v.get_str(key)
            is None,
        v.get(key) == Some(JsonView::Array(items)) ==> v.items_at(key) == items,
        !(v.get(key) is Some && v.get(key)->0 is Array) ==> v.items_at(key).len() == 0
            && v.get_array(key) is None,
        JsonView::or_null(v.get(key)) == (if v.get(key) is Some {
            v.get(key)->0
        } else {
            JsonView::Null
        }),
{
}

/// A member of a member.
pub proof fn inner_members_are_read(
    v: JsonView,
    outer: Seq<char>,
    inner: Seq<char>,
    value: JsonView,
    s: Seq<char>,
)
    ensures
        v.get(outer) == Some(value) ==> v.get_in(outer, inner) == value.get(inner) && v.get_str_in(
            outer,
            inner,
        ) == value.get_str(inner),
        v.get(outer) is None ==> v.get_in(outer, inner) is None && v.get_str_in(outer, inner)
            is None,
{
}

/// Values agree with themselves, and whether they agree does not hang on which
/// comes first.
pub proof fn values_agree_both_ways(a: JsonView, b: JsonView)
    ensures
        a.agrees(a),
        a.agrees(b) <==> b.agrees(a),
    decreases a,
{
    broadcast use vstd::map::group_map_axioms;

    match a {
        JsonView::Array(v) => {
            assert forall|i: int| 0 <= i < v.len() implies (#[trigger] v[i]).agrees(v[i]) by {
                values_agree_both_ways(v[i], v[i]);
            }
            if let JsonView::Array(w) = b {
                if v.len() == w.len() {
                    assert forall|i: int| 0 <= i < v.len() implies (#[trigger] v[i]).agrees(w[i])
                        == w[i].agrees(v[i]) by {
                        values_agree_both_ways(v[i], w[i]);
                    }
                    if a.agrees(b) {
                        assert forall|i: int| 0 <= i < w.len() implies (#[trigger] w[i]).agrees(
                            v[i],
                        ) by {
                            assert(v[i].agrees(w[i]));
                        }
                    }
                    if b.agrees(a) {
                        assert forall|i: int| 0 <= i < v.len() implies (#[trigger] v[i]).agrees(
                            w[i],
                        ) by {
                            assert(w[i].agrees(v[i]));
                        }
                    }
                }
            }
        },
        JsonView::Object(m) => {
            assert forall|k: Seq<char>| m.contains_key(k) implies (#[trigger] m[k]).agrees(m[k]) by {
                values_agree_both_ways(m[k], m[k]);
            }
            if let JsonView::Object(n) = b {
                if m.dom() == n.dom() {
                    assert forall|k: Seq<char>| m.contains_key(k) implies (
                    #[trigger] m[k]).agrees(n[k]) == n[k].agrees(m[k]) by {
                        values_agree_both_ways(m[k], n[k]);
                    }
                    if a.agrees(b) {
                        assert forall|k: Seq<char>| n.contains_key(k) implies (
                        #[trigger] n[k]).agrees(m[k]) by {
                            assert(m.dom().contains(k));
                            assert(m[k].agrees(n[k]));
                        }
                    }
                    if b.agrees(a) {
                        assert forall|k: Seq<char>| m.contains_key(k) implies (
                        #[trigger] m[k]).agrees(n[k]) by {
                            assert(n.dom().contains(k));
                            assert(n[k].agrees(m[k]));
                        }
                    }
                }
            }
        },
        _ => {},
    }
}

/// Values that agree say the same: the same texts, truth values and whole
/// numbers, lists of as many items that agree, and objects of the same members
/// that agree.
pub proof fn values_that_agree_say_the_same(a: JsonView, b: JsonView, key: Seq<char>)
    requires
        a.agrees(b),
    ensures
        a is Null <==> b is Null,
        a.as_str() == b.as_str(),
        a.as_bool() == b.as_bool(),
        a.as_u64() == b.as_u64(),
        a is Array ==> b is Array && a->Array_0.len() == b->Array_0.len(),
        a.get(key) is Some <==> b.get(key) is Some,
        a.get(key) is Some ==> a.get(key)->0.agrees(b.get(key)->0),
        a.get_str(key) == b.get_str(key),
        a.get_u64(key) == b.get_u64(key),
{
    broadcast use vstd::map::group_map_axioms;

    if let JsonView::Object(m) = a {
        let n = b->Object_0;
        assert(m.dom().contains(key) == n.dom().contains(key));
        if m.contains_key(key) {
            assert(m[key].agrees(n[key]));
        }
    }
}

/// Members are all known where each is one of those that are named; else the
/// first of the others, in the order of their letters, is found.
pub proof fn unknown_members_are_found(m: Map<Seq<char>, JsonView>, names: Seq<Seq<char>>)
    ensures
        json::first_unknown(m, names) is None <==> forall|key: Seq<char>| #[trigger]
            m.contains_key(key) ==> names.contains(key),
{
    if json::first_unknown(m, names) is None {
        assert forall|key: Seq<char>| #[trigger] m.contains_key(key) implies names.contains(
            key,
        ) by {
            assert(!json::is_unknown(m, names, key));
        }
    } else {
        let key = choose|key: Seq<char>| #[trigger] json::is_unknown(m, names, key);
        assert(m.contains_key(key) && !names.contains(key));
    }
}

} // verus!
