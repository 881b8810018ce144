//! Images that tools return in forms of their own.
//!
//! A tool may hand back an image in the form of the Model Context Protocol or
//! of the Chat Completions protocol, alone, in an array, under `content`, or in
//! a string that holds such JSON. The image is taken out, a marker is left in
//! its place, and long base64 text that remains is left out.
use crate::json;
use crate::json::{Json, JsonView};
use crate::json_codec;
use crate::text;
use vstd::prelude::*;
use vstd::string::*;

verus! {

/// What stands in place of an image that was taken out.
pub const TOOL_RESULT_MEDIA_ATTACHED_MARKER: &'static str = "[cc-switch: media attached separately]";

/// Base64 text longer than this is left out.
pub const MAX_INLINE_BASE64: usize = 16384;

// ---------------------------------------------------------------------------
// Long base64 text
// ---------------------------------------------------------------------------

pub open spec fn is_base64_char(c: char) -> bool {
    ||| 'A' <= c && c <= 'Z'
    ||| 'a' <= c && c <= 'z'
    ||| '0' <= c && c <= '9'
    ||| c == '+'
    ||| c == '/'
    ||| c == '='
    ||| c == '-'
    ||| c == '_'
}

/// Whether `s` is nothing but base64 text, and long.
pub open spec fn is_long_base64(s: Seq<char>) -> bool {
    s.len() > MAX_INLINE_BASE64 && forall|i: int| 0 <= i < s.len() ==> is_base64_char(#[trigger] s[i])
}

/// What stands in place of so many bytes.
pub open spec fn omitted(n: nat) -> Seq<char> {
    "[cc-switch: omitted "@ + text::decimal(n) + " bytes]"@
}

/// A value without its long base64 texts.
pub open spec fn clamped(v: JsonView) -> JsonView
    decreases v,
{
    match v {
        JsonView::Str(s) => if is_long_base64(s) {
            JsonView::Str(omitted(s.len()))
        } else {
            v
        },
        JsonView::Array(items) => JsonView::Array(
            Seq::new(
                items.len(),
                |i: int|
                    if 0 <= i < items.len() {
                        clamped(items[i])
                    } else {
                        JsonView::Null
                    },
            ),
        ),
        JsonView::Object(m) => JsonView::Object(
            Map::new(
                |k: Seq<char>| m.contains_key(k),
                |k: Seq<char>|
                    if m.contains_key(k) {
                        clamped(m[k])
                    } else {
                        JsonView::Null
                    },
            ),
        ),
        _ => v,
    }
}

fn has_long_base64(s: &str) -> (r: Option<u64>)
    ensures
        match r {
            Some(n) => is_long_base64(s@) && n == s@.len(),
            None => !is_long_base64(s@),
        },
{
    let cs = text::chars_of(s);
    if cs.len() <= MAX_INLINE_BASE64 {
        return None;
    }
    let mut i: usize = 0;
    while i < cs.len()
        invariant
            i <= cs@.len(),
            cs@ == s@,
            forall|k: int| 0 <= k < i ==> is_base64_char(#[trigger] cs@[k]),
        decreases cs@.len() - i,
    {
        let c = cs[i];
        let good = ('A' <= c && c <= 'Z') || ('a' <= c && c <= 'z') || ('0' <= c && c <= '9') || c
            == '+' || c == '/' || c == '=' || c == '-' || c == '_';
        if !good {
            assert(!is_base64_char(s@[i as int]));
            return None;
        }
        i = i + 1;
    }
    Some(cs.len() as u64)
}

/// A value without its long base64 texts.
pub fn clamp(v: &Json) -> (r: Json)
    ensures
        r@ == clamped(v@),
    decreases v,
{
    match v {
        Json::Str(s) => match has_long_base64(s.as_str()) {
            Some(n) => {
                let number = text::to_decimal(n);
                Json::Str(text::concat3("[cc-switch: omitted ", number.as_str(), " bytes]"))
            },
            None => Json::Str(s.clone()),
        },
        Json::Array(items) => {
            let mut out: Vec<Json> = Vec::new();
            let mut i: usize = 0;
            while i < items.len()
                invariant
                    *v == Json::Array(*items),
                    i <= items@.len(),
                    out@.len() == i,
                    forall|k: int| 0 <= k < i ==> (#[trigger] out@[k])@ == clamped(items@[k]@),
                decreases items@.len() - i,
            {
                assert(decreases_to!(*v => v->Array_0@[i as int]));
                out.push(clamp(&items[i]));
                i = i + 1;
            }
            proof {
                let views = json::items_view(items@);
                assert forall|k: int| 0 <= k < views.len() implies json::items_view(out@)[k]
                    == clamped(#[trigger] views[k]) by {
                    assert(out@[k]@ == clamped(items@[k]@));
                }
                assert(json::items_view(out@) =~= clamped(JsonView::Array(views))->Array_0);
            }
            Json::Array(out)
        },
        Json::Object(entries) => {
            let mut out: Vec<(String, Json)> = Vec::new();
            let mut i: usize = 0;
            proof {
                assert(entries@.subrange(0, 0) =~= Seq::<(String, Json)>::empty());
                let none = Map::<Seq<char>, JsonView>::empty();
                assert(clamped(JsonView::Object(none))->Object_0 =~= none);
            }
            while i < entries.len()
                invariant
                    *v == Json::Object(*entries),
                    i <= entries@.len(),
                    JsonView::Object(json::entries_view(out@)) == clamped(
                        JsonView::Object(json::entries_view(entries@.subrange(0, i as int))),
                    ),
                decreases entries@.len() - i,
            {
                assert(decreases_to!(*v => v->Object_0@[i as int].1));
                let e = (entries[i].0.clone(), clamp(&entries[i].1));
                proof {
                    let front = entries@.subrange(0, i as int);
                    let m = json::entries_view(front);
                    let k = entries@[i as int].0@;
                    let x = entries@[i as int].1@;
                    json::entries_push(out@, e);
                    json::entries_push(front, entries@[i as int]);
                    assert(front.push(entries@[i as int]) =~= entries@.subrange(0, i + 1));
                    assert(clamped(JsonView::Object(m.insert(k, x)))->Object_0 =~= clamped(
                        JsonView::Object(m),
                    )->Object_0.insert(k, clamped(x)));
                }
                out.push(e);
                i = i + 1;
            }
            assert(entries@.subrange(0, entries@.len() as int) =~= entries@);
            Json::Object(out)
        },
        Json::Null => Json::Null,
        Json::Bool(b) => Json::Bool(*b),
        Json::Num(n) => Json::Num(json::clone_number(n)),
    }
}

// ---------------------------------------------------------------------------
// Images
// ---------------------------------------------------------------------------

/// The address under which base64 data of some type is given.
pub open spec fn data_url(media_type: Seq<char>, data: Seq<char>) -> Seq<char> {
    "data:"@ + media_type + ";base64,"@ + data
}

pub fn make_data_url(media_type: &str, data: &str) -> (r: String)
    ensures
        r@ == data_url(media_type@, data@),
{
    text::concat4("data:", media_type, ";base64,", data)
}

/// An image in the form of the Chat Completions protocol.
pub open spec fn chat_image(image_url: JsonView) -> JsonView {
    JsonView::object().with("type"@, JsonView::Str("image_url"@)).with("image_url"@, image_url)
}

/// The image that a value is, in the form of the Chat Completions protocol.
pub open spec fn image_of(v: JsonView) -> Option<JsonView> {
    if v.says("type"@, "image"@) {
        match v.get_str("data"@) {
            Some(data) if data.len() > 0 && v.get("source"@) is None => Some(
                chat_image(
                    JsonView::object().with(
                        "url"@,
                        JsonView::Str(data_url(v.str_or("mimeType"@, "image/png"@), data)),
                    ),
                ),
            ),
            _ => None,
        }
    } else if v.says("type"@, "image_url"@) {
        match v.get("image_url"@) {
            Some(image) => if image.get_str("url"@) is Some {
                Some(chat_image(image))
            } else {
                match image.as_str() {
                    Some(url) => Some(
                        chat_image(JsonView::object().with("url"@, JsonView::Str(url))),
                    ),
                    None => None,
                }
            },
            None => None,
        }
    } else {
        None
    }
}

fn take_image(v: &Json) -> (r: Option<Json>)
    ensures
        (match r {
            Some(j) => Some(j@),
            None => None,
        }) == image_of(v@),
{
    if v.says("type", "image") {
        match v.get_str("data") {
            Some(data) => {
                if !data.is_empty() && v.get("source").is_none() {
                    let url = make_data_url(v.str_or("mimeType", "image/png"), data);
                    Some(
                        Json::object().with("type", Json::string("image_url")).with(
                            "image_url",
                            Json::object().with("url", Json::Str(url)),
                        ),
                    )
                } else {
                    None
                }
            },
            None => None,
        }
    } else if v.says("type", "image_url") {
        match v.get("image_url") {
            Some(image) => {
                if image.get_str("url").is_some() {
                    Some(
                        Json::object().with("type", Json::string("image_url")).with(
                            "image_url",
                            image.copy(),
                        ),
                    )
                } else {
                    match image.as_str() {
                        Some(url) => Some(
                            Json::object().with("type", Json::string("image_url")).with(
                                "image_url",
                                Json::object().with("url", Json::string(url)),
                            ),
                        ),
                        None => None,
                    }
                }
            },
            None => None,
        }
    } else {
        None
    }
}

/// The block that stands in place of an image that was taken out.
pub open spec fn marker_block() -> JsonView {
    JsonView::object().with("type"@, JsonView::Str("input_text"@)).with(
        "text"@,
        JsonView::Str(TOOL_RESULT_MEDIA_ATTACHED_MARKER@),
    )
}

/// A value with markers in place of its images.
pub open spec fn marked(v: JsonView) -> JsonView
    decreases v,
{
    if image_of(v) is Some {
        marker_block()
    } else {
        match v {
            JsonView::Array(items) => JsonView::Array(
                Seq::new(
                    items.len(),
                    |i: int|
                        if 0 <= i < items.len() {
                            marked(items[i])
                        } else {
                            JsonView::Null
                        },
                ),
            ),
            JsonView::Object(m) => if m.contains_key("content"@) {
                v.with("content"@, marked(m["content"@]))
            } else {
                v
            },
            _ => v,
        }
    }
}

/// The images of a value, in order.
pub open spec fn images(v: JsonView) -> Seq<JsonView>
    decreases v, 0nat, 0nat,
{
    match image_of(v) {
        Some(image) => seq![image],
        None => match v {
            JsonView::Array(items) => images_upto(items, items.len()),
            JsonView::Object(m) => if m.contains_key("content"@) {
                images(m["content"@])
            } else {
                Seq::empty()
            },
            _ => Seq::empty(),
        },
    }
}

/// The images of the first `n` items of an array.
pub open spec fn images_upto(items: Seq<JsonView>, n: nat) -> Seq<JsonView>
    decreases items, 1nat, n,
{
    if n == 0 || n > items.len() {
        Seq::empty()
    } else {
        images_upto(items, (n - 1) as nat) + images(items[n - 1])
    }
}

/// Puts markers in place of the images of a value, and adds them to `out`.
fn mark(v: &Json, out: &mut Vec<Json>) -> (r: Json)
    ensures
        r@ == marked(v@),
        json::items_view(final(out)@) == json::items_view(old(out)@) + images(v@),
    decreases v@,
{
    if let Some(image) = take_image(v) {
        proof {
            json::items_push(out@, image);
            assert(json::items_view(out@).push(image@) =~= json::items_view(out@) + seq![image@]);
        }
        out.push(image);
        return Json::object().with("type", Json::string("input_text")).with(
            "text",
            Json::string(TOOL_RESULT_MEDIA_ATTACHED_MARKER),
        );
    }
    let ghost before = json::items_view(out@);
    match v {
        Json::Array(items) => {
            let ghost views = json::items_view(items@);
            let mut parts: Vec<Json> = Vec::new();
            let mut i: usize = 0;
            assert(before + images_upto(views, 0) =~= before);
            while i < items.len()
                invariant
                    *v == Json::Array(*items),
                    views == json::items_view(items@),
                    i <= items@.len(),
                    parts@.len() == i,
                    forall|k: int| 0 <= k < i ==> (#[trigger] parts@[k])@ == marked(views[k]),
                    json::items_view(out@) == before + images_upto(views, i as nat),
                decreases items@.len() - i,
            {
                assert(decreases_to!(v@ => v@->Array_0[i as int]));
                assert(views[i as int] == items@[i as int]@);
                let part = mark(&items[i], out);
                parts.push(part);
                proof {
                    assert(images_upto(views, (i + 1) as nat) == images_upto(views, i as nat)
                        + images(views[i as int]));
                    assert(before + (images_upto(views, i as nat) + images(views[i as int]))
                        =~= before + images_upto(views, i as nat) + images(views[i as int]));
                }
                i = i + 1;
            }
            assert(json::items_view(parts@) =~= marked(v@)->Array_0);
            Json::Array(parts)
        },
        Json::Object(_) => {
            match v.get("content") {
                Some(content) => {
                    proof {
                        assert(v@->Object_0.contains_key("content"@));
                        assert(decreases_to!(v@ => v@->Object_0["content"@]));
                    }
                    let part = mark(content, out);
                    v.copy().with("content", part)
                },
                None => {
                    assert(before + Seq::<JsonView>::empty() =~= before);
                    v.copy()
                },
            }
        },
        _ => {
            assert(before + Seq::<JsonView>::empty() =~= before);
            v.copy()
        },
    }
}

// ---------------------------------------------------------------------------
// Tool values
// ---------------------------------------------------------------------------

/// The JSON array or object that a string holds.
pub open spec fn held_json(s: Seq<char>) -> Option<JsonView> {
    match json_codec::parsed(s) {
        Ok(v) => if v is Array || v is Object {
            Some(v)
        } else {
            None
        },
        Err(_) => None,
    }
}

/// The images of what a tool returned.
pub open spec fn tool_images(v: JsonView) -> Seq<JsonView> {
    match v {
        JsonView::Str(s) => match held_json(s) {
            Some(j) => images(j),
            None => Seq::empty(),
        },
        _ => images(v),
    }
}

/// What a tool returned, without its images.
pub open spec fn tool_rest(v: JsonView) -> JsonView {
    match v {
        JsonView::Str(s) => match held_json(s) {
            Some(j) => JsonView::Str(json_codec::written(clamped(marked(j)))),
            None => clamped(v),
        },
        _ => clamped(marked(v)),
    }
}

/// Takes the images out of what a tool returned, and leaves out long base64
/// text. Gives the images and the rest.
pub fn strip_and_clamp_media_from_tool_value(v: &Json) -> (r: (Vec<Json>, Json))
    ensures
        json::items_view(r.0@) == tool_images(v@),
        r.1@ == tool_rest(v@),
{
    let mut out: Vec<Json> = Vec::new();
    let ghost none = json::items_view(out@);
    assert(none =~= Seq::<JsonView>::empty());
    match v {
        Json::Str(s) => {
            if let Ok(j) = json_codec::parse(s.as_str()) {
                let holds = match j {
                    Json::Array(_) => true,
                    Json::Object(_) => true,
                    _ => false,
                };
                if holds {
                    let part = mark(&j, &mut out);
                    assert(none + images(j@) =~= images(j@));
                    let rest = json_codec::write(&clamp(&part));
                    return (out, Json::Str(rest));
                }
            }
            (out, clamp(v))
        },
        _ => {
            let part = mark(v, &mut out);
            assert(none + images(v@) =~= images(v@));
            (out, clamp(&part))
        },
    }
}

} // verus!
