//! What a tool returned is what the provider reads of it.
use crate::conversation_laws;
use crate::conversation_laws::Said;
use crate::json::JsonView;
use crate::json_codec;
use crate::seqs;
use crate::text;
use crate::tool_media;
use crate::tool_results;
use vstd::prelude::*;

verus! {

/// A text that a tool returned.
pub open spec fn words(s: Seq<char>) -> Said {
    Said::Text { role: "tool"@, text: s, notes: Seq::empty() }
}

/// What a provider reads of what came of a call: one text, or parts.
pub open spec fn outcome_read(output: JsonView) -> Seq<Said> {
    match output {
        JsonView::Str(s) => seq![words(s)],
        JsonView::Array(parts) => conversation_laws::parts_read("tool"@, parts),
        _ => Seq::empty(),
    }
}

/// What is said in a value that has no picture in it: the text of a text block,
/// else the value as text.
pub open spec fn rest_says() -> spec_fn(JsonView) -> Seq<Said> {
    |part: JsonView|
        if part.says("type"@, "input_text"@) || part.says("type"@, "output_text"@) || part.says(
            "type"@,
            "text"@,
        ) {
            if part.get_str("text"@) is Some {
                seq![words(part.get_str("text"@)->0)]
            } else {
                Seq::empty()
            }
        } else {
            seq![words(json_codec::written(part))]
        }
}

/// What is left of a value when its pictures are taken out.
pub open spec fn remainder_says(v: JsonView) -> Seq<Said> {
    match v {
        JsonView::Null => Seq::empty(),
        JsonView::Str(s) => if s.len() > 0 {
            seq![words(s)]
        } else {
            Seq::empty()
        },
        JsonView::Array(parts) => seqs::gathered(parts, rest_says(), parts.len()),
        JsonView::Object(_) => rest_says()(v),
        _ => seq![words(json_codec::written(v))],
    }
}

/// A picture that was taken out, by its address.
pub open spec fn picture_says() -> spec_fn(JsonView) -> Seq<Said> {
    |image: JsonView|
        {
            let url = JsonView::or_null(image.get("image_url"@)).get_str("url"@);
            if url is Some && !text::blank(url->0) {
                seq![Said::Picture { role: "tool"@, url: url->0 }]
            } else {
                Seq::empty()
            }
        }
}

/// What a value says that has pictures in it: what is left of it, then the
/// pictures.
pub open spec fn pictured_says(v: JsonView) -> Seq<Said> {
    let images = tool_media::tool_images(v);
    remainder_says(tool_media::tool_rest(v)) + seqs::gathered(
        images,
        picture_says(),
        images.len(),
    )
}

/// What a value says, with or without pictures in it.
pub open spec fn value_says(v: JsonView) -> Seq<Said> {
    if tool_media::tool_images(v).len() > 0 {
        pictured_says(v)
    } else {
        seq![words(json_codec::written(v))]
    }
}

/// What a block of a tool result says.
pub open spec fn block_says() -> spec_fn(JsonView) -> Seq<Said> {
    |block: JsonView|
        if block.says("type"@, "text"@) {
            if block.get_str("text"@) is Some {
                seq![words(block.get_str("text"@)->0)]
            } else {
                Seq::empty()
            }
        } else if block.says("type"@, "image"@) && conversation_laws::picture_url(block) is Some {
            seq![
                Said::Picture { role: "tool"@, url: conversation_laws::picture_url(block)->0 },
            ]
        } else if block.says("type"@, "document"@) {
            let said = conversation_laws::block_says("tool"@, false)(block);
            if said.len() > 0 {
                said
            } else {
                seq![words(json_codec::written(block))]
            }
        } else {
            value_says(block)
        }
}

/// What the content of a tool result says.
pub open spec fn content_says(content: Option<JsonView>) -> Seq<Said> {
    match content {
        None => Seq::empty(),
        Some(JsonView::Str(s)) => if tool_media::tool_images(JsonView::Str(s)).len() > 0 {
            pictured_says(JsonView::Str(s))
        } else {
            seq![words(s)]
        },
        Some(JsonView::Array(blocks)) => seqs::gathered(blocks, block_says(), blocks.len()),
        Some(v) => value_says(v),
    }
}

/// What a tool result says: first that the tool failed, where it did.
pub open spec fn result_says(block: JsonView) -> Seq<Said> {
    (if block.get("is_error"@) == Some(JsonView::Bool(true)) {
        seq![words("[cc-switch:tool-result-error]"@)]
    } else {
        Seq::empty()
    }) + content_says(block.get("content"@))
}

// ---------------------------------------------------------------------------

proof fn names_differ()
    ensures
        "tool"@ != "assistant"@,
        "type"@ != "text"@,
        "type"@ != "image_url"@,
        "type"@ != "detail"@,
        "image_url"@ != "detail"@,
        "type"@ != "annotations"@,
        "text"@ != "annotations"@,
        "input_image"@ != "input_text"@,
        "text"@ != "image"@,
        "text"@ != "document"@,
        "image"@ != "document"@,
{
    reveal_strlit("tool");
    reveal_strlit("assistant");
    reveal_strlit("type");
    reveal_strlit("text");
    reveal_strlit("image_url");
    reveal_strlit("detail");
    reveal_strlit("annotations");
    reveal_strlit("input_image");
    reveal_strlit("input_text");
    reveal_strlit("image");
    reveal_strlit("document");
    assert("tool"@.len() == 4 && "assistant"@.len() == 9 && "type"@.len() == 4 && "text"@.len()
        == 4);
    assert("type"@[1] == 'y' && "text"@[1] == 'e');
    assert("image_url"@.len() == 9 && "detail"@.len() == 6 && "annotations"@.len() == 11);
    assert("input_image"@.len() == 11 && "input_text"@.len() == 10);
    assert("image"@.len() == 5 && "document"@.len() == 8);
}

spec fn read(parts: Seq<JsonView>) -> Seq<Said> {
    conversation_laws::parts_read("tool"@, parts)
}

proof fn one_part(part: JsonView)
    ensures
        read(seq![part]) == conversation_laws::part_read("tool"@)(part),
{
    let f = conversation_laws::part_read("tool"@);
    seqs::gathered_push(Seq::<JsonView>::empty(), part, f);
    assert(Seq::<JsonView>::empty().push(part) =~= seq![part]);
    assert(Seq::<Said>::empty() + f(part) =~= f(part));
}

proof fn one_text(s: Seq<char>)
    ensures
        read(seq![tool_results::input_text(s)]) == seq![words(s)],
{
    names_differ();
    let part = tool_results::input_text(s);
    one_part(part);
    assert(part.says("type"@, "input_text"@));
    assert(part.items_at("annotations"@) =~= Seq::<JsonView>::empty());
    assert(conversation_laws::part_read("tool"@)(part) =~= seq![words(s)]);
}

proof fn rest_part_is_read(part: JsonView)
    ensures
        read(tool_results::rest_part()(part)) == rest_says()(part),
{
    if tool_results::is_text_block(part) {
        if part.get_str("text"@) is Some {
            one_text(part.get_str("text"@)->0);
        }
    } else {
        one_text(json_codec::written(part));
    }
}

proof fn rest_parts_are_read(parts: Seq<JsonView>, n: nat)
    requires
        n <= parts.len(),
    ensures
        read(seqs::gathered(parts, tool_results::rest_part(), n)) == seqs::gathered(
            parts,
            rest_says(),
            n,
        ),
    decreases n,
{
    if n > 0 {
        rest_parts_are_read(parts, (n - 1) as nat);
        rest_part_is_read(parts[n - 1]);
        seqs::gathered_append(
            seqs::gathered(parts, tool_results::rest_part(), (n - 1) as nat),
            tool_results::rest_part()(parts[n - 1]),
            conversation_laws::part_read("tool"@),
        );
    }
}

proof fn remainder_is_read(v: JsonView)
    ensures
        read(tool_results::rest_texts(v)) == remainder_says(v),
{
    match v {
        JsonView::Str(s) => {
            if s.len() > 0 {
                one_text(s);
            }
        },
        JsonView::Array(parts) => {
            rest_parts_are_read(parts, parts.len());
        },
        JsonView::Object(_) => {
            rest_part_is_read(v);
        },
        JsonView::Null => {},
        _ => {
            one_text(json_codec::written(v));
        },
    }
}

proof fn picture_is_read(image: JsonView)
    ensures
        read(tool_results::responses_image()(image)) == picture_says()(image),
{
    names_differ();
    let parts = tool_results::responses_image()(image);
    if parts.len() > 0 {
        let part = parts[0];
        assert(parts =~= seq![part]);
        one_part(part);
        assert(part.says("type"@, "input_image"@));
        assert(conversation_laws::part_read("tool"@)(part) =~= picture_says()(image));
    }
}

proof fn pictures_are_read(images: Seq<JsonView>, n: nat)
    requires
        n <= images.len(),
    ensures
        read(seqs::gathered(images, tool_results::responses_image(), n)) == seqs::gathered(
            images,
            picture_says(),
            n,
        ),
    decreases n,
{
    if n > 0 {
        pictures_are_read(images, (n - 1) as nat);
        picture_is_read(images[n - 1]);
        seqs::gathered_append(
            seqs::gathered(images, tool_results::responses_image(), (n - 1) as nat),
            tool_results::responses_image()(images[n - 1]),
            conversation_laws::part_read("tool"@),
        );
    }
}

proof fn pictured_is_read(v: JsonView)
    requires
        tool_media::tool_images(v).len() > 0,
    ensures
        tool_results::with_images_apart(v) is Some,
        read(tool_results::with_images_apart(v)->0) == pictured_says(v),
{
    let images = tool_media::tool_images(v);
    remainder_is_read(tool_media::tool_rest(v));
    pictures_are_read(images, images.len());
    seqs::gathered_append(
        tool_results::rest_texts(tool_media::tool_rest(v)),
        seqs::gathered(images, tool_results::responses_image(), images.len()),
        conversation_laws::part_read("tool"@),
    );
}

proof fn value_is_read(v: JsonView)
    ensures
        read(tool_results::with_images_or_text(v)) == value_says(v),
{
    if tool_media::tool_images(v).len() > 0 {
        pictured_is_read(v);
    } else {
        one_text(json_codec::written(v));
    }
}

proof fn block_is_read(block: JsonView)
    ensures
        read(tool_results::result_block()(block)) == block_says()(block),
{
    names_differ();
    let kind = block.get_str("type"@);
    if kind == Some("text"@) {
        if block.get_str("text"@) is Some {
            one_text(block.get_str("text"@)->0);
        }
    } else if kind == Some("image"@) {
        conversation_laws::pictures_are_read("tool"@, block);
        match tool_results::image_part(block) {
            Some(part) => {
                one_part(part);
            },
            None => {
                value_is_read(block);
            },
        }
    } else if kind == Some("document"@) {
        conversation_laws::documents_are_read("tool"@, false, block);
        match tool_results::document_part(block) {
            Some(part) => {
                one_part(part);
                conversation_laws::documents_say_something(block);
            },
            None => {
                one_text(json_codec::written(block));
            },
        }
    } else {
        value_is_read(block);
    }
}

proof fn blocks_are_read(blocks: Seq<JsonView>, n: nat)
    requires
        n <= blocks.len(),
    ensures
        read(seqs::gathered(blocks, tool_results::result_block(), n)) == seqs::gathered(
            blocks,
            block_says(),
            n,
        ),
    decreases n,
{
    if n > 0 {
        blocks_are_read(blocks, (n - 1) as nat);
        block_is_read(blocks[n - 1]);
        seqs::gathered_append(
            seqs::gathered(blocks, tool_results::result_block(), (n - 1) as nat),
            tool_results::result_block()(blocks[n - 1]),
            conversation_laws::part_read("tool"@),
        );
    }
}

proof fn content_is_read(content: Option<JsonView>)
    ensures
        read(tool_results::result_parts(content)) == content_says(content),
{
    match content {
        None => {},
        Some(JsonView::Str(s)) => {
            if tool_media::tool_images(JsonView::Str(s)).len() > 0 {
                pictured_is_read(JsonView::Str(s));
            } else {
                one_text(s);
            }
        },
        Some(JsonView::Array(blocks)) => {
            blocks_are_read(blocks, blocks.len());
        },
        Some(v) => {
            value_is_read(v);
        },
    }
}

/// A provider reads of a tool result what the tool returned, in its order: that
/// the tool failed, where it did, its texts word for word, its pictures and its
/// files, and anything else as text.
pub proof fn providers_read_what_tools_return(block: JsonView)
    ensures
        outcome_read(tool_results::result_output(block)) == result_says(block),
{
    let content = block.get("content"@);
    content_is_read(content);
    let parts = tool_results::result_parts(content);
    let none = Seq::<Said>::empty();
    if block.get_bool("is_error"@) == Some(true) {
        let marker = tool_results::input_text("[cc-switch:tool-result-error]"@);
        one_text("[cc-switch:tool-result-error]"@);
        seqs::gathered_append(seq![marker], parts, conversation_laws::part_read("tool"@));
    } else {
        assert(none + content_says(content) =~= content_says(content));
    }
}

/// A text that a tool returned, with no picture in it, is handed on as that
/// text.
pub proof fn plain_results_stay_texts(block: JsonView, s: Seq<char>)
    requires
        block.get("content"@) == Some(JsonView::Str(s)),
        block.get("is_error"@) != Some(JsonView::Bool(true)),
        json_codec::parsed(s) is Err,
    ensures
        tool_results::result_output(block) == JsonView::Str(s),
{
}

// ---------------------------------------------------------------------------
// Pictures in forms of their own
// ---------------------------------------------------------------------------

proof fn image_kinds_differ()
    ensures
        "image"@ != "image_url"@,
        "type"@ != "image_url"@,
{
    reveal_strlit("image");
    reveal_strlit("image_url");
    reveal_strlit("type");
    assert("image"@.len() == 5 && "image_url"@.len() == 9 && "type"@.len() == 4);
}

/// A picture that a tool returns with its data is found, with the address that
/// its media type and its data make.
pub proof fn pictures_with_data_are_found(v: JsonView, data: Seq<char>)
    requires
        v.says("type"@, "image"@),
        v.says("data"@, data),
        data.len() > 0,
        v.get("source"@) is None,
    ensures
        tool_media::tool_images(v).len() == 1,
        seqs::gathered(tool_media::tool_images(v), picture_says(), 1) == seq![
            Said::Picture {
                role: "tool"@,
                url: "data:"@ + v.str_or("mimeType"@, "image/png"@) + ";base64,"@ + data,
            },
        ],
{
    image_kinds_differ();
    reveal_with_fuel(seqs::gathered, 2);
    let url = "data:"@ + v.str_or("mimeType"@, "image/png"@) + ";base64,"@ + data;
    let image = tool_media::tool_images(v)[0];
    assert(JsonView::or_null(image.get("image_url"@)).get_str("url"@) == Some(url));
    reveal_strlit("data:");
    assert(url[0] == 'd');
    text::blank_is_all_white(url);
    assert(!text::white('d'));
    assert(!text::blank(url));
    assert(Seq::<Said>::empty() + picture_says()(image) =~= picture_says()(image));
}

/// A picture that a tool returns by its address is found by that address.
pub proof fn pictures_with_addresses_are_found(v: JsonView, url: Seq<char>)
    requires
        v.says("type"@, "image_url"@),
        v.get("image_url"@) is Some,
        v.get("image_url"@)->0.says("url"@, url) || v.get("image_url"@)->0 == JsonView::Str(url),
        !text::blank(url),
    ensures
        tool_media::tool_images(v).len() == 1,
        seqs::gathered(tool_media::tool_images(v), picture_says(), 1) == seq![
            Said::Picture { role: "tool"@, url },
        ],
{
    image_kinds_differ();
    reveal_with_fuel(seqs::gathered, 2);
    let image = tool_media::tool_images(v)[0];
    assert(JsonView::or_null(image.get("image_url"@)).get_str("url"@) == Some(url));
    assert(Seq::<Said>::empty() + picture_says()(image) =~= picture_says()(image));
}

/// The pictures of an array are those of its items, in their order; those of an
/// object that is none itself are those of its content.
pub proof fn pictures_are_found_inside(v: JsonView, items: Seq<JsonView>, n: nat)
    requires
        n < items.len(),
    ensures
        tool_media::images_upto(items, n + 1) == tool_media::images_upto(items, n)
            + tool_media::images(items[n as int]),
        tool_media::tool_images(JsonView::Array(items)) == tool_media::images_upto(
            items,
            items.len(),
        ),
        v.get("content"@) is Some && !v.says("type"@, "image"@) && !v.says("type"@, "image_url"@)
            ==> tool_media::tool_images(v) == tool_media::images(v.get("content"@)->0),
{
}

/// What is taken out of a text is taken out of the JSON that it holds.
pub proof fn texts_are_searched_for_pictures(s: Seq<char>)
    ensures
        json_codec::parsed(s) matches Ok(v) ==> (v is Array || v is Object)
            ==> tool_media::tool_images(JsonView::Str(s)) == tool_media::images(v),
        json_codec::parsed(s) is Err ==> tool_media::tool_images(JsonView::Str(s)).len() == 0,
{
}

// ---------------------------------------------------------------------------
// What is left of a result
// ---------------------------------------------------------------------------

/// A value in which there is no picture is left as it is.
pub proof fn values_without_pictures_are_left(v: JsonView)
    requires
        tool_media::images(v).len() == 0,
    ensures
        tool_media::marked(v) == v,
    decreases v,
{
    broadcast use vstd::map::group_map_axioms;

    match v {
        JsonView::Array(items) => {
            assert forall|i: int| 0 <= i < items.len() implies tool_media::marked(
                #[trigger] items[i],
            ) == items[i] by {
                no_images_at(items, i, items.len());
                values_without_pictures_are_left(items[i]);
            }
            assert(tool_media::marked(v)->Array_0 =~= items);
        },
        JsonView::Object(m) => {
            if m.contains_key("content"@) {
                values_without_pictures_are_left(m["content"@]);
                assert(m.insert("content"@, m["content"@]) =~= m);
            }
        },
        _ => {},
    }
}

proof fn no_images_at(items: Seq<JsonView>, i: int, n: nat)
    requires
        0 <= i < n <= items.len(),
        tool_media::images_upto(items, n).len() == 0,
    ensures
        tool_media::images(items[i]).len() == 0,
    decreases n,
{
    if i < n - 1 {
        no_images_at(items, i, (n - 1) as nat);
    }
}

proof fn marker_is_no_picture()
    ensures
        tool_media::images(tool_media::marker_block()).len() == 0,
        tool_media::marker_block().says("type"@, "input_text"@),
        tool_media::marker_block().says("text"@, "[cc-switch: media attached separately]"@),
{
    broadcast use vstd::map::group_map_axioms;

    reveal_strlit("type");
    reveal_strlit("text");
    reveal_strlit("content");
    reveal_strlit("input_text");
    reveal_strlit("image");
    reveal_strlit("image_url");
    assert("type"@.len() == 4 && "text"@.len() == 4 && "content"@.len() == 7);
    assert("type"@[1] == 'y' && "text"@[1] == 'e');
    assert("input_text"@.len() == 10 && "image"@.len() == 5 && "image_url"@.len() == 9);
}

/// In an array a text stands in the place of each picture, and nothing moves.
pub proof fn pictures_leave_a_text(items: Seq<JsonView>, i: int)
    requires
        0 <= i < items.len(),
    ensures
        ({
            let rest = tool_media::marked(JsonView::Array(items));
            &&& rest is Array
            &&& rest->Array_0.len() == items.len()
            &&& tool_media::image_of(items[i]) is Some ==> rest->Array_0[i].says(
                "type"@,
                "input_text"@,
            ) && rest->Array_0[i].says("text"@, "[cc-switch: media attached separately]"@)
            &&& tool_media::images(items[i]).len() == 0 ==> rest->Array_0[i] == items[i]
        }),
{
    reveal_with_fuel(tool_media::marked, 3);
    marker_is_no_picture();
    image_kinds_differ();
    if tool_media::images(items[i]).len() == 0 {
        values_without_pictures_are_left(items[i]);
    }
}

/// Of an object the content is searched for pictures, and no other member
/// changes.
pub proof fn pictures_are_taken_from_the_content(v: JsonView, key: Seq<char>)
    requires
        v is Object,
        tool_media::image_of(v) is None,
    ensures
        key != "content"@ ==> tool_media::marked(v).get(key) == v.get(key),
        v.get("content"@) is Some ==> tool_media::marked(v).get("content"@) == Some(
            tool_media::marked(v.get("content"@)->0),
        ),
        v.get("content"@) is None ==> tool_media::marked(v) == v,
{
    broadcast use vstd::map::group_map_axioms;

}

/// A text that is kept: it is not too long, or holds a character that encoded
/// data does not.
pub open spec fn is_kept_text(s: Seq<char>) -> bool {
    s.len() <= 16384 || exists|i: int|
        {
            let c = #[trigger] s[i];
            0 <= i < s.len() && !('A' <= c && c <= 'Z') && !('a' <= c && c <= 'z') && !('0' <= c
                && c <= '9') && c != '+' && c != '/' && c != '=' && c != '-' && c != '_'
        }
}

/// Of a value nothing is left out but long texts of encoded data, for which their
/// length stands; lists and objects keep their items and members.
pub proof fn only_long_data_is_left_out(v: JsonView, i: int, key: Seq<char>)
    ensures
        ({
            let rest = tool_media::clamped(v);
            match v {
                JsonView::Str(s) => rest == JsonView::Str(
                    if is_kept_text(s) {
                        s
                    } else {
                        "[cc-switch: omitted "@ + text::decimal(s.len()) + " bytes]"@
                    },
                ),
                JsonView::Array(items) => {
                    &&& rest is Array
                    &&& rest->Array_0.len() == items.len()
                    &&& 0 <= i < items.len() ==> rest->Array_0[i] == tool_media::clamped(items[i])
                },
                JsonView::Object(_) => {
                    &&& rest is Object
                    &&& rest.get(key) == (match v.get(key) {
                        Some(member) => Some(tool_media::clamped(member)),
                        None => None,
                    })
                },
                _ => rest == v,
            }
        }),
{
    broadcast use vstd::map::group_map_axioms;

    if let JsonView::Str(s) = v {
        if is_kept_text(s) {
            if s.len() > 16384 {
                let i = choose|i: int|
                    {
                        let c = #[trigger] s[i];
                        0 <= i < s.len() && !('A' <= c && c <= 'Z') && !('a' <= c && c <= 'z') && !(
                        '0' <= c && c <= '9') && c != '+' && c != '/' && c != '=' && c != '-' && c
                            != '_'
                    };
                assert(!tool_media::is_base64_char(s[i]));
            }
        } else {
            assert forall|i: int| 0 <= i < s.len() implies tool_media::is_base64_char(
                #[trigger] s[i],
            ) by {}
        }
    }
}

/// What is left of a result is what is left of the value when its pictures and
/// its long data are taken out; of a text that holds JSON it is the text of that.
pub proof fn results_are_left_without_pictures(v: JsonView, s: Seq<char>)
    ensures
        !(v is Str) ==> tool_media::tool_rest(v) == tool_media::clamped(tool_media::marked(v)),
        json_codec::parsed(s) matches Ok(j) ==> (j is Array || j is Object)
            ==> tool_media::tool_rest(JsonView::Str(s)) == JsonView::Str(
            json_codec::written(tool_media::clamped(tool_media::marked(j))),
        ),
{
}

} // verus!
