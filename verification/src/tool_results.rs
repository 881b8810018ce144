//! What a client sends as images, documents and tool results, in the form of
//! the Responses protocol.
use crate::json;
use crate::json::{Json, JsonView};
use crate::json_codec;
use crate::seqs;
use crate::text;
use crate::tool_media;
use vstd::prelude::*;
use vstd::string::*;

verus! {

/// What stands before the result of a tool that failed.
pub const TOOL_RESULT_ERROR_MARKER: &'static str = "[cc-switch:tool-result-error]";

// ---------------------------------------------------------------------------
// Images and documents
// ---------------------------------------------------------------------------

/// Whether a URL is one of the web.
pub open spec fn is_web_url(url: Seq<char>) -> bool {
    text::has_prefix(url, "http://"@) || text::has_prefix(url, "https://"@)
}

fn has_web_scheme(url: &str) -> (r: bool)
    ensures
        r == is_web_url(url@),
{
    text::starts_with(url, "http://") || text::starts_with(url, "https://")
}

/// The web address of a source.
pub open spec fn web_url(source: JsonView) -> Option<Seq<char>> {
    match source.get_str("url"@) {
        Some(url) if is_web_url(url) => Some(url),
        _ => None,
    }
}

fn get_web_url(source: &Json) -> (r: Option<&str>)
    ensures
        text::opt_text(r) == web_url(source@),
{
    match source.get_str("url") {
        Some(url) => {
            if has_web_scheme(url) {
                Some(url)
            } else {
                None
            }
        },
        None => None,
    }
}

/// The data of a source as an address.
pub open spec fn inline_url(source: JsonView, default_type: Seq<char>) -> Option<Seq<char>> {
    match source.get_str("data"@) {
        Some(data) if data.len() > 0 => Some(
            tool_media::data_url(source.str_or("media_type"@, default_type), data),
        ),
        _ => None,
    }
}

fn get_inline_url(source: &Json, default_type: &str) -> (r: Option<String>)
    ensures
        text::opt_string(r) == inline_url(source@, default_type@),
{
    match source.get_str("data") {
        Some(data) => {
            if data.is_empty() {
                None
            } else {
                Some(tool_media::make_data_url(source.str_or("media_type", default_type), data))
            }
        },
        None => None,
    }
}

/// An image block, where its source can be given.
pub open spec fn image_part(block: JsonView) -> Option<JsonView> {
    match block.get("source"@) {
        None => None,
        Some(source) => {
            let kind = source.get_str("type"@);
            let url = if kind == Some("url"@) {
                web_url(source)
            } else if kind == Some("base64"@) || kind is None {
                inline_url(source, "image/png"@)
            } else {
                None
            };
            match url {
                Some(url) => Some(
                    JsonView::object().with("type"@, JsonView::Str("input_image"@)).with(
                        "image_url"@,
                        JsonView::Str(url),
                    ),
                ),
                None => None,
            }
        },
    }
}

pub open spec fn opt_json(v: Option<Json>) -> Option<JsonView> {
    match v {
        Some(j) => Some(j@),
        None => None,
    }
}

pub fn anthropic_image_to_responses_part(block: &Json) -> (r: Option<Json>)
    ensures
        opt_json(r) == image_part(block@),
{
    let source = match block.get("source") {
        Some(source) => source,
        None => {
            return None;
        },
    };
    let kind = source.get_str("type");
    if text::is_text(kind, "url") {
        match get_web_url(source) {
            Some(url) => Some(
                Json::object().with("type", Json::string("input_image")).with(
                    "image_url",
                    Json::string(url),
                ),
            ),
            None => None,
        }
    } else if text::is_text(kind, "base64") || kind.is_none() {
        match get_inline_url(source, "image/png") {
            Some(url) => Some(
                Json::object().with("type", Json::string("input_image")).with(
                    "image_url",
                    Json::Str(url),
                ),
            ),
            None => None,
        }
    } else {
        None
    }
}

/// The name of a document: its title where it has one, else its file name,
/// where that is a string.
pub open spec fn document_name(block: JsonView) -> Seq<char> {
    let named = match block.get("title"@) {
        Some(v) => Some(v),
        None => block.get("filename"@),
    };
    match named {
        Some(JsonView::Str(s)) => s,
        _ => "document.pdf"@,
    }
}

/// A document block, where its source can be given.
pub open spec fn document_part(block: JsonView) -> Option<JsonView> {
    match block.get("source"@) {
        None => None,
        Some(source) => {
            let kind = source.get_str("type"@);
            let file = JsonView::object().with("type"@, JsonView::Str("input_file"@));
            let name = JsonView::Str(document_name(block));
            if kind == Some("url"@) {
                match web_url(source) {
                    Some(url) => Some(
                        file.with("file_url"@, JsonView::Str(url)).with("filename"@, name),
                    ),
                    None => None,
                }
            } else if kind == Some("base64"@) {
                match inline_url(source, "application/pdf"@) {
                    Some(url) => Some(
                        file.with("file_data"@, JsonView::Str(url)).with("filename"@, name),
                    ),
                    None => None,
                }
            } else {
                None
            }
        },
    }
}

fn get_document_name(block: &Json) -> (r: &str)
    ensures
        r@ == document_name(block@),
{
    let named = match block.get("title") {
        Some(v) => Some(v),
        None => block.get("filename"),
    };
    match named {
        Some(Json::Str(s)) => s.as_str(),
        _ => "document.pdf",
    }
}

pub fn anthropic_document_to_responses_part(block: &Json) -> (r: Option<Json>)
    ensures
        opt_json(r) == document_part(block@),
{
    let source = match block.get("source") {
        Some(source) => source,
        None => {
            return None;
        },
    };
    let name = get_document_name(block);
    let kind = source.get_str("type");
    if text::is_text(kind, "url") {
        match get_web_url(source) {
            Some(url) => Some(
                Json::object().with("type", Json::string("input_file")).with(
                    "file_url",
                    Json::string(url),
                ).with("filename", Json::string(name)),
            ),
            None => None,
        }
    } else if text::is_text(kind, "base64") {
        match get_inline_url(source, "application/pdf") {
            Some(url) => Some(
                Json::object().with("type", Json::string("input_file")).with(
                    "file_data",
                    Json::Str(url),
                ).with("filename", Json::string(name)),
            ),
            None => None,
        }
    } else {
        None
    }
}

// ---------------------------------------------------------------------------
// Texts
// ---------------------------------------------------------------------------

/// A text of the client.
pub open spec fn input_text(s: Seq<char>) -> JsonView {
    JsonView::object().with("type"@, JsonView::Str("input_text"@)).with("text"@, JsonView::Str(s))
}

fn make_input_text(s: &str) -> (r: Json)
    ensures
        r@ == input_text(s@),
{
    Json::object().with("type", Json::string("input_text")).with("text", Json::string(s))
}

/// A value of any kind, as text.
pub open spec fn as_text(v: JsonView) -> JsonView {
    input_text(json_codec::written(v))
}

fn make_text_of(v: &Json) -> (r: Json)
    ensures
        r@ == as_text(v@),
{
    let s = json_codec::write(v);
    make_input_text(s.as_str())
}

/// Whether a block is a text.
pub open spec fn is_text_block(v: JsonView) -> bool {
    let kind = v.get_str("type"@);
    kind == Some("input_text"@) || kind == Some("output_text"@) || kind == Some("text"@)
}

fn has_text_type(v: &Json) -> (r: bool)
    ensures
        r == is_text_block(v@),
{
    let kind = v.get_str("type");
    text::is_text(kind, "input_text") || text::is_text(kind, "output_text") || text::is_text(
        kind,
        "text",
    )
}

/// The text of a text block, where it has one.
pub open spec fn block_text(v: JsonView) -> Seq<JsonView> {
    match v.get_str("text"@) {
        Some(s) => seq![input_text(s)],
        None => Seq::empty(),
    }
}

/// Adds `more` at the end of `out`.
fn append_all(out: &mut Vec<Json>, more: Vec<Json>)
    ensures
        json::items_view(final(out)@) == json::items_view(old(out)@) + json::items_view(more@),
{
    let ghost before = out@;
    let mut more = more;
    let ghost added = more@;
    out.append(&mut more);
    assert(out@ =~= before + added);
    assert(json::items_view(before + added) =~= json::items_view(before) + json::items_view(added));
}

/// Adds `v` at the end of `out`.
fn append_one(out: &mut Vec<Json>, v: Json)
    ensures
        json::items_view(final(out)@) == json::items_view(old(out)@) + seq![v@],
{
    proof {
        json::items_push(out@, v);
        assert(json::items_view(out@).push(v@) =~= json::items_view(out@) + seq![v@]);
    }
    out.push(v);
}

fn append_block_text(v: &Json, out: &mut Vec<Json>)
    ensures
        json::items_view(final(out)@) == json::items_view(old(out)@) + block_text(v@),
{
    match v.get_str("text") {
        Some(s) => append_one(out, make_input_text(s)),
        None => {
            assert(json::items_view(out@) + Seq::<JsonView>::empty() =~= json::items_view(out@));
        },
    }
}

// ---------------------------------------------------------------------------
// What a tool returned besides images
// ---------------------------------------------------------------------------

/// A part of what a tool returned, as text.
pub open spec fn rest_part() -> spec_fn(JsonView) -> Seq<JsonView> {
    |part: JsonView|
        if is_text_block(part) {
            block_text(part)
        } else {
            seq![as_text(part)]
        }
}

/// What a tool returned, as texts.
pub open spec fn rest_texts(v: JsonView) -> Seq<JsonView> {
    match v {
        JsonView::Str(s) => if s.len() > 0 {
            seq![input_text(s)]
        } else {
            Seq::empty()
        },
        JsonView::Array(parts) => seqs::gathered(parts, rest_part(), parts.len()),
        JsonView::Object(_) => rest_part()(v),
        JsonView::Null => Seq::empty(),
        _ => seq![as_text(v)],
    }
}

fn append_rest_part(part: &Json, out: &mut Vec<Json>)
    ensures
        json::items_view(final(out)@) == json::items_view(old(out)@) + rest_part()(part@),
{
    if has_text_type(part) {
        append_block_text(part, out);
    } else {
        append_one(out, make_text_of(part));
    }
}

fn append_sanitized_responses_tool_value(v: &Json, out: &mut Vec<Json>)
    ensures
        json::items_view(final(out)@) == json::items_view(old(out)@) + rest_texts(v@),
{
    let ghost before = json::items_view(out@);
    match v {
        Json::Str(s) => {
            if s.as_str().is_empty() {
                assert(before + Seq::<JsonView>::empty() =~= before);
            } else {
                append_one(out, make_input_text(s.as_str()));
            }
        },
        Json::Array(parts) => {
            let ghost views = json::items_view(parts@);
            let mut i: usize = 0;
            assert(before + seqs::gathered(views, rest_part(), 0) =~= before);
            while i < parts.len()
                invariant
                    i <= parts@.len(),
                    views == json::items_view(parts@),
                    json::items_view(out@) == before + seqs::gathered(
                        views,
                        rest_part(),
                        i as nat,
                    ),
                decreases parts@.len() - i,
            {
                assert(views[i as int] == parts@[i as int]@);
                append_rest_part(&parts[i], out);
                proof {
                    let g = seqs::gathered(views, rest_part(), i as nat);
                    let x = rest_part()(views[i as int]);
                    assert(before + g + x =~= before + (g + x));
                }
                i = i + 1;
            }
        },
        Json::Object(_) => {
            append_rest_part(v, out);
        },
        Json::Null => {
            assert(before + Seq::<JsonView>::empty() =~= before);
        },
        _ => {
            append_one(out, make_text_of(v));
        },
    }
}

/// An image of a tool, in the form of the Responses protocol.
pub open spec fn responses_image() -> spec_fn(JsonView) -> Seq<JsonView> {
    |part: JsonView|
        match part.get_str_in("image_url"@, "url"@) {
            Some(url) if !text::blank(url) => {
                let image = JsonView::object().with("type"@, JsonView::Str("input_image"@)).with(
                    "image_url"@,
                    JsonView::Str(url),
                );
                match part.get_in("image_url"@, "detail"@) {
                    Some(detail) => seq![image.with("detail"@, detail)],
                    None => seq![image],
                }
            },
            _ => Seq::empty(),
        }
}

fn append_responses_image(part: &Json, out: &mut Vec<Json>)
    ensures
        json::items_view(final(out)@) == json::items_view(old(out)@) + responses_image()(part@),
{
    if let Some(url) = part.get_str_in("image_url", "url") {
        if !text::is_blank(url) {
            let mut image = Json::object().with("type", Json::string("input_image")).with(
                "image_url",
                Json::string(url),
            );
            if let Some(detail) = part.get_in("image_url", "detail") {
                image.set("detail", detail.copy());
            }
            append_one(out, image);
            return ;
        }
    }
    assert(json::items_view(out@) + Seq::<JsonView>::empty() =~= json::items_view(out@));
}

/// What a tool returned, where there is an image in it: the rest as texts, then
/// the images.
pub open spec fn with_images_apart(v: JsonView) -> Option<Seq<JsonView>> {
    let images = tool_media::tool_images(v);
    if images.len() == 0 {
        None
    } else {
        Some(
            rest_texts(tool_media::tool_rest(v)) + seqs::gathered(
                images,
                responses_image(),
                images.len(),
            ),
        )
    }
}

pub fn alternate_image_tool_result_to_responses(v: &Json) -> (r: Option<Vec<Json>>)
    ensures
        (match r {
            Some(v) => Some(json::items_view(v@)),
            None => None,
        }) == with_images_apart(v@),
{
    let (images, rest) = tool_media::strip_and_clamp_media_from_tool_value(v);
    let ghost views = json::items_view(images@);
    assert(views.len() == images@.len());
    if images.len() == 0 {
        return None;
    }
    let mut out: Vec<Json> = Vec::new();
    assert(json::items_view(out@) + rest_texts(rest@) =~= rest_texts(rest@));
    append_sanitized_responses_tool_value(&rest, &mut out);
    let ghost before = json::items_view(out@);
    let mut i: usize = 0;
    assert(before + seqs::gathered(views, responses_image(), 0) =~= before);
    while i < images.len()
        invariant
            i <= images@.len(),
            views == json::items_view(images@),
            json::items_view(out@) == before + seqs::gathered(views, responses_image(), i as nat),
        decreases images@.len() - i,
    {
        assert(views[i as int] == images@[i as int]@);
        append_responses_image(&images[i], &mut out);
        proof {
            let g = seqs::gathered(views, responses_image(), i as nat);
            let x = responses_image()(views[i as int]);
            assert(before + g + x =~= before + (g + x));
        }
        i = i + 1;
    }
    Some(out)
}

// ---------------------------------------------------------------------------
// Tool results
// ---------------------------------------------------------------------------

/// A value with its images apart, else as text.
pub open spec fn with_images_or_text(v: JsonView) -> Seq<JsonView> {
    match with_images_apart(v) {
        Some(parts) => parts,
        None => seq![as_text(v)],
    }
}

/// One block of the content of a tool result.
pub open spec fn result_block() -> spec_fn(JsonView) -> Seq<JsonView> {
    |part: JsonView|
        {
            let kind = part.get_str("type"@);
            if kind == Some("text"@) {
                block_text(part)
            } else if kind == Some("image"@) {
                match image_part(part) {
                    Some(image) => seq![image],
                    None => with_images_or_text(part),
                }
            } else if kind == Some("document"@) {
                match document_part(part) {
                    Some(file) => seq![file],
                    None => seq![as_text(part)],
                }
            } else {
                with_images_or_text(part)
            }
        }
}

/// The content of a tool result, in parts.
pub open spec fn result_parts(content: Option<JsonView>) -> Seq<JsonView> {
    match content {
        None => Seq::empty(),
        Some(JsonView::Str(s)) => match with_images_apart(JsonView::Str(s)) {
            Some(parts) => parts,
            None => seq![input_text(s)],
        },
        Some(JsonView::Array(blocks)) => seqs::gathered(blocks, result_block(), blocks.len()),
        Some(v) => with_images_or_text(v),
    }
}

/// The output of a tool call: text as it is where the tool succeeded and
/// returned nothing else, else parts, with a marker first where it failed.
pub open spec fn result_output(block: JsonView) -> JsonView {
    let content = block.get("content"@);
    if block.get_bool("is_error"@) == Some(true) {
        JsonView::Array(seq![input_text(TOOL_RESULT_ERROR_MARKER@)] + result_parts(content))
    } else {
        match content {
            Some(JsonView::Str(s)) => match with_images_apart(JsonView::Str(s)) {
                Some(parts) => JsonView::Array(parts),
                None => JsonView::Str(s),
            },
            _ => JsonView::Array(result_parts(content)),
        }
    }
}

fn append_images_or_text(v: &Json, out: &mut Vec<Json>)
    ensures
        json::items_view(final(out)@) == json::items_view(old(out)@) + with_images_or_text(v@),
{
    match alternate_image_tool_result_to_responses(v) {
        Some(parts) => append_all(out, parts),
        None => append_one(out, make_text_of(v)),
    }
}

fn append_result_block(part: &Json, out: &mut Vec<Json>)
    ensures
        json::items_view(final(out)@) == json::items_view(old(out)@) + result_block()(part@),
{
    let kind = part.get_str("type");
    if text::is_text(kind, "text") {
        append_block_text(part, out);
    } else if text::is_text(kind, "image") {
        match anthropic_image_to_responses_part(part) {
            Some(image) => append_one(out, image),
            None => append_images_or_text(part, out),
        }
    } else if text::is_text(kind, "document") {
        match anthropic_document_to_responses_part(part) {
            Some(file) => append_one(out, file),
            None => append_one(out, make_text_of(part)),
        }
    } else {
        append_images_or_text(part, out);
    }
}

fn append_result_parts(content: Option<&Json>, out: &mut Vec<Json>)
    ensures
        json::items_view(final(out)@) == json::items_view(old(out)@) + result_parts(
            json::opt_view(content),
        ),
{
    let ghost before = json::items_view(out@);
    match content {
        None => {
            assert(before + Seq::<JsonView>::empty() =~= before);
        },
        Some(v) => match v {
            Json::Str(s) => match alternate_image_tool_result_to_responses(v) {
                Some(parts) => append_all(out, parts),
                None => append_one(out, make_input_text(s.as_str())),
            },
            Json::Array(blocks) => {
                let ghost views = json::items_view(blocks@);
                let mut i: usize = 0;
                assert(before + seqs::gathered(views, result_block(), 0) =~= before);
                while i < blocks.len()
                    invariant
                        i <= blocks@.len(),
                        views == json::items_view(blocks@),
                        json::items_view(out@) == before + seqs::gathered(
                            views,
                            result_block(),
                            i as nat,
                        ),
                    decreases blocks@.len() - i,
                {
                    assert(views[i as int] == blocks@[i as int]@);
                    append_result_block(&blocks[i], out);
                    proof {
                        let g = seqs::gathered(views, result_block(), i as nat);
                        let x = result_block()(views[i as int]);
                        assert(before + g + x =~= before + (g + x));
                    }
                    i = i + 1;
                }
            },
            _ => append_images_or_text(v, out),
        },
    }
}

pub fn anthropic_tool_result_to_responses_output(block: &Json) -> (r: Json)
    ensures
        r@ == result_output(block@),
{
    let failed = match block.get_bool("is_error") {
        Some(b) => b,
        None => false,
    };
    let content = block.get("content");
    let mut out: Vec<Json> = Vec::new();
    let ghost none = json::items_view(out@);
    assert(none =~= Seq::<JsonView>::empty());
    if failed {
        append_one(&mut out, make_input_text(TOOL_RESULT_ERROR_MARKER));
        assert(none + seq![input_text(TOOL_RESULT_ERROR_MARKER@)] =~= seq![
            input_text(TOOL_RESULT_ERROR_MARKER@),
        ]);
        append_result_parts(content, &mut out);
        return Json::Array(out);
    }
    if let Some(v) = content {
        if let Json::Str(s) = v {
            return match alternate_image_tool_result_to_responses(v) {
                Some(parts) => Json::Array(parts),
                None => Json::Str(s.clone()),
            };
        }
    }
    append_result_parts(content, &mut out);
    assert(none + result_parts(json::opt_view(content)) =~= result_parts(json::opt_view(content)));
    Json::Array(out)
}

} // verus!
