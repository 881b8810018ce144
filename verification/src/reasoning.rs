//! Encrypted reasoning, carried through the client in a redacted block.
use crate::json;
use crate::json::{Json, JsonView};
use crate::json_codec;
use crate::text;
use crate::tool_results;
use vstd::prelude::*;
use vstd::string::*;

verus! {

/// The signature of a thinking block that this library made.
pub const RESPONSES_PROXY_THINKING_SIGNATURE: &'static str = "cc-switch-responses-summary-v1";

/// How the data of a redacted block begins that this library made.
pub const RESPONSES_REASONING_PREFIX: &'static str = "cc-switch-responses-reasoning-v1:";

/// A string member that is not empty.
pub open spec fn filled(v: JsonView, key: Seq<char>) -> Option<Seq<char>> {
    match v.get_str(key) {
        Some(s) if s.len() > 0 => Some(s),
        _ => None,
    }
}

pub fn get_filled<'a>(v: &'a Json, key: &str) -> (r: Option<&'a str>)
    ensures
        text::opt_text(r) == filled(v@, key@),
{
    match v.get_str(key) {
        Some(s) => {
            if s.is_empty() {
                None
            } else {
                Some(s)
            }
        },
        None => None,
    }
}

/// What is carried of a reasoning item: its id and its encrypted content.
pub open spec fn sidecar(item: JsonView, encrypted: Seq<char>) -> JsonView {
    JsonView::object().with("id"@, JsonView::Str(item.str_or("id"@, ""@))).with(
        "encrypted_content"@,
        JsonView::Str(encrypted),
    )
}

/// The redacted block that carries a reasoning item, where it has encrypted
/// content.
pub open spec fn redacted_block(item: JsonView) -> Option<JsonView> {
    match filled(item, "encrypted_content"@) {
        None => None,
        Some(encrypted) => Some(
            JsonView::object().with("type"@, JsonView::Str("redacted_thinking"@)).with(
                "data"@,
                JsonView::Str(
                    RESPONSES_REASONING_PREFIX@ + json_codec::written(sidecar(item, encrypted)),
                ),
            ),
        ),
    }
}

/// A reasoning item with nothing but its encrypted content and its id.
pub open spec fn bare_reasoning(encrypted: Seq<char>, id: Option<Seq<char>>) -> JsonView {
    let item = JsonView::object().with("type"@, JsonView::Str("reasoning"@)).with(
        "summary"@,
        JsonView::Array(Seq::empty()),
    ).with("encrypted_content"@, JsonView::Str(encrypted));
    match id {
        Some(id) => item.with("id"@, JsonView::Str(id)),
        None => item,
    }
}

/// The reasoning item that a redacted block carries, where this library made
/// the block.
pub open spec fn carried_reasoning(block: JsonView) -> Option<JsonView> {
    match block.get_str("data"@) {
        None => None,
        Some(data) => match text::after_prefix(data, RESPONSES_REASONING_PREFIX@) {
            None => None,
            Some(payload) => match json_codec::parsed(payload) {
                Err(_) => None,
                Ok(sidecar) => match filled(sidecar, "encrypted_content"@) {
                    None => None,
                    Some(encrypted) => Some(bare_reasoning(encrypted, filled(sidecar, "id"@))),
                },
            },
        },
    }
}

/// Whether the redacted block of a reasoning item, where it has one, carries
/// its id and its encrypted content.
pub open spec fn reads_back(item: JsonView) -> bool {
    redacted_block(item) matches Some(block) ==> carried_reasoning(block) == Some(
        bare_reasoning(item.get_str("encrypted_content"@)->0, filled(item, "id"@)),
    )
}

/// A redacted block for a reasoning item, where it has encrypted content. The
/// block reads back as that item.
pub fn responses_reasoning_redacted_block(item: &Json) -> (r: Option<Json>)
    ensures
        tool_results::opt_json(r) == redacted_block(item@),
        r matches Some(block) ==> carried_reasoning(block@) == Some(
            bare_reasoning(item@.get_str("encrypted_content"@)->0, filled(item@, "id"@)),
        ),
{
    let encrypted = match get_filled(item, "encrypted_content") {
        Some(s) => s,
        None => {
            return None;
        },
    };
    let carried = Json::object().with("id", Json::string(item.str_or("id", ""))).with(
        "encrypted_content",
        Json::string(encrypted),
    );
    let payload = json_codec::write(&carried);
    let data = text::concat2(RESPONSES_REASONING_PREFIX, payload.as_str());
    proof {
        reveal_strlit("id");
        reveal_strlit("encrypted_content");
        reveal_strlit("type");
        reveal_strlit("data");
        reveal_strlit("");
        assert("id"@.len() == 2 && "encrypted_content"@.len() == 17);
        assert("type"@[0] == 't' && "data"@[0] == 'd');
        assert(""@ =~= Seq::<char>::empty());
        let prefix = RESPONSES_REASONING_PREFIX@;
        assert(data@.take(prefix.len() as int) =~= prefix);
        assert(data@.skip(prefix.len() as int) =~= payload@);
        assert(json_codec::is_flat_text(carried@));
        assert(carried@.get_str("id"@) == Some(item@.str_or("id"@, ""@)));
        assert(filled(carried@, "id"@) == filled(item@, "id"@));
    }
    Some(
        Json::object().with("type", Json::string("redacted_thinking")).with(
            "data",
            Json::Str(data),
        ),
    )
}

pub fn responses_reasoning_from_redacted_block(block: &Json) -> (r: Option<Json>)
    ensures
        tool_results::opt_json(r) == carried_reasoning(block@),
{
    let data = match block.get_str("data") {
        Some(s) => s,
        None => {
            return None;
        },
    };
    let payload = match text::strip_prefix(data, RESPONSES_REASONING_PREFIX) {
        Some(s) => s,
        None => {
            return None;
        },
    };
    let carried = match json_codec::parse(payload.as_str()) {
        Ok(j) => j,
        Err(_) => {
            return None;
        },
    };
    let encrypted = match get_filled(&carried, "encrypted_content") {
        Some(s) => s,
        None => {
            return None;
        },
    };
    let none: Vec<Json> = Vec::new();
    assert(json::items_view(none@) =~= Seq::<JsonView>::empty());
    let mut item = Json::object().with("type", Json::string("reasoning")).with(
        "summary",
        Json::Array(none),
    ).with("encrypted_content", Json::string(encrypted));
    if let Some(id) = get_filled(&carried, "id") {
        item.set("id", Json::string(id));
    }
    Some(item)
}

} // verus!
