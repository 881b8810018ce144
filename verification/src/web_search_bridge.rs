//! Hosted web search, between the two protocols.
//!
//! A request may ask for the hosted web-search tool; its description is
//! checked strictly and mapped. What a search gave is shown to the client as a
//! pair of blocks, which the client sends back with the next request; the pair
//! is then checked and folded into the search item that it came from.
use crate::error;
use crate::error::{ErrorView, ProxyError};
use crate::json;
use crate::json::{Json, JsonView};
use crate::seqs;
use crate::text;
use vstd::prelude::*;
use vstd::string::*;
use vstd::utf8::encode_utf8;

verus! {

pub const WEB_SEARCH_SOURCES_INCLUDE: &'static str = "web_search_call.action.sources";

pub const WEB_SEARCH_TOOL_TYPE: &'static str = "web_search_20250305";

pub const WEB_SEARCH_TOOL_NAME: &'static str = "web_search";

pub const RESULT_DIGEST_PREFIX: &'static str = "ccs-ws1:";

pub const CITATION_INDEX_PREFIX: &'static str = "ccs-cit1:";

// ---------------------------------------------------------------------------
// Results and their views
// ---------------------------------------------------------------------------

pub open spec fn json_result(r: Result<Json, ProxyError>) -> Result<JsonView, ErrorView> {
    match r {
        Ok(j) => Ok(j@),
        Err(e) => Err(e@),
    }
}

pub open spec fn str_result(r: Result<&str, ProxyError>) -> Result<Seq<char>, ErrorView> {
    match r {
        Ok(s) => Ok(s@),
        Err(e) => Err(e@),
    }
}

pub open spec fn unit_result(r: Result<(), ProxyError>) -> Result<(), ErrorView> {
    match r {
        Ok(_) => Ok(()),
        Err(e) => Err(e@),
    }
}

// ---------------------------------------------------------------------------
// Checks on the parts of a request
// ---------------------------------------------------------------------------

/// A string that is more than white space.
pub open spec fn checked_string(value: Option<JsonView>, name: Seq<char>) -> Result<
    Seq<char>,
    ErrorView,
> {
    match value {
        Some(JsonView::Str(s)) if !text::blank(s) => Ok(s),
        _ => Err(ErrorView::InvalidRequest(name + " must be a non-empty string"@)),
    }
}

pub fn non_empty_string<'a>(value: Option<&'a Json>, name: &str) -> (r: Result<&'a str, ProxyError>)
    ensures
        str_result(r) == checked_string(json::opt_view(value), name@),
{
    match value {
        Some(Json::Str(s)) => {
            if !text::is_blank(s.as_str()) {
                return Ok(s.as_str());
            }
        },
        _ => {},
    }
    Err(ProxyError::InvalidRequest(text::concat2(name, " must be a non-empty string")))
}

/// Whether `v` is an array of strings, none of them blank.
pub open spec fn is_string_array(v: Seq<JsonView>) -> bool {
    forall|i: int| 0 <= i < v.len() ==> (#[trigger] v[i] matches JsonView::Str(s) && !text::blank(s))
}

/// An array of strings, none of them blank.
pub open spec fn checked_array(value: JsonView, name: Seq<char>) -> Result<
    Seq<JsonView>,
    ErrorView,
> {
    match value {
        JsonView::Array(v) => if is_string_array(v) {
            Ok(v)
        } else {
            Err(ErrorView::InvalidRequest(name + " entries must be non-empty strings"@))
        },
        _ => Err(ErrorView::InvalidRequest(name + " must be an array"@)),
    }
}

fn string_array(value: &Json, name: &str) -> (r: Result<Vec<Json>, ProxyError>)
    ensures
        match r {
            Ok(v) => checked_array(value@, name@) == Ok::<Seq<JsonView>, ErrorView>(
                json::items_view(v@),
            ),
            Err(e) => checked_array(value@, name@) == Err::<Seq<JsonView>, ErrorView>(e@),
        },
{
    let v = match value {
        Json::Array(v) => v,
        _ => {
            return Err(ProxyError::InvalidRequest(text::concat2(name, " must be an array")));
        },
    };
    let ghost views = json::items_view(v@);
    let mut i: usize = 0;
    while i < v.len()
        invariant
            i <= v@.len(),
            value@ == JsonView::Array(views),
            views == json::items_view(v@),
            forall|k: int|
                0 <= k < i ==> (#[trigger] views[k] matches JsonView::Str(s) && !text::blank(s)),
        decreases v@.len() - i,
    {
        let good = match &v[i] {
            Json::Str(s) => !text::is_blank(s.as_str()),
            _ => false,
        };
        assert(views[i as int] == v@[i as int]@);
        if !good {
            return Err(
                ProxyError::InvalidRequest(
                    text::concat2(name, " entries must be non-empty strings"),
                ),
            );
        }
        i = i + 1;
    }
    Ok(json::copy_items(v))
}

/// An object with no members but those that are allowed.
pub open spec fn checked_fields(
    value: JsonView,
    allowed: Seq<Seq<char>>,
    name: Seq<char>,
) -> Result<(), ErrorView> {
    match value {
        JsonView::Object(m) => match json::first_unknown(m, allowed) {
            Some(field) => Err(
                ErrorView::InvalidRequest(name + " contains unsupported field "@ + field),
            ),
            None => Ok(()),
        },
        _ => Err(ErrorView::InvalidRequest(name + " must be an object"@)),
    }
}

pub fn validate_allowed_block_fields(value: &Json, allowed: &Vec<&str>, name: &str) -> (r: Result<
    (),
    ProxyError,
>)
    ensures
        unit_result(r) == checked_fields(value@, json::names(allowed@), name@),
{
    if !value.is_object() {
        return Err(ProxyError::InvalidRequest(text::concat2(name, " must be an object")));
    }
    match value.first_unknown(allowed) {
        Some(field) => Err(
            ProxyError::InvalidRequest(
                text::concat3(name, " contains unsupported field ", field.as_str()),
            ),
        ),
        None => Ok(()),
    }
}

/// The one cache control that is understood.
pub open spec fn ephemeral() -> JsonView {
    JsonView::object().with("type"@, JsonView::Str("ephemeral"@))
}

pub open spec fn checked_cache_control(value: Option<JsonView>) -> Result<(), ErrorView> {
    match value {
        Some(v) => if v == ephemeral() {
            Ok(())
        } else {
            Err(ErrorView::InvalidRequest("only cache_control={type:ephemeral} is supported"@))
        },
        None => Ok(()),
    }
}

fn validate_ephemeral_cache_control(value: Option<&Json>) -> (r: Result<(), ProxyError>)
    ensures
        unit_result(r) == checked_cache_control(json::opt_view(value)),
{
    match value {
        Some(v) => {
            let wanted = Json::object().with("type", Json::string("ephemeral"));
            if v.agrees(&wanted) {
                proof {
                    let a = v@->Object_0;
                    let b = wanted@->Object_0;
                    assert(b.contains_key("type"@));
                    assert(a["type"@].agrees(b["type"@]));
                    assert(a =~= b);
                }
                Ok(())
            } else {
                proof {
                    let b = wanted@->Object_0;
                    assert(JsonView::Str("ephemeral"@).agrees(JsonView::Str("ephemeral"@)));
                    assert(forall|k: Seq<char>|
                        b.contains_key(k) ==> (#[trigger] b[k]).agrees(b[k]));
                    assert(wanted@.agrees(wanted@));
                }
                Err(error::invalid("only cache_control={type:ephemeral} is supported"))
            }
        },
        None => Ok(()),
    }
}

// ---------------------------------------------------------------------------
// The hosted tool
// ---------------------------------------------------------------------------

pub open spec fn tool_fields() -> Seq<Seq<char>> {
    seq![
        "type"@,
        "name"@,
        "max_uses"@,
        "allowed_domains"@,
        "blocked_domains"@,
        "user_location"@,
        "cache_control"@,
    ]
}

pub open spec fn location_fields() -> Seq<Seq<char>> {
    seq!["type"@, "city"@, "country"@, "region"@, "timezone"@]
}

/// Whether a member is absent, null or a string.
pub open spec fn is_text_or_null(location: JsonView, field: Seq<char>) -> bool {
    match location.get(field) {
        None => true,
        Some(v) => v is Null || v is Str,
    }
}

pub open spec fn bad_location_field(field: Seq<char>) -> ErrorView {
    ErrorView::InvalidRequest("WebSearch user_location."@ + field + " must be a string or null"@)
}

/// A location passes as it is, where it is one.
pub open spec fn mapped_location(location: JsonView) -> Result<JsonView, ErrorView> {
    match checked_fields(location, location_fields(), "WebSearch user_location"@) {
        Err(e) => Err(e),
        Ok(_) => if !location.says("type"@, "approximate"@) {
            Err(ErrorView::InvalidRequest("WebSearch user_location.type must be approximate"@))
        } else if !is_text_or_null(location, "city"@) {
            Err(bad_location_field("city"@))
        } else if !is_text_or_null(location, "country"@) {
            Err(bad_location_field("country"@))
        } else if !is_text_or_null(location, "region"@) {
            Err(bad_location_field("region"@))
        } else if !is_text_or_null(location, "timezone"@) {
            Err(bad_location_field("timezone"@))
        } else {
            Ok(location)
        },
    }
}

fn validate_location_field(location: &Json, field: &str) -> (r: Result<(), ProxyError>)
    ensures
        unit_result(r) == (if is_text_or_null(location@, field@) {
            Ok(())
        } else {
            Err(bad_location_field(field@))
        }),
{
    match location.get(field) {
        None => Ok(()),
        Some(Json::Null) => Ok(()),
        Some(Json::Str(_)) => Ok(()),
        Some(_) => Err(
            ProxyError::InvalidRequest(
                text::concat3("WebSearch user_location.", field, " must be a string or null"),
            ),
        ),
    }
}

fn map_user_location(location: &Json) -> (r: Result<Json, ProxyError>)
    ensures
        json_result(r) == mapped_location(location@),
{
    let allowed = vec!["type", "city", "country", "region", "timezone"];
    assert(json::names(allowed@) =~= location_fields());
    if let Err(e) = validate_allowed_block_fields(location, &allowed, "WebSearch user_location") {
        return Err(e);
    }
    if !location.says("type", "approximate") {
        return Err(error::invalid("WebSearch user_location.type must be approximate"));
    }
    if let Err(e) = validate_location_field(location, "city") {
        return Err(e);
    }
    if let Err(e) = validate_location_field(location, "country") {
        return Err(e);
    }
    if let Err(e) = validate_location_field(location, "region") {
        return Err(e);
    }
    if let Err(e) = validate_location_field(location, "timezone") {
        return Err(e);
    }
    Ok(location.copy())
}

/// The tool with the domains to search in, where there are any.
pub open spec fn tool_with_domains(tool: JsonView) -> Result<JsonView, ErrorView> {
    let mapped = JsonView::object().with("type"@, JsonView::Str("web_search"@));
    match tool.get("allowed_domains"@) {
        None => Ok(mapped),
        Some(domains) => match checked_array(domains, "WebSearch allowed_domains"@) {
            Err(e) => Err(e),
            Ok(v) => if v.len() == 0 {
                Ok(mapped)
            } else {
                Ok(
                    mapped.with(
                        "filters"@,
                        JsonView::object().with("allowed_domains"@, JsonView::Array(v)),
                    ),
                )
            },
        },
    }
}

/// Whether no domain is blocked.
pub open spec fn checked_blocked_domains(tool: JsonView) -> Result<(), ErrorView> {
    match tool.get("blocked_domains"@) {
        None => Ok(()),
        Some(domains) => match checked_array(domains, "WebSearch blocked_domains"@) {
            Err(e) => Err(e),
            Ok(v) => if v.len() > 0 {
                Err(
                    ErrorView::InvalidRequest(
                        "non-empty WebSearch blocked_domains is not supported"@,
                    ),
                )
            } else {
                Ok(())
            },
        },
    }
}

/// The hosted tool as the Responses protocol describes it.
pub open spec fn mapped_tool(tool: JsonView) -> Result<JsonView, ErrorView> {
    match checked_fields(tool, tool_fields(), "WebSearch tool"@) {
        Err(e) => Err(e),
        Ok(_) => match checked_cache_control(tool.get("cache_control"@)) {
            Err(e) => Err(e),
            Ok(_) => if !tool.says("type"@, WEB_SEARCH_TOOL_TYPE@) || !tool.says(
                "name"@,
                WEB_SEARCH_TOOL_NAME@,
            ) {
                Err(
                    ErrorView::InvalidRequest(
                        "only type=web_search_20250305,name=web_search is supported"@,
                    ),
                )
            } else {
                match checked_blocked_domains(tool) {
                    Err(e) => Err(e),
                    Ok(_) => match tool_with_domains(tool) {
                        Err(e) => Err(e),
                        Ok(mapped) => match tool.get("user_location"@) {
                            None => Ok(mapped),
                            Some(location) => match mapped_location(location) {
                                Err(e) => Err(e),
                                Ok(l) => Ok(mapped.with("user_location"@, l)),
                            },
                        },
                    },
                }
            },
        },
    }
}

pub fn map_anthropic_web_search_tool(tool: &Json) -> (r: Result<Json, ProxyError>)
    ensures
        json_result(r) == mapped_tool(tool@),
{
    let allowed = vec![
        "type",
        "name",
        "max_uses",
        "allowed_domains",
        "blocked_domains",
        "user_location",
        "cache_control",
    ];
    assert(json::names(allowed@) =~= tool_fields());
    if let Err(e) = validate_allowed_block_fields(tool, &allowed, "WebSearch tool") {
        return Err(e);
    }
    if let Err(e) = validate_ephemeral_cache_control(tool.get("cache_control")) {
        return Err(e);
    }
    if !tool.says("type", WEB_SEARCH_TOOL_TYPE) || !tool.says("name", WEB_SEARCH_TOOL_NAME) {
        return Err(error::invalid("only type=web_search_20250305,name=web_search is supported"));
    }
    if let Some(domains) = tool.get("blocked_domains") {
        match string_array(domains, "WebSearch blocked_domains") {
            Err(e) => {
                return Err(e);
            },
            Ok(v) => {
                if v.len() > 0 {
                    return Err(
                        error::invalid("non-empty WebSearch blocked_domains is not supported"),
                    );
                }
            },
        }
    }
    let mut mapped = Json::object().with("type", Json::string("web_search"));
    if let Some(domains) = tool.get("allowed_domains") {
        match string_array(domains, "WebSearch allowed_domains") {
            Err(e) => {
                return Err(e);
            },
            Ok(v) => {
                if v.len() > 0 {
                    mapped.set("filters", Json::object().with("allowed_domains", Json::Array(v)));
                }
            },
        }
    }
    if let Some(location) = tool.get("user_location") {
        match map_user_location(location) {
            Err(e) => {
                return Err(e);
            },
            Ok(l) => {
                mapped.set("user_location", l);
            },
        }
    }
    Ok(mapped)
}

// ---------------------------------------------------------------------------
// What a request asks for
// ---------------------------------------------------------------------------

/// What a request allows of hosted web search.
#[derive(Clone, Debug, PartialEq, Eq)]
pub struct WebSearchRequestPolicy {
    /// How many searches there may be at most.
    pub max_uses: Option<u64>,
}

/// Whether a tool is, or wants to be, a hosted web search.
pub open spec fn looks_like_search(tool: JsonView) -> bool {
    tool.get_str("type"@) matches Some(t) && (t == "web_search"@ || text::has_prefix(
        t,
        "web_search_"@,
    ))
}

pub fn is_search_tool(tool: &Json) -> (r: bool)
    ensures
        r == looks_like_search(tool@),
{
    match tool.get_str("type") {
        Some(t) => text::same_text(t, "web_search") || text::starts_with(t, "web_search_"),
        None => false,
    }
}

/// How many searches a tool allows: a positive number, or no limit.
pub open spec fn checked_max_uses(tool: JsonView) -> Result<Option<u64>, ErrorView> {
    match tool.get("max_uses"@) {
        None => Ok(None),
        Some(v) => match v.as_u64() {
            Some(n) if n > 0 => Ok(Some(n)),
            _ => Err(ErrorView::InvalidRequest("WebSearch max_uses must be a positive integer"@)),
        },
    }
}

/// The policy after one tool more.
pub open spec fn policy_step() -> spec_fn(Option<Option<u64>>, JsonView) -> Result<
    Option<Option<u64>>,
    ErrorView,
> {
    |policy: Option<Option<u64>>, tool: JsonView|
        if !looks_like_search(tool) {
            Ok(policy)
        } else {
            match mapped_tool(tool) {
                Err(e) => Err(e),
                Ok(_) => if policy is Some {
                    Err(
                        ErrorView::InvalidRequest(
                            "multiple hosted WebSearch tools are not supported"@,
                        ),
                    )
                } else {
                    match checked_max_uses(tool) {
                        Err(e) => Err(e),
                        Ok(limit) => Ok(Some(limit)),
                    }
                },
            }
        }
}

/// The limit of the one hosted web search among the tools of a request, where
/// there is one.
pub open spec fn request_policy(body: JsonView) -> Result<Option<Option<u64>>, ErrorView> {
    let tools = body.items_at("tools"@);
    seqs::folded(tools, policy_step(), None, tools.len())
}

pub open spec fn policy_limit(p: Option<WebSearchRequestPolicy>) -> Option<Option<u64>> {
    match p {
        Some(p) => Some(p.max_uses),
        None => None,
    }
}

pub open spec fn policy_result(r: Result<Option<WebSearchRequestPolicy>, ProxyError>) -> Result<
    Option<Option<u64>>,
    ErrorView,
> {
    match r {
        Ok(p) => Ok(policy_limit(p)),
        Err(e) => Err(e@),
    }
}

/// Whether an output item is a search that completed.
pub open spec fn is_completed_search(item: JsonView) -> bool {
    &&& item.says("type"@, "web_search_call"@)
    &&& item.get_str_in("action"@, "type"@) == Some("search"@)
    &&& item.says("status"@, "completed"@)
}

/// How many of the output items are searches that completed.
pub open spec fn search_count(output: Seq<JsonView>) -> nat {
    seqs::counted(output, |item: JsonView| is_completed_search(item), output.len())
}

/// Whether every web-search item completed.
pub open spec fn all_completed(output: Seq<JsonView>) -> bool {
    forall|i: int|
        0 <= i < output.len() && (#[trigger] output[i]).says("type"@, "web_search_call"@)
            ==> output[i].says("status"@, "completed"@)
}

/// Whether a limit allows so many searches.
pub open spec fn permits(limit: Option<u64>, count: nat) -> bool {
    match limit {
        Some(n) => count <= n,
        None => true,
    }
}

/// An output keeps to the limit, and each of its searches completed.
pub open spec fn checked_output(output: Seq<JsonView>, limit: Option<u64>) -> Result<(), Seq<char>> {
    if !permits(limit, search_count(output)) {
        Err("WebSearch max_uses exceeded"@)
    } else if !all_completed(output) {
        Err("WebSearch item did not complete successfully"@)
    } else {
        Ok(())
    }
}

/// Counts the searches that completed.
pub fn count_searches(output: &Vec<Json>) -> (r: u64)
    ensures
        r == search_count(json::items_view(output@)),
{
    let ghost views = json::items_view(output@);
    let ghost p = |item: JsonView| is_completed_search(item);
    let mut n: u64 = 0;
    let mut i: usize = 0;
    while i < output.len()
        invariant
            i <= output@.len(),
            views == json::items_view(output@),
            n == seqs::counted(views, p, i as nat),
            n <= i,
            p == (|item: JsonView| is_completed_search(item)),
        decreases output@.len() - i,
    {
        let item = &output[i];
        assert(views[i as int] == item@);
        if item.says("type", "web_search_call") && text::is_text(
            item.get_str_in("action", "type"),
            "search",
        ) && item.says("status", "completed") {
            n = n + 1;
        }
        i = i + 1;
    }
    n
}

pub fn validate_web_search_output(output: &Vec<Json>, policy: &WebSearchRequestPolicy) -> (r: Result<
    (),
    String,
>)
    ensures
        (match r {
            Ok(_) => Ok::<(), Seq<char>>(()),
            Err(e) => Err(e@),
        }) == checked_output(json::items_view(output@), policy.max_uses),
{
    let ghost views = json::items_view(output@);
    let searches: u64 = count_searches(output);
    if !policy.permits_search_count(searches) {
        return Err("WebSearch max_uses exceeded".to_owned());
    }
    let mut i: usize = 0;
    while i < output.len()
        invariant
            i <= output@.len(),
            views == json::items_view(output@),
            permits(policy.max_uses, search_count(views)),
            forall|k: int|
                0 <= k < i && (#[trigger] views[k]).says("type"@, "web_search_call"@)
                    ==> views[k].says("status"@, "completed"@),
        decreases output@.len() - i,
    {
        assert(views[i as int] == output@[i as int]@);
        if output[i].says("type", "web_search_call") && !output[i].says("status", "completed") {
            assert(!all_completed(views));
            return Err("WebSearch item did not complete successfully".to_owned());
        }
        i = i + 1;
    }
    Ok(())
}

impl WebSearchRequestPolicy {
    /// The policy of a request: none where it asks for no hosted web search.
    pub fn from_anthropic_request(body: &Json) -> (r: Result<Option<Self>, ProxyError>)
        ensures
            policy_result(r) == request_policy(body@),
    {
        let tools = match body.get_array("tools") {
            Some(v) => v,
            None => {
                return Ok(None);
            },
        };
        let ghost views = json::items_view(tools@);
        let mut policy: Option<WebSearchRequestPolicy> = None;
        let mut i: usize = 0;
        while i < tools.len()
            invariant
                i <= tools@.len(),
                views == json::items_view(tools@),
                body@.items_at("tools"@) == views,
                seqs::folded(views, policy_step(), None, i as nat) == Ok::<
                    Option<Option<u64>>,
                    ErrorView,
                >(policy_limit(policy)),
            decreases tools@.len() - i,
        {
            let tool = &tools[i];
            assert(views[i as int] == tool@);
            let ghost next = seqs::folded(views, policy_step(), None, (i + 1) as nat);
            proof {
                if next is Err {
                    seqs::folded_stops(views, policy_step(), None, (i + 1) as nat, views.len());
                }
            }
            if is_search_tool(tool) {
                if let Err(e) = map_anthropic_web_search_tool(tool) {
                    return Err(e);
                }
                if policy.is_some() {
                    return Err(error::invalid("multiple hosted WebSearch tools are not supported"));
                }
                let max_uses: Option<u64> = match tool.get("max_uses") {
                    None => None,
                    Some(v) => match v.as_u64() {
                        Some(n) => {
                            if n == 0 {
                                return Err(
                                    error::invalid("WebSearch max_uses must be a positive integer"),
                                );
                            }
                            Some(n)
                        },
                        None => {
                            return Err(
                                error::invalid("WebSearch max_uses must be a positive integer"),
                            );
                        },
                    },
                };
                policy = Some(WebSearchRequestPolicy { max_uses });
            }
            i = i + 1;
        }
        Ok(policy)
    }

    /// Whether there may be so many searches.
    pub fn permits_search_count(&self, count: u64) -> (r: bool)
        ensures
            r == permits(self.max_uses, count as nat),
    {
        match self.max_uses {
            Some(limit) => count <= limit,
            None => true,
        }
    }

    /// Holds a complete response to the policy.
    pub fn validate_buffered_response(&self, body: &Json) -> (r: Result<(), ProxyError>)
        ensures
            unit_result(r) == (match body@.get_array("output"@) {
                None => Err(
                    ErrorView::TransformError("WebSearch response output must be an array"@),
                ),
                Some(output) => match checked_output(output, self.max_uses) {
                    Err(m) => Err(ErrorView::TransformError(m)),
                    Ok(_) => Ok(()),
                },
            }),
    {
        match body.get_array("output") {
            None => Err(
                ProxyError::TransformError(
                    "WebSearch response output must be an array".to_owned(),
                ),
            ),
            Some(output) => match validate_web_search_output(output, self) {
                Err(m) => Err(ProxyError::TransformError(m)),
                Ok(_) => Ok(()),
            },
        }
    }
}

// ---------------------------------------------------------------------------
// The digest of a result
// ---------------------------------------------------------------------------

/// The SHA-256 digest of some bytes.
pub uninterp spec fn sha256(bytes: Seq<u8>) -> Seq<u8>;

/// `sha2::Sha256::digest` gives the SHA-256 digest, of thirty-two bytes.
#[verifier::external_body]
fn sha256_digest(bytes: &[u8]) -> (r: Vec<u8>)
    ensures
        r@ == sha256(bytes@),
        r@.len() == 32,
{
    <sha2::Sha256 as sha2::Digest>::digest(bytes).to_vec()
}

/// The hexadecimal digit of a number below sixteen.
pub open spec fn hex_digit(d: int) -> char {
    if d < 10 {
        ((d + 48) as u32) as char
    } else {
        ((d + 87) as u32) as char
    }
}

/// Two hexadecimal digits for each byte.
pub open spec fn hex(bytes: Seq<u8>) -> Seq<char>
    decreases bytes.len(),
{
    if bytes.len() == 0 {
        Seq::empty()
    } else {
        hex(bytes.drop_last()).push(hex_digit(bytes.last() as int / 16)).push(
            hex_digit(bytes.last() as int % 16),
        )
    }
}

fn hex_char(d: u8) -> (r: char)
    requires
        d < 16,
    ensures
        r == hex_digit(d as int),
{
    if d < 10 {
        (d + 48) as char
    } else {
        (d + 87) as char
    }
}

fn to_hex(bytes: &Vec<u8>) -> (r: String)
    ensures
        r@ == hex(bytes@),
{
    let mut out = String::new();
    let mut i: usize = 0;
    assert(bytes@.take(0) =~= Seq::<u8>::empty());
    while i < bytes.len()
        invariant
            i <= bytes@.len(),
            out@ == hex(bytes@.take(i as int)),
        decreases bytes@.len() - i,
    {
        let b: u8 = bytes[i];
        assert(bytes@.take(i + 1).drop_last() =~= bytes@.take(i as int));
        out.push(hex_char(b / 16));
        out.push(hex_char(b % 16));
        i = i + 1;
    }
    assert(bytes@.take(bytes@.len() as int) =~= bytes@);
    out
}

/// What is digested of a result: the item's id, the place among its results
/// and the URL, with a zero byte between them.
pub open spec fn digested(item_id: Seq<char>, ordinal: nat, url: Seq<char>) -> Seq<u8> {
    encode_utf8(item_id) + seq![0u8] + encode_utf8(text::decimal(ordinal)) + seq![0u8]
        + encode_utf8(url)
}

/// The mark of a result that this library made.
pub open spec fn digest_of(item_id: Seq<char>, ordinal: nat, url: Seq<char>) -> Seq<char> {
    RESULT_DIGEST_PREFIX@ + hex(sha256(digested(item_id, ordinal, url)))
}

pub fn result_digest(item_id: &str, ordinal: usize, url: &str) -> (r: String)
    ensures
        r@ == digest_of(item_id@, ordinal as nat, url@),
{
    let mut bytes = text::bytes_of(item_id);
    bytes.push(0);
    let number = text::to_decimal(ordinal as u64);
    text::append_bytes(&mut bytes, number.as_str().as_bytes());
    bytes.push(0);
    text::append_bytes(&mut bytes, url.as_bytes());
    assert(bytes@ =~= digested(item_id@, ordinal as nat, url@));
    let digest = sha256_digest(bytes.as_slice());
    let digits = to_hex(&digest);
    text::concat2(RESULT_DIGEST_PREFIX, digits.as_str())
}

// ---------------------------------------------------------------------------
// Folding the history that a client sends back
// ---------------------------------------------------------------------------

pub open spec fn server_tool_fields() -> Seq<Seq<char>> {
    seq!["type"@, "id"@, "name"@, "input"@, "cache_control"@]
}

pub open spec fn tool_result_fields() -> Seq<Seq<char>> {
    seq!["type"@, "tool_use_id"@, "content"@, "cache_control"@]
}

pub open spec fn search_result_fields() -> Seq<Seq<char>> {
    seq!["type"@, "url"@, "title"@, "encrypted_content"@]
}

/// The URL of a result that this library made for the item at that place.
pub open spec fn checked_result(result: JsonView, item_id: Seq<char>, ordinal: int) -> Result<
    Seq<char>,
    ErrorView,
> {
    match checked_fields(result, search_result_fields(), "web_search_result"@) {
        Err(e) => Err(e),
        Ok(_) => if !result.says("type"@, "web_search_result"@) {
            Err(ErrorView::InvalidRequest("unsupported web_search_tool_result content"@))
        } else {
            match checked_string(result.get("url"@), "web_search_result.url"@) {
                Err(e) => Err(e),
                Ok(url) => match checked_string(
                    result.get("title"@),
                    "web_search_result.title"@,
                ) {
                    Err(e) => Err(e),
                    Ok(_) => match checked_string(
                        result.get("encrypted_content"@),
                        "web_search_result.encrypted_content"@,
                    ) {
                        Err(e) => Err(e),
                        Ok(encrypted) => if encrypted != digest_of(item_id, ordinal as nat, url) {
                            Err(
                                ErrorView::InvalidRequest(
                                    "web_search_result.encrypted_content does not match its canonical result"@,
                                ),
                            )
                        } else {
                            Ok(url)
                        },
                    },
                },
            }
        },
    }
}

pub open spec fn result_reader(item_id: Seq<char>) -> spec_fn(int, JsonView) -> Result<
    Seq<char>,
    ErrorView,
> {
    |ordinal: int, result: JsonView| checked_result(result, item_id, ordinal)
}

/// The URLs of results that this library made for an item.
pub open spec fn checked_results(content: Seq<JsonView>, item_id: Seq<char>) -> Result<
    Seq<Seq<char>>,
    ErrorView,
> {
    seqs::collected(content, result_reader(item_id), content.len())
}

fn validate_result(result: &Json, item_id: &str, ordinal: usize) -> (r: Result<String, ProxyError>)
    ensures
        (match r {
            Ok(s) => Ok::<Seq<char>, ErrorView>(s@),
            Err(e) => Err(e@),
        }) == checked_result(result@, item_id@, ordinal as int),
{
    let allowed = vec!["type", "url", "title", "encrypted_content"];
    assert(json::names(allowed@) =~= search_result_fields());
    if let Err(e) = validate_allowed_block_fields(result, &allowed, "web_search_result") {
        return Err(e);
    }
    if !result.says("type", "web_search_result") {
        return Err(error::invalid("unsupported web_search_tool_result content"));
    }
    let url = match non_empty_string(result.get("url"), "web_search_result.url") {
        Ok(s) => s,
        Err(e) => {
            return Err(e);
        },
    };
    if let Err(e) = non_empty_string(result.get("title"), "web_search_result.title") {
        return Err(e);
    }
    let encrypted = match non_empty_string(
        result.get("encrypted_content"),
        "web_search_result.encrypted_content",
    ) {
        Ok(s) => s,
        Err(e) => {
            return Err(e);
        },
    };
    let wanted = result_digest(item_id, ordinal, url);
    if !text::same_text(encrypted, wanted.as_str()) {
        return Err(
            error::invalid(
                "web_search_result.encrypted_content does not match its canonical result",
            ),
        );
    }
    Ok(url.to_owned())
}

fn validate_result_content(content: &Vec<Json>, item_id: &str) -> (r: Result<
    Vec<String>,
    ProxyError,
>)
    ensures
        (match r {
            Ok(v) => Ok::<Seq<Seq<char>>, ErrorView>(text::texts(v@)),
            Err(e) => Err(e@),
        }) == checked_results(json::items_view(content@), item_id@),
{
    let ghost views = json::items_view(content@);
    let ghost f = result_reader(item_id@);
    let mut urls: Vec<String> = Vec::new();
    let mut i: usize = 0;
    assert(text::texts(urls@) =~= Seq::<Seq<char>>::empty());
    while i < content.len()
        invariant
            i <= content@.len(),
            views == json::items_view(content@),
            f == result_reader(item_id@),
            seqs::collected(views, f, i as nat) == Ok::<Seq<Seq<char>>, ErrorView>(
                text::texts(urls@),
            ),
        decreases content@.len() - i,
    {
        assert(views[i as int] == content@[i as int]@);
        proof {
            if seqs::collected(views, f, (i + 1) as nat) is Err {
                seqs::collected_stops(views, f, (i + 1) as nat, views.len());
            }
        }
        match validate_result(&content[i], item_id, i) {
            Err(e) => {
                return Err(e);
            },
            Ok(url) => {
                proof {
                    text::texts_push(urls@, url);
                }
                urls.push(url);
            },
        }
        i = i + 1;
    }
    Ok(urls)
}

/// The source that stands for a result's URL.
pub open spec fn url_source() -> spec_fn(Seq<char>) -> JsonView {
    |url: Seq<char>|
        JsonView::object().with("type"@, JsonView::Str("url"@)).with("url"@, JsonView::Str(url))
}

/// The search action, from what the client was shown of it.
pub open spec fn folded_search(item_id: Seq<char>, input: JsonView, content: Seq<JsonView>) -> Result<
    JsonView,
    ErrorView,
> {
    match checked_fields(input, seq!["query"@], "WebSearch search input"@) {
        Err(e) => Err(e),
        Ok(_) => match checked_string(input.get("query"@), "WebSearch search query"@) {
            Err(e) => Err(e),
            Ok(query) => match checked_results(content, item_id) {
                Err(e) => Err(e),
                Ok(urls) => Ok(
                    JsonView::object().with("type"@, JsonView::Str("search"@)).with(
                        "query"@,
                        JsonView::Str(query),
                    ).with("sources"@, JsonView::Array(urls.map_values(url_source()))),
                ),
            },
        },
    }
}

/// The action of opening a page, from what the client was shown of it.
pub open spec fn folded_open_page(
    item_id: Seq<char>,
    input: JsonView,
    content: Seq<JsonView>,
) -> Result<JsonView, ErrorView> {
    match checked_fields(input, seq!["query"@, "action"@, "url"@], "WebSearch open_page input"@) {
        Err(e) => Err(e),
        Ok(_) => match checked_string(input.get("url"@), "WebSearch open_page url"@) {
            Err(e) => Err(e),
            Ok(url) => if !input.says("query"@, url) {
                Err(ErrorView::InvalidRequest("WebSearch open_page query must equal url"@))
            } else {
                match checked_results(content, item_id) {
                    Err(e) => Err(e),
                    Ok(urls) => if urls != seq![url] {
                        Err(
                            ErrorView::InvalidRequest(
                                "WebSearch open_page result must contain its URL once"@,
                            ),
                        )
                    } else {
                        Ok(
                            JsonView::object().with("type"@, JsonView::Str("open_page"@)).with(
                                "url"@,
                                JsonView::Str(url),
                            ),
                        )
                    },
                }
            },
        },
    }
}

/// The query under which a search inside a page is shown.
pub open spec fn find_query(pattern: Seq<char>, url: Seq<char>) -> Seq<char> {
    pattern + " ("@ + url + ")"@
}

/// The action of searching inside a page, from what the client was shown of it.
pub open spec fn folded_find_in_page(
    item_id: Seq<char>,
    input: JsonView,
    content: Seq<JsonView>,
) -> Result<JsonView, ErrorView> {
    match checked_fields(
        input,
        seq!["query"@, "action"@, "url"@, "pattern"@],
        "WebSearch find_in_page input"@,
    ) {
        Err(e) => Err(e),
        Ok(_) => match checked_string(input.get("url"@), "WebSearch find_in_page url"@) {
            Err(e) => Err(e),
            Ok(url) => match checked_string(
                input.get("pattern"@),
                "WebSearch find_in_page pattern"@,
            ) {
                Err(e) => Err(e),
                Ok(pattern) => if !input.says("query"@, find_query(pattern, url)) {
                    Err(
                        ErrorView::InvalidRequest(
                            "WebSearch find_in_page query is not in canonical form"@,
                        ),
                    )
                } else {
                    match checked_results(content, item_id) {
                        Err(e) => Err(e),
                        Ok(urls) => if urls != seq![url] {
                            Err(
                                ErrorView::InvalidRequest(
                                    "WebSearch find_in_page result must contain its URL once"@,
                                ),
                            )
                        } else {
                            Ok(
                                JsonView::object().with(
                                    "type"@,
                                    JsonView::Str("find_in_page"@),
                                ).with("url"@, JsonView::Str(url)).with(
                                    "pattern"@,
                                    JsonView::Str(pattern),
                                ),
                            )
                        },
                    }
                },
            },
        },
    }
}

/// The action of a web-search item, from what the client was shown of it.
pub open spec fn folded_action(item_id: Seq<char>, input: JsonView, content: Seq<JsonView>) -> Result<
    JsonView,
    ErrorView,
> {
    let action = input.str_or("action"@, "search"@);
    if action == "search"@ {
        folded_search(item_id, input, content)
    } else if action == "open_page"@ {
        folded_open_page(item_id, input, content)
    } else if action == "find_in_page"@ {
        folded_find_in_page(item_id, input, content)
    } else {
        Err(ErrorView::InvalidRequest("unsupported WebSearch history action"@))
    }
}

fn is_single(urls: &Vec<String>, url: &str) -> (r: bool)
    ensures
        r == (text::texts(urls@) == seq![url@]),
{
    let r = urls.len() == 1 && text::same_text(urls[0].as_str(), url);
    proof {
        let one = seq![url@];
        assert(one.len() == 1 && one[0] == url@);
        assert(text::texts(urls@).len() == urls@.len());
        if urls@.len() == 1 {
            assert(text::texts(urls@)[0] == urls@[0]@);
        }
        if r {
            assert(text::texts(urls@) =~= one);
        }
    }
    r
}

fn fold_search(item_id: &str, input: &Json, content: &Vec<Json>) -> (r: Result<Json, ProxyError>)
    ensures
        json_result(r) == folded_search(item_id@, input@, json::items_view(content@)),
{
    let allowed = vec!["query"];
    assert(json::names(allowed@) =~= seq!["query"@]);
    if let Err(e) = validate_allowed_block_fields(input, &allowed, "WebSearch search input") {
        return Err(e);
    }
    let query = match non_empty_string(input.get("query"), "WebSearch search query") {
        Ok(s) => s,
        Err(e) => {
            return Err(e);
        },
    };
    let urls = match validate_result_content(content, item_id) {
        Ok(v) => v,
        Err(e) => {
            return Err(e);
        },
    };
    let mut sources: Vec<Json> = Vec::new();
    let mut i: usize = 0;
    while i < urls.len()
        invariant
            i <= urls@.len(),
            sources@.len() == i,
            forall|k: int| 0 <= k < i ==> (#[trigger] sources@[k])@ == url_source()(urls@[k]@),
        decreases urls@.len() - i,
    {
        sources.push(
            Json::object().with("type", Json::string("url")).with(
                "url",
                Json::string(urls[i].as_str()),
            ),
        );
        i = i + 1;
    }
    assert(json::items_view(sources@) =~= text::texts(urls@).map_values(url_source()));
    Ok(
        Json::object().with("type", Json::string("search")).with("query", Json::string(query)).with(
            "sources",
            Json::Array(sources),
        ),
    )
}

fn fold_open_page(item_id: &str, input: &Json, content: &Vec<Json>) -> (r: Result<
    Json,
    ProxyError,
>)
    ensures
        json_result(r) == folded_open_page(item_id@, input@, json::items_view(content@)),
{
    let allowed = vec!["query", "action", "url"];
    assert(json::names(allowed@) =~= seq!["query"@, "action"@, "url"@]);
    if let Err(e) = validate_allowed_block_fields(input, &allowed, "WebSearch open_page input") {
        return Err(e);
    }
    let url = match non_empty_string(input.get("url"), "WebSearch open_page url") {
        Ok(s) => s,
        Err(e) => {
            return Err(e);
        },
    };
    if !input.says("query", url) {
        return Err(error::invalid("WebSearch open_page query must equal url"));
    }
    let urls = match validate_result_content(content, item_id) {
        Ok(v) => v,
        Err(e) => {
            return Err(e);
        },
    };
    if !is_single(&urls, url) {
        return Err(error::invalid("WebSearch open_page result must contain its URL once"));
    }
    Ok(Json::object().with("type", Json::string("open_page")).with("url", Json::string(url)))
}

fn fold_find_in_page(item_id: &str, input: &Json, content: &Vec<Json>) -> (r: Result<
    Json,
    ProxyError,
>)
    ensures
        json_result(r) == folded_find_in_page(item_id@, input@, json::items_view(content@)),
{
    let allowed = vec!["query", "action", "url", "pattern"];
    assert(json::names(allowed@) =~= seq!["query"@, "action"@, "url"@, "pattern"@]);
    if let Err(e) = validate_allowed_block_fields(
        input,
        &allowed,
        "WebSearch find_in_page input",
    ) {
        return Err(e);
    }
    let url = match non_empty_string(input.get("url"), "WebSearch find_in_page url") {
        Ok(s) => s,
        Err(e) => {
            return Err(e);
        },
    };
    let pattern = match non_empty_string(
        input.get("pattern"),
        "WebSearch find_in_page pattern",
    ) {
        Ok(s) => s,
        Err(e) => {
            return Err(e);
        },
    };
    let query = text::concat4(pattern, " (", url, ")");
    if !input.says("query", query.as_str()) {
        return Err(error::invalid("WebSearch find_in_page query is not in canonical form"));
    }
    let urls = match validate_result_content(content, item_id) {
        Ok(v) => v,
        Err(e) => {
            return Err(e);
        },
    };
    if !is_single(&urls, url) {
        return Err(error::invalid("WebSearch find_in_page result must contain its URL once"));
    }
    Ok(
        Json::object().with("type", Json::string("find_in_page")).with(
            "url",
            Json::string(url),
        ).with("pattern", Json::string(pattern)),
    )
}

fn fold_action(item_id: &str, input: &Json, content: &Vec<Json>) -> (r: Result<Json, ProxyError>)
    ensures
        json_result(r) == folded_action(item_id@, input@, json::items_view(content@)),
{
    let action = input.str_or("action", "search");
    if text::same_text(action, "search") {
        fold_search(item_id, input, content)
    } else if text::same_text(action, "open_page") {
        fold_open_page(item_id, input, content)
    } else if text::same_text(action, "find_in_page") {
        fold_find_in_page(item_id, input, content)
    } else {
        Err(error::invalid("unsupported WebSearch history action"))
    }
}

/// The pair of blocks at a place as the web-search item that it came from.
pub open spec fn folded_pair(server: JsonView, result: Option<JsonView>) -> Result<
    JsonView,
    ErrorView,
> {
    match checked_fields(server, server_tool_fields(), "server_tool_use"@) {
        Err(e) => Err(e),
        Ok(_) => match checked_cache_control(server.get("cache_control"@)) {
            Err(e) => Err(e),
            Ok(_) => match checked_string(server.get("id"@), "server_tool_use.id"@) {
                Err(e) => Err(e),
                Ok(id) => match server.get("input"@) {
                    Some(JsonView::Object(input)) => match result {
                        Some(result) if result.says("type"@, "web_search_tool_result"@) =>
                            folded_result(id, JsonView::Object(input), result),
                        _ => Err(
                            ErrorView::InvalidRequest(
                                "server_tool_use must be followed by web_search_tool_result"@,
                            ),
                        ),
                    },
                    _ => Err(
                        ErrorView::InvalidRequest("server_tool_use.input must be an object"@),
                    ),
                },
            },
        },
    }
}

/// The second block of a pair, with the input of the first.
pub open spec fn folded_result(id: Seq<char>, input: JsonView, result: JsonView) -> Result<
    JsonView,
    ErrorView,
> {
    match checked_fields(result, tool_result_fields(), "web_search_tool_result"@) {
        Err(e) => Err(e),
        Ok(_) => match checked_cache_control(result.get("cache_control"@)) {
            Err(e) => Err(e),
            Ok(_) => if !result.says("tool_use_id"@, id) {
                Err(ErrorView::InvalidRequest("WebSearch history pair IDs do not match"@))
            } else {
                match result.get_array("content"@) {
                    None => Err(
                        ErrorView::InvalidRequest(
                            "web_search_tool_result.content must be an array"@,
                        ),
                    ),
                    Some(content) => match folded_action(id, input, content) {
                        Err(e) => Err(e),
                        Ok(action) => Ok(
                            JsonView::object().with(
                                "type"@,
                                JsonView::Str("web_search_call"@),
                            ).with("id"@, JsonView::Str(id)).with(
                                "status"@,
                                JsonView::Str("completed"@),
                            ).with("action"@, action),
                        ),
                    },
                }
            },
        },
    }
}

/// The web-search item that the blocks at `index` stand for, and where the
/// blocks go on; nothing where no server tool use stands there.
pub open spec fn folded_history(blocks: Seq<JsonView>, index: int) -> Result<
    Option<(JsonView, int)>,
    ErrorView,
> {
    if !(0 <= index < blocks.len()) || !blocks[index].says("type"@, "server_tool_use"@) {
        Ok(None)
    } else if !blocks[index].says("name"@, WEB_SEARCH_TOOL_NAME@) {
        Err(ErrorView::InvalidRequest("unsupported server_tool_use block"@))
    } else {
        let result = if index + 1 < blocks.len() {
            Some(blocks[index + 1])
        } else {
            None
        };
        match folded_pair(blocks[index], result) {
            Err(e) => Err(e),
            Ok(item) => Ok(Some((item, index + 2))),
        }
    }
}

fn fold_pair(server: &Json, result: Option<&Json>) -> (r: Result<Json, ProxyError>)
    ensures
        json_result(r) == folded_pair(server@, json::opt_view(result)),
{
    let allowed = vec!["type", "id", "name", "input", "cache_control"];
    assert(json::names(allowed@) =~= server_tool_fields());
    if let Err(e) = validate_allowed_block_fields(server, &allowed, "server_tool_use") {
        return Err(e);
    }
    if let Err(e) = validate_ephemeral_cache_control(server.get("cache_control")) {
        return Err(e);
    }
    let id = match non_empty_string(server.get("id"), "server_tool_use.id") {
        Ok(s) => s,
        Err(e) => {
            return Err(e);
        },
    };
    let input = match server.get("input") {
        Some(input) => {
            if !input.is_object() {
                return Err(error::invalid("server_tool_use.input must be an object"));
            }
            input
        },
        None => {
            return Err(error::invalid("server_tool_use.input must be an object"));
        },
    };
    let result = match result {
        Some(result) => {
            if !result.says("type", "web_search_tool_result") {
                return Err(
                    error::invalid("server_tool_use must be followed by web_search_tool_result"),
                );
            }
            result
        },
        None => {
            return Err(
                error::invalid("server_tool_use must be followed by web_search_tool_result"),
            );
        },
    };
    fold_result(id, input, result)
}

fn fold_result(id: &str, input: &Json, result: &Json) -> (r: Result<Json, ProxyError>)
    ensures
        json_result(r) == folded_result(id@, input@, result@),
{
    let allowed = vec!["type", "tool_use_id", "content", "cache_control"];
    assert(json::names(allowed@) =~= tool_result_fields());
    if let Err(e) = validate_allowed_block_fields(result, &allowed, "web_search_tool_result") {
        return Err(e);
    }
    if let Err(e) = validate_ephemeral_cache_control(result.get("cache_control")) {
        return Err(e);
    }
    if !result.says("tool_use_id", id) {
        return Err(error::invalid("WebSearch history pair IDs do not match"));
    }
    let content = match result.get_array("content") {
        Some(v) => v,
        None => {
            return Err(error::invalid("web_search_tool_result.content must be an array"));
        },
    };
    match fold_action(id, input, content) {
        Err(e) => Err(e),
        Ok(action) => Ok(
            Json::object().with("type", Json::string("web_search_call")).with(
                "id",
                Json::string(id),
            ).with("status", Json::string("completed")).with("action", action),
        ),
    }
}

pub fn fold_anthropic_web_search_history(blocks: &Vec<Json>, index: usize) -> (r: Result<
    Option<(Json, usize)>,
    ProxyError,
>)
    ensures
        (match r {
            Ok(Some(p)) => Ok::<Option<(JsonView, int)>, ErrorView>(Some((p.0@, p.1 as int))),
            Ok(None) => Ok(None),
            Err(e) => Err(e@),
        }) == folded_history(json::items_view(blocks@), index as int),
        r matches Ok(Some(p)) ==> index < p.1 <= blocks@.len(),
{
    let ghost views = json::items_view(blocks@);
    if index >= blocks.len() {
        return Ok(None);
    }
    let server = &blocks[index];
    assert(views[index as int] == server@);
    if !server.says("type", "server_tool_use") {
        return Ok(None);
    }
    if !server.says("name", WEB_SEARCH_TOOL_NAME) {
        return Err(error::invalid("unsupported server_tool_use block"));
    }
    let result: Option<&Json> = if index + 1 < blocks.len() {
        assert(views[index + 1] == blocks@[index + 1]@);
        Some(&blocks[index + 1])
    } else {
        None
    };
    match fold_pair(server, result) {
        Err(e) => Err(e),
        Ok(item) => Ok(Some((item, index + 2))),
    }
}

// ---------------------------------------------------------------------------
// Titles
// ---------------------------------------------------------------------------

/// Titles by URL.
#[derive(Debug)]
pub struct Titles {
    entries: Vec<(String, String)>,
}

spec fn title_entries(v: Seq<(String, String)>) -> Map<Seq<char>, Seq<char>>
    decreases v.len(),
{
    if v.len() == 0 {
        Map::empty()
    } else {
        title_entries(v.drop_last()).insert(v.last().0@, v.last().1@)
    }
}

impl View for Titles {
    type V = Map<Seq<char>, Seq<char>>;

    closed spec fn view(&self) -> Map<Seq<char>, Seq<char>> {
        title_entries(self.entries@)
    }
}

/// The titles with one more, unless its URL has a title already.
pub open spec fn with_title(
    titles: Map<Seq<char>, Seq<char>>,
    url: Seq<char>,
    title: Seq<char>,
) -> Map<Seq<char>, Seq<char>> {
    if titles.contains_key(url) {
        titles
    } else {
        titles.insert(url, title)
    }
}

/// The title of a URL.
pub open spec fn title_of(titles: Map<Seq<char>, Seq<char>>, url: Seq<char>) -> Option<Seq<char>> {
    if titles.contains_key(url) {
        Some(titles[url])
    } else {
        None
    }
}

impl Titles {
    pub fn new() -> (r: Titles)
        ensures
            r@ == Map::<Seq<char>, Seq<char>>::empty(),
    {
        Titles { entries: Vec::new() }
    }

    /// The title of a URL, where there is one.
    pub fn get(&self, url: &str) -> (r: Option<&str>)
        ensures
            text::opt_text(r) == title_of(self@, url@),
    {
        let v = &self.entries;
        let mut i: usize = v.len();
        assert(v@.take(i as int) =~= v@);
        while i > 0
            invariant
                i <= v@.len(),
                v@ == self.entries@,
                title_of(title_entries(v@.take(i as int)), url@) == title_of(self@, url@),
            decreases i,
        {
            assert(v@.take(i as int).drop_last() =~= v@.take(i - 1));
            assert(v@.take(i as int).last() == v@[i - 1]);
            i = i - 1;
            if text::same_text(v[i].0.as_str(), url) {
                return Some(v[i].1.as_str());
            }
        }
        None
    }

    /// Adds a title, unless its URL has one already.
    pub fn add_missing(&mut self, url: &str, title: &str)
        ensures
            final(self)@ == with_title(old(self)@, url@, title@),
    {
        if self.get(url).is_none() {
            let e = (url.to_owned(), title.to_owned());
            assert(self.entries@.push(e).drop_last() =~= self.entries@);
            self.entries.push(e);
        }
    }
}

/// A title that is more than white space.
pub open spec fn shown_title(v: JsonView) -> Option<Seq<char>> {
    match v.get_str("title"@) {
        Some(t) if !text::blank(t) => Some(t),
        _ => None,
    }
}

pub fn get_title(v: &Json) -> (r: Option<&str>)
    ensures
        text::opt_text(r) == shown_title(v@),
{
    match v.get_str("title") {
        Some(t) => {
            if text::is_blank(t) {
                None
            } else {
                Some(t)
            }
        },
        None => None,
    }
}

/// The titles with that of one annotation, where it is a citation with a URL
/// and a title.
pub open spec fn with_annotation() -> spec_fn(Map<Seq<char>, Seq<char>>, JsonView) -> Map<
    Seq<char>,
    Seq<char>,
> {
    |titles: Map<Seq<char>, Seq<char>>, annotation: JsonView|
        if !annotation.says("type"@, "url_citation"@) {
            titles
        } else {
            match (annotation.get_str("url"@), shown_title(annotation)) {
                (Some(url), Some(title)) => with_title(titles, url, title),
                _ => titles,
            }
        }
}

/// The titles with those of the annotations of one part of a message.
pub open spec fn with_part() -> spec_fn(Map<Seq<char>, Seq<char>>, JsonView) -> Map<
    Seq<char>,
    Seq<char>,
> {
    |titles: Map<Seq<char>, Seq<char>>, part: JsonView|
        seqs::walked(
            part.items_at("annotations"@),
            with_annotation(),
            titles,
            part.items_at("annotations"@).len(),
        )
}

/// The titles with those of the parts of one output item.
pub open spec fn with_item() -> spec_fn(Map<Seq<char>, Seq<char>>, JsonView) -> Map<
    Seq<char>,
    Seq<char>,
> {
    |titles: Map<Seq<char>, Seq<char>>, item: JsonView|
        seqs::walked(
            item.items_at("content"@),
            with_part(),
            titles,
            item.items_at("content"@).len(),
        )
}

/// The title under which each URL is first cited in an output.
pub open spec fn cited_titles(output: Seq<JsonView>) -> Map<Seq<char>, Seq<char>> {
    seqs::walked(output, with_item(), Map::empty(), output.len())
}

fn add_annotation_title(titles: &mut Titles, annotation: &Json)
    ensures
        final(titles)@ == with_annotation()(old(titles)@, annotation@),
{
    if !annotation.says("type", "url_citation") {
        return ;
    }
    if let Some(url) = annotation.get_str("url") {
        if let Some(title) = get_title(annotation) {
            titles.add_missing(url, title);
        }
    }
}

fn add_part_titles(titles: &mut Titles, part: &Json)
    ensures
        final(titles)@ == with_part()(old(titles)@, part@),
{
    if let Some(annotations) = part.get_array("annotations") {
        let ghost views = json::items_view(annotations@);
        let ghost start = titles@;
        let mut i: usize = 0;
        while i < annotations.len()
            invariant
                i <= annotations@.len(),
                views == json::items_view(annotations@),
                titles@ == seqs::walked(views, with_annotation(), start, i as nat),
            decreases annotations@.len() - i,
        {
            assert(views[i as int] == annotations@[i as int]@);
            add_annotation_title(titles, &annotations[i]);
            i = i + 1;
        }
    }
}

fn add_item_titles(titles: &mut Titles, item: &Json)
    ensures
        final(titles)@ == with_item()(old(titles)@, item@),
{
    if let Some(parts) = item.get_array("content") {
        let ghost views = json::items_view(parts@);
        let ghost start = titles@;
        let mut i: usize = 0;
        while i < parts.len()
            invariant
                i <= parts@.len(),
                views == json::items_view(parts@),
                titles@ == seqs::walked(views, with_part(), start, i as nat),
            decreases parts@.len() - i,
        {
            assert(views[i as int] == parts@[i as int]@);
            add_part_titles(titles, &parts[i]);
            i = i + 1;
        }
    }
}

pub fn citation_titles_by_exact_url(output: &Vec<Json>) -> (r: Titles)
    ensures
        r@ == cited_titles(json::items_view(output@)),
{
    let ghost views = json::items_view(output@);
    let mut titles = Titles::new();
    let mut i: usize = 0;
    while i < output.len()
        invariant
            i <= output@.len(),
            views == json::items_view(output@),
            titles@ == seqs::walked(views, with_item(), Map::empty(), i as nat),
        decreases output@.len() - i,
    {
        assert(views[i as int] == output@[i as int]@);
        add_item_titles(&mut titles, &output[i]);
        i = i + 1;
    }
    titles
}

// ---------------------------------------------------------------------------
// Showing a search to the client
// ---------------------------------------------------------------------------

/// The URL and the title, where it has one, of a source.
pub open spec fn source_reader() -> spec_fn(int, JsonView) -> Result<
    (Seq<char>, Option<Seq<char>>),
    ErrorView,
> {
    |i: int, source: JsonView|
        if !source.says("type"@, "url"@) {
            Err(ErrorView::InvalidRequest("WebSearch source type must be url"@))
        } else {
            match checked_string(source.get("url"@), "WebSearch source url"@) {
                Err(e) => Err(e),
                Ok(url) => Ok((url, shown_title(source))),
            }
        }
}

/// The sources of a search.
pub open spec fn checked_sources(action: JsonView) -> Result<
    Seq<(Seq<char>, Option<Seq<char>>)>,
    ErrorView,
> {
    match action.get("sources"@) {
        None => Ok(Seq::empty()),
        Some(JsonView::Array(v)) => seqs::collected(v, source_reader(), v.len()),
        Some(_) => Err(ErrorView::InvalidRequest("WebSearch search sources must be an array"@)),
    }
}

/// The input under which an action is shown, and the pages it came upon.
pub open spec fn shown_action(action: JsonView) -> Result<
    (JsonView, Seq<(Seq<char>, Option<Seq<char>>)>),
    ErrorView,
> {
    let kind = action.get_str("type"@);
    if kind == Some("search"@) {
        match checked_string(action.get("query"@), "WebSearch search query"@) {
            Err(e) => Err(e),
            Ok(query) => match checked_sources(action) {
                Err(e) => Err(e),
                Ok(sources) => Ok(
                    (JsonView::object().with("query"@, JsonView::Str(query)), sources),
                ),
            },
        }
    } else if kind == Some("open_page"@) {
        match checked_string(action.get("url"@), "WebSearch open_page url"@) {
            Err(e) => Err(e),
            Ok(url) => Ok(
                (
                    JsonView::object().with("query"@, JsonView::Str(url)).with(
                        "action"@,
                        JsonView::Str("open_page"@),
                    ).with("url"@, JsonView::Str(url)),
                    seq![(url, None)],
                ),
            ),
        }
    } else if kind == Some("find_in_page"@) {
        match checked_string(action.get("url"@), "WebSearch find_in_page url"@) {
            Err(e) => Err(e),
            Ok(url) => match checked_string(
                action.get("pattern"@),
                "WebSearch find_in_page pattern"@,
            ) {
                Err(e) => Err(e),
                Ok(pattern) => Ok(
                    (
                        JsonView::object().with(
                            "query"@,
                            JsonView::Str(find_query(pattern, url)),
                        ).with("action"@, JsonView::Str("find_in_page"@)).with(
                            "url"@,
                            JsonView::Str(url),
                        ).with("pattern"@, JsonView::Str(pattern)),
                        seq![(url, None)],
                    ),
                ),
            },
        }
    } else {
        Err(ErrorView::InvalidRequest("unsupported WebSearch action"@))
    }
}

/// How a page is shown: under its own title, else the title it is cited by,
/// else its URL.
pub open spec fn shown_result(
    id: Seq<char>,
    ordinal: nat,
    source: (Seq<char>, Option<Seq<char>>),
    titles: Map<Seq<char>, Seq<char>>,
) -> JsonView {
    let title = match source.1 {
        Some(t) => t,
        None => match title_of(titles, source.0) {
            Some(t) => t,
            None => source.0,
        },
    };
    JsonView::object().with("type"@, JsonView::Str("web_search_result"@)).with(
        "url"@,
        JsonView::Str(source.0),
    ).with("title"@, JsonView::Str(title)).with(
        "encrypted_content"@,
        JsonView::Str(digest_of(id, ordinal, source.0)),
    )
}

pub open spec fn shown_results(
    id: Seq<char>,
    sources: Seq<(Seq<char>, Option<Seq<char>>)>,
    titles: Map<Seq<char>, Seq<char>>,
) -> Seq<JsonView> {
    Seq::new(sources.len(), |i: int| shown_result(id, i as nat, sources[i], titles))
}

/// The two blocks that show a web-search item to the client.
pub open spec fn shown_search(item: JsonView, titles: Map<Seq<char>, Seq<char>>) -> Result<
    (JsonView, JsonView),
    ErrorView,
> {
    if !item.says("status"@, "completed"@) {
        Err(ErrorView::TransformError("WebSearch item did not complete successfully"@))
    } else {
        match checked_string(item.get("id"@), "WebSearch item id"@) {
            Err(e) => Err(e),
            Ok(id) => match item.get("action"@) {
                Some(JsonView::Object(action)) => match shown_action(JsonView::Object(action)) {
                    Err(e) => Err(e),
                    Ok((input, sources)) => Ok(
                        (
                            JsonView::object().with("type"@, JsonView::Str("server_tool_use"@)).with(
                                "id"@,
                                JsonView::Str(id),
                            ).with("name"@, JsonView::Str(WEB_SEARCH_TOOL_NAME@)).with(
                                "input"@,
                                input,
                            ),
                            JsonView::object().with(
                                "type"@,
                                JsonView::Str("web_search_tool_result"@),
                            ).with("tool_use_id"@, JsonView::Str(id)).with(
                                "content"@,
                                JsonView::Array(shown_results(id, sources, titles)),
                            ),
                        ),
                    ),
                },
                _ => Err(ErrorView::InvalidRequest("WebSearch item action must be an object"@)),
            },
        }
    }
}

/// The view of sources.
spec fn sources_view(v: Seq<(&str, Option<&str>)>) -> Seq<(Seq<char>, Option<Seq<char>>)> {
    v.map_values(|s: (&str, Option<&str>)| (s.0@, text::opt_text(s.1)))
}

fn read_source<'a>(source: &'a Json) -> (r: Result<(&'a str, Option<&'a str>), ProxyError>)
    ensures
        (match r {
            Ok(p) => Ok::<(Seq<char>, Option<Seq<char>>), ErrorView>((p.0@, text::opt_text(p.1))),
            Err(e) => Err(e@),
        }) == source_reader()(0, source@),
{
    if !source.says("type", "url") {
        return Err(error::invalid("WebSearch source type must be url"));
    }
    match non_empty_string(source.get("url"), "WebSearch source url") {
        Err(e) => Err(e),
        Ok(url) => Ok((url, get_title(source))),
    }
}

fn read_sources<'a>(action: &'a Json) -> (r: Result<Vec<(&'a str, Option<&'a str>)>, ProxyError>)
    ensures
        (match r {
            Ok(v) => Ok::<Seq<(Seq<char>, Option<Seq<char>>)>, ErrorView>(sources_view(v@)),
            Err(e) => Err(e@),
        }) == checked_sources(action@),
{
    let mut out: Vec<(&'a str, Option<&'a str>)> = Vec::new();
    assert(sources_view(out@) =~= Seq::empty());
    let v = match action.get("sources") {
        None => {
            return Ok(out);
        },
        Some(Json::Array(v)) => v,
        Some(_) => {
            return Err(error::invalid("WebSearch search sources must be an array"));
        },
    };
    let ghost views = json::items_view(v@);
    let ghost f = source_reader();
    let mut i: usize = 0;
    while i < v.len()
        invariant
            i <= v@.len(),
            views == json::items_view(v@),
            f == source_reader(),
            checked_sources(action@) == seqs::collected(views, f, views.len()),
            seqs::collected(views, f, i as nat) == Ok::<
                Seq<(Seq<char>, Option<Seq<char>>)>,
                ErrorView,
            >(sources_view(out@)),
        decreases v@.len() - i,
    {
        assert(views[i as int] == v@[i as int]@);
        assert(f(i as int, views[i as int]) == f(0, views[i as int]));
        proof {
            if seqs::collected(views, f, (i + 1) as nat) is Err {
                seqs::collected_stops(views, f, (i + 1) as nat, views.len());
            }
        }
        match read_source(&v[i]) {
            Err(e) => {
                return Err(e);
            },
            Ok(p) => {
                assert(sources_view(out@.push(p)) =~= sources_view(out@).push(
                    (p.0@, text::opt_text(p.1)),
                ));
                out.push(p);
            },
        }
        i = i + 1;
    }
    Ok(out)
}

fn show_action<'a>(action: &'a Json) -> (r: Result<
    (Json, Vec<(&'a str, Option<&'a str>)>),
    ProxyError,
>)
    ensures
        (match r {
            Ok(p) => Ok::<(JsonView, Seq<(Seq<char>, Option<Seq<char>>)>), ErrorView>(
                (p.0@, sources_view(p.1@)),
            ),
            Err(e) => Err(e@),
        }) == shown_action(action@),
{
    let kind = action.get_str("type");
    if text::is_text(kind, "search") {
        let query = match non_empty_string(action.get("query"), "WebSearch search query") {
            Ok(s) => s,
            Err(e) => {
                return Err(e);
            },
        };
        match read_sources(action) {
            Err(e) => Err(e),
            Ok(sources) => Ok((Json::object().with("query", Json::string(query)), sources)),
        }
    } else if text::is_text(kind, "open_page") {
        let url = match non_empty_string(action.get("url"), "WebSearch open_page url") {
            Ok(s) => s,
            Err(e) => {
                return Err(e);
            },
        };
        let mut sources: Vec<(&'a str, Option<&'a str>)> = Vec::new();
        sources.push((url, None));
        assert(sources_view(sources@) =~= seq![(url@, None)]);
        Ok(
            (
                Json::object().with("query", Json::string(url)).with(
                    "action",
                    Json::string("open_page"),
                ).with("url", Json::string(url)),
                sources,
            ),
        )
    } else if text::is_text(kind, "find_in_page") {
        let url = match non_empty_string(action.get("url"), "WebSearch find_in_page url") {
            Ok(s) => s,
            Err(e) => {
                return Err(e);
            },
        };
        let pattern = match non_empty_string(
            action.get("pattern"),
            "WebSearch find_in_page pattern",
        ) {
            Ok(s) => s,
            Err(e) => {
                return Err(e);
            },
        };
        let query = text::concat4(pattern, " (", url, ")");
        let mut sources: Vec<(&'a str, Option<&'a str>)> = Vec::new();
        sources.push((url, None));
        assert(sources_view(sources@) =~= seq![(url@, None)]);
        Ok(
            (
                Json::object().with("query", Json::Str(query)).with(
                    "action",
                    Json::string("find_in_page"),
                ).with("url", Json::string(url)).with("pattern", Json::string(pattern)),
                sources,
            ),
        )
    } else {
        Err(error::invalid("unsupported WebSearch action"))
    }
}

fn show_result(id: &str, ordinal: usize, source: (&str, Option<&str>), titles: &Titles) -> (r: Json)
    ensures
        r@ == shown_result(
            id@,
            ordinal as nat,
            (source.0@, text::opt_text(source.1)),
            titles@,
        ),
{
    let url = source.0;
    let title = match source.1 {
        Some(t) => t,
        None => match titles.get(url) {
            Some(t) => t,
            None => url,
        },
    };
    Json::object().with("type", Json::string("web_search_result")).with(
        "url",
        Json::string(url),
    ).with("title", Json::string(title)).with(
        "encrypted_content",
        Json::Str(result_digest(id, ordinal, url)),
    )
}

pub fn render_anthropic_web_search_blocks(item: &Json, titles: &Titles) -> (r: Result<
    (Json, Json),
    ProxyError,
>)
    ensures
        (match r {
            Ok(p) => Ok::<(JsonView, JsonView), ErrorView>((p.0@, p.1@)),
            Err(e) => Err(e@),
        }) == shown_search(item@, titles@),
{
    if !item.says("status", "completed") {
        return Err(
            ProxyError::TransformError("WebSearch item did not complete successfully".to_owned()),
        );
    }
    let id = match non_empty_string(item.get("id"), "WebSearch item id") {
        Ok(s) => s,
        Err(e) => {
            return Err(e);
        },
    };
    let action = match item.get("action") {
        Some(action) => {
            if !action.is_object() {
                return Err(error::invalid("WebSearch item action must be an object"));
            }
            action
        },
        None => {
            return Err(error::invalid("WebSearch item action must be an object"));
        },
    };
    let (input, sources) = match show_action(action) {
        Ok(p) => p,
        Err(e) => {
            return Err(e);
        },
    };
    let ghost pages = sources_view(sources@);
    let mut results: Vec<Json> = Vec::new();
    let mut i: usize = 0;
    while i < sources.len()
        invariant
            i <= sources@.len(),
            pages == sources_view(sources@),
            results@.len() == i,
            forall|k: int|
                0 <= k < i ==> (#[trigger] results@[k])@ == shown_result(
                    id@,
                    k as nat,
                    pages[k],
                    titles@,
                ),
        decreases sources@.len() - i,
    {
        results.push(show_result(id, i, sources[i], titles));
        i = i + 1;
    }
    assert(json::items_view(results@) =~= shown_results(id@, pages, titles@));
    Ok(
        (
            Json::object().with("type", Json::string("server_tool_use")).with(
                "id",
                Json::string(id),
            ).with("name", Json::string(WEB_SEARCH_TOOL_NAME)).with("input", input),
            Json::object().with("type", Json::string("web_search_tool_result")).with(
                "tool_use_id",
                Json::string(id),
            ).with("content", Json::Array(results)),
        ),
    )
}

// ---------------------------------------------------------------------------
// Citations
// ---------------------------------------------------------------------------

/// The mark of the place that a citation speaks of.
pub open spec fn citation_index(start: u64, end: u64) -> Seq<char> {
    CITATION_INDEX_PREFIX@ + text::decimal(start as nat) + ":"@ + text::decimal(end as nat)
}

/// A citation with its place in the text that it belongs to.
pub open spec fn placed_citation(
    url: Seq<char>,
    title: Seq<char>,
    start: u64,
    end: u64,
    scalars: Seq<char>,
) -> Result<Option<JsonView>, ErrorView> {
    if start > usize::MAX {
        Err(ErrorView::InvalidRequest("citation start_index overflow"@))
    } else if end > usize::MAX {
        Err(ErrorView::InvalidRequest("citation end_index overflow"@))
    } else if start > end || end > scalars.len() {
        Err(ErrorView::InvalidRequest("citation offsets are outside the owning text"@))
    } else {
        Ok(
            Some(
                JsonView::object().with(
                    "type"@,
                    JsonView::Str("web_search_result_location"@),
                ).with("url"@, JsonView::Str(url)).with("title"@, JsonView::Str(title)).with(
                    "cited_text"@,
                    JsonView::Str(scalars.subrange(start as int, end as int)),
                ).with("encrypted_index"@, JsonView::Str(citation_index(start, end))),
            ),
        )
    }
}

/// How an annotation is shown to the client: as a citation of the part of the
/// text that it spans, or not at all.
pub open spec fn shown_citation(annotation: JsonView, scalars: Seq<char>) -> Result<
    Option<JsonView>,
    ErrorView,
> {
    if !annotation.says("type"@, "url_citation"@) {
        Ok(None)
    } else {
        match checked_string(annotation.get("url"@), "citation url"@) {
            Err(e) => Err(e),
            Ok(url) => {
                let title = match shown_title(annotation) {
                    Some(t) => t,
                    None => url,
                };
                match annotation.get_u64("start_index"@) {
                    None => Err(
                        ErrorView::InvalidRequest(
                            "citation start_index must be a non-negative integer"@,
                        ),
                    ),
                    Some(start) => match annotation.get_u64("end_index"@) {
                        None => Err(
                            ErrorView::InvalidRequest(
                                "citation end_index must be a non-negative integer"@,
                            ),
                        ),
                        Some(end) => placed_citation(url, title, start, end, scalars),
                    },
                }
            },
        }
    }
}

pub open spec fn citation_result(r: Result<Option<Json>, ProxyError>) -> Result<
    Option<JsonView>,
    ErrorView,
> {
    match r {
        Ok(Some(j)) => Ok(Some(j@)),
        Ok(None) => Ok(None),
        Err(e) => Err(e@),
    }
}

/// Shows an annotation of a text to the client. `scalars` are the characters of
/// the text.
pub fn render_anthropic_citation(annotation: &Json, scalars: &Vec<char>) -> (r: Result<
    Option<Json>,
    ProxyError,
>)
    ensures
        citation_result(r) == shown_citation(annotation@, scalars@),
{
    if !annotation.says("type", "url_citation") {
        return Ok(None);
    }
    let url = match non_empty_string(annotation.get("url"), "citation url") {
        Ok(s) => s,
        Err(e) => {
            return Err(e);
        },
    };
    let title = match get_title(annotation) {
        Some(t) => t,
        None => url,
    };
    let start: u64 = match annotation.get_u64("start_index") {
        Some(n) => n,
        None => {
            return Err(error::invalid("citation start_index must be a non-negative integer"));
        },
    };
    let end: u64 = match annotation.get_u64("end_index") {
        Some(n) => n,
        None => {
            return Err(error::invalid("citation end_index must be a non-negative integer"));
        },
    };
    if start > usize::MAX as u64 {
        return Err(error::invalid("citation start_index overflow"));
    }
    if end > usize::MAX as u64 {
        return Err(error::invalid("citation end_index overflow"));
    }
    let from: usize = start as usize;
    let to: usize = end as usize;
    if from > to || to > scalars.len() {
        return Err(error::invalid("citation offsets are outside the owning text"));
    }
    let cited = text::string_of(scalars, from, to);
    let first = text::to_decimal(start);
    let last = text::to_decimal(end);
    let index = text::concat4(CITATION_INDEX_PREFIX, first.as_str(), ":", last.as_str());
    Ok(
        Some(
            Json::object().with("type", Json::string("web_search_result_location")).with(
                "url",
                Json::string(url),
            ).with("title", Json::string(title)).with("cited_text", Json::Str(cited)).with(
                "encrypted_index",
                Json::Str(index),
            ),
        ),
    )
}

} // verus!
