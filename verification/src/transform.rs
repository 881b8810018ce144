//! Parts of the request mapping that do not depend on the target protocol.
use crate::json::{Json, JsonView};
use crate::text;
use vstd::prelude::*;
use vstd::string::*;

verus! {

/// How the line begins that carries billing data.
pub const BILLING_HEADER: &'static str = "x-anthropic-billing-header:";

/// A system text without the line of billing data at its start.
pub open spec fn without_billing_header(s: Seq<char>) -> Seq<char> {
    if !text::has_prefix(s, BILLING_HEADER@) {
        s
    } else {
        match text::split_at_first(s, '\n') {
            Some((_, rest)) => rest,
            None => Seq::empty(),
        }
    }
}

pub fn strip_leading_anthropic_billing_header(s: &str) -> (r: String)
    ensures
        r@ == without_billing_header(s@),
{
    if !text::starts_with(s, BILLING_HEADER) {
        return s.to_owned();
    }
    match text::split_once(s, '\n') {
        Some(p) => p.1,
        None => {
            let r = String::new();
            assert(r@ =~= Seq::<char>::empty());
            r
        },
    }
}

/// Whether a model takes a reasoning effort: the o-series, and the GPT models
/// from the fifth on.
pub open spec fn takes_effort(model: Seq<char>) -> bool {
    ||| model.len() > 1 && model[0] == 'o' && text::is_digit(model[1])
    ||| (text::after_prefix(text::lowered(model), "gpt-"@) matches Some(rest) && rest.len() > 0
        && '5' <= rest[0] && rest[0] <= '9')
}

pub fn supports_reasoning_effort(model: &str) -> (r: bool)
    ensures
        r == takes_effort(model@),
{
    let cs = text::chars_of(model);
    if cs.len() > 1 && cs[0] == 'o' && '0' <= cs[1] && cs[1] <= '9' {
        return true;
    }
    let lowered = text::to_ascii_lower(model);
    match text::strip_prefix(lowered.as_str(), "gpt-") {
        Some(rest) => {
            let rs = text::chars_of(rest.as_str());
            rs.len() > 0 && '5' <= rs[0] && rs[0] <= '9'
        },
        None => false,
    }
}

/// The effort for a budget of thinking tokens.
pub open spec fn effort_of_budget(budget: Option<u64>) -> Seq<char> {
    match budget {
        Some(n) => if n < 4000 {
            "low"@
        } else if n < 16000 {
            "medium"@
        } else {
            "high"@
        },
        None => "high"@,
    }
}

/// The reasoning effort that a request asks for: what its output configuration
/// says, else what its thinking configuration amounts to.
pub open spec fn requested_effort(body: JsonView) -> Option<Seq<char>> {
    match body.get_str_in("output_config"@, "effort"@) {
        Some(effort) => if effort == "low"@ || effort == "medium"@ || effort == "high"@ {
            Some(effort)
        } else if effort == "max"@ {
            Some("xhigh"@)
        } else {
            None
        },
        None => match body.get("thinking"@) {
            None => None,
            Some(thinking) => if thinking.says("type"@, "adaptive"@) {
                Some("xhigh"@)
            } else if thinking.says("type"@, "enabled"@) {
                Some(effort_of_budget(thinking.get_u64("budget_tokens"@)))
            } else {
                None
            },
        },
    }
}

pub fn resolve_reasoning_effort(body: &Json) -> (r: Option<&'static str>)
    ensures
        text::opt_text(r) == requested_effort(body@),
{
    match body.get_str_in("output_config", "effort") {
        Some(effort) => {
            if text::same_text(effort, "low") {
                Some("low")
            } else if text::same_text(effort, "medium") {
                Some("medium")
            } else if text::same_text(effort, "high") {
                Some("high")
            } else if text::same_text(effort, "max") {
                Some("xhigh")
            } else {
                None
            }
        },
        None => match body.get("thinking") {
            None => None,
            Some(thinking) => {
                if thinking.says("type", "adaptive") {
                    Some("xhigh")
                } else if thinking.says("type", "enabled") {
                    match thinking.get_u64("budget_tokens") {
                        Some(n) => {
                            if n < 4000 {
                                Some("low")
                            } else if n < 16000 {
                                Some("medium")
                            } else {
                                Some("high")
                            }
                        },
                        None => Some("high"),
                    }
                } else {
                    None
                }
            },
        },
    }
}

/// A tool's schema with its type, and with properties where it is an object.
pub open spec fn completed_schema(schema: JsonView) -> JsonView {
    let typed = if schema is Object && schema.get("type"@) is None {
        schema.with("type"@, JsonView::Str("object"@))
    } else {
        schema
    };
    if typed.says("type"@, "object"@) && typed.get("properties"@) is None {
        typed.with("properties"@, JsonView::object())
    } else {
        typed
    }
}

pub fn clean_schema(schema: Json) -> (r: Json)
    ensures
        r@ == completed_schema(schema@),
{
    let mut schema = schema;
    if schema.is_object() && schema.get("type").is_none() {
        schema.set("type", Json::string("object"));
    }
    if schema.says("type", "object") && schema.get("properties").is_none() {
        schema.set("properties", Json::object());
    }
    schema
}

} // verus!
