//! A streamed response to a request with a hosted search: it is collected
//! whole, held to the request's policy, and then sent to the client as the
//! events of one message.
use crate::error;
use crate::json;
use crate::json::{Json, JsonView};
use crate::json_codec;
use crate::seqs;
use crate::sse;
use crate::text;
use crate::transform_responses;
use crate::web_search_bridge;
use crate::web_search_bridge::WebSearchRequestPolicy;
use vstd::prelude::*;
use vstd::string::*;

verus! {

// ---------------------------------------------------------------------------
// The items of a response
// ---------------------------------------------------------------------------

/// Whether numbers grow from one to the next.
pub open spec fn ascending(s: Seq<u64>) -> bool {
    forall|i: int, j: int| 0 <= i < j < s.len() ==> #[trigger] s[i] < #[trigger] s[j]
}

/// Where a number stands among numbers, or would stand: before the first that
/// is not smaller.
pub open spec fn slot_from(s: Seq<u64>, n: u64, i: int) -> int
    decreases s.len() - i,
{
    if i < 0 || i >= s.len() || s[i] >= n {
        i
    } else {
        slot_from(s, n, i + 1)
    }
}

pub open spec fn slot(s: Seq<u64>, n: u64) -> int {
    slot_from(s, n, 0)
}

/// What is known of a slot.
pub proof fn slot_is(s: Seq<u64>, n: u64, i: int)
    requires
        0 <= i <= s.len(),
        forall|k: int| 0 <= k < i ==> #[trigger] s[k] < n,
    ensures
        ({
            let p = slot_from(s, n, i);
            &&& i <= p <= s.len()
            &&& forall|k: int| 0 <= k < p ==> #[trigger] s[k] < n
            &&& p < s.len() ==> s[p] >= n
        }),
    decreases s.len() - i,
{
    if i < s.len() && s[i] < n {
        slot_is(s, n, i + 1);
    }
}

/// The numbers with one more, in order.
pub open spec fn with_number(s: Seq<u64>, n: u64) -> Seq<u64> {
    let p = slot(s, n);
    if p < s.len() && s[p] == n {
        s
    } else {
        s.insert(p, n)
    }
}

/// A number put in its slot keeps the order.
pub proof fn with_number_ascending(s: Seq<u64>, n: u64)
    requires
        ascending(s),
    ensures
        ascending(with_number(s, n)),
        forall|x: u64| #[trigger] with_number(s, n).contains(x) <==> x == n || s.contains(x),
{
    slot_is(s, n, 0);
    let p = slot(s, n);
    let t = with_number(s, n);
    if p < s.len() && s[p] == n {
        assert(s.contains(n));
    } else {
        assert forall|i: int, j: int| 0 <= i < j < t.len() implies #[trigger] t[i] < #[trigger] t[j] by {
            let a = if i < p { s[i] } else if i == p { n } else { s[i - 1] };
            let b = if j < p { s[j] } else if j == p { n } else { s[j - 1] };
            assert(t[i] == a && t[j] == b);
            if i < p && j > p {
                assert(s[i] < s[j - 1]);
            } else if i == p {
                assert(s[p] <= s[j - 1]);
            } else if i > p {
                assert(s[i - 1] < s[j - 1]);
            } else if j < p {
                assert(s[i] < s[j]);
            }
        }
        assert forall|x: u64| #[trigger] t.contains(x) <==> x == n || s.contains(x) by {
            assert(t[p] == n);
            if t.contains(x) {
                let i = choose|i: int| 0 <= i < t.len() && t[i] == x;
                if i < p {
                    assert(s[i] == x);
                } else if i > p {
                    assert(s[i - 1] == x);
                }
            }
            if s.contains(x) {
                let i = choose|i: int| 0 <= i < s.len() && s[i] == x;
                if i < p {
                    assert(t[i] == x);
                } else {
                    assert(t[i + 1] == x);
                }
            }
        }
    }
}

/// The numbers below `n` put among numbers.
pub open spec fn with_numbers_below(s: Seq<u64>, n: nat) -> Seq<u64>
    decreases n,
{
    if n == 0 {
        s
    } else {
        with_number(with_numbers_below(s, (n - 1) as nat), (n - 1) as u64)
    }
}

/// What has been received of a response: the numbers of the items that were
/// begun, the items that are done, each in the order of the numbers, and the
/// response that closes it.
#[verifier::ext_equal]
pub struct BufferedView {
    pub added: Seq<u64>,
    pub done: Seq<(u64, JsonView)>,
    pub terminal: Option<JsonView>,
}

pub open spec fn numbers(done: Seq<(u64, JsonView)>) -> Seq<u64> {
    done.map_values(|e: (u64, JsonView)| e.0)
}

impl BufferedView {
    /// Each item stands once, in the order of the numbers, and what closes the
    /// stream is an object.
    pub open spec fn wf(self) -> bool {
        &&& ascending(self.added)
        &&& ascending(numbers(self.done))
        &&& self.terminal is Some ==> self.terminal->0 is Object
    }
}

/// The number of the item that an event speaks of.
pub open spec fn event_number(data: JsonView) -> Result<u64, Seq<char>> {
    match data.get_u64("output_index"@) {
        Some(n) => Ok(n),
        None => Err("Responses item event is missing output_index"@),
    }
}

/// A string that is more than white space.
pub open spec fn checked_event_string(value: Option<JsonView>, name: Seq<char>) -> Result<
    Seq<char>,
    Seq<char>,
> {
    match value {
        Some(JsonView::Str(s)) if !text::blank(s) => Ok(s),
        _ => Err(name + " must be a non-empty string"@),
    }
}

/// The item that is done, where the event carries one.
pub open spec fn done_item(data: JsonView) -> Result<JsonView, Seq<char>> {
    match data.get("item"@) {
        None => Err("response.output_item.done is missing item"@),
        Some(item) => match checked_event_string(item.get("id"@), "done item id"@) {
            Err(e) => Err(e),
            Ok(_) => match checked_event_string(item.get("type"@), "done item type"@) {
                Err(e) => Err(e),
                Ok(_) => Ok(item),
            },
        },
    }
}

/// The items that are done with one more. An item may be repeated, but not
/// changed.
pub open spec fn with_done(done: Seq<(u64, JsonView)>, n: u64, item: JsonView) -> Result<
    Seq<(u64, JsonView)>,
    Seq<char>,
> {
    let p = slot(numbers(done), n);
    if p < done.len() && done[p].0 == n {
        if done[p].1.agrees(item) {
            Ok(done)
        } else {
            Err("output_index "@ + text::decimal(n as nat) + " has conflicting done items"@)
        }
    } else {
        Ok(done.insert(p, (n, item)))
    }
}

/// The response that closes the stream, without its items.
pub open spec fn closing_response(data: JsonView) -> Result<JsonView, Seq<char>> {
    let response = match data.get("response"@) {
        Some(v) => v,
        None => data,
    };
    if !response.says("status"@, "completed"@) {
        Err("response.completed did not carry completed status"@)
    } else if response.get("error"@) is Some && !(response.get("error"@)->0 is Null) {
        Err("response.completed carried a non-null error"@)
    } else {
        Ok(response)
    }
}

/// What has been received after one event more.
pub open spec fn ingested(state: BufferedView, event: Seq<char>, data: JsonView) -> Result<
    BufferedView,
    Seq<char>,
> {
    if state.terminal is Some {
        Err("received a Responses event after response.completed"@)
    } else if event == "response.output_item.added"@ {
        match event_number(data) {
            Err(e) => Err(e),
            Ok(n) => Ok(BufferedView { added: with_number(state.added, n), ..state }),
        }
    } else if event == "response.output_item.done"@ {
        match event_number(data) {
            Err(e) => Err(e),
            Ok(n) => match done_item(data) {
                Err(e) => Err(e),
                Ok(item) => match with_done(state.done, n, item) {
                    Err(e) => Err(e),
                    Ok(done) => Ok(BufferedView { done, ..state }),
                },
            },
        }
    } else if event == "response.completed"@ {
        match closing_response(data) {
            Err(e) => Err(e),
            Ok(response) => Ok(
                BufferedView {
                    added: with_numbers_below(state.added, response.items_at("output"@).len()),
                    terminal: Some(response.with("output"@, JsonView::Array(Seq::empty()))),
                    ..state
                },
            ),
        }
    } else if event == "response.failed"@ || event == "response.cancelled"@ || event
        == "response.incomplete"@ {
        Err("upstream ended with "@ + event)
    } else if event == "error"@ || event == "response.error"@ {
        Err("upstream emitted a Responses error event"@)
    } else {
        Ok(state)
    }
}

/// The items that were begun and are not done.
pub open spec fn missing_numbers(added: Seq<u64>, done: Seq<u64>) -> Seq<u64> {
    seqs::gathered(added, is_missing(done), added.len())
}

pub open spec fn is_missing(done: Seq<u64>) -> spec_fn(u64) -> Seq<u64> {
    |n: u64|
        if done.contains(n) {
            Seq::empty()
        } else {
            seq![n]
        }
}

/// Numbers as a list.
pub open spec fn list_text(v: Seq<u64>) -> Seq<char> {
    "["@ + text::joined(v.map_values(|n: u64| text::decimal(n as nat)), ", "@) + "]"@
}

/// The items in the order of their numbers.
pub open spec fn items_of(done: Seq<(u64, JsonView)>) -> Seq<JsonView> {
    done.map_values(|e: (u64, JsonView)| e.1)
}

/// The response that was received: closed, with every item that was begun, and
/// within the policy.
pub open spec fn sealed_response(state: BufferedView, limit: Option<u64>) -> Result<
    JsonView,
    Seq<char>,
> {
    match state.terminal {
        None => Err("WebSearch stream ended without response.completed"@),
        Some(terminal) => {
            let missing = missing_numbers(state.added, numbers(state.done));
            if missing.len() > 0 {
                Err(
                    "WebSearch stream ended without output_item.done for indices "@ + list_text(
                        missing,
                    ),
                )
            } else {
                match web_search_bridge::checked_output(items_of(state.done), limit) {
                    Err(e) => Err(e),
                    Ok(_) => Ok(terminal.with("output"@, JsonView::Array(items_of(state.done)))),
                }
            }
        },
    }
}

/// The message that was received.
pub open spec fn sealed_message(state: BufferedView, limit: Option<u64>) -> Result<
    JsonView,
    Seq<char>,
> {
    match sealed_response(state, limit) {
        Err(e) => Err(e),
        Ok(response) => match transform_responses::bridged_response(response, true) {
            Err(e) => Err(error::error_message(e)),
            Ok(message) => Ok(message),
        },
    }
}

pub open spec fn text_result(r: Result<Json, String>) -> Result<JsonView, Seq<char>> {
    match r {
        Ok(j) => Ok(j@),
        Err(e) => Err(e@),
    }
}

/// A streamed response that is being collected.
#[derive(Debug)]
pub struct WebSearchBufferedResponse {
    added: Vec<u64>,
    done: Vec<(u64, Json)>,
    terminal: Option<Json>,
}

spec fn done_view(v: Seq<(u64, Json)>) -> Seq<(u64, JsonView)> {
    v.map_values(|e: (u64, Json)| (e.0, e.1@))
}

impl View for WebSearchBufferedResponse {
    type V = BufferedView;

    closed spec fn view(&self) -> BufferedView {
        BufferedView {
            added: self.added@,
            done: done_view(self.done@),
            terminal: match self.terminal {
                Some(j) => Some(j@),
                None => None,
            },
        }
    }
}

fn find_number_slot(v: &Vec<u64>, n: u64) -> (r: usize)
    ensures
        r == slot(v@, n),
        r <= v@.len(),
{
    let mut i: usize = 0;
    while i < v.len() && v[i] < n
        invariant
            i <= v@.len(),
            slot_from(v@, n, i as int) == slot(v@, n),
        decreases v@.len() - i,
    {
        i = i + 1;
    }
    i
}

fn find_item_slot(v: &Vec<(u64, Json)>, n: u64) -> (r: usize)
    ensures
        r == slot(numbers(done_view(v@)), n),
        r <= v@.len(),
{
    let ghost ns = numbers(done_view(v@));
    let mut i: usize = 0;
    assert(ns.len() == v@.len());
    while i < v.len() && v[i].0 < n
        invariant
            i <= v@.len(),
            ns == numbers(done_view(v@)),
            ns.len() == v@.len(),
            slot_from(ns, n, i as int) == slot(ns, n),
        decreases v@.len() - i,
    {
        assert(ns[i as int] == v@[i as int].0);
        i = i + 1;
    }
    assert(i < v@.len() ==> ns[i as int] == v@[i as int].0);
    i
}

fn add_number(v: &mut Vec<u64>, n: u64)
    ensures
        final(v)@ == with_number(old(v)@, n),
{
    let p: usize = find_number_slot(v, n);
    if p < v.len() && v[p] == n {
        return ;
    }
    v.insert(p, n);
}

fn non_empty_event_string(value: Option<&Json>, name: &str) -> (r: Option<String>)
    ensures
        match r {
            None => checked_event_string(json::opt_view(value), name@) is Ok,
            Some(e) => checked_event_string(json::opt_view(value), name@) == Err::<
                Seq<char>,
                Seq<char>,
            >(e@),
        },
{
    if let Some(Json::Str(s)) = value {
        if !text::is_blank(s.as_str()) {
            return None;
        }
    }
    Some(text::concat2(name, " must be a non-empty string"))
}

fn event_output_index(data: &Json) -> (r: Result<u64, String>)
    ensures
        (match r {
            Ok(n) => Ok::<u64, Seq<char>>(n),
            Err(e) => Err(e@),
        }) == event_number(data@),
{
    match data.get_u64("output_index") {
        Some(n) => Ok(n),
        None => Err("Responses item event is missing output_index".to_owned()),
    }
}

fn take_done_item(data: &Json) -> (r: Result<Json, String>)
    ensures
        text_result(r) == done_item(data@),
{
    let item = match data.get("item") {
        Some(item) => item,
        None => {
            return Err("response.output_item.done is missing item".to_owned());
        },
    };
    if let Some(e) = non_empty_event_string(item.get("id"), "done item id") {
        return Err(e);
    }
    if let Some(e) = non_empty_event_string(item.get("type"), "done item type") {
        return Err(e);
    }
    Ok(item.copy())
}

fn take_closing_response(data: &Json) -> (r: Result<Json, String>)
    ensures
        text_result(r) == closing_response(data@),
{
    let response = match data.get("response") {
        Some(v) => v,
        None => data,
    };
    if !response.says("status", "completed") {
        return Err("response.completed did not carry completed status".to_owned());
    }
    if let Some(e) = response.get("error") {
        if !e.is_null() {
            return Err("response.completed carried a non-null error".to_owned());
        }
    }
    Ok(response.copy())
}

fn number_list(v: &Vec<u64>) -> (r: String)
    ensures
        r@ == list_text(v@),
{
    let mut parts: Vec<String> = Vec::new();
    let mut i: usize = 0;
    while i < v.len()
        invariant
            i <= v@.len(),
            parts@.len() == i,
            forall|k: int| 0 <= k < i ==> (#[trigger] parts@[k])@ == text::decimal(v@[k] as nat),
        decreases v@.len() - i,
    {
        parts.push(text::to_decimal(v[i]));
        i = i + 1;
    }
    assert(text::texts(parts@) =~= v@.map_values(|n: u64| text::decimal(n as nat)));
    let inner = text::join(&parts, ", ");
    text::concat3("[", inner.as_str(), "]")
}

fn missing_of(added: &Vec<u64>, done: &Vec<(u64, Json)>) -> (r: Vec<u64>)
    ensures
        r@ == missing_numbers(added@, numbers(done_view(done@))),
{
    let ghost ns = numbers(done_view(done@));
    let mut out: Vec<u64> = Vec::new();
    let mut i: usize = 0;
    while i < added.len()
        invariant
            i <= added@.len(),
            ns == numbers(done_view(done@)),
            out@ == seqs::gathered(added@, is_missing(ns), i as nat),
        decreases added@.len() - i,
    {
        let n: u64 = added[i];
        let mut found = false;
        let mut j: usize = 0;
        while j < done.len() && !found
            invariant
                j <= done@.len(),
                ns == numbers(done_view(done@)),
                found ==> ns.contains(n),
                !found ==> forall|k: int| 0 <= k < j ==> #[trigger] ns[k] != n,
            decreases done@.len() - j,
        {
            assert(ns[j as int] == done@[j as int].0);
            if done[j].0 == n {
                found = true;
            }
            j = j + 1;
        }
        let ghost before = out@;
        if found {
            assert(before + Seq::<u64>::empty() =~= before);
        } else {
            assert(!ns.contains(n));
            out.push(n);
            assert(before.push(n) =~= before + seq![n]);
        }
        i = i + 1;
    }
    out
}

impl WebSearchBufferedResponse {
    pub fn new() -> (r: WebSearchBufferedResponse)
        ensures
            r@ == (BufferedView { added: Seq::empty(), done: Seq::empty(), terminal: None }),
            r@.wf(),
    {
        let r = WebSearchBufferedResponse { added: Vec::new(), done: Vec::new(), terminal: None };
        assert(r@.done =~= Seq::<(u64, JsonView)>::empty());
        r
    }

    /// Takes one event in. An event that is refused changes nothing.
    pub fn ingest_responses_event(&mut self, event_name: &str, data: &Json) -> (r: Result<(), String>)
        ensures
            match r {
                Ok(_) => ingested(old(self)@, event_name@, data@) == Ok::<BufferedView, Seq<char>>(
                    final(self)@,
                ),
                Err(e) => ingested(old(self)@, event_name@, data@) == Err::<
                    BufferedView,
                    Seq<char>,
                >(e@) && final(self)@ == old(self)@,
            },
            old(self)@.wf() ==> final(self)@.wf(),
    {
        if self.terminal.is_some() {
            return Err("received a Responses event after response.completed".to_owned());
        }
        if text::same_text(event_name, "response.output_item.added") {
            match event_output_index(data) {
                Err(e) => {
                    return Err(e);
                },
                Ok(n) => {
                    proof {
                        if self@.wf() {
                            with_number_ascending(self.added@, n);
                        }
                    }
                    add_number(&mut self.added, n);
                },
            }
        } else if text::same_text(event_name, "response.output_item.done") {
            let n: u64 = match event_output_index(data) {
                Err(e) => {
                    return Err(e);
                },
                Ok(n) => n,
            };
            let item = match take_done_item(data) {
                Err(e) => {
                    return Err(e);
                },
                Ok(item) => item,
            };
            let p: usize = find_item_slot(&self.done, n);
            let ghost before = done_view(self.done@);
            assert(before.len() == self.done@.len());
            assert(p < self.done@.len() ==> before[p as int].0 == self.done@[p as int].0);
            if p < self.done.len() && self.done[p].0 == n {
                if !self.done[p].1.agrees(&item) {
                    let number = text::to_decimal(n);
                    return Err(
                        text::concat3(
                            "output_index ",
                            number.as_str(),
                            " has conflicting done items",
                        ),
                    );
                }
            } else {
                let ghost view = item@;
                self.done.insert(p, (n, item));
                proof {
                    assert(done_view(self.done@) =~= before.insert(p as int, (n, view)));
                    if old(self)@.wf() {
                        with_number_ascending(numbers(before), n);
                    }
                    slot_is(numbers(before), n, 0);
                    assert(numbers(done_view(self.done@)) =~= with_number(numbers(before), n));
                }
            }
        } else if text::same_text(event_name, "response.completed") {
            let mut response = match take_closing_response(data) {
                Err(e) => {
                    return Err(e);
                },
                Ok(response) => response,
            };
            let ghost closing = response@;
            let count: usize = match response.get_array("output") {
                Some(output) => output.len(),
                None => 0,
            };
            assert(count == closing.items_at("output"@).len());
            let ghost before = self.added@;
            let mut i: usize = 0;
            while i < count
                invariant
                    i <= count,
                    self.added@ == with_numbers_below(before, i as nat),
                    ascending(before) ==> ascending(self.added@),
                    self.done == old(self).done,
                    self.terminal == old(self).terminal,
                decreases count - i,
            {
                proof {
                    if ascending(before) {
                        with_number_ascending(self.added@, i as u64);
                    }
                }
                add_number(&mut self.added, i as u64);
                i = i + 1;
            }
            let none: Vec<Json> = Vec::new();
            assert(json::items_view(none@) =~= Seq::<JsonView>::empty());
            response.set("output", Json::Array(none));
            self.terminal = Some(response);
        } else if text::same_text(event_name, "response.failed") || text::same_text(
            event_name,
            "response.cancelled",
        ) || text::same_text(event_name, "response.incomplete") {
            return Err(text::concat2("upstream ended with ", event_name));
        } else if text::same_text(event_name, "error") || text::same_text(
            event_name,
            "response.error",
        ) {
            return Err("upstream emitted a Responses error event".to_owned());
        }
        Ok(())
    }

    /// The response that was received.
    pub fn seal_responses(self, policy: &WebSearchRequestPolicy) -> (r: Result<Json, String>)
        ensures
            text_result(r) == sealed_response(self@, policy.max_uses),
    {
        let mut terminal = match self.terminal {
            Some(t) => t,
            None => {
                return Err("WebSearch stream ended without response.completed".to_owned());
            },
        };
        let missing = missing_of(&self.added, &self.done);
        if missing.len() > 0 {
            let list = number_list(&missing);
            return Err(
                text::concat2(
                    "WebSearch stream ended without output_item.done for indices ",
                    list.as_str(),
                ),
            );
        }
        let mut output: Vec<Json> = Vec::new();
        let mut i: usize = 0;
        while i < self.done.len()
            invariant
                i <= self.done@.len(),
                output@.len() == i,
                forall|k: int| 0 <= k < i ==> (#[trigger] output@[k])@ == self.done@[k].1@,
            decreases self.done@.len() - i,
        {
            output.push(self.done[i].1.copy());
            i = i + 1;
        }
        assert(json::items_view(output@) =~= items_of(done_view(self.done@)));
        if let Err(e) = web_search_bridge::validate_web_search_output(&output, policy) {
            return Err(e);
        }
        terminal.set("output", Json::Array(output));
        Ok(terminal)
    }

    /// The message that was received.
    pub fn seal(self, policy: &WebSearchRequestPolicy) -> (r: Result<Json, String>)
        ensures
            text_result(r) == sealed_message(self@, policy.max_uses),
    {
        match self.seal_responses(policy) {
            Err(e) => Err(e),
            Ok(response) => match transform_responses::responses_to_anthropic_web_search(response) {
                Err(e) => Err(e.message()),
                Ok(message) => Ok(message),
            },
        }
    }
}

// ---------------------------------------------------------------------------
// The events of a message
// ---------------------------------------------------------------------------

/// A value, or an empty object.
pub open spec fn or_object(v: Option<JsonView>) -> JsonView {
    match v {
        Some(v) => v,
        None => JsonView::object(),
    }
}

/// A block as it begins: without what its deltas add.
pub open spec fn block_start(block: JsonView) -> JsonView {
    let kind = block.str_or("type"@, ""@);
    if kind == "text"@ {
        let start = JsonView::object().with("type"@, JsonView::Str("text"@)).with(
            "text"@,
            JsonView::Str(""@),
        );
        if block.get("citations"@) is Some {
            start.with("citations"@, JsonView::Array(Seq::empty()))
        } else {
            start
        }
    } else if kind == "thinking"@ {
        JsonView::object().with("type"@, JsonView::Str("thinking"@)).with(
            "thinking"@,
            JsonView::Str(""@),
        ).with("signature"@, JsonView::Str(""@))
    } else if kind == "tool_use"@ || kind == "server_tool_use"@ {
        JsonView::object().with("type"@, JsonView::Str(kind)).with(
            "id"@,
            JsonView::or_null(block.get("id"@)),
        ).with("name"@, JsonView::or_null(block.get("name"@))).with("input"@, JsonView::object())
    } else {
        block
    }
}

/// A delta of the block with that number.
pub open spec fn delta_event(index: u64, delta: JsonView) -> Seq<char> {
    sse::event_text(
        "content_block_delta"@,
        JsonView::object().with("type"@, JsonView::Str("content_block_delta"@)).with(
            "index"@,
            JsonView::number(index),
        ).with("delta"@, delta),
    )
}

/// A delta with one value.
pub open spec fn delta_of(kind: Seq<char>, key: Seq<char>, value: JsonView) -> JsonView {
    JsonView::object().with("type"@, JsonView::Str(kind)).with(key, value)
}

/// The delta of a string that is not empty.
pub open spec fn string_delta(
    index: u64,
    block: JsonView,
    key: Seq<char>,
    kind: Seq<char>,
) -> Seq<Seq<char>> {
    match block.get_str(key) {
        Some(s) if s.len() > 0 => seq![delta_event(index, delta_of(kind, key, JsonView::Str(s)))],
        _ => Seq::empty(),
    }
}

/// The delta of one citation.
pub open spec fn citation_delta(index: u64) -> spec_fn(JsonView) -> Seq<Seq<char>> {
    |citation: JsonView|
        seq![delta_event(index, delta_of("citations_delta"@, "citation"@, citation))]
}

/// What a block adds to its beginning, as deltas.
pub open spec fn block_deltas(index: u64, block: JsonView) -> Seq<Seq<char>> {
    let kind = block.str_or("type"@, ""@);
    if kind == "text"@ {
        let citations = block.items_at("citations"@);
        string_delta(index, block, "text"@, "text_delta"@) + seqs::gathered(
            citations,
            citation_delta(index),
            citations.len(),
        )
    } else if kind == "thinking"@ {
        string_delta(index, block, "thinking"@, "thinking_delta"@) + string_delta(
            index,
            block,
            "signature"@,
            "signature_delta"@,
        )
    } else if kind == "tool_use"@ || kind == "server_tool_use"@ {
        let input = json_codec::written(or_object(block.get("input"@)));
        seq![
            delta_event(
                index,
                delta_of("input_json_delta"@, "partial_json"@, JsonView::Str(input)),
            ),
        ]
    } else {
        Seq::empty()
    }
}

/// The events of one block.
pub open spec fn block_events(index: u64, block: JsonView) -> Seq<Seq<char>> {
    let start = sse::event_text(
        "content_block_start"@,
        JsonView::object().with("type"@, JsonView::Str("content_block_start"@)).with(
            "index"@,
            JsonView::number(index),
        ).with("content_block"@, block_start(block)),
    );
    let stop = sse::event_text(
        "content_block_stop"@,
        JsonView::object().with("type"@, JsonView::Str("content_block_stop"@)).with(
            "index"@,
            JsonView::number(index),
        ),
    );
    seq![start] + block_deltas(index, block) + seq![stop]
}

/// The events of the first `n` blocks.
pub open spec fn content_events(content: Seq<JsonView>, n: nat) -> Seq<Seq<char>>
    decreases n,
{
    if n == 0 {
        Seq::empty()
    } else {
        content_events(content, (n - 1) as nat) + block_events((n - 1) as u64, content[n - 1])
    }
}

/// The usage of a message.
pub open spec fn message_usage(message: JsonView) -> JsonView {
    match message.get("usage"@) {
        Some(usage) => usage,
        None => JsonView::object().with("input_tokens"@, JsonView::number(0)).with(
            "output_tokens"@,
            JsonView::number(0),
        ),
    }
}

/// The event with which a message begins.
pub open spec fn start_event(message: JsonView) -> Seq<char> {
    let shell = JsonView::object().with(
        "id"@,
        JsonView::Str(message.str_or("id"@, "msg_responses_proxy"@)),
    ).with("type"@, JsonView::Str("message"@)).with("role"@, JsonView::Str("assistant"@)).with(
        "content"@,
        JsonView::Array(Seq::empty()),
    ).with("model"@, JsonView::Str(message.str_or("model"@, "unknown"@))).with(
        "stop_reason"@,
        JsonView::Null,
    ).with("stop_sequence"@, JsonView::Null).with("usage"@, message_usage(message));
    sse::event_text(
        "message_start"@,
        JsonView::object().with("type"@, JsonView::Str("message_start"@)).with("message"@, shell),
    )
}

/// The event that says how a message ended.
pub open spec fn delta_end_event(message: JsonView) -> Seq<char> {
    let delta = JsonView::object().with(
        "stop_reason"@,
        JsonView::or_null(message.get("stop_reason"@)),
    ).with("stop_sequence"@, JsonView::or_null(message.get("stop_sequence"@)));
    sse::event_text(
        "message_delta"@,
        JsonView::object().with("type"@, JsonView::Str("message_delta"@)).with("delta"@, delta).with(
            "usage"@,
            message_usage(message),
        ),
    )
}

/// The event with which a message ends.
pub open spec fn stop_event() -> Seq<char> {
    sse::event_text(
        "message_stop"@,
        JsonView::object().with("type"@, JsonView::Str("message_stop"@)),
    )
}

/// The events of a message.
pub open spec fn message_events(message: JsonView) -> Seq<Seq<char>> {
    let content = message.items_at("content"@);
    seq![start_event(message)] + content_events(content, content.len()) + seq![
        delta_end_event(message),
        stop_event(),
    ]
}

fn push_event(out: &mut Vec<String>, event: String)
    ensures
        text::texts(final(out)@) == text::texts(old(out)@) + seq![event@],
{
    proof {
        text::texts_push(out@, event);
        assert(text::texts(out@).push(event@) =~= text::texts(out@) + seq![event@]);
    }
    out.push(event);
}

fn make_block_start(block: &Json) -> (r: Json)
    ensures
        r@ == block_start(block@),
{
    let kind = block.str_or("type", "");
    if text::same_text(kind, "text") {
        let mut start = Json::object().with("type", Json::string("text")).with(
            "text",
            Json::string(""),
        );
        if block.get("citations").is_some() {
            let none: Vec<Json> = Vec::new();
            assert(json::items_view(none@) =~= Seq::<JsonView>::empty());
            start.set("citations", Json::Array(none));
        }
        start
    } else if text::same_text(kind, "thinking") {
        Json::object().with("type", Json::string("thinking")).with(
            "thinking",
            Json::string(""),
        ).with("signature", Json::string(""))
    } else if text::same_text(kind, "tool_use") || text::same_text(kind, "server_tool_use") {
        Json::object().with("type", Json::string(kind)).with(
            "id",
            Json::copy_or_null(block.get("id")),
        ).with("name", Json::copy_or_null(block.get("name"))).with("input", Json::object())
    } else {
        block.copy()
    }
}

fn make_delta_event(index: u64, kind: &str, key: &str, value: Json) -> (r: String)
    ensures
        r@ == delta_event(index, delta_of(kind@, key@, value@)),
{
    let delta = Json::object().with("type", Json::string(kind)).with(key, value);
    let payload = Json::object().with("type", Json::string("content_block_delta")).with(
        "index",
        Json::number(index),
    ).with("delta", delta);
    sse::anthropic_sse("content_block_delta", &payload)
}

fn push_string_delta(out: &mut Vec<String>, index: u64, block: &Json, key: &str, kind: &str)
    ensures
        text::texts(final(out)@) == text::texts(old(out)@) + string_delta(
            index,
            block@,
            key@,
            kind@,
        ),
{
    if let Some(s) = block.get_str(key) {
        if !s.is_empty() {
            push_event(out, make_delta_event(index, kind, key, Json::string(s)));
            return ;
        }
    }
    assert(text::texts(out@) + Seq::<Seq<char>>::empty() =~= text::texts(out@));
}

fn push_citation_deltas(out: &mut Vec<String>, index: u64, block: &Json)
    ensures
        text::texts(final(out)@) == text::texts(old(out)@) + seqs::gathered(
            block@.items_at("citations"@),
            citation_delta(index),
            block@.items_at("citations"@).len(),
        ),
{
    let ghost before = text::texts(out@);
    assert(before + Seq::<Seq<char>>::empty() =~= before);
    if let Some(citations) = block.get_array("citations") {
        let ghost views = json::items_view(citations@);
        let ghost f = citation_delta(index);
        let mut i: usize = 0;
        while i < citations.len()
            invariant
                i <= citations@.len(),
                views == json::items_view(citations@),
                f == citation_delta(index),
                text::texts(out@) == before + seqs::gathered(views, f, i as nat),
            decreases citations@.len() - i,
        {
            assert(views[i as int] == citations@[i as int]@);
            push_event(
                out,
                make_delta_event(index, "citations_delta", "citation", citations[i].copy()),
            );
            proof {
                let g = seqs::gathered(views, f, i as nat);
                let x = f(views[i as int]);
                assert(before + g + x =~= before + (g + x));
            }
            i = i + 1;
        }
    }
}

fn push_block_deltas(out: &mut Vec<String>, index: u64, block: &Json)
    ensures
        text::texts(final(out)@) == text::texts(old(out)@) + block_deltas(index, block@),
{
    let ghost before = text::texts(out@);
    let kind = block.str_or("type", "");
    if text::same_text(kind, "text") {
        push_string_delta(out, index, block, "text", "text_delta");
        push_citation_deltas(out, index, block);
    } else if text::same_text(kind, "thinking") {
        push_string_delta(out, index, block, "thinking", "thinking_delta");
        push_string_delta(out, index, block, "signature", "signature_delta");
    } else if text::same_text(kind, "tool_use") || text::same_text(kind, "server_tool_use") {
        let input = match block.get("input") {
            Some(v) => json_codec::write(v),
            None => json_codec::write(&Json::object()),
        };
        push_event(
            out,
            make_delta_event(index, "input_json_delta", "partial_json", Json::Str(input)),
        );
    }
    assert(text::texts(out@) =~= before + block_deltas(index, block@));
}

fn push_block_events(out: &mut Vec<String>, index: u64, block: &Json)
    ensures
        text::texts(final(out)@) == text::texts(old(out)@) + block_events(index, block@),
{
    let ghost before = text::texts(out@);
    let start = Json::object().with("type", Json::string("content_block_start")).with(
        "index",
        Json::number(index),
    ).with("content_block", make_block_start(block));
    push_event(out, sse::anthropic_sse("content_block_start", &start));
    push_block_deltas(out, index, block);
    let stop = Json::object().with("type", Json::string("content_block_stop")).with(
        "index",
        Json::number(index),
    );
    push_event(out, sse::anthropic_sse("content_block_stop", &stop));
    assert(text::texts(out@) =~= before + block_events(index, block@));
}

fn copy_usage(message: &Json) -> (r: Json)
    ensures
        r@ == message_usage(message@),
{
    match message.get("usage") {
        Some(usage) => usage.copy(),
        None => Json::object().with("input_tokens", Json::number(0)).with(
            "output_tokens",
            Json::number(0),
        ),
    }
}

fn make_start_event(message: &Json) -> (r: String)
    ensures
        r@ == start_event(message@),
{
    let none: Vec<Json> = Vec::new();
    assert(json::items_view(none@) =~= Seq::<JsonView>::empty());
    let shell = Json::object().with(
        "id",
        Json::string(message.str_or("id", "msg_responses_proxy")),
    ).with("type", Json::string("message")).with("role", Json::string("assistant")).with(
        "content",
        Json::Array(none),
    ).with("model", Json::string(message.str_or("model", "unknown"))).with(
        "stop_reason",
        Json::Null,
    ).with("stop_sequence", Json::Null).with("usage", copy_usage(message));
    sse::anthropic_sse(
        "message_start",
        &Json::object().with("type", Json::string("message_start")).with("message", shell),
    )
}

fn make_delta_end_event(message: &Json) -> (r: String)
    ensures
        r@ == delta_end_event(message@),
{
    let delta = Json::object().with(
        "stop_reason",
        Json::copy_or_null(message.get("stop_reason")),
    ).with("stop_sequence", Json::copy_or_null(message.get("stop_sequence")));
    sse::anthropic_sse(
        "message_delta",
        &Json::object().with("type", Json::string("message_delta")).with("delta", delta).with(
            "usage",
            copy_usage(message),
        ),
    )
}

/// The events of a message.
pub fn anthropic_message_sse(message: &Json) -> (r: Vec<String>)
    ensures
        text::texts(r@) == message_events(message@),
{
    let mut out: Vec<String> = Vec::new();
    let ghost none = text::texts(out@);
    assert(none =~= Seq::<Seq<char>>::empty());
    push_event(&mut out, make_start_event(message));
    let ghost before = text::texts(out@);
    assert(before =~= seq![start_event(message@)]);
    assert(before + Seq::<Seq<char>>::empty() =~= before);
    if let Some(content) = message.get_array("content") {
        let ghost views = json::items_view(content@);
        let mut i: usize = 0;
        while i < content.len()
            invariant
                i <= content@.len(),
                views == json::items_view(content@),
                text::texts(out@) == before + content_events(views, i as nat),
            decreases content@.len() - i,
        {
            assert(views[i as int] == content@[i as int]@);
            push_block_events(&mut out, i as u64, &content[i]);
            proof {
                let g = content_events(views, i as nat);
                let x = block_events(i as u64, views[i as int]);
                assert(before + g + x =~= before + (g + x));
            }
            i = i + 1;
        }
    }
    push_event(&mut out, make_delta_end_event(message));
    push_event(
        &mut out,
        sse::anthropic_sse(
            "message_stop",
            &Json::object().with("type", Json::string("message_stop")),
        ),
    );
    assert(text::texts(out@) =~= message_events(message@));
    out
}

// ---------------------------------------------------------------------------
// The stream
// ---------------------------------------------------------------------------

/// The event of a block, where it has one: its name and its data.
pub open spec fn block_event(block: Seq<char>) -> Result<Option<(Seq<char>, JsonView)>, Seq<char>> {
    let fields = sse::block_fields(block);
    let data = text::joined(fields.data, "\n"@);
    if fields.data.len() == 0 || text::trimmed(data) == "[DONE]"@ {
        Ok(None)
    } else {
        match json_codec::parsed(data) {
            Err(e) => Err("invalid Responses SSE JSON: "@ + e),
            Ok(value) => match fields.event {
                Some(event) if event.len() > 0 => Ok(Some((event, value))),
                _ => match value.get_str("type"@) {
                    Some(event) => Ok(Some((event, value))),
                    None => Err("Responses SSE event is missing its type"@),
                },
            },
        }
    }
}

pub fn parse_responses_sse_block(block: &str) -> (r: Result<Option<(String, Json)>, String>)
    ensures
        (match r {
            Ok(Some(p)) => Ok::<Option<(Seq<char>, JsonView)>, Seq<char>>(Some((p.0@, p.1@))),
            Ok(None) => Ok(None),
            Err(e) => Err(e@),
        }) == block_event(block@),
{
    let fields = sse::read_fields(block);
    assert(text::texts(fields.data@).len() == fields.data@.len());
    if fields.data.len() == 0 {
        return Ok(None);
    }
    let data = text::join(&fields.data, "\n");
    let bare = text::trim(data.as_str());
    if text::same_text(bare.as_str(), "[DONE]") {
        return Ok(None);
    }
    let value = match json_codec::parse(data.as_str()) {
        Ok(v) => v,
        Err(e) => {
            return Err(text::concat2("invalid Responses SSE JSON: ", e.as_str()));
        },
    };
    if let Some(event) = fields.event {
        if !event.as_str().is_empty() {
            return Ok(Some((event, value)));
        }
    }
    match value.get_str("type") {
        Some(event) => {
            let name = event.to_owned();
            Ok(Some((name, value)))
        },
        None => Err("Responses SSE event is missing its type".to_owned()),
    }
}

/// How far the stream has come: what was received, the text that is no block
/// yet, the bytes that are no text yet, and what went wrong.
#[verifier::ext_equal]
pub struct StreamView {
    pub response: BufferedView,
    pub buffer: Seq<char>,
    pub remainder: Seq<u8>,
    pub failure: Option<Seq<char>>,
}

impl StreamView {
    /// With an error, and without the text that follows it.
    pub open spec fn failed(self, e: Seq<char>) -> StreamView {
        StreamView { buffer: Seq::empty(), failure: Some(e), ..self }
    }
}

/// What becomes of one block.
pub open spec fn after_sse_block(state: StreamView, block: Seq<char>) -> StreamView {
    if text::blank(block) {
        state
    } else {
        match block_event(block) {
            Err(e) => state.failed(e),
            Ok(None) => state,
            Ok(Some((event, data))) => match ingested(state.response, event, data) {
                Err(e) => state.failed(e),
                Ok(response) => StreamView { response, ..state },
            },
        }
    }
}

/// What becomes of the blocks that the text holds, up to the first error.
pub open spec fn after_sse_blocks(state: StreamView) -> StreamView
    decreases state.buffer.len(),
    via after_sse_blocks_ends
{
    match sse::first_block(state.buffer) {
        None => state,
        Some((block, rest)) => {
            let next = after_sse_block(StreamView { buffer: rest, ..state }, block);
            if next.failure is Some {
                next
            } else {
                after_sse_blocks(next)
            }
        },
    }
}

#[via_fn]
proof fn after_sse_blocks_ends(state: StreamView) {
    sse::first_block_shortens(state.buffer);
}

/// What becomes of bytes: their events are taken in, until something has gone
/// wrong; what comes after that is passed over.
pub open spec fn after_chunk(state: StreamView, bytes: Seq<u8>) -> StreamView {
    if state.failure is Some {
        StreamView { buffer: Seq::empty(), remainder: Seq::empty(), ..state }
    } else {
        let all = state.remainder + bytes;
        after_sse_blocks(
            StreamView {
                buffer: state.buffer + text::lossy_text(sse::whole(all)),
                remainder: sse::pending(all),
                ..state
            },
        )
    }
}

/// The message in the end, or what went wrong.
pub open spec fn stream_message(state: StreamView, limit: Option<u64>) -> Result<
    JsonView,
    Seq<char>,
> {
    match state.failure {
        Some(e) => Err(e),
        None => if state.remainder.len() > 0 || !text::blank(state.buffer) {
            Err("WebSearch stream ended with an incomplete SSE frame"@)
        } else {
            sealed_message(state.response, limit)
        },
    }
}

/// A message in one line of bounded length.
pub open spec fn bounded(message: Seq<char>) -> Seq<char> {
    let line = text::joined(text::words_of(message), " "@);
    if line.len() <= 240 {
        line
    } else {
        line.take(240) + "..."@
    }
}

pub fn bounded_message(message: &str) -> (r: String)
    ensures
        r@ == bounded(message@),
{
    let words = text::words(message);
    let line = text::join(&words, " ");
    let cs = text::chars_of(line.as_str());
    if cs.len() <= 240 {
        return line;
    }
    let head = text::string_of(&cs, 0, 240);
    assert(head@ =~= line@.take(240));
    text::concat2(head.as_str(), "...")
}

/// The event that tells the client of an error.
pub open spec fn error_event(message: Seq<char>) -> Seq<char> {
    sse::event_text(
        "error"@,
        JsonView::object().with("type"@, JsonView::Str("error"@)).with(
            "error"@,
            JsonView::object().with("type"@, JsonView::Str("upstream_error"@)).with(
                "message"@,
                JsonView::Str(bounded(message)),
            ),
        ),
    )
}

/// What the client is sent in the end, and whether the stream succeeded.
#[derive(Debug)]
pub struct StreamEnd {
    /// The events for the client.
    pub events: Vec<String>,
    /// What went wrong, where something did.
    pub failure: Option<String>,
}

/// A streamed response to a request with a hosted search.
#[derive(Debug)]
pub struct BufferedAnthropicStream {
    response: WebSearchBufferedResponse,
    buffer: String,
    remainder: Vec<u8>,
    failure: Option<String>,
}

impl View for BufferedAnthropicStream {
    type V = StreamView;

    closed spec fn view(&self) -> StreamView {
        StreamView {
            response: self.response@,
            buffer: self.buffer@,
            remainder: self.remainder@,
            failure: text::opt_string(self.failure),
        }
    }
}

impl BufferedAnthropicStream {
    pub fn new() -> (r: BufferedAnthropicStream)
        ensures
            r@ == (StreamView {
                response: BufferedView { added: Seq::empty(), done: Seq::empty(), terminal: None },
                buffer: Seq::empty(),
                remainder: Seq::empty(),
                failure: None,
            }),
    {
        let r = BufferedAnthropicStream {
            response: WebSearchBufferedResponse::new(),
            buffer: String::new(),
            remainder: Vec::new(),
            failure: None,
        };
        assert(r@.buffer =~= Seq::<char>::empty());
        assert(r@.remainder =~= Seq::<u8>::empty());
        r
    }

    fn fail(&mut self, e: String)
        ensures
            final(self)@ == old(self)@.failed(e@),
    {
        self.failure = Some(e);
        self.buffer = String::new();
        assert(self.buffer@ =~= Seq::<char>::empty());
    }

    fn take_block(&mut self, block: &str)
        requires
            old(self)@.failure is None,
        ensures
            final(self)@ == after_sse_block(old(self)@, block@),
    {
        if text::is_blank(block) {
            return ;
        }
        match parse_responses_sse_block(block) {
            Err(e) => self.fail(e),
            Ok(None) => {},
            Ok(Some((event, data))) => {
                if let Err(e) = self.response.ingest_responses_event(event.as_str(), &data) {
                    self.fail(e);
                }
            },
        }
    }

    /// Takes in the bytes that came.
    pub fn feed(&mut self, bytes: &[u8])
        ensures
            final(self)@ == after_chunk(old(self)@, bytes@),
    {
        if self.failure.is_some() {
            self.buffer = String::new();
            self.remainder = Vec::new();
            assert(self.buffer@ =~= Seq::<char>::empty());
            assert(self.remainder@ =~= Seq::<u8>::empty());
            return ;
        }
        sse::append_utf8_safe(&mut self.buffer, &mut self.remainder, bytes);
        let ghost start = self@;
        let mut going = true;
        while going
            invariant
                going ==> self@.failure is None && after_sse_blocks(self@) == after_sse_blocks(
                    start,
                ),
                !going ==> self@ == after_sse_blocks(start),
            decreases self.buffer@.len() + (if going { 1nat } else { 0nat }),
        {
            proof {
                sse::first_block_shortens(self.buffer@);
            }
            match sse::take_sse_block(&mut self.buffer) {
                None => {
                    going = false;
                },
                Some(block) => {
                    self.take_block(block.as_str());
                    if self.failure.is_some() {
                        going = false;
                    }
                },
            }
        }
    }

    /// Notes that reading failed. Nothing is read after that.
    pub fn feed_error(&mut self, e: String)
        ensures
            final(self)@ == (StreamView { failure: Some(e@), ..old(self)@ }),
    {
        self.failure = Some(e);
    }

    /// What the client is sent when everything was read.
    pub fn finish(self, policy: &WebSearchRequestPolicy) -> (r: StreamEnd)
        ensures
            match stream_message(self@, policy.max_uses) {
                Ok(message) => text::texts(r.events@) == message_events(message) && r.failure is None,
                Err(e) => text::texts(r.events@) == seq![error_event(e)] && text::opt_string(
                    r.failure,
                ) == Some(e),
            },
    {
        let message: Result<Json, String> = match self.failure {
            Some(e) => Err(e),
            None => {
                if self.remainder.len() > 0 || !text::is_blank(self.buffer.as_str()) {
                    Err("WebSearch stream ended with an incomplete SSE frame".to_owned())
                } else {
                    self.response.seal(policy)
                }
            },
        };
        match message {
            Ok(message) => StreamEnd { events: anthropic_message_sse(&message), failure: None },
            Err(e) => {
                let detail = Json::object().with("type", Json::string("upstream_error")).with(
                    "message",
                    Json::Str(bounded_message(e.as_str())),
                );
                let event = sse::anthropic_sse(
                    "error",
                    &Json::object().with("type", Json::string("error")).with("error", detail),
                );
                let mut events: Vec<String> = Vec::new();
                events.push(event);
                assert(text::texts(events@) =~= seq![error_event(e@)]);
                StreamEnd { events, failure: Some(e) }
            },
        }
    }
}

} // verus!
