//! What an attempt goes by, and what is read of an answer's head and errors.
use crate::error;
use crate::error::ErrorView;
use crate::forwarder::attempt::AttemptMode;
use crate::forwarder::body;
use crate::forwarder::errors;
use crate::forwarder::errors::AppType;
use crate::forwarder::protocols;
use crate::forwarder::stream_start;
use crate::forwarder::stream_start::{
    AnthropicStartView, EventView, ResponsesStartView, StartRules, StartView, VerdictView, WaitView,
};
use crate::forwarder::ProviderView;
use crate::forwarder::anthropic;
use crate::forwarder::response_laws;
use crate::forwarder::start_laws;
use crate::json::JsonView;
use crate::json_codec;
use crate::sse;
use crate::sse_laws;
use crate::text;
use vstd::prelude::*;
use vstd::utf8::{decode_utf8, valid_utf8};

verus! {

// ---------------------------------------------------------------------------
// Protocols
// ---------------------------------------------------------------------------

/// What stands before the first of a character that is not in a text.
proof fn before_first_is(s: Seq<char>, c: char, rest: Seq<char>)
    requires
        forall|i: int| 0 <= i < s.len() ==> #[trigger] s[i] != c,
    ensures
        text::before_first(s, c) == s,
        text::before_first(s + seq![c] + rest, c) == s,
{
    text::position_from_is_first(s, c, 0);
    assert(s.take(s.len() as int) =~= s);
    let all = s + seq![c] + rest;
    text::position_from_is_first(all, c, 0);
    assert(all[s.len() as int] == c);
    let p = text::position(all, c);
    if p < s.len() {
        assert(all[p] == s[p]);
    }
    assert(all.take(p) =~= s);
}

/// The paths of the Responses protocol.
pub open spec fn responses_paths() -> Seq<Seq<char>> {
    seq![
        "/responses"@,
        "/v1/responses"@,
        "/responses/compact"@,
        "/v1/responses/compact"@,
    ]
}

/// A path is one of the Responses protocol whatever its query is.
pub proof fn queries_do_not_matter(path: Seq<char>, query: Seq<char>)
    requires
        forall|i: int| 0 <= i < path.len() ==> #[trigger] path[i] != '?',
    ensures
        protocols::is_responses_path(path) <==> responses_paths().contains(path),
        protocols::is_responses_path(path + seq!['?'] + query) <==> responses_paths().contains(path),
{
    before_first_is(path, '?', query);
    let all = responses_paths();
    assert(all[0] == "/responses"@ && all[1] == "/v1/responses"@ && all[2]
        == "/responses/compact"@ && all[3] == "/v1/responses/compact"@);
}

/// Which protocol a provider answers in. A Messages client has it from the
/// provider's format; any other client has its own path, unless what it asks is
/// changed for the provider.
pub proof fn providers_answer_in_their_protocol(
    mode: AttemptMode,
    app_type: AppType,
    provider: ProviderView,
    path: Seq<char>,
    body: JsonView,
    limit: Option<u128>,
    now: u128,
)
    requires
        forall|i: int| 0 <= i < path.len() ==> #[trigger] path[i] != '?',
    ensures
        ({
            let rules = protocols::attempt_rules(mode, app_type, provider, path, body, limit, now);
            &&& app_type == AppType::Claude ==> (rules.responses <==> provider.claude_api_format
                == "openai_responses"@)
            &&& app_type != AppType::Claude ==> (rules.responses <==> responses_paths().contains(
                path,
            ) && !provider.converts_to_chat && !provider.converts_to_anthropic)
            &&& rules.codex_anthropic <==> app_type == AppType::Codex
                && provider.converts_to_anthropic
            &&& !(rules.responses && rules.codex_anthropic)
            &&& rules.mode == mode
            &&& rules.app_type == app_type
            &&& rules.is_codex_official == provider.is_codex_official
            &&& rules.limit == limit
            &&& rules.started_at == now
        }),
{
    queries_do_not_matter(path, Seq::empty());
}

/// Whether a tool is a hosted search of some version.
pub open spec fn is_search(tool: JsonView) -> bool {
    let kind = tool.get_str("type"@);
    kind is Some && kind->0.len() >= 11 && kind->0.take(11) == "web_search_"@
}

/// A request of a Messages client searches the web exactly where one of its tools
/// is a hosted search; no other client does.
pub proof fn searches_are_recognized(app_type: AppType, body: JsonView, i: int)
    ensures
        app_type != AppType::Claude ==> !protocols::searches_web(app_type, body),
        0 <= i < body.items_at("tools"@).len() && is_search(body.items_at("tools"@)[i])
            ==> protocols::searches_web(AppType::Claude, body),
        protocols::searches_web(AppType::Claude, body) ==> exists|k: int|
            0 <= k < body.items_at("tools"@).len() && is_search(
                #[trigger] body.items_at("tools"@)[k],
            ),
{
    reveal_strlit("web_search_");
    assert("web_search_"@.len() == 11);
    let tools = body.items_at("tools"@);
    if 0 <= i < tools.len() && is_search(tools[i]) {
        assert(protocols::is_search_tool_type(body.get_array("tools"@)->0[i]));
    }
    if protocols::searches_web(AppType::Claude, body) {
        let k = choose|k: int|
            0 <= k < body.get_array("tools"@)->0.len() && protocols::is_search_tool_type(
                #[trigger] body.get_array("tools"@)->0[k],
            );
        assert(is_search(tools[k]));
    }
}

// ---------------------------------------------------------------------------
// Heads
// ---------------------------------------------------------------------------

/// Letters count as small; nothing else changes.
pub proof fn letters_count_as_small(s: Seq<char>, i: int)
    requires
        0 <= i < s.len(),
    ensures
        text::lowered(s).len() == s.len(),
        'A' <= s[i] <= 'Z' ==> text::lowered(s)[i] as u32 == s[i] as u32 + 32,
        !('A' <= s[i] <= 'Z') ==> text::lowered(s)[i] == s[i],
{
}

/// Whether a media type, in small letters, is one of JSON.
pub open spec fn is_json_media(media: Seq<char>) -> bool {
    ||| media == "application/json"@
    ||| media.len() >= 5 && media.skip(media.len() - 5) == "+json"@
}

/// A body is JSON by its media type, whatever parameters stand after it, spaces
/// round it, or letters it is written in.
pub proof fn json_is_recognized(
    before: Seq<char>,
    media: Seq<char>,
    after: Seq<char>,
    parameters: Seq<char>,
)
    requires
        forall|i: int| 0 <= i < before.len() ==> #[trigger] before[i] == ' ',
        forall|i: int| 0 <= i < after.len() ==> #[trigger] after[i] == ' ',
        forall|i: int| 0 <= i < media.len() ==> #[trigger] media[i] != ';',
        media.len() > 0,
        media[0] != ' ' && !text::white(media[0]),
        !text::white(media.last()),
    ensures
        body::is_json_type(before + media + after) <==> is_json_media(text::lowered(media)),
        body::is_json_type(before + media + after + seq![';'] + parameters) <==> is_json_media(
            text::lowered(media),
        ),
{
    let value = before + media + after;
    assert forall|i: int| 0 <= i < value.len() implies #[trigger] value[i] != ';' by {
        if i < before.len() {
            assert(value[i] == before[i]);
        } else if i < before.len() + media.len() {
            assert(value[i] == media[i - before.len()]);
        } else {
            assert(value[i] == after[i - before.len() - media.len()]);
        }
    }
    before_first_is(value, ';', parameters);
    sse_laws::white_space_is_trimmed(before, media, after);
    reveal_strlit("+json");
    assert("+json"@.len() == 5);
}

/// A body is as it is where no encoding is named, or the one that changes nothing;
/// else it is encoded.
pub proof fn encodings_are_recognized(encoding: Seq<char>)
    requires
        encoding.len() > 0,
        !text::white(encoding[0]),
        !text::white(encoding.last()),
    ensures
        !body::is_encoded(None),
        body::is_encoded(Some(encoding)) <==> text::lowered(encoding) != "identity"@,
{
    sse_laws::white_space_is_trimmed(Seq::empty(), encoding, Seq::empty());
    assert(Seq::<char>::empty() + encoding + Seq::<char>::empty() =~= encoding);
}

/// Where the size of a body is limited, it must not be encoded nor announced as
/// longer. Where it is not, any head will do.
pub proof fn heads_are_held_to_the_limit(
    limit: Option<usize>,
    encoding: Option<Seq<char>>,
    length: Option<u64>,
)
    ensures
        body::headers_verdict(limit, encoding, length) is Ok <==> (limit is None || (
        !body::is_encoded(encoding) && (length is None || length->0 <= limit->0))),
        body::headers_verdict(limit, encoding, length) is Err
            ==> body::headers_verdict(limit, encoding, length)->Err_0 is UpstreamError
            && body::headers_verdict(limit, encoding, length)->Err_0->status == 503,
{
    service_errors_are_overloads();
}

proof fn service_errors_are_overloads()
    ensures
        errors::status_of("service_unavailable_error"@) == 503,
{
}

// ---------------------------------------------------------------------------
// What an error says
// ---------------------------------------------------------------------------

/// The message of an error body is the one of its error, else its own, else its
/// detail, else its error where that is a text.
pub proof fn error_bodies_have_messages(body: JsonView, message: Seq<char>)
    ensures
        body.get("error"@) is Some && body.get("error"@)->0.says("message"@, message)
            ==> errors::json_error_message(body) == Some(message),
        body.get("error"@) is None && body.says("message"@, message) ==> errors::json_error_message(
            body,
        ) == Some(message),
        body.get("error"@) is None && body.get("message"@) is None && body.says("detail"@, message)
            ==> errors::json_error_message(body) == Some(message),
        body.says("error"@, message) && body.get("message"@) is None && body.get("detail"@) is None
            ==> errors::json_error_message(body) == Some(message),
{
}

/// A body that is no JSON is its own message, without the white space round it.
pub proof fn plain_error_bodies_are_messages(body: Seq<u8>)
    ensures
        ({
            let r = errors::error_body_message(body);
            &&& json_codec::parsed_bytes(body) matches Ok(v) ==> r == errors::json_error_message(v)
            &&& json_codec::parsed_bytes(body) is Err ==> {
                &&& r is Some <==> valid_utf8(body) && !text::blank(decode_utf8(body))
                &&& r is Some ==> r->0 == text::trimmed(decode_utf8(body))
            }
        }),
{
}

/// An answer that is a failure becomes an error with its status and its whole
/// body; an empty body counts as none.
pub proof fn failures_keep_status_and_body(status: u16, body: Seq<u8>)
    ensures
        ({
            let e = crate::forwarder::buffered_error(status, body);
            &&& e is UpstreamError
            &&& e->status == status
            &&& e->UpstreamError_body == (if body.len() == 0 {
                None
            } else {
                Some(text::lossy_text(body))
            })
        }),
{
}

/// A streamed answer that is a failure becomes an error with its status, and with
/// its body where that was read.
pub proof fn streamed_failures_keep_their_status<S>(
    response: crate::forwarder::StreamingResponse<S>,
)
    ensures
        ({
            let e = crate::forwarder::streaming_error(response);
            &&& e is UpstreamError
            &&& e->status == response.status_code()
            &&& response is Live ==> e->UpstreamError_body is None
            &&& response matches crate::forwarder::StreamingResponse::Buffered(read)
                ==> e->UpstreamError_body == (if read.body@.len() == 0 {
                None
            } else {
                Some(text::lossy_text(read.body@))
            })
        }),
{
}

/// An error in words ends with what it says, and one of a provider names its
/// status.
pub proof fn errors_say_what_they_say(m: Seq<char>, status: u16)
    ensures
        text::has_suffix(error::error_message(ErrorView::ForwardFailed(m)), m),
        text::has_suffix(error::error_message(ErrorView::InvalidRequest(m)), m),
        text::has_suffix(error::error_message(ErrorView::Timeout(m)), m),
        text::has_suffix(error::error_message(ErrorView::TransformError(m)), m),
        text::has_suffix(error::error_message(ErrorView::AuthError(m)), m),
        text::has_suffix(error::error_message(ErrorView::Internal(m)), m),
        text::has_suffix(error::error_message(ErrorView::DatabaseError(m)), m),
        error::error_message(ErrorView::UpstreamError { status, body: Some(m) })
            == "upstream error "@ + text::decimal(status as nat) + ": "@ + m,
        error::error_message(ErrorView::UpstreamError { status, body: None })
            == "upstream error "@ + text::decimal(status as nat),
{
    let all = seq![
        error::error_message(ErrorView::ForwardFailed(m)),
        error::error_message(ErrorView::InvalidRequest(m)),
        error::error_message(ErrorView::Timeout(m)),
        error::error_message(ErrorView::TransformError(m)),
        error::error_message(ErrorView::AuthError(m)),
        error::error_message(ErrorView::Internal(m)),
        error::error_message(ErrorView::DatabaseError(m)),
    ];
    assert(all[0].skip(all[0].len() - m.len()) =~= m);
    assert(all[1].skip(all[1].len() - m.len()) =~= m);
    assert(all[2].skip(all[2].len() - m.len()) =~= m);
    assert(all[3].skip(all[3].len() - m.len()) =~= m);
    assert(all[4].skip(all[4].len() - m.len()) =~= m);
    assert(all[5].skip(all[5].len() - m.len()) =~= m);
    assert(all[6].skip(all[6].len() - m.len()) =~= m);
    assert("upstream error "@ + text::decimal(status as nat) + Seq::<char>::empty()
        =~= "upstream error "@ + text::decimal(status as nat));
    assert("upstream error "@ + text::decimal(status as nat) + (": "@ + m) =~= "upstream error "@
        + text::decimal(status as nat) + ": "@ + m);
}

// ---------------------------------------------------------------------------
// The start of streams
// ---------------------------------------------------------------------------

/// How a stream is begun: by its protocol, with nothing read. One of the Messages
/// protocol must not be encoded, and always has a time limit.
pub proof fn streams_begin_empty(rules: StartRules, encoding: Option<Seq<char>>)
    ensures
        ({
            let r = stream_start::begun(rules, encoding);
            &&& r is Err <==> rules.codex_anthropic && !rules.responses && body::is_encoded(
                encoding,
            )
            &&& rules.responses ==> r->Ok_0 is Responses
            &&& r is Ok && rules.codex_anthropic && !rules.responses ==> r->Ok_0 is Anthropic
            &&& !rules.responses && !rules.codex_anthropic ==> r->Ok_0 is Plain
            &&& r is Ok ==> r->Ok_0.chunks().len() == 0
            &&& r is Ok ==> match r->Ok_0 {
                StartView::Responses(s) => {
                    &&& s.until_terminal == rules.until_terminal
                    &&& s.total_timeout == rules.total_timeout
                    &&& s.timeout == rules.timeout
                    &&& s.started_at == rules.started_at
                    &&& s.buffer.len() == 0 && s.remainder.len() == 0 && s.size == 0
                },
                StartView::Anthropic(s) => {
                    &&& s.timeout == Some(
                        if rules.timeout is Some {
                            rules.timeout->0
                        } else {
                            90_000_000_000u128
                        },
                    )
                    &&& s.started_at == rules.started_at
                    &&& s.buffer.len() == 0 && s.remainder.len() == 0 && s.size == 0
                    &&& !s.validator.substantive && !s.validator.terminal_seen
                },
                StartView::Plain(s) => s.timeout == rules.timeout && s.started_at
                    == rules.started_at,
            }
        }),
{
}

/// A stream of any other protocol is handed on with its first bytes, and they are
/// kept; where none come it has failed.
pub proof fn other_streams_are_handed_on(
    state: stream_start::PlainStartView,
    event: EventView,
    now: u128,
)
    ensures
        ({
            let (next, verdict) = StartView::Plain(state).after(event, now);
            match event {
                EventView::Chunk(c) => verdict == VerdictView::Commit(true) && next.chunks()
                    == state.chunks.push(c),
                _ => verdict is Fail,
            }
        }),
        StartView::Plain(state).wait(now) is Commit <==> state.timeout is None,
{
}

/// A stream is waited for no longer than its time: it gets what is left, and has
/// failed where nothing is.
pub proof fn streams_are_waited_for_in_time(timeout: Option<u128>, started_at: u128, now: u128)
    ensures
        ({
            let passed = if now >= started_at {
                now - started_at
            } else {
                0
            };
            match timeout {
                None => stream_start::stream_wait(timeout, started_at, now) == WaitView::Read(None),
                Some(t) => if passed < t {
                    stream_start::stream_wait(timeout, started_at, now) matches WaitView::Read(
                        Some(left),
                    ) && left == t - passed
                } else {
                    stream_start::stream_wait(timeout, started_at, now) matches WaitView::Fail(e)
                        && e is Timeout
                },
            }
        }),
{
}

/// What is read of a stream is kept: unless the stream has failed, the bytes that
/// come are held after those that came before, to be handed on with them.
pub proof fn what_is_read_is_kept(state: StartView, chunk: Seq<u8>, now: u128)
    ensures
        ({
            let (next, verdict) = state.after(EventView::Chunk(chunk), now);
            !(verdict is Fail) ==> next.chunks() == state.chunks().push(chunk)
        }),
{
    match state {
        StartView::Plain(s) => {},
        StartView::Anthropic(s) => {
            let all = s.remainder + chunk;
            if let Some(t) = sse::strict_text(all) {
                stream_start::anthropic_blocks_keep(
                    AnthropicStartView {
                        buffer: s.buffer + t,
                        remainder: sse::pending(all),
                        chunks: s.chunks.push(chunk),
                        size: stream_start::plus(s.size, chunk.len()),
                        ..s
                    },
                );
            }
        },
        StartView::Responses(s) => {
            let all = s.remainder + chunk;
            stream_start::responses_blocks_keep(
                ResponsesStartView {
                    first_chunk_at: match s.first_chunk_at {
                        Some(t) => Some(t),
                        None => Some(now),
                    },
                    size: stream_start::plus(s.size, chunk.len()),
                    buffer: s.buffer + text::lossy_text(sse::whole(all)),
                    remainder: sse::pending(all),
                    chunks: s.chunks.push(chunk),
                    ..s
                },
            );
        },
    }
}

/// How much is read at most: 256 KiB of a stream of the Messages protocol, which
/// has failed if it shows nothing by then; as much of one of the Responses
/// protocol, which is then handed on; and 4 MiB of one that is to be read to its
/// end, which has failed if it has not ended by then.
pub proof fn no_more_is_read_than_that(
    messages: AnthropicStartView,
    responses: ResponsesStartView,
    chunk: Seq<u8>,
    now: u128,
)
    ensures
        messages.size + chunk.len() > 262_144 && messages.size + chunk.len() <= usize::MAX
            ==> stream_start::after_anthropic_chunk(messages, chunk).1 is Fail,
        responses.until_terminal && responses.size + chunk.len() > 4_194_304 && responses.size
            + chunk.len() <= usize::MAX ==> stream_start::after_responses_chunk(
            responses,
            chunk,
            now,
        ).1 is Fail,
        !responses.until_terminal && responses.size + chunk.len() >= 262_144 && responses.size
            + chunk.len() <= usize::MAX ==> !(stream_start::after_responses_chunk(
            responses,
            chunk,
            now,
        ).1 is Continue),
{
    let all = responses.remainder + chunk;
    stream_start::responses_blocks_keep(
        ResponsesStartView {
            first_chunk_at: match responses.first_chunk_at {
                Some(t) => Some(t),
                None => Some(now),
            },
            size: stream_start::plus(responses.size, chunk.len()),
            buffer: responses.buffer + text::lossy_text(sse::whole(all)),
            remainder: sse::pending(all),
            chunks: responses.chunks.push(chunk),
            ..responses
        },
    );
}

/// A stream of the Responses protocol that ends before it was handed on is good
/// only where what is left of it is a document without a failure, or an event
/// that shows output and no failure.
pub proof fn responses_that_end_early(state: ResponsesStartView, now: u128)
    ensures
        ({
            let (next, verdict) = StartView::Responses(state).after(EventView::Ended, now);
            let rest = text::trimmed(state.buffer);
            let document = rest.len() > 0 && (rest[0] == '{' || rest[0] == '[')
                && json_codec::parsed(rest) is Ok;
            let told = start_laws::told(rest);
            &&& verdict == VerdictView::Commit(false) || verdict is Fail
            &&& document ==> (verdict is Fail <==> response_laws::is_failed_document(
                json_codec::parsed(rest)->Ok_0,
            ))
            &&& !document ==> (verdict is Fail <==> rest.len() == 0 || told is None
                || start_laws::is_failure((told->0).0, (told->0).1) || !start_laws::is_output(
                (told->0).0,
                (told->0).1,
            ))
        }),
{
    response_laws::documents_are_recognized(state.buffer);
    start_laws::blocks_are_told_apart(text::trimmed(state.buffer));
}

/// A stream of the Messages protocol that ends before it was handed on is good
/// only where what is left of it has substance as an event, or is a message.
pub proof fn messages_that_end_early(state: AnthropicStartView, now: u128)
    ensures
        ({
            let (next, verdict) = StartView::Anthropic(state).after(EventView::Ended, now);
            let r = anthropic::inspected(state.validator, state.buffer).1;
            let parsed = json_codec::parsed(text::trimmed(state.buffer));
            &&& verdict == VerdictView::Commit(false) || verdict is Fail
            &&& state.remainder.len() > 0 ==> verdict is Fail
            &&& r is Err ==> verdict is Fail
            &&& verdict is Commit && r == Ok::<bool, ErrorView>(false) ==> parsed is Ok
                && crate::forwarder::message_laws::is_good_message(parsed->Ok_0)
            &&& state.remainder.len() == 0 && r is Ok && parsed is Ok
                && crate::forwarder::message_laws::is_good_message(parsed->Ok_0) ==> verdict
                is Commit
        }),
{
    if let Ok(value) = json_codec::parsed(text::trimmed(state.buffer)) {
        crate::forwarder::message_laws::good_messages_pass(value);
    }
}

/// A stream that breaks off, or takes too long, has failed. One that is to be read
/// to its end has ten minutes from its first bytes on, unless the time for
/// retries counts.
pub proof fn broken_streams_have_failed(state: StartView, message: Seq<char>, now: u128)
    ensures
        state.after(EventView::Failed(message), now).1 matches VerdictView::Fail(e) && e
            is ForwardFailed,
        state.after(EventView::TimedOut, now).1 matches VerdictView::Fail(e) && e is Timeout,
        state matches StartView::Responses(s) ==> s.until_terminal && !s.total_timeout
            && s.first_chunk_at is Some ==> {
            let passed = if now >= s.first_chunk_at->0 {
                now - s.first_chunk_at->0
            } else {
                0
            };
            if passed < 600_000_000_000 {
                state.wait(now) matches WaitView::Read(Some(left)) && left == 600_000_000_000
                    - passed
            } else {
                state.wait(now) is Fail
            }
        },
{
}

} // verus!
