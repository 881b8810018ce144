//! Reading a whole body.
use crate::error::{ErrorView, ProxyError};
use crate::forwarder::anthropic;
use crate::forwarder::errors;
use crate::forwarder::errors::malformed_anthropic_stream_error;
use crate::forwarder::retry;
use crate::text;
use vstd::prelude::*;
use vstd::string::*;

verus! {

/// How long the JSON of a Messages response may be that is held to the protocol
/// before any of it reaches the client.
pub const CODEX_ANTHROPIC_JSON_BODY_LIMIT: usize = 16_777_216;

/// Whether a content type is JSON.
pub open spec fn is_json_type(content_type: Seq<char>) -> bool {
    let media = text::lowered(text::trimmed(text::before_first(content_type, ';')));
    media == "application/json"@ || text::has_suffix(media, "+json"@)
}

/// Whether a response is JSON, by its content type.
pub fn response_is_json(content_type: Option<&str>) -> (r: bool)
    ensures
        r == (content_type matches Some(t) && is_json_type(t@)),
{
    match content_type {
        Some(t) => {
            let first = text::take_before(t, ';');
            let bare = text::trim(first.as_str());
            let media = text::to_ascii_lower(bare.as_str());
            text::same_text(media.as_str(), "application/json") || text::ends_with(
                media.as_str(),
                "+json",
            )
        },
        None => false,
    }
}

/// Whether a content encoding changes the bytes.
pub open spec fn is_encoded(encoding: Option<Seq<char>>) -> bool {
    encoding matches Some(e) && text::lowered(text::trimmed(e)) != "identity"@
}

pub fn uses_content_encoding(encoding: Option<&str>) -> (r: bool)
    ensures
        r == is_encoded(text::opt_text(encoding)),
{
    match encoding {
        Some(e) => {
            let bare = text::trim(e);
            let name = text::to_ascii_lower(bare.as_str());
            !text::same_text(name.as_str(), "identity")
        },
        None => false,
    }
}

/// A body that is too long.
pub open spec fn too_long(limit: usize) -> ErrorView {
    errors::unusable(
        "Anthropic JSON response exceeded the "@ + text::decimal(limit as nat)
            + "-byte validation limit before client commit"@,
    )
}

pub fn codex_anthropic_json_body_limit_error(limit: usize) -> (r: ProxyError)
    ensures
        r@ == too_long(limit),
{
    let number = text::to_decimal(limit as u64);
    let message = text::concat3(
        "Anthropic JSON response exceeded the ",
        number.as_str(),
        "-byte validation limit before client commit",
    );
    errors::empty_codex_anthropic_stream_error(message.as_str())
}

/// Whether a body may be that long.
pub open spec fn within(limit: Option<usize>, size: nat) -> bool {
    match limit {
        Some(n) => size <= n,
        None => true,
    }
}

/// Whether a body may be read, by what its headers say. Only a body with a limit
/// is held to them.
pub open spec fn headers_verdict(
    limit: Option<usize>,
    encoding: Option<Seq<char>>,
    content_length: Option<u64>,
) -> Result<(), ErrorView> {
    match limit {
        None => Ok(()),
        Some(n) => if is_encoded(encoding) {
            Err(
                errors::unusable(
                    "Anthropic JSON response used content encoding despite an identity request"@,
                ),
            )
        } else if content_length is Some && content_length->0 > n {
            Err(too_long(n))
        } else {
            Ok(())
        },
    }
}

/// A body that is being read.
#[derive(Debug)]
pub struct BodyReader {
    limit: Option<usize>,
    timeout: Option<u128>,
    started_at: u128,
    as_stream: bool,
    body: Vec<u8>,
}

impl BodyReader {
    /// How long the body may be.
    pub closed spec fn limit(&self) -> Option<usize> {
        self.limit
    }

    /// How long reading may take.
    pub closed spec fn timeout(&self) -> Option<u128> {
        self.timeout
    }

    /// From when on the time counts.
    pub closed spec fn started_at(&self) -> u128 {
        self.started_at
    }

    /// Whether a timeout is that of a stream.
    pub closed spec fn as_stream(&self) -> bool {
        self.as_stream
    }

    /// What has been read.
    pub closed spec fn body(&self) -> Seq<u8> {
        self.body@
    }

    /// Nothing but the body changes.
    pub open spec fn same_rules(&self, other: &BodyReader) -> bool {
        &&& self.limit() == other.limit()
        &&& self.timeout() == other.timeout()
        &&& self.started_at() == other.started_at()
        &&& self.as_stream() == other.as_stream()
    }

    /// Begins to read, where the headers let it.
    pub fn begin(
        limit: Option<usize>,
        timeout: Option<u128>,
        started_at: u128,
        as_stream: bool,
        encoding: Option<&str>,
        content_length: Option<u64>,
    ) -> (r: Result<BodyReader, ProxyError>)
        ensures
            match r {
                Ok(reader) => {
                    &&& headers_verdict(limit, text::opt_text(encoding), content_length) is Ok
                    &&& reader.limit() == limit
                    &&& reader.timeout() == timeout
                    &&& reader.started_at() == started_at
                    &&& reader.as_stream() == as_stream
                    &&& reader.body() == Seq::<u8>::empty()
                },
                Err(e) => headers_verdict(limit, text::opt_text(encoding), content_length) == Err::<
                    (),
                    ErrorView,
                >(e@),
            },
    {
        if let Some(n) = limit {
            if uses_content_encoding(encoding) {
                return Err(
                    malformed_anthropic_stream_error(
                        "Anthropic JSON response used content encoding despite an identity request",
                    ),
                );
            }
            if let Some(size) = content_length {
                if size > n as u64 {
                    return Err(codex_anthropic_json_body_limit_error(n));
                }
            }
        }
        Ok(BodyReader { limit, timeout, started_at, as_stream, body: Vec::new() })
    }

    /// How long to wait for the next bytes; without end where there is no limit.
    pub fn wait_time(&self, now: u128) -> (r: Result<Option<u128>, ProxyError>)
        ensures
            match self.timeout() {
                None => r matches Ok(None),
                Some(t) => {
                    let left = retry::time_left(t, self.started_at(), now);
                    match r {
                        Ok(w) => left > 0 && w == Some(left),
                        Err(e) => left == 0 && e@ == retry::read_timeout(t, self.as_stream()),
                    }
                },
            },
    {
        match self.timeout {
            None => Ok(None),
            Some(t) => {
                let left: u128 = retry::remaining_time(t, self.started_at, now);
                if left == 0 {
                    Err(retry::buffered_read_timeout_error(t, self.as_stream))
                } else {
                    Ok(Some(left))
                }
            },
        }
    }

    /// The error when nothing came in time. There must be a time limit.
    pub fn timed_out(&self) -> (r: ProxyError)
        requires
            self.timeout() is Some,
        ensures
            r@ == retry::read_timeout(self.timeout()->0, self.as_stream()),
    {
        match self.timeout {
            Some(t) => retry::buffered_read_timeout_error(t, self.as_stream),
            None => retry::buffered_read_timeout_error(0, self.as_stream),
        }
    }

    /// The error when reading failed.
    pub fn failed(&self, e: retry::SendError) -> (r: ProxyError)
        ensures
            r@ == retry::send_error(e, self.timeout()),
    {
        retry::map_request_send_error(e, self.timeout)
    }

    /// Takes bytes in, as long as the body does not become too long.
    pub fn push(&mut self, chunk: &[u8]) -> (r: Result<(), ProxyError>)
        ensures
            final(self).same_rules(old(self)),
            match r {
                Ok(_) => within(old(self).limit(), old(self).body().len() + chunk@.len())
                    && final(self).body() == old(self).body() + chunk@,
                Err(e) => !within(old(self).limit(), old(self).body().len() + chunk@.len()) && e@
                    == too_long(old(self).limit()->0) && final(self).body() == old(self).body(),
            },
    {
        if let Some(n) = self.limit {
            if self.body.len() > n || chunk.len() > n - self.body.len() {
                return Err(codex_anthropic_json_body_limit_error(n));
            }
        }
        text::append_bytes(&mut self.body, chunk);
        Ok(())
    }

    /// The body, when everything was read.
    pub fn finish(self) -> (r: Vec<u8>)
        ensures
            r@ == self.body(),
    {
        self.body
    }
}

/// Whether a body may be that long once its encoding is undone.
pub fn check_decoded_size(limit: Option<usize>, size: usize) -> (r: Result<(), ProxyError>)
    ensures
        anthropic::unit_result(r) == (if within(limit, size as nat) {
            Ok(())
        } else {
            Err(too_long(limit->0))
        }),
{
    match limit {
        Some(n) => {
            if size > n {
                Err(codex_anthropic_json_body_limit_error(n))
            } else {
                Ok(())
            }
        },
        None => Ok(()),
    }
}

} // verus!
