# responses_bridge

A bridge between two chat protocols. A client speaks the Messages protocol; the
provider behind the bridge speaks the Responses protocol, or Messages itself.
The library translates requests and responses, carries hosted web searches
through in both directions, and decides how a request is forwarded: to which
provider, how often, and what a provider's answer must look like before any of
it reaches the client.

The library is written in Verus. Every function states in its contract what it
returns, and the contracts are proved.

## Layout

- `src/transform_responses.rs`, `src/responses_input.rs`, `src/citations.rs`,
  `src/tool_results.rs`, `src/tool_media.rs`, `src/reasoning.rs`,
  `src/transform.rs`: requests and responses from one protocol to the other.
- `src/web_search_bridge.rs`, `src/web_search_stream.rs`: hosted searches, and
  streamed responses that are held back until they are whole.
- `src/forwarder.rs` and `src/forwarder/`: one attempt at one provider
  (`attempt`), the providers in turn (`failover`), delays (`retry`), and the
  beginnings and bodies of answers (`stream_start`, `anthropic`, `responses`,
  `body`, `errors`). These are state machines: they name the next action, and
  the caller performs it and reports what happened.
- `src/json.rs`, `src/json_codec.rs`, `src/sse.rs`, `src/text.rs`,
  `src/char_offsets.rs`, `src/seqs.rs`, `src/error.rs`: what the rest is made of.
- `src/*_laws.rs` and `src/forwarder/laws.rs`: what holds of several functions
  together.
- `app/`: the network, the clock, and the services that the host supplies.
- `tests/`: the library on concrete values.

## What is not proved

The library calls `serde_json`, `sha2` and `aho_corasick`, and a few functions
of the standard library. Each such call stands behind one item whose doc comment
says what is taken for granted of it.
