//! A bridge between the Anthropic Messages protocol and the OpenAI Responses
//! protocol, with the retry, validation and failover rules of the proxy that
//! uses it.
pub mod acceptance_laws;
pub mod answer_laws;
pub mod char_offsets;
pub mod chunk_laws;
pub mod citation_laws;
pub mod citations;
pub mod cited_laws;
pub mod conversation_laws;
pub mod error;
pub mod event_laws;
pub mod forwarder;
pub mod history_laws;
pub mod json;
pub mod json_codec;
pub mod json_laws;
pub mod policy_laws;
pub mod reasoning;
pub mod request_laws;
pub mod responses_input;
pub mod result_laws;
pub mod search_laws;
pub mod search_stream_laws;
pub mod seqs;
pub mod sse;
pub mod sse_laws;
pub mod text;
pub mod text_laws;
pub mod tool_media;
pub mod tool_results;
pub mod tool_call_laws;
pub mod transform;
pub mod transform_laws;
pub mod transform_responses;
pub mod usage_laws;
pub mod web_search_bridge;
pub mod web_search_stream;
