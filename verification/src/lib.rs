//! Filter compilation and evaluation for structured-log field extraction,
//! together with the sink and source configuration types around it.

pub mod apply;
pub mod array_parse;
pub mod ast;
pub mod datadog;
pub mod decimal;
pub mod filter;
pub mod internal_events;
pub mod json;
pub mod json_out;
pub mod laws;
pub mod log_event;
pub mod query_string;
pub mod regex_support;
pub mod ruby_hash;
pub mod stream_state;
pub mod tcp;
pub mod text;
pub mod transcode;
pub mod uri;
pub mod value;
pub mod vector_sink;
pub mod websocket;
