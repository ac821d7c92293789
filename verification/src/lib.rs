//! Core of an HTTP gateway for language-model traffic.

use vstd::prelude::*;

pub mod admin;
pub mod bench;
pub mod cli;
pub mod config;
pub mod directive;
pub mod directive_laws;
pub mod envelope;
pub mod field_names;
pub mod form_laws;
pub mod gateway_laws;
pub mod http_msg;
pub mod json;
pub mod json_laws;
pub mod llm;
pub mod loopback;
pub mod members;
pub mod observability;
pub mod probe;
pub mod reconstruct;
pub mod registry;
pub mod report;
pub mod report_laws;
pub mod router;
pub mod shape;
pub mod sse;
pub mod text;
pub mod text_laws;

verus! {

/// The version of the gateway.
pub const VERSION: &'static str = "0.1.0";

} // verus!
