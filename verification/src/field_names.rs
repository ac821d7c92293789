//! The names of the fields of every table and record, in their order.

use vstd::prelude::*;

use crate::text::strs;

verus! {

/// The names that `config::read` goes by.
pub proof fn law_config_read_names()
    ensures
        strs(crate::config::read::STEP_KEYS@) == seq!["name"@, "hook"@, "type"@, "url"@, "mode"@, "timeout_ms"@, "on_error"@, "chunk_mode"@, "is_guardrail"@, "script_mode"@, "cmd"@, "wasm"@],
        strs(crate::config::read::ADAPTER_KEYS@) == seq!["ingress"@, "egress"@],
        strs(crate::config::read::TRANSLATE_KEYS@) == seq!["from"@, "to"@, "model"@, "report_header"@],
        strs(crate::config::read::ROUTE_KEYS@) == seq!["id"@, "upstream"@, "step"@, "adapter"@, "translate"@],
        strs(crate::config::read::GATEWAY_KEYS@) == seq!["schema_version"@, "allow_scripts"@, "listen"@, "expose_headers"@, "max_context_bytes"@, "max_body_bytes"@, "oversize"@, "max_inflight"@, "upstream_timeout_ms"@, "admin_listen"@, "admin_token"@, "loopback_secret"@, "max_hops"@, "callback_path"@, "max_parked"@, "max_event_bytes"@, "max_response_bytes"@],
        strs(crate::config::read::CONFIG_KEYS@) == seq!["gateway"@, "route"@],
        strs(crate::config::read::SETTINGS_KEYS@) == seq!["gateway"@],
        strs(crate::config::read::ROUTES_KEYS@) == seq!["route"@],
        strs(crate::config::read::LISTENER_KEYS@) == seq!["listen"@, "routes"@],
{
    assert(strs(crate::config::read::STEP_KEYS@) =~= seq!["name"@, "hook"@, "type"@, "url"@, "mode"@, "timeout_ms"@, "on_error"@, "chunk_mode"@, "is_guardrail"@, "script_mode"@, "cmd"@, "wasm"@]);
    assert(strs(crate::config::read::ADAPTER_KEYS@) =~= seq!["ingress"@, "egress"@]);
    assert(strs(crate::config::read::TRANSLATE_KEYS@) =~= seq!["from"@, "to"@, "model"@, "report_header"@]);
    assert(strs(crate::config::read::ROUTE_KEYS@) =~= seq!["id"@, "upstream"@, "step"@, "adapter"@, "translate"@]);
    assert(strs(crate::config::read::GATEWAY_KEYS@) =~= seq!["schema_version"@, "allow_scripts"@, "listen"@, "expose_headers"@, "max_context_bytes"@, "max_body_bytes"@, "oversize"@, "max_inflight"@, "upstream_timeout_ms"@, "admin_listen"@, "admin_token"@, "loopback_secret"@, "max_hops"@, "callback_path"@, "max_parked"@, "max_event_bytes"@, "max_response_bytes"@]);
    assert(strs(crate::config::read::CONFIG_KEYS@) =~= seq!["gateway"@, "route"@]);
    assert(strs(crate::config::read::SETTINGS_KEYS@) =~= seq!["gateway"@]);
    assert(strs(crate::config::read::ROUTES_KEYS@) =~= seq!["route"@]);
    assert(strs(crate::config::read::LISTENER_KEYS@) =~= seq!["listen"@, "routes"@]);
}

/// The names that `directive` goes by.
pub proof fn law_directive_names()
    ensures
        strs(crate::directive::SET_HEADER_FIELDS@) == seq!["op"@, "name"@, "value"@],
        strs(crate::directive::DELETE_HEADER_FIELDS@) == seq!["op"@, "name"@],
        strs(crate::directive::SET_BODY_FIELDS@) == seq!["op"@, "body_b64"@],
        strs(crate::directive::SET_PATH_FIELDS@) == seq!["op"@, "path"@],
        strs(crate::directive::SET_CONTEXT_FIELDS@) == seq!["op"@, "value"@],
        strs(crate::directive::CONTINUE_FIELDS@) == seq!["action"@, "ops"@],
        strs(crate::directive::SHORT_CIRCUIT_FIELDS@) == seq!["action"@, "response"@],
        strs(crate::directive::ABORT_FIELDS@) == seq!["action"@, "response"@],
        strs(crate::directive::EMIT_FIELDS@) == seq!["action"@, "chunk"@, "ops"@],
        strs(crate::directive::DROP_FIELDS@) == seq!["action"@, "ops"@],
        strs(crate::directive::RESPONSE_FIELDS@) == seq!["status"@, "headers"@, "body_b64"@],
        strs(crate::directive::CHUNK_FIELDS@) == seq!["data_b64"@],
{
    assert(strs(crate::directive::SET_HEADER_FIELDS@) =~= seq!["op"@, "name"@, "value"@]);
    assert(strs(crate::directive::DELETE_HEADER_FIELDS@) =~= seq!["op"@, "name"@]);
    assert(strs(crate::directive::SET_BODY_FIELDS@) =~= seq!["op"@, "body_b64"@]);
    assert(strs(crate::directive::SET_PATH_FIELDS@) =~= seq!["op"@, "path"@]);
    assert(strs(crate::directive::SET_CONTEXT_FIELDS@) =~= seq!["op"@, "value"@]);
    assert(strs(crate::directive::CONTINUE_FIELDS@) =~= seq!["action"@, "ops"@]);
    assert(strs(crate::directive::SHORT_CIRCUIT_FIELDS@) =~= seq!["action"@, "response"@]);
    assert(strs(crate::directive::ABORT_FIELDS@) =~= seq!["action"@, "response"@]);
    assert(strs(crate::directive::EMIT_FIELDS@) =~= seq!["action"@, "chunk"@, "ops"@]);
    assert(strs(crate::directive::DROP_FIELDS@) =~= seq!["action"@, "ops"@]);
    assert(strs(crate::directive::RESPONSE_FIELDS@) =~= seq!["status"@, "headers"@, "body_b64"@]);
    assert(strs(crate::directive::CHUNK_FIELDS@) =~= seq!["data_b64"@]);
}

/// The names that `envelope` goes by.
pub proof fn law_envelope_names()
    ensures
        strs(crate::envelope::ENVELOPE_FIELDS@) == seq!["envelope_version"@, "hook"@, "route_id"@, "correlation_id"@, "self"@, "request"@, "response"@, "chunk"@, "llm"@, "context"@],
{
    assert(strs(crate::envelope::ENVELOPE_FIELDS@) =~= seq!["envelope_version"@, "hook"@, "route_id"@, "correlation_id"@, "self"@, "request"@, "response"@, "chunk"@, "llm"@, "context"@]);
}

/// The names that `http_msg` goes by.
pub proof fn law_http_msg_names()
    ensures
        strs(crate::http_msg::MSG_FIELDS@) == seq!["method"@, "path"@, "headers"@, "body_b64"@],
{
    assert(strs(crate::http_msg::MSG_FIELDS@) =~= seq!["method"@, "path"@, "headers"@, "body_b64"@]);
}

/// The names that `llm::adapter` goes by.
pub proof fn law_llm_adapter_names()
    ensures
        strs(crate::llm::adapter::KNOWN_PROVIDERS@) == seq!["anthropic"@, "openai"@, "google"@],
{
    assert(strs(crate::llm::adapter::KNOWN_PROVIDERS@) =~= seq!["anthropic"@, "openai"@, "google"@]);
}

/// The names that `llm::form` goes by.
pub proof fn law_llm_form_names()
    ensures
        strs(crate::llm::form::TEXT_BLOCK@) == seq!["type"@, "text"@],
        strs(crate::llm::form::TOOL_USE_BLOCK@) == seq!["type"@, "id"@, "name"@, "input"@],
        strs(crate::llm::form::TOOL_RESULT_BLOCK@) == seq!["type"@, "id"@, "content"@, "is_error"@],
        strs(crate::llm::form::IMAGE_BLOCK@) == seq!["type"@, "media_type"@, "data"@],
        strs(crate::llm::form::MESSAGE_START_FIELDS@) == seq!["type"@, "model"@, "role"@],
        strs(crate::llm::form::CONTENT_BLOCK_START_FIELDS@) == seq!["type"@, "index"@, "block"@],
        strs(crate::llm::form::CONTENT_BLOCK_DELTA_FIELDS@) == seq!["type"@, "index"@, "text"@, "partial_json"@],
        strs(crate::llm::form::CONTENT_BLOCK_STOP_FIELDS@) == seq!["type"@, "index"@],
        strs(crate::llm::form::MESSAGE_DELTA_FIELDS@) == seq!["type"@, "stop_reason"@, "usage"@],
        strs(crate::llm::form::MESSAGE_STOP_FIELDS@) == seq!["type"@],
        strs(crate::llm::form::MESSAGE_FIELDS@) == seq!["role"@, "content"@],
        strs(crate::llm::form::TOOL_FIELDS@) == seq!["name"@, "description"@, "input_schema"@],
        strs(crate::llm::form::SAMPLING_FIELDS@) == seq!["temperature"@, "top_p"@, "top_k"@, "max_tokens"@, "stop"@],
        strs(crate::llm::form::USAGE_FIELDS@) == seq!["input_tokens"@, "output_tokens"@],
        strs(crate::llm::form::DROPPED_FIELDS@) == seq!["path"@, "reason"@],
        strs(crate::llm::form::REPORT_FIELDS@) == seq!["dropped"@, "notes"@],
        strs(crate::llm::form::REQUEST_FIELDS@) == seq!["model"@, "messages"@, "system"@, "tools"@, "tool_choice"@, "sampling"@, "stream"@, "extra"@],
        strs(crate::llm::form::RESPONSE_FIELDS@) == seq!["model"@, "content"@, "stop_reason"@, "usage"@, "extra"@],
        strs(crate::llm::form::CALL_FIELDS@) == seq!["id"@, "name"@, "arguments_fragment"@],
        strs(crate::llm::form::FINISH_FIELDS@) == seq!["reason"@],
        strs(crate::llm::form::DELTA_FIELDS@) == seq!["kind"@, "text"@, "tool_call"@, "usage"@, "finish"@],
        strs(crate::llm::form::CTX_FIELDS@) == seq!["path"@, "method"@],
{
    assert(strs(crate::llm::form::TEXT_BLOCK@) =~= seq!["type"@, "text"@]);
    assert(strs(crate::llm::form::TOOL_USE_BLOCK@) =~= seq!["type"@, "id"@, "name"@, "input"@]);
    assert(strs(crate::llm::form::TOOL_RESULT_BLOCK@) =~= seq!["type"@, "id"@, "content"@, "is_error"@]);
    assert(strs(crate::llm::form::IMAGE_BLOCK@) =~= seq!["type"@, "media_type"@, "data"@]);
    assert(strs(crate::llm::form::MESSAGE_START_FIELDS@) =~= seq!["type"@, "model"@, "role"@]);
    assert(strs(crate::llm::form::CONTENT_BLOCK_START_FIELDS@) =~= seq!["type"@, "index"@, "block"@]);
    assert(strs(crate::llm::form::CONTENT_BLOCK_DELTA_FIELDS@) =~= seq!["type"@, "index"@, "text"@, "partial_json"@]);
    assert(strs(crate::llm::form::CONTENT_BLOCK_STOP_FIELDS@) =~= seq!["type"@, "index"@]);
    assert(strs(crate::llm::form::MESSAGE_DELTA_FIELDS@) =~= seq!["type"@, "stop_reason"@, "usage"@]);
    assert(strs(crate::llm::form::MESSAGE_STOP_FIELDS@) =~= seq!["type"@]);
    assert(strs(crate::llm::form::MESSAGE_FIELDS@) =~= seq!["role"@, "content"@]);
    assert(strs(crate::llm::form::TOOL_FIELDS@) =~= seq!["name"@, "description"@, "input_schema"@]);
    assert(strs(crate::llm::form::SAMPLING_FIELDS@) =~= seq!["temperature"@, "top_p"@, "top_k"@, "max_tokens"@, "stop"@]);
    assert(strs(crate::llm::form::USAGE_FIELDS@) =~= seq!["input_tokens"@, "output_tokens"@]);
    assert(strs(crate::llm::form::DROPPED_FIELDS@) =~= seq!["path"@, "reason"@]);
    assert(strs(crate::llm::form::REPORT_FIELDS@) =~= seq!["dropped"@, "notes"@]);
    assert(strs(crate::llm::form::REQUEST_FIELDS@) =~= seq!["model"@, "messages"@, "system"@, "tools"@, "tool_choice"@, "sampling"@, "stream"@, "extra"@]);
    assert(strs(crate::llm::form::RESPONSE_FIELDS@) =~= seq!["model"@, "content"@, "stop_reason"@, "usage"@, "extra"@]);
    assert(strs(crate::llm::form::CALL_FIELDS@) =~= seq!["id"@, "name"@, "arguments_fragment"@]);
    assert(strs(crate::llm::form::FINISH_FIELDS@) =~= seq!["reason"@]);
    assert(strs(crate::llm::form::DELTA_FIELDS@) =~= seq!["kind"@, "text"@, "tool_call"@, "usage"@, "finish"@]);
    assert(strs(crate::llm::form::CTX_FIELDS@) =~= seq!["path"@, "method"@]);
}

/// The names that `llm` goes by.
pub proof fn law_llm_names()
    ensures
        strs(crate::llm::PLAIN_MESSAGE_FIELDS@) == seq!["role"@, "content"@],
        strs(crate::llm::PLAIN_TOOL_FIELDS@) == seq!["name"@],
        strs(crate::llm::LLM_FIELDS@) == seq!["provider"@, "model"@, "messages"@, "tools"@, "max_tokens"@, "stream"@, "facts"@],
{
    assert(strs(crate::llm::PLAIN_MESSAGE_FIELDS@) =~= seq!["role"@, "content"@]);
    assert(strs(crate::llm::PLAIN_TOOL_FIELDS@) =~= seq!["name"@]);
    assert(strs(crate::llm::LLM_FIELDS@) =~= seq!["provider"@, "model"@, "messages"@, "tools"@, "max_tokens"@, "stream"@, "facts"@]);
}

/// The names that `loopback::token` goes by.
pub proof fn law_loopback_token_names()
    ensures
        strs(crate::loopback::token::CLAIM_NAMES@) == seq!["cid"@, "route_id"@, "resume_index"@, "hop"@, "expires_at_unix"@],
{
    assert(strs(crate::loopback::token::CLAIM_NAMES@) =~= seq!["cid"@, "route_id"@, "resume_index"@, "hop"@, "expires_at_unix"@]);
}

/// The names that `reconstruct` goes by.
pub proof fn law_reconstruct_names()
    ensures
        strs(crate::reconstruct::FRAMING_HEADERS@) == seq!["connection"@, "transfer-encoding"@, "content-length"@, "keep-alive"@, "upgrade"@, "te"@],
{
    assert(strs(crate::reconstruct::FRAMING_HEADERS@) =~= seq!["connection"@, "transfer-encoding"@, "content-length"@, "keep-alive"@, "upgrade"@, "te"@]);
}

/// The names and numbers that others rely on.
pub proof fn law_constants()
    ensures
        crate::VERSION@ == "0.1.0"@,
        crate::envelope::ENVELOPE_VERSION == 1,
        crate::sse::DEFAULT_MAX_EVENT_BYTES == 1024 * 1024,
        crate::config::read::DEFAULT_TIMEOUT_MS == 1000,
        crate::observability::METRIC_REQUESTS_TOTAL@ == "sluice_requests_total"@,
        crate::observability::METRIC_INFLIGHT@ == "sluice_inflight"@,
        crate::observability::METRIC_REQUEST_DURATION_SECONDS@ == "sluice_request_duration_seconds"@,
        crate::observability::METRIC_UPSTREAM_STATUS_TOTAL@ == "sluice_upstream_status_total"@,
        crate::observability::METRIC_SHORT_CIRCUIT_TOTAL@ == "sluice_short_circuit_total"@,
        crate::observability::METRIC_ABORT_TOTAL@ == "sluice_abort_total"@,
        crate::observability::METRIC_STEP_ERROR_TOTAL@ == "sluice_step_error_total"@,
        crate::observability::METRIC_STREAM_SHED@ == "sluice_stream_shed_total"@,
        crate::bench::scenarios::NOOP_SCRIPT@
            == "#!/bin/sh\ncat >/dev/null\necho '{\"action\":\"continue\"}'\n"@,
{
}

} // verus!
