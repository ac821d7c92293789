//! The Anthropic Messages dialect.

use vstd::prelude::*;
use vstd::utf8::encode_utf8;

use crate::json::{
    copy_or_null, double, json_read, json_text, nests_within, opt_double, opt_str, opt_uint, parse, put_opt,
    read_depth, seq_view, str_values, string, string_array, string_items, strings_in, uint, Json, JsonMap,
    JsonV, Num,
};
use crate::llm::adapter::{
    collect_extra, collected_extra, emit_or_drop_extra, emitted, put_missing, result_view, AdapterError, AdapterErrorV,
};
use crate::llm::anthropic_laws::{law_request_round_trip, plain_roles, representable};
use crate::llm::canonical::{
    block_texts, find_late_input, fragment_reads_back, late_input, BlockV, CanonicalMessage, CanonicalRequest, CanonicalResponse, CanonicalTool, ContentBlock,
    CanonicalStreamEvent, EventV, MessageV, RenderStateV, ReportV, RequestV, ResponseV, Role, Sampling, SamplingV, StopReason, StopReasonV, StreamRenderState, ToolChoice,
    ToolChoiceV, ToolV, TranslationReport, Usage,
};
use crate::llm::delta::{Delta, DeltaV, Finish, FinishV, ToolCallDelta, ToolCallDeltaV, Usage as DeltaUsage};
use crate::sse::SseEvent;
use crate::text::{concat2, concat3, decimal, decimal_text, join, joined, opt_view, or_empty, same, strs, text_or_empty, texts, trim, trimmed, views};

pub use crate::llm::adapter::AnthropicAdapter;

verus! {

/// The text of a content value: a string's own text, or the text blocks of an
/// array, one per line.
pub open spec fn flat_text(content: JsonV) -> Seq<char> {
    match content {
        JsonV::Str(s) => s,
        JsonV::Array(items) => joined(text_parts(items), "\n"@),
        _ => Seq::empty(),
    }
}

/// The texts of the text blocks among some items.
pub open spec fn text_parts(items: Seq<JsonV>) -> Seq<Seq<char>>
    decreases items.len(),
{
    if items.len() == 0 {
        Seq::empty()
    } else {
        let rest = text_parts(items.drop_last());
        let block = items.last();
        match block.text_at("text"@) {
            Some(text) if block.text_at("type"@) == Some("text"@) => rest.push(text),
            _ => rest,
        }
    }
}

pub(crate) fn flatten_content(content: &Json) -> (r: String)
    ensures
        r@ == flat_text(content@),
{
    match content {
        Json::Str(s) => s.clone(),
        Json::Array(items) => {
            let ghost all = seq_view(items@);
            let mut parts: Vec<String> = Vec::new();
            let mut i: usize = 0;
            while i < items.len()
                invariant
                    i <= items.len(),
                    all == seq_view(items@),
                    texts(parts@) == text_parts(all.take(i as int)),
                decreases items.len() - i,
            {
                let ghost before = texts(parts@);
                assert(all.take(i + 1).drop_last() == all.take(i as int));
                assert(all.take(i + 1).last() == items@[i as int]@);
                let block = &items[i];
                if let Some(kind) = block.str_at("type") {
                    if same(kind.as_str(), "text") {
                        if let Some(text) = block.str_at("text") {
                            parts.push(text.clone());
                            assert(texts(parts@) == before.push(text@));
                        }
                    }
                }
                i += 1;
            }
            assert(all.take(i as int) == all);
            join(&parts, "\n")
        },
        _ => String::new(),
    }
}

/// The content block that a value stands for, if any.
pub open spec fn one_block(block: JsonV) -> Option<BlockV> {
    match block.text_at("type"@) {
        None => None,
        Some(kind) => if kind == "text"@ {
            Some(BlockV::Text { text: or_empty(block.text_at("text"@)) })
        } else if kind == "image"@ {
            match block.get("source"@) {
                None => None,
                Some(source) => Some(
                    BlockV::Image {
                        media_type: or_empty(source.text_at("media_type"@)),
                        data: or_empty(source.text_at("data"@)),
                    },
                ),
            }
        } else if kind == "tool_use"@ {
            Some(
                BlockV::ToolUse {
                    id: or_empty(block.text_at("id"@)),
                    name: or_empty(block.text_at("name"@)),
                    input: match block.get("input"@) {
                        Some(input) => input,
                        None => JsonV::Null,
                    },
                },
            )
        } else if kind == "tool_result"@ {
            Some(
                BlockV::ToolResult {
                    id: or_empty(block.text_at("tool_use_id"@)),
                    content: match block.get("content"@) {
                        Some(content) => flat_text(content),
                        None => Seq::empty(),
                    },
                    is_error: block.get("is_error"@) == Some(JsonV::Bool(true)),
                },
            )
        } else {
            None
        },
    }
}

/// The blocks that some values stand for; values that stand for none are left out.
pub open spec fn blocks_of(items: Seq<JsonV>) -> Seq<BlockV>
    decreases items.len(),
{
    if items.len() == 0 {
        Seq::empty()
    } else {
        let rest = blocks_of(items.drop_last());
        match one_block(items.last()) {
            Some(block) => rest.push(block),
            None => rest,
        }
    }
}

/// The content of a message: one text block for a string, the blocks of an array.
pub open spec fn content_of(content: JsonV) -> Seq<BlockV> {
    match content {
        JsonV::Str(s) => seq![BlockV::Text { text: s }],
        JsonV::Array(items) => blocks_of(items),
        _ => Seq::empty(),
    }
}

pub(crate) fn parse_one_block(block: &Json) -> (r: Option<ContentBlock>)
    ensures
        opt_view(r) == one_block(block@),
{
    match block.str_at("type") {
        None => None,
        Some(kind) => {
            let kind = kind.as_str();
            if same(kind, "text") {
                Some(ContentBlock::Text { text: text_or_empty(block.str_at("text")) })
            } else if same(kind, "image") {
                match block.get("source") {
                    None => None,
                    Some(source) => Some(
                        ContentBlock::Image {
                            media_type: text_or_empty(source.str_at("media_type")),
                            data: text_or_empty(source.str_at("data")),
                        },
                    ),
                }
            } else if same(kind, "tool_use") {
                Some(
                    ContentBlock::ToolUse {
                        id: text_or_empty(block.str_at("id")),
                        name: text_or_empty(block.str_at("name")),
                        input: copy_or_null(block.get("input")),
                    },
                )
            } else if same(kind, "tool_result") {
                let content = match block.get("content") {
                    Some(content) => flatten_content(content),
                    None => String::new(),
                };
                let is_error: bool = match block.get("is_error") {
                    Some(Json::Bool(b)) => *b,
                    _ => false,
                };
                Some(
                    ContentBlock::ToolResult {
                        id: text_or_empty(block.str_at("tool_use_id")),
                        content,
                        is_error,
                    },
                )
            } else {
                None
            }
        },
    }
}

fn parse_content_blocks(content: &Json) -> (r: Vec<ContentBlock>)
    ensures
        views(r@) == content_of(content@),
{
    let mut out: Vec<ContentBlock> = Vec::new();
    match content {
        Json::Str(s) => {
            out.push(ContentBlock::Text { text: s.clone() });
            assert(views(out@) == content_of(content@));
        },
        Json::Array(items) => {
            let ghost all = seq_view(items@);
            let mut i: usize = 0;
            while i < items.len()
                invariant
                    i <= items.len(),
                    all == seq_view(items@),
                    views(out@) == blocks_of(all.take(i as int)),
                decreases items.len() - i,
            {
                let ghost before = views(out@);
                assert(all.take(i + 1).drop_last() == all.take(i as int));
                assert(all.take(i + 1).last() == items@[i as int]@);
                if let Some(block) = parse_one_block(&items[i]) {
                    out.push(block);
                    assert(views(out@) == before.push(block@));
                }
                i += 1;
            }
            assert(all.take(i as int) == all);
        },
        _ => {
            assert(views(out@) == content_of(content@));
        },
    }
    out
}

/// The role of a name; unknown names are the user's.
pub open spec fn role_of(name: Seq<char>) -> Role {
    if name == "assistant"@ {
        Role::Assistant
    } else if name == "system"@ {
        Role::System
    } else if name == "tool"@ {
        Role::Tool
    } else {
        Role::User
    }
}

pub(crate) fn parse_role(name: &str) -> (r: Role)
    ensures
        r == role_of(name@),
{
    if same(name, "assistant") {
        Role::Assistant
    } else if same(name, "system") {
        Role::System
    } else if same(name, "tool") {
        Role::Tool
    } else {
        Role::User
    }
}

/// The stop reason of a name; unknown names are kept.
pub open spec fn stop_reason_of(name: Seq<char>) -> StopReasonV {
    if name == "end_turn"@ {
        StopReasonV::EndTurn
    } else if name == "max_tokens"@ {
        StopReasonV::MaxTokens
    } else if name == "tool_use"@ {
        StopReasonV::ToolUse
    } else if name == "stop_sequence"@ {
        StopReasonV::StopSequence
    } else {
        StopReasonV::Other(name)
    }
}

fn parse_stop_reason(name: &str) -> (r: StopReason)
    ensures
        r@ == stop_reason_of(name@),
{
    if same(name, "end_turn") {
        StopReason::EndTurn
    } else if same(name, "max_tokens") {
        StopReason::MaxTokens
    } else if same(name, "tool_use") {
        StopReason::ToolUse
    } else if same(name, "stop_sequence") {
        StopReason::StopSequence
    } else {
        StopReason::Other(name.to_owned())
    }
}

/// The tool choice that a value stands for, if any.
pub open spec fn tool_choice_of(value: JsonV) -> Option<ToolChoiceV> {
    match value.text_at("type"@) {
        None => None,
        Some(kind) => if kind == "auto"@ {
            Some(ToolChoiceV::Auto)
        } else if kind == "any"@ {
            Some(ToolChoiceV::Any)
        } else if kind == "none"@ {
            Some(ToolChoiceV::Never)
        } else if kind == "tool"@ {
            match value.text_at("name"@) {
                Some(name) => Some(ToolChoiceV::Tool(name)),
                None => None,
            }
        } else {
            None
        },
    }
}

fn parse_tool_choice(value: &Json) -> (r: Option<ToolChoice>)
    ensures
        opt_view(r) == tool_choice_of(value@),
{
    match value.str_at("type") {
        None => None,
        Some(kind) => {
            let kind = kind.as_str();
            if same(kind, "auto") {
                Some(ToolChoice::Auto)
            } else if same(kind, "any") {
                Some(ToolChoice::Any)
            } else if same(kind, "none") {
                Some(ToolChoice::Never)
            } else if same(kind, "tool") {
                match value.str_at("name") {
                    Some(name) => Some(ToolChoice::Tool(name.clone())),
                    None => None,
                }
            } else {
                None
            }
        },
    }
}

/// The message that a value stands for.
pub open spec fn message_of(m: JsonV) -> MessageV {
    MessageV {
        role: match m.text_at("role"@) {
            Some(name) => role_of(name),
            None => Role::User,
        },
        content: match m.get("content"@) {
            Some(content) => content_of(content),
            None => Seq::empty(),
        },
    }
}

fn parse_message(m: &Json) -> (r: CanonicalMessage)
    ensures
        r@ == message_of(m@),
{
    let role = match m.str_at("role") {
        Some(name) => parse_role(name.as_str()),
        None => Role::User,
    };
    let content = match m.get("content") {
        Some(content) => parse_content_blocks(content),
        None => Vec::new(),
    };
    let r = CanonicalMessage { role, content };
    assert(r@ == message_of(m@));
    r
}

/// The tool that a value stands for: it must have a name.
pub open spec fn tool_of(t: JsonV) -> Option<ToolV> {
    match t.text_at("name"@) {
        None => None,
        Some(name) => Some(
            ToolV {
                name,
                description: t.text_at("description"@),
                input_schema: match t.get("input_schema"@) {
                    Some(schema) => schema,
                    None => JsonV::Null,
                },
            },
        ),
    }
}

/// The tools among some values.
pub open spec fn tools_of(items: Seq<JsonV>) -> Seq<ToolV>
    decreases items.len(),
{
    if items.len() == 0 {
        Seq::empty()
    } else {
        let rest = tools_of(items.drop_last());
        match tool_of(items.last()) {
            Some(tool) => rest.push(tool),
            None => rest,
        }
    }
}

fn parse_tools(items: &Vec<Json>) -> (r: Vec<CanonicalTool>)
    ensures
        views(r@) == tools_of(seq_view(items@)),
{
    let ghost all = seq_view(items@);
    let mut out: Vec<CanonicalTool> = Vec::new();
    let mut i: usize = 0;
    while i < items.len()
        invariant
            i <= items.len(),
            all == seq_view(items@),
            views(out@) == tools_of(all.take(i as int)),
        decreases items.len() - i,
    {
        let ghost before = views(out@);
        assert(all.take(i + 1).drop_last() == all.take(i as int));
        assert(all.take(i + 1).last() == items@[i as int]@);
        let t = &items[i];
        if let Some(name) = t.str_at("name") {
            let description = match t.str_at("description") {
                Some(d) => Some(d.clone()),
                None => None,
            };
            let tool = CanonicalTool {
                name: name.clone(),
                description,
                input_schema: copy_or_null(t.get("input_schema")),
            };
            assert(tool_of(t@) == Some(tool@));
            out.push(tool);
            assert(views(out@) == before.push(tool@));
        }
        i += 1;
    }
    assert(all.take(i as int) == all);
    out
}

/// The request fields that have a place of their own.
pub open spec fn request_fields() -> Seq<Seq<char>> {
    seq![
        "model"@,
        "messages"@,
        "system"@,
        "tools"@,
        "tool_choice"@,
        "max_tokens"@,
        "temperature"@,
        "top_p"@,
        "top_k"@,
        "stop_sequences"@,
        "stream"@,
    ]
}

/// The response fields that have a place of their own.
pub open spec fn response_fields() -> Seq<Seq<char>> {
    seq!["model"@, "content"@, "stop_reason"@, "usage"@]
}

/// The request that a body stands for. A body must name its model.
pub open spec fn request_of(v: JsonV) -> Result<RequestV, AdapterErrorV> {
    match v.text_at("model"@) {
        None => Err(AdapterErrorV::Malformed("missing required field 'model'"@)),
        Some(model) => Ok(
            RequestV {
                model,
                messages: match v.items_at("messages"@) {
                    Some(items) => items.map_values(|m: JsonV| message_of(m)),
                    None => Seq::empty(),
                },
                system: match v.get("system"@) {
                    Some(content) => Some(flat_text(content)),
                    None => None,
                },
                tools: match v.items_at("tools"@) {
                    Some(items) => tools_of(items),
                    None => Seq::empty(),
                },
                tool_choice: match v.get("tool_choice"@) {
                    Some(choice) => tool_choice_of(choice),
                    None => None,
                },
                sampling: SamplingV {
                    temperature: v.double_at("temperature"@),
                    top_p: v.double_at("top_p"@),
                    top_k: v.uint_at("top_k"@),
                    max_tokens: v.uint_at("max_tokens"@),
                    stop: match v.items_at("stop_sequences"@) {
                        Some(items) => string_items(items),
                        None => Seq::empty(),
                    },
                },
                stream: v.get("stream"@) == Some(JsonV::Bool(true)),
                extra: collected_extra(v, request_fields(), "anthropic"@),
            },
        ),
    }
}

/// The request that a body's bytes stand for.
pub open spec fn request_read(body: Seq<u8>) -> Result<RequestV, AdapterErrorV> {
    match json_read(body) {
        Err(e) => Err(AdapterErrorV::Malformed("invalid JSON: "@ + e)),
        Ok(v) => request_of(v),
    }
}

/// Reads a request from the value of its body.
pub fn parse_request_value(value: &Json) -> (r: Result<CanonicalRequest, AdapterError>)
    ensures
        result_view(r) == request_of(value@),
        r matches Ok(req) ==> (plain_roles(req@.messages) ==> representable(req@)),
{
    let model = match value.str_at("model") {
        Some(model) => model.clone(),
        None => {
            return Err(AdapterError::Malformed("missing required field 'model'".to_owned()));
        },
    };
    let mut messages: Vec<CanonicalMessage> = Vec::new();
    if let Some(items) = value.array_at("messages") {
        let mut i: usize = 0;
        while i < items.len()
            invariant
                i <= items.len(),
                messages@.len() == i,
                forall|k: int| 0 <= k < i ==> (#[trigger] messages@[k])@ == message_of(items@[k]@),
            decreases items.len() - i,
        {
            messages.push(parse_message(&items[i]));
            i += 1;
        }
        assert(views(messages@) == seq_view(items@).map_values(|m: JsonV| message_of(m)));
    } else {
        assert(views(messages@) == Seq::<MessageV>::empty());
    }
    let system = match value.get("system") {
        Some(content) => Some(flatten_content(content)),
        None => None,
    };
    let tools = match value.array_at("tools") {
        Some(items) => parse_tools(items),
        None => Vec::new(),
    };
    let tool_choice = match value.get("tool_choice") {
        Some(choice) => parse_tool_choice(choice),
        None => None,
    };
    let stop = match value.array_at("stop_sequences") {
        Some(items) => strings_in(items),
        None => Vec::new(),
    };
    let sampling = Sampling {
        temperature: value.double_at("temperature"),
        top_p: value.double_at("top_p"),
        top_k: value.u64_at("top_k"),
        max_tokens: value.u64_at("max_tokens"),
        stop,
    };
    let stream: bool = match value.get("stream") {
        Some(Json::Bool(b)) => *b,
        _ => false,
    };
    let known = [
        "model",
        "messages",
        "system",
        "tools",
        "tool_choice",
        "max_tokens",
        "temperature",
        "top_p",
        "top_k",
        "stop_sequences",
        "stream",
    ];
    assert(strs(known@) == request_fields());
    let extra = collect_extra(value, known.as_slice(), "anthropic");
    let r = CanonicalRequest {
        model,
        messages,
        system,
        tools,
        tool_choice,
        sampling,
        stream,
        extra,
    };
    assert(r@.sampling == request_of(value@)->Ok_0.sampling);
    assert(r@ == request_of(value@)->Ok_0);
    Ok(r)
}

/// Reads a request from its body.
pub fn parse_body(body: &[u8]) -> (r: Result<CanonicalRequest, AdapterError>)
    ensures
        result_view(r) == request_read(body@),
{
    match parse(body) {
        Err(e) => Err(AdapterError::Malformed(concat2("invalid JSON: ", e.as_str()))),
        Ok(value) => parse_request_value(&value),
    }
}

/// The token counts of a usage value.
pub open spec fn usage_of(u: JsonV) -> Usage {
    Usage { input_tokens: u.uint_at("input_tokens"@), output_tokens: u.uint_at("output_tokens"@) }
}

fn parse_usage(u: &Json) -> (r: Usage)
    ensures
        r == usage_of(u@),
{
    Usage { input_tokens: u.u64_at("input_tokens"), output_tokens: u.u64_at("output_tokens") }
}

/// The response that a body stands for.
pub open spec fn response_of(v: JsonV) -> ResponseV {
    ResponseV {
        model: or_empty(v.text_at("model"@)),
        content: match v.get("content"@) {
            Some(content) => content_of(content),
            None => Seq::empty(),
        },
        stop_reason: match v.text_at("stop_reason"@) {
            Some(name) => Some(stop_reason_of(name)),
            None => None,
        },
        usage: match v.get("usage"@) {
            Some(u) => Some(usage_of(u)),
            None => None,
        },
        extra: collected_extra(v, response_fields(), "anthropic"@),
    }
}

/// The response that a body's bytes stand for.
pub open spec fn response_read(body: Seq<u8>) -> Result<ResponseV, AdapterErrorV> {
    match json_read(body) {
        Err(e) => Err(AdapterErrorV::Malformed("invalid JSON: "@ + e)),
        Ok(v) => Ok(response_of(v)),
    }
}

/// Reads a response from the value of its body.
pub fn parse_response_value(value: &Json) -> (r: CanonicalResponse)
    ensures
        r@ == response_of(value@),
{
    let content = match value.get("content") {
        Some(content) => parse_content_blocks(content),
        None => Vec::new(),
    };
    let stop_reason = match value.str_at("stop_reason") {
        Some(name) => Some(parse_stop_reason(name.as_str())),
        None => None,
    };
    let usage = match value.get("usage") {
        Some(u) => Some(parse_usage(u)),
        None => None,
    };
    let known = ["model", "content", "stop_reason", "usage"];
    assert(strs(known@) == response_fields());
    let extra = collect_extra(value, known.as_slice(), "anthropic");
    let r = CanonicalResponse {
        model: text_or_empty(value.str_at("model")),
        content,
        stop_reason,
        usage,
        extra,
    };
    assert(r@ == response_of(value@));
    r
}

/// Reads a response from its body.
pub fn parse_response_body(body: &[u8]) -> (r: Result<CanonicalResponse, AdapterError>)
    ensures
        result_view(r) == response_read(body@),
{
    match parse(body) {
        Err(e) => Err(AdapterError::Malformed(concat2("invalid JSON: ", e.as_str()))),
        Ok(value) => Ok(parse_response_value(&value)),
    }
}

/// The value of a content block.
pub open spec fn block_value(block: BlockV) -> JsonV {
    match block {
        BlockV::Text { text } => JsonV::Object(
            map!["type"@ => JsonV::Str("text"@), "text"@ => JsonV::Str(text)],
        ),
        BlockV::Image { media_type, data } => JsonV::Object(
            map![
                "type"@ => JsonV::Str("image"@),
                "source"@ => JsonV::Object(map![
                    "type"@ => JsonV::Str("base64"@),
                    "media_type"@ => JsonV::Str(media_type),
                    "data"@ => JsonV::Str(data),
                ]),
            ],
        ),
        BlockV::ToolUse { id, name, input } => JsonV::Object(
            map![
                "type"@ => JsonV::Str("tool_use"@),
                "id"@ => JsonV::Str(id),
                "name"@ => JsonV::Str(name),
                "input"@ => input,
            ],
        ),
        BlockV::ToolResult { id, content, is_error } => JsonV::Object(
            map![
                "type"@ => JsonV::Str("tool_result"@),
                "tool_use_id"@ => JsonV::Str(id),
                "content"@ => JsonV::Str(content),
                "is_error"@ => JsonV::Bool(is_error),
            ],
        ),
    }
}

fn render_block(block: &ContentBlock) -> (r: Json)
    ensures
        r@ == block_value(block@),
{
    match block {
        ContentBlock::Text { text } => Json::Object(
            JsonMap::new().set("type", string("text")).set("text", string(text.as_str())),
        ),
        ContentBlock::Image { media_type, data } => {
            let source = JsonMap::new().set("type", string("base64")).set(
                "media_type",
                string(media_type.as_str()),
            ).set("data", string(data.as_str()));
            Json::Object(
                JsonMap::new().set("type", string("image")).set("source", Json::Object(source)),
            )
        },
        ContentBlock::ToolUse { id, name, input } => Json::Object(
            JsonMap::new().set("type", string("tool_use")).set("id", string(id.as_str())).set(
                "name",
                string(name.as_str()),
            ).set("input", input.dup()),
        ),
        ContentBlock::ToolResult { id, content, is_error } => Json::Object(
            JsonMap::new().set("type", string("tool_result")).set(
                "tool_use_id",
                string(id.as_str()),
            ).set("content", string(content.as_str())).set("is_error", Json::Bool(*is_error)),
        ),
    }
}

/// The values of some content blocks.
pub open spec fn block_values(blocks: Seq<BlockV>) -> Seq<JsonV> {
    blocks.map_values(|b: BlockV| block_value(b))
}

fn render_blocks(blocks: &Vec<ContentBlock>) -> (r: Json)
    ensures
        r@ == JsonV::Array(block_values(views(blocks@))),
{
    let mut out: Vec<Json> = Vec::new();
    let mut i: usize = 0;
    while i < blocks.len()
        invariant
            i <= blocks.len(),
            out@.len() == i,
            forall|k: int| 0 <= k < i ==> (#[trigger] out@[k])@ == block_value(blocks@[k]@),
        decreases blocks.len() - i,
    {
        out.push(render_block(&blocks[i]));
        i += 1;
    }
    assert(seq_view(out@) == block_values(views(blocks@)));
    Json::Array(out)
}

/// The name of a stop reason.
pub open spec fn stop_reason_name(reason: StopReasonV) -> Seq<char> {
    match reason {
        StopReasonV::EndTurn => "end_turn"@,
        StopReasonV::MaxTokens => "max_tokens"@,
        StopReasonV::ToolUse => "tool_use"@,
        StopReasonV::StopSequence => "stop_sequence"@,
        StopReasonV::Other(name) => name,
    }
}

fn render_stop_reason(reason: &StopReason) -> (r: String)
    ensures
        r@ == stop_reason_name(reason@),
{
    match reason {
        StopReason::EndTurn => "end_turn".to_owned(),
        StopReason::MaxTokens => "max_tokens".to_owned(),
        StopReason::ToolUse => "tool_use".to_owned(),
        StopReason::StopSequence => "stop_sequence".to_owned(),
        StopReason::Other(name) => name.clone(),
    }
}

/// The value of a tool choice.
pub open spec fn tool_choice_value(choice: ToolChoiceV) -> JsonV {
    match choice {
        ToolChoiceV::Auto => JsonV::Object(map!["type"@ => JsonV::Str("auto"@)]),
        ToolChoiceV::Any => JsonV::Object(map!["type"@ => JsonV::Str("any"@)]),
        ToolChoiceV::Never => JsonV::Object(map!["type"@ => JsonV::Str("none"@)]),
        ToolChoiceV::Tool(name) => JsonV::Object(
            map!["type"@ => JsonV::Str("tool"@), "name"@ => JsonV::Str(name)],
        ),
    }
}

fn render_tool_choice(choice: &ToolChoice) -> (r: Json)
    ensures
        r@ == tool_choice_value(choice@),
{
    match choice {
        ToolChoice::Auto => Json::Object(JsonMap::new().set("type", string("auto"))),
        ToolChoice::Any => Json::Object(JsonMap::new().set("type", string("any"))),
        ToolChoice::Never => Json::Object(JsonMap::new().set("type", string("none"))),
        ToolChoice::Tool(name) => Json::Object(
            JsonMap::new().set("type", string("tool")).set("name", string(name.as_str())),
        ),
    }
}

/// The value of a message that is not a system message. A tool's message goes out
/// as the user's.
pub open spec fn message_value(m: MessageV) -> JsonV {
    JsonV::Object(
        map![
            "role"@ => JsonV::Str(if m.role == Role::Assistant { "assistant"@ } else { "user"@ }),
            "content"@ => JsonV::Array(block_values(m.content)),
        ],
    )
}

/// The remark on a message of the role that Anthropic lacks.
pub open spec fn tool_role_note(index: nat) -> Seq<char> {
    "messages["@ + decimal(index)
        + "]: role \"tool\" has no Anthropic equivalent, downgraded to \"user\""@
}

/// What rendering the messages gives: the parts of the system prompt, the message
/// values, and the report.
#[verifier::ext_equal]
pub struct Split {
    pub parts: Seq<Seq<char>>,
    pub messages: Seq<JsonV>,
    pub report: ReportV,
}

/// The report on the content of a system message: what is not text is dropped.
pub open spec fn system_drops(content: Seq<BlockV>, index: nat, report: ReportV) -> ReportV
    decreases content.len(),
{
    if content.len() == 0 {
        report
    } else {
        let before = system_drops(content.drop_last(), index, report);
        match content.last() {
            BlockV::Text { .. } => before,
            _ => before.dropping(
                "messages["@ + decimal(index) + "].content"@,
                "anthropic system prompt is plain text; non-text content in a system-role message has no representation there"@,
            ),
        }
    }
}

/// Splits the messages into the system prompt's parts and the other messages.
pub open spec fn split_messages(
    system: Option<Seq<char>>,
    messages: Seq<MessageV>,
    report: ReportV,
) -> Split
    decreases messages.len(),
{
    if messages.len() == 0 {
        Split {
            parts: match system {
                Some(s) => seq![s],
                None => Seq::empty(),
            },
            messages: Seq::empty(),
            report,
        }
    } else {
        let before = split_messages(system, messages.drop_last(), report);
        let m = messages.last();
        let index = (messages.len() - 1) as nat;
        if m.role == Role::System {
            Split {
                parts: before.parts + block_texts(m.content),
                messages: before.messages,
                report: system_drops(m.content, index, before.report),
            }
        } else {
            Split {
                parts: before.parts,
                messages: before.messages.push(message_value(m)),
                report: if m.role == Role::Tool {
                    before.report.noting(tool_role_note(index))
                } else {
                    before.report
                },
            }
        }
    }
}

fn render_message(
    msg: &CanonicalMessage,
    index: usize,
    report: &mut TranslationReport,
    out: &mut Vec<Json>,
)
    requires
        msg.role != Role::System,
    ensures
        seq_view(final(out)@) == seq_view(old(out)@).push(message_value(msg@)),
        final(report)@ == (if msg.role == Role::Tool {
            old(report)@.noting(tool_role_note(index as nat))
        } else {
            old(report)@
        }),
{
    let role: &str = match msg.role {
        Role::Assistant => "assistant",
        Role::Tool => {
            let index_text = decimal_text(index as u64);
            report.note(
                concat3(
                    "messages[",
                    index_text.as_str(),
                    "]: role \"tool\" has no Anthropic equivalent, downgraded to \"user\"",
                ),
            );
            "user"
        },
        _ => "user",
    };
    let value = Json::Object(
        JsonMap::new().set("role", string(role)).set("content", render_blocks(&msg.content)),
    );
    assert(value@ == message_value(msg@));
    out.push(value);
    assert(seq_view(out@) == seq_view(old(out)@).push(value@));
}

fn render_system_message(
    msg: &CanonicalMessage,
    index: usize,
    report: &mut TranslationReport,
    parts: &mut Vec<String>,
)
    ensures
        texts(final(parts)@) == texts(old(parts)@) + block_texts(msg@.content),
        final(report)@ == system_drops(msg@.content, index as nat, old(report)@),
{
    let ghost all = msg@.content;
    let ghost before = texts(parts@);
    let mut i: usize = 0;
    assert(texts(parts@) == before + block_texts(all.take(0)));
    while i < msg.content.len()
        invariant
            i <= msg.content.len(),
            all == views(msg.content@),
            texts(parts@) == before + block_texts(all.take(i as int)),
            report@ == system_drops(all.take(i as int), index as nat, old(report)@),
        decreases msg.content.len() - i,
    {
        let ghost now = texts(parts@);
        assert(all.take(i + 1).drop_last() == all.take(i as int));
        assert(all.take(i + 1).last() == msg.content@[i as int]@);
        match &msg.content[i] {
            ContentBlock::Text { text } => {
                parts.push(text.clone());
                assert(texts(parts@) == now.push(text@));
                assert(now.push(text@) == before + block_texts(all.take(i + 1)));
            },
            _ => {
                let index_text = decimal_text(index as u64);
                report.drop(
                    concat3("messages[", index_text.as_str(), "].content"),
                    "anthropic system prompt is plain text; non-text content in a system-role message has no representation there".to_owned(),
                );
            },
        }
        i += 1;
    }
    assert(all.take(i as int) == all);
}

fn render_system_and_messages(req: &CanonicalRequest, report: &mut TranslationReport) -> (r: (
    Option<String>,
    Vec<Json>,
))
    ensures
        ({
            let split = split_messages(req@.system, req@.messages, old(report)@);
            &&& opt_view(r.0) == system_text(split.parts)
            &&& seq_view(r.1@) == split.messages
            &&& final(report)@ == split.report
        }),
{
    let ghost all = req@.messages;
    let ghost report0 = report@;
    let mut parts: Vec<String> = Vec::new();
    if let Some(system) = &req.system {
        parts.push(system.clone());
    }
    let mut messages: Vec<Json> = Vec::new();
    proof {
        assert(all.take(0) == Seq::<MessageV>::empty());
        assert(texts(parts@) == split_messages(req@.system, all.take(0), report0).parts);
        assert(seq_view(messages@) == split_messages(req@.system, all.take(0), report0).messages);
    }
    let mut i: usize = 0;
    while i < req.messages.len()
        invariant
            i <= req.messages.len(),
            all == views(req.messages@),
            texts(parts@) == split_messages(req@.system, all.take(i as int), report0).parts,
            seq_view(messages@) == split_messages(req@.system, all.take(i as int), report0).messages,
            report@ == split_messages(req@.system, all.take(i as int), report0).report,
        decreases req.messages.len() - i,
    {
        let msg = &req.messages[i];
        assert(all.take(i + 1).drop_last() == all.take(i as int));
        assert(all.take(i + 1).last() == msg@);
        if msg.role == Role::System {
            render_system_message(msg, i, report, &mut parts);
        } else {
            render_message(msg, i, report, &mut messages);
        }
        i += 1;
    }
    assert(all.take(i as int) == all);
    let system = if parts.len() == 0 {
        None
    } else {
        Some(join(&parts, "\n"))
    };
    (system, messages)
}

/// The system prompt of its parts: one per line; none where there is no part.
pub open spec fn system_text(parts: Seq<Seq<char>>) -> Option<Seq<char>> {
    if parts.len() == 0 {
        None
    } else {
        Some(joined(parts, "\n"@))
    }
}

/// The value of a tool.
pub open spec fn tool_value(t: ToolV) -> JsonV {
    JsonV::Object(
        put_opt(
            map!["name"@ => JsonV::Str(t.name)],
            "description"@,
            opt_str(t.description),
        ).insert("input_schema"@, t.input_schema),
    )
}

fn render_tools(tools: &Vec<CanonicalTool>) -> (r: Json)
    ensures
        r@ == JsonV::Array(views(tools@).map_values(|t: ToolV| tool_value(t))),
{
    let mut out: Vec<Json> = Vec::new();
    let mut i: usize = 0;
    while i < tools.len()
        invariant
            i <= tools.len(),
            out@.len() == i,
            forall|k: int| 0 <= k < i ==> (#[trigger] out@[k])@ == tool_value(tools@[k]@),
        decreases tools.len() - i,
    {
        let t = &tools[i];
        let mut tool = JsonMap::new().set("name", string(t.name.as_str()));
        if let Some(description) = &t.description {
            tool = tool.set("description", string(description.as_str()));
        }
        tool = tool.set("input_schema", t.input_schema.dup());
        out.push(Json::Object(tool));
        i += 1;
    }
    assert(seq_view(out@) == views(tools@).map_values(|t: ToolV| tool_value(t)));
    Json::Array(out)
}

/// The typed fields of a request's body.
pub open spec fn typed_request(
    req: RequestV,
    system: Option<Seq<char>>,
    messages: Seq<JsonV>,
) -> Map<Seq<char>, JsonV> {
    let m0 = put_opt(map!["model"@ => JsonV::Str(req.model)], "system"@, opt_str(system));
    let m1 = m0.insert("messages"@, JsonV::Array(messages));
    let m2 = if req.tools.len() > 0 {
        m1.insert("tools"@, JsonV::Array(req.tools.map_values(|t: ToolV| tool_value(t))))
    } else {
        m1
    };
    let m3 = match req.tool_choice {
        Some(choice) => m2.insert("tool_choice"@, tool_choice_value(choice)),
        None => m2,
    };
    let m4 = put_opt(m3, "temperature"@, opt_double(req.sampling.temperature));
    let m5 = put_opt(m4, "top_p"@, opt_double(req.sampling.top_p));
    let m6 = put_opt(m5, "top_k"@, opt_uint(req.sampling.top_k));
    let m7 = put_opt(m6, "max_tokens"@, opt_uint(req.sampling.max_tokens));
    let m8 = if req.sampling.stop.len() > 0 {
        m7.insert("stop_sequences"@, JsonV::Array(str_values(req.sampling.stop)))
    } else {
        m7
    };
    m8.insert("stream"@, JsonV::Bool(req.stream))
}

/// The body of a request, and the report on what it could not carry.
pub open spec fn request_value(req: RequestV, report: ReportV) -> (JsonV, ReportV) {
    let split = split_messages(req.system, req.messages, report);
    let typed = typed_request(req, system_text(split.parts), split.messages);
    let (members, report) = emitted("anthropic"@, req.extra, typed, split.report);
    (JsonV::Object(members), report)
}

/// Writes the value of a request's body.
pub fn render_request_value(req: &CanonicalRequest, report: &mut TranslationReport) -> (r: Json)
    ensures
        (r@, final(report)@) == request_value(req@, old(report)@),
{
    let (system, messages) = render_system_and_messages(req, report);
    let ghost system_v = opt_view(system);
    let ghost messages_v = seq_view(messages@);
    let mut body = JsonMap::new().set("model", string(req.model.as_str()));
    if let Some(system) = &system {
        body = body.set("system", string(system.as_str()));
    }
    body = body.set("messages", Json::Array(messages));
    if req.tools.len() > 0 {
        body = body.set("tools", render_tools(&req.tools));
    }
    if let Some(choice) = &req.tool_choice {
        body = body.set("tool_choice", render_tool_choice(choice));
    }
    if let Some(t) = req.sampling.temperature {
        body = body.set("temperature", double(t));
    }
    if let Some(t) = req.sampling.top_p {
        body = body.set("top_p", double(t));
    }
    if let Some(n) = req.sampling.top_k {
        body = body.set("top_k", uint(n));
    }
    if let Some(n) = req.sampling.max_tokens {
        body = body.set("max_tokens", uint(n));
    }
    if req.sampling.stop.len() > 0 {
        body = body.set("stop_sequences", string_array(&req.sampling.stop));
    }
    body = body.set("stream", Json::Bool(req.stream));
    assert(body@ == typed_request(req@, system_v, messages_v));
    emit_or_drop_extra("anthropic", &req.extra, &mut body, report);
    Json::Object(body)
}

/// The bytes of a request's body.
pub open spec fn request_bytes(req: RequestV, report: ReportV) -> Seq<u8> {
    encode_utf8(json_text(request_value(req, report).0))
}

/// Writes a request's body.
pub fn render_request_body(req: &CanonicalRequest, report: &mut TranslationReport) -> (r: Result<
    Vec<u8>,
    AdapterError,
>)
    ensures
        r matches Ok(bytes) && bytes@ == request_bytes(req@, old(report)@),
        final(report)@ == request_value(req@, old(report)@).1,
        representable(req@) && nests_within(request_value(req@, old(report)@).0, read_depth())
            ==> result_view(Ok::<CanonicalRequest, AdapterError>(*req)) == request_read(r->Ok_0@),
{
    let value = render_request_value(req, report);
    let text = value.to_text();
    proof {
        if representable(req@) {
            law_request_round_trip(req@, old(report)@);
        }
    }
    Ok(text.as_bytes_vec())
}

/// The value of token counts.
pub open spec fn usage_value(u: Usage) -> JsonV {
    JsonV::Object(
        put_opt(
            put_opt(Map::empty(), "input_tokens"@, opt_uint(u.input_tokens)),
            "output_tokens"@,
            opt_uint(u.output_tokens),
        ),
    )
}

fn render_usage(u: &Usage) -> (r: Json)
    ensures
        r@ == usage_value(*u),
{
    let mut m = JsonMap::new();
    if let Some(n) = u.input_tokens {
        m = m.set("input_tokens", uint(n));
    }
    if let Some(n) = u.output_tokens {
        m = m.set("output_tokens", uint(n));
    }
    Json::Object(m)
}

/// The typed fields of a response's body.
pub open spec fn typed_response(resp: ResponseV) -> Map<Seq<char>, JsonV> {
    let m0 = map![
        "model"@ => JsonV::Str(resp.model),
        "content"@ => JsonV::Array(block_values(resp.content)),
    ];
    let m1 = match resp.stop_reason {
        Some(reason) => m0.insert("stop_reason"@, JsonV::Str(stop_reason_name(reason))),
        None => m0,
    };
    match resp.usage {
        Some(u) => m1.insert("usage"@, usage_value(u)),
        None => m1,
    }
}

/// A response body with the fields that every client expects.
pub open spec fn completed_response(m: Map<Seq<char>, JsonV>) -> Map<Seq<char>, JsonV> {
    put_missing(
        put_missing(
            put_missing(m, "type"@, JsonV::Str("message"@)),
            "role"@,
            JsonV::Str("assistant"@),
        ),
        "id"@,
        JsonV::Str("msg_translated"@),
    )
}

/// The body of a response, and the report on what it could not carry.
pub open spec fn response_value(resp: ResponseV, report: ReportV) -> (JsonV, ReportV) {
    let (members, report) = emitted("anthropic"@, resp.extra, typed_response(resp), report);
    (JsonV::Object(completed_response(members)), report)
}

fn set_missing(m: JsonMap, key: &str, val: &str) -> (r: JsonMap)
    ensures
        r@ == put_missing(m@, key@, JsonV::Str(val@)),
{
    if m.contains_key(key) {
        m
    } else {
        m.set(key, string(val))
    }
}

/// Writes the value of a response's body.
pub fn render_response_value(resp: &CanonicalResponse, report: &mut TranslationReport) -> (r: Json)
    ensures
        (r@, final(report)@) == response_value(resp@, old(report)@),
{
    let mut body = JsonMap::new().set("model", string(resp.model.as_str())).set(
        "content",
        render_blocks(&resp.content),
    );
    if let Some(reason) = &resp.stop_reason {
        body = body.set("stop_reason", Json::Str(render_stop_reason(reason)));
    }
    if let Some(usage) = &resp.usage {
        body = body.set("usage", render_usage(usage));
    }
    assert(body@ == typed_response(resp@));
    emit_or_drop_extra("anthropic", &resp.extra, &mut body, report);
    body = set_missing(body, "type", "message");
    body = set_missing(body, "role", "assistant");
    body = set_missing(body, "id", "msg_translated");
    Json::Object(body)
}

/// Writes a response's body.
pub fn render_response_body(resp: &CanonicalResponse, report: &mut TranslationReport) -> (r: Result<
    Vec<u8>,
    AdapterError,
>)
    ensures
        r matches Ok(bytes) && bytes@ == encode_utf8(
            json_text(response_value(resp@, old(report)@).0),
        ),
        final(report)@ == response_value(resp@, old(report)@).1,
        nests_within(response_value(resp@, old(report)@).0, read_depth()) ==> response_read(r->Ok_0@)
            == Ok::<ResponseV, AdapterErrorV>(response_of(response_value(resp@, old(report)@).0)),
{
    let value = render_response_value(resp, report);
    Ok(value.to_text().as_bytes_vec())
}

/// The fragment that a stream event's value carries, if any.
pub open spec fn delta_of(v: JsonV) -> Option<DeltaV> {
    match v.text_at("type"@) {
        None => None,
        Some(kind) => if kind == "content_block_delta"@ {
            match v.get("delta"@) {
                None => None,
                Some(delta) => match delta.text_at("type"@) {
                    None => None,
                    Some(what) => if what == "text_delta"@ {
                        match delta.text_at("text"@) {
                            Some(text) => Some(DeltaV::of_text(text)),
                            None => None,
                        }
                    } else if what == "input_json_delta"@ {
                        Some(
                            DeltaV::of_tool_call(
                                ToolCallDeltaV {
                                    id: None,
                                    name: None,
                                    arguments_fragment: delta.text_at("partial_json"@),
                                },
                            ),
                        )
                    } else {
                        None
                    },
                },
            }
        } else if kind == "message_delta"@ {
            match v.get("usage"@) {
                None => None,
                Some(u) => Some(
                    DeltaV::of_usage(
                        DeltaUsage {
                            input_tokens: u.uint_at("input_tokens"@),
                            output_tokens: u.uint_at("output_tokens"@),
                        },
                    ),
                ),
            }
        } else if kind == "message_stop"@ {
            Some(DeltaV::of_finish(FinishV { reason: None }))
        } else {
            None
        },
    }
}

/// Reads the fragment in a stream event's value.
pub fn parse_delta_value(value: &Json) -> (r: Option<Delta>)
    ensures
        opt_view(r) == delta_of(value@),
{
    match value.str_at("type") {
        None => None,
        Some(kind) => {
            let kind = kind.as_str();
            if same(kind, "content_block_delta") {
                match value.get("delta") {
                    None => None,
                    Some(delta) => match delta.str_at("type") {
                        None => None,
                        Some(what) => {
                            if same(what.as_str(), "text_delta") {
                                match delta.str_at("text") {
                                    Some(text) => Some(Delta::text(text.clone())),
                                    None => None,
                                }
                            } else if same(what.as_str(), "input_json_delta") {
                                let fragment = match delta.str_at("partial_json") {
                                    Some(text) => Some(text.clone()),
                                    None => None,
                                };
                                let call = ToolCallDelta {
                                    id: None,
                                    name: None,
                                    arguments_fragment: fragment,
                                };
                                assert(call@.arguments_fragment == delta@.text_at("partial_json"@));
                                Some(Delta::tool_call(call))
                            } else {
                                None
                            }
                        },
                    },
                }
            } else if same(kind, "message_delta") {
                match value.get("usage") {
                    None => None,
                    Some(u) => Some(
                        Delta::usage(
                            DeltaUsage {
                                input_tokens: u.u64_at("input_tokens"),
                                output_tokens: u.u64_at("output_tokens"),
                            },
                        ),
                    ),
                }
            } else if same(kind, "message_stop") {
                Some(Delta::finish(Finish { reason: None }))
            } else {
                None
            }
        },
    }
}

/// The fragment that a stream event carries, if any; a malformed event has none.
pub open spec fn delta_read(data: Seq<char>) -> Option<DeltaV> {
    match json_read(encode_utf8(data)) {
        Ok(v) => delta_of(v),
        Err(_) => None,
    }
}

/// Reads the fragment in a stream event.
pub fn parse_delta(event: &SseEvent) -> (r: Option<Delta>)
    ensures
        opt_view(r) == delta_read(event.data@),
{
    match parse(event.data.as_str().as_bytes()) {
        Ok(value) => parse_delta_value(&value),
        Err(_) => None,
    }
}

/// The index member of a stream event, zero where it is missing.
pub open spec fn index_of(v: JsonV) -> u64 {
    match v.uint_at("index"@) {
        Some(i) => i,
        None => 0,
    }
}

/// The canonical event that a stream event's value stands for, if any.
pub open spec fn event_of(v: JsonV) -> Option<EventV> {
    match v.text_at("type"@) {
        None => None,
        Some(kind) => if kind == "message_start"@ {
            let message = match v.get("message"@) {
                Some(m) => m,
                None => JsonV::Null,
            };
            Some(
                EventV::MessageStart {
                    model: or_empty(message.text_at("model"@)),
                    role: match message.text_at("role"@) {
                        Some(name) => role_of(name),
                        None => Role::Assistant,
                    },
                },
            )
        } else if kind == "content_block_start"@ {
            let block = match v.get("content_block"@) {
                Some(b) => one_block(b),
                None => None,
            };
            Some(
                EventV::ContentBlockStart {
                    index: index_of(v),
                    block: match block {
                        Some(b) => b,
                        None => BlockV::Text { text: Seq::empty() },
                    },
                },
            )
        } else if kind == "content_block_delta"@ {
            let delta = match v.get("delta"@) {
                Some(d) => d,
                None => JsonV::Null,
            };
            if delta.text_at("type"@) == Some("text_delta"@) {
                Some(
                    EventV::ContentBlockDelta {
                        index: index_of(v),
                        text: Some(or_empty(delta.text_at("text"@))),
                        partial_json: None,
                    },
                )
            } else if delta.text_at("type"@) == Some("input_json_delta"@) {
                Some(
                    EventV::ContentBlockDelta {
                        index: index_of(v),
                        text: None,
                        partial_json: Some(or_empty(delta.text_at("partial_json"@))),
                    },
                )
            } else {
                None
            }
        } else if kind == "content_block_stop"@ {
            Some(EventV::ContentBlockStop { index: index_of(v) })
        } else if kind == "message_delta"@ {
            let delta = match v.get("delta"@) {
                Some(d) => d,
                None => JsonV::Null,
            };
            Some(
                EventV::MessageDelta {
                    stop_reason: match delta.text_at("stop_reason"@) {
                        Some(name) => Some(stop_reason_of(name)),
                        None => None,
                    },
                    usage: match v.get("usage"@) {
                        Some(u) => Some(usage_of(u)),
                        None => None,
                    },
                },
            )
        } else if kind == "message_stop"@ {
            Some(EventV::MessageStop)
        } else {
            None
        },
    }
}

fn parse_index(value: &Json) -> (r: u64)
    ensures
        r == index_of(value@),
{
    match value.u64_at("index") {
        Some(i) => i,
        None => 0,
    }
}

/// Reads the canonical event from a stream event's value.
pub fn parse_event_value(value: &Json) -> (r: Option<CanonicalStreamEvent>)
    ensures
        opt_view(r) == event_of(value@),
{
    let nothing = Json::Null;
    match value.str_at("type") {
        None => None,
        Some(kind) => {
            let kind = kind.as_str();
            if same(kind, "message_start") {
                let message = match value.get("message") {
                    Some(m) => m,
                    None => &nothing,
                };
                let role = match message.str_at("role") {
                    Some(name) => parse_role(name.as_str()),
                    None => Role::Assistant,
                };
                Some(
                    CanonicalStreamEvent::MessageStart {
                        model: text_or_empty(message.str_at("model")),
                        role,
                    },
                )
            } else if same(kind, "content_block_start") {
                let block = match value.get("content_block") {
                    Some(b) => parse_one_block(b),
                    None => None,
                };
                let block = match block {
                    Some(b) => b,
                    None => ContentBlock::Text { text: String::new() },
                };
                Some(CanonicalStreamEvent::ContentBlockStart { index: parse_index(value), block })
            } else if same(kind, "content_block_delta") {
                let delta = match value.get("delta") {
                    Some(d) => d,
                    None => &nothing,
                };
                match delta.str_at("type") {
                    None => None,
                    Some(what) => {
                        if same(what.as_str(), "text_delta") {
                            let text = text_or_empty(delta.str_at("text"));
                            Some(
                                CanonicalStreamEvent::ContentBlockDelta {
                                    index: parse_index(value),
                                    text: Some(text),
                                    partial_json: None,
                                },
                            )
                        } else if same(what.as_str(), "input_json_delta") {
                            let partial = text_or_empty(delta.str_at("partial_json"));
                            Some(
                                CanonicalStreamEvent::ContentBlockDelta {
                                    index: parse_index(value),
                                    text: None,
                                    partial_json: Some(partial),
                                },
                            )
                        } else {
                            None
                        }
                    },
                }
            } else if same(kind, "content_block_stop") {
                Some(CanonicalStreamEvent::ContentBlockStop { index: parse_index(value) })
            } else if same(kind, "message_delta") {
                let delta = match value.get("delta") {
                    Some(d) => d,
                    None => &nothing,
                };
                let stop_reason = match delta.str_at("stop_reason") {
                    Some(name) => Some(parse_stop_reason(name.as_str())),
                    None => None,
                };
                let usage = match value.get("usage") {
                    Some(u) => Some(parse_usage(u)),
                    None => None,
                };
                Some(CanonicalStreamEvent::MessageDelta { stop_reason, usage })
            } else if same(kind, "message_stop") {
                Some(CanonicalStreamEvent::MessageStop)
            } else {
                None
            }
        },
    }
}

/// The canonical event that a stream event stands for: none where its data is
/// blank or malformed.
pub open spec fn event_read(data: Seq<char>) -> Option<EventV> {
    if trimmed(data).len() == 0 {
        None
    } else {
        match json_read(encode_utf8(trimmed(data))) {
            Ok(v) => event_of(v),
            Err(_) => None,
        }
    }
}

/// Reads the canonical event from a stream event.
pub fn parse_stream_event(event: &SseEvent) -> (r: Result<
    Option<CanonicalStreamEvent>,
    AdapterError,
>)
    ensures
        r matches Ok(e) && opt_view(e) == event_read(event.data@),
{
    let data = trim(event.data.as_str());
    if data.is_empty() {
        return Ok(None);
    }
    match parse(data.as_bytes()) {
        Ok(value) => Ok(parse_event_value(&value)),
        Err(_) => Ok(None),
    }
}

/// One frame of an Anthropic stream.
#[derive(Clone, PartialEq, Debug)]
pub struct Frame {
    pub event: String,
    pub data: Json,
}

#[verifier::ext_equal]
pub struct FrameV {
    pub event: Seq<char>,
    pub data: JsonV,
}

impl View for Frame {
    type V = FrameV;

    open spec fn view(&self) -> FrameV {
        FrameV { event: self.event@, data: self.data@ }
    }
}

/// The text of a frame.
pub open spec fn frame_text(f: FrameV) -> Seq<char> {
    "event: "@ + f.event + "\ndata: "@ + json_text(f.data) + "\n\n"@
}

/// The text of some frames.
pub open spec fn frames_text(frames: Seq<FrameV>) -> Seq<char>
    decreases frames.len(),
{
    if frames.len() == 0 {
        Seq::empty()
    } else {
        frames_text(frames.drop_last()) + frame_text(frames.last())
    }
}

fn write_frames(frames: &Vec<Frame>) -> (r: String)
    ensures
        r@ == frames_text(views(frames@)),
{
    let ghost all = views(frames@);
    let mut out = String::new();
    let mut i: usize = 0;
    while i < frames.len()
        invariant
            i <= frames.len(),
            all == views(frames@),
            out@ == frames_text(all.take(i as int)),
        decreases frames.len() - i,
    {
        let ghost before = out@;
        assert(all.take(i + 1).drop_last() == all.take(i as int));
        assert(all.take(i + 1).last() == frames@[i as int]@);
        let f = &frames[i];
        out.append("event: ");
        out.append(f.event.as_str());
        out.append("\ndata: ");
        let data = f.data.to_text();
        out.append(data.as_str());
        out.append("\n\n");
        assert(out@ == before + frame_text(f@));
        i += 1;
    }
    assert(all.take(i as int) == all);
    out
}

/// The value of a block at its start in a stream. A tool call starts with an empty
/// input, which fragments fill, and a tool result as empty text.
pub open spec fn stream_block_value(block: BlockV) -> JsonV {
    match block {
        BlockV::ToolUse { id, name, .. } => block_value(
            BlockV::ToolUse { id, name, input: JsonV::Object(Map::empty()) },
        ),
        BlockV::ToolResult { .. } => block_value(BlockV::Text { text: Seq::empty() }),
        _ => block_value(block),
    }
}

/// Writes the value of a block at its start in a stream.
pub fn stream_block(block: &ContentBlock) -> (r: Json)
    ensures
        r@ == stream_block_value(block@),
        block@ matches BlockV::ToolUse { id, name, .. } ==> r@ == JsonV::Object(
            map![
                "type"@ => JsonV::Str("tool_use"@),
                "id"@ => JsonV::Str(id),
                "name"@ => JsonV::Str(name),
                "input"@ => JsonV::Object(Map::empty()),
            ],
        ),
{
    match block {
        ContentBlock::ToolUse { id, name, .. } => render_block(
            &ContentBlock::ToolUse {
                id: id.clone(),
                name: name.clone(),
                input: Json::Object(JsonMap::new()),
            },
        ),
        ContentBlock::ToolResult { .. } => render_block(
            &ContentBlock::Text { text: String::new() },
        ),
        _ => render_block(block),
    }
}

/// The frame that opens a message.
pub open spec fn message_start_frame(st: RenderStateV) -> FrameV {
    let zero = JsonV::Number(Num::PosInt(0));
    FrameV {
        event: "message_start"@,
        data: JsonV::Object(
            map![
                "type"@ => JsonV::Str("message_start"@),
                "message"@ => JsonV::Object(map![
                    "type"@ => JsonV::Str("message"@),
                    "role"@ => JsonV::Str(st.role_or_assistant().name()),
                    "model"@ => JsonV::Str(st.model),
                    "content"@ => JsonV::Array(Seq::empty()),
                    "stop_reason"@ => JsonV::Null,
                    "usage"@ => JsonV::Object(map!["input_tokens"@ => zero, "output_tokens"@ => zero]),
                ]),
            ],
        ),
    }
}

/// The frame that opens a block.
pub open spec fn block_start_frame(index: u64, block: JsonV) -> FrameV {
    FrameV {
        event: "content_block_start"@,
        data: JsonV::Object(
            map![
                "type"@ => JsonV::Str("content_block_start"@),
                "index"@ => JsonV::Number(Num::PosInt(index)),
                "content_block"@ => block,
            ],
        ),
    }
}

/// The frame that carries a fragment of a block.
pub open spec fn block_delta_frame(index: u64, delta: JsonV) -> FrameV {
    FrameV {
        event: "content_block_delta"@,
        data: JsonV::Object(
            map![
                "type"@ => JsonV::Str("content_block_delta"@),
                "index"@ => JsonV::Number(Num::PosInt(index)),
                "delta"@ => delta,
            ],
        ),
    }
}

/// The frame that carries a fragment of a tool call's input.
pub open spec fn input_frame(index: u64, partial: Seq<char>) -> FrameV {
    block_delta_frame(
        index,
        JsonV::Object(
            map![
                "type"@ => JsonV::Str("input_json_delta"@),
                "partial_json"@ => JsonV::Str(partial),
            ],
        ),
    )
}

/// The frame that closes a block.
pub open spec fn block_stop_frame(index: u64) -> FrameV {
    FrameV {
        event: "content_block_stop"@,
        data: JsonV::Object(
            map![
                "type"@ => JsonV::Str("content_block_stop"@),
                "index"@ => JsonV::Number(Num::PosInt(index)),
            ],
        ),
    }
}

/// The frame that gives the stop reason and the token counts.
pub open spec fn message_delta_frame(stop_reason: Option<StopReasonV>, usage: Option<Usage>) -> FrameV {
    let delta = match stop_reason {
        Some(reason) => map!["stop_reason"@ => JsonV::Str(stop_reason_name(reason))],
        None => Map::empty(),
    };
    let data = map![
        "type"@ => JsonV::Str("message_delta"@),
        "delta"@ => JsonV::Object(delta),
    ];
    FrameV {
        event: "message_delta"@,
        data: JsonV::Object(
            match usage {
                Some(u) => data.insert("usage"@, usage_value(u)),
                None => data,
            },
        ),
    }
}

/// The frame that ends a message.
pub open spec fn message_stop_frame() -> FrameV {
    FrameV {
        event: "message_stop"@,
        data: JsonV::Object(map!["type"@ => JsonV::Str("message_stop"@)]),
    }
}

/// The frames written so far in one step, and the state after them.
#[verifier::ext_equal]
pub struct Written {
    pub frames: Seq<FrameV>,
    pub st: RenderStateV,
}

impl Written {
    /// Opens the message unless it is open.
    pub open spec fn opened(self) -> Written {
        if self.st.message_started {
            self
        } else {
            Written {
                frames: self.frames.push(message_start_frame(self.st)),
                st: RenderStateV { message_started: true, ..self.st },
            }
        }
    }

    /// Closes the open block, if there is one other than `index`.
    pub open spec fn closed_before(self, index: u64) -> Written {
        match self.st.open_block {
            Some(open) if open != index => Written {
                frames: self.frames.push(block_stop_frame(open)),
                st: RenderStateV { open_block: None, ..self.st },
            },
            _ => self,
        }
    }

    /// Closes the open block, if there is one.
    pub open spec fn closed(self) -> Written {
        match self.st.open_block {
            Some(open) => Written {
                frames: self.frames.push(block_stop_frame(open)),
                st: RenderStateV { open_block: None, ..self.st },
            },
            None => self,
        }
    }

    /// Opens a block.
    pub open spec fn block_opened(self, index: u64, block: JsonV) -> Written {
        Written {
            frames: self.frames.push(block_start_frame(index, block)),
            st: RenderStateV {
                started_blocks: self.st.started_blocks.insert(index),
                open_block: Some(index),
                ..self.st
            },
        }
    }

    /// Writes one more frame.
    pub open spec fn then_frame(self, frame: FrameV) -> Written {
        Written { frames: self.frames.push(frame), st: self.st }
    }
}

/// The frames that a canonical event is written as, and the state after it.
/// Whatever a coarser source left out is supplied: the message's opening before
/// anything else, a block's opening before its first fragment, a block's close
/// before the next block or the end; the terminal comes once. The input of a tool
/// call that comes whole follows its block's opening as one fragment.
pub open spec fn written(event: EventV, st: RenderStateV) -> Written {
    let none = Written { frames: Seq::empty(), st };
    match event {
        EventV::MessageStart { model, role } => {
            let named = RenderStateV { model, role: Some(role), ..st };
            Written {
                frames: seq![message_start_frame(named)],
                st: RenderStateV { message_started: true, ..named },
            }
        },
        EventV::ContentBlockStart { index, block } => {
            let open = none.opened().closed_before(index).block_opened(
                index,
                stream_block_value(block),
            );
            match late_input(block) {
                Some(input) => open.then_frame(input_frame(index, json_text(input))),
                None => open,
            }
        },
        EventV::ContentBlockDelta { index, text, partial_json } => {
            let open = none.opened();
            let ready = if open.st.started_blocks.contains(index) {
                open
            } else {
                open.closed_before(index).block_opened(
                    index,
                    block_value(BlockV::Text { text: Seq::empty() }),
                )
            };
            match (text, partial_json) {
                (Some(text), _) => ready.then_frame(
                    block_delta_frame(
                        index,
                        JsonV::Object(
                            map!["type"@ => JsonV::Str("text_delta"@), "text"@ => JsonV::Str(text)],
                        ),
                    ),
                ),
                (None, Some(partial)) => ready.then_frame(input_frame(index, partial)),
                (None, None) => ready,
            }
        },
        EventV::ContentBlockStop { index } => {
            let w = none.then_frame(block_stop_frame(index));
            if st.open_block == Some(index) {
                Written { frames: w.frames, st: RenderStateV { open_block: None, ..st } }
            } else {
                w
            }
        },
        EventV::MessageDelta { stop_reason, usage } => none.opened().closed().then_frame(
            message_delta_frame(stop_reason, usage),
        ),
        EventV::MessageStop => if st.terminal_sent {
            none
        } else {
            let w = none.opened().closed().then_frame(message_stop_frame());
            Written { frames: w.frames, st: RenderStateV { terminal_sent: true, ..w.st } }
        },
    }
}

/// What has been written, from the frames and the state that hold it.
pub open spec fn written_so_far(out: Vec<Frame>, st: StreamRenderState) -> Written {
    Written { frames: views(out@), st: st@ }
}

fn push_frame(out: &mut Vec<Frame>, event: &str, data: JsonMap)
    ensures
        views(final(out)@) == views(old(out)@).push(
            FrameV { event: event@, data: JsonV::Object(data@) },
        ),
{
    let f = Frame { event: event.to_owned(), data: Json::Object(data) };
    let ghost fv = f@;
    out.push(f);
    assert(views(out@) == views(old(out)@).push(fv));
}

fn emit_message_start(out: &mut Vec<Frame>, st: &mut StreamRenderState)
    ensures
        final(st)@ == (RenderStateV { message_started: true, ..old(st)@ }),
        views(final(out)@) == views(old(out)@).push(message_start_frame(old(st)@)),
{
    let usage = JsonMap::new().set("input_tokens", uint(0)).set("output_tokens", uint(0));
    let content: Vec<Json> = Vec::new();
    assert(seq_view(content@) == Seq::<JsonV>::empty());
    let message = JsonMap::new().set("type", string("message")).set(
        "role",
        string(st.role_or_assistant().as_str()),
    ).set("model", string(st.model.as_str())).set("content", Json::Array(content)).set(
        "stop_reason",
        Json::Null,
    ).set("usage", Json::Object(usage));
    let data = JsonMap::new().set("type", string("message_start")).set(
        "message",
        Json::Object(message),
    );
    push_frame(out, "message_start", data);
    st.message_started = true;
    assert(st@ == (RenderStateV { message_started: true, ..old(st)@ }));
}

fn ensure_message_start(out: &mut Vec<Frame>, st: &mut StreamRenderState)
    ensures
        written_so_far(*final(out), *final(st)) == written_so_far(*old(out), *old(st)).opened(),
{
    if !st.message_started {
        emit_message_start(out, st);
    }
}

fn emit_block_stop(out: &mut Vec<Frame>, index: u64)
    ensures
        views(final(out)@) == views(old(out)@).push(block_stop_frame(index)),
{
    push_frame(
        out,
        "content_block_stop",
        JsonMap::new().set("type", string("content_block_stop")).set("index", uint(index)),
    );
}

fn close_open_block_before(out: &mut Vec<Frame>, st: &mut StreamRenderState, new_index: u64)
    ensures
        written_so_far(*final(out), *final(st)) == written_so_far(
            *old(out),
            *old(st),
        ).closed_before(new_index),
{
    if let Some(prev) = st.open_block {
        if prev != new_index {
            emit_block_stop(out, prev);
            st.open_block = None;
        }
    }
}

fn close_open_block(out: &mut Vec<Frame>, st: &mut StreamRenderState)
    ensures
        written_so_far(*final(out), *final(st)) == written_so_far(*old(out), *old(st)).closed(),
{
    if let Some(open) = st.open_block {
        emit_block_stop(out, open);
        st.open_block = None;
    }
}

fn open_block(out: &mut Vec<Frame>, st: &mut StreamRenderState, index: u64, block: Json)
    ensures
        written_so_far(*final(out), *final(st)) == written_so_far(*old(out), *old(st)).block_opened(
            index,
            block@,
        ),
{
    broadcast use vstd::std_specs::hash::group_hash_axioms;

    push_frame(
        out,
        "content_block_start",
        JsonMap::new().set("type", string("content_block_start")).set("index", uint(index)).set(
            "content_block",
            block,
        ),
    );
    st.started_blocks.insert(index);
    st.open_block = Some(index);
}

fn push_input(out: &mut Vec<Frame>, index: u64, partial: &str)
    ensures
        views(final(out)@) == views(old(out)@).push(input_frame(index, partial@)),
{
    let delta = JsonMap::new().set("type", string("input_json_delta")).set(
        "partial_json",
        string(partial),
    );
    push_frame(
        out,
        "content_block_delta",
        JsonMap::new().set("type", string("content_block_delta")).set("index", uint(index)).set(
            "delta",
            Json::Object(delta),
        ),
    );
}

/// Writes the frames of a canonical event.
pub fn stream_frames(event: &CanonicalStreamEvent, st: &mut StreamRenderState) -> (r: Vec<Frame>)
    ensures
        written_so_far(r, *final(st)) == written(event@, old(st)@),
        fragment_reads_back(event@),
{
    broadcast use vstd::std_specs::hash::group_hash_axioms;

    let mut out: Vec<Frame> = Vec::new();
    assert(written_so_far(out, *st) == (Written { frames: Seq::empty(), st: st@ }));
    match event {
        CanonicalStreamEvent::MessageStart { model, role } => {
            st.model = model.clone();
            st.role = Some(*role);
            emit_message_start(&mut out, st);
            assert(views(out@) == written(event@, old(st)@).frames);
        },
        CanonicalStreamEvent::ContentBlockStart { index, block } => {
            ensure_message_start(&mut out, st);
            close_open_block_before(&mut out, st, *index);
            open_block(&mut out, st, *index, stream_block(block));
            if let Some(input) = find_late_input(block) {
                let partial = input.to_text();
                push_input(&mut out, *index, partial.as_str());
            }
        },
        CanonicalStreamEvent::ContentBlockDelta { index, text, partial_json } => {
            ensure_message_start(&mut out, st);
            if !st.started_blocks.contains(index) {
                close_open_block_before(&mut out, st, *index);
                open_block(
                    &mut out,
                    st,
                    *index,
                    render_block(&ContentBlock::Text { text: String::new() }),
                );
            }
            if let Some(text) = text {
                let delta = JsonMap::new().set("type", string("text_delta")).set(
                    "text",
                    string(text.as_str()),
                );
                push_frame(
                    &mut out,
                    "content_block_delta",
                    JsonMap::new().set("type", string("content_block_delta")).set(
                        "index",
                        uint(*index),
                    ).set("delta", Json::Object(delta)),
                );
            } else if let Some(partial) = partial_json {
                push_input(&mut out, *index, partial.as_str());
            }
        },
        CanonicalStreamEvent::ContentBlockStop { index } => {
            emit_block_stop(&mut out, *index);
            if let Some(open) = st.open_block {
                if open == *index {
                    st.open_block = None;
                }
            }
        },
        CanonicalStreamEvent::MessageDelta { stop_reason, usage } => {
            ensure_message_start(&mut out, st);
            close_open_block(&mut out, st);
            let mut delta = JsonMap::new();
            if let Some(reason) = stop_reason {
                delta = delta.set("stop_reason", Json::Str(render_stop_reason(reason)));
            }
            let mut data = JsonMap::new().set("type", string("message_delta")).set(
                "delta",
                Json::Object(delta),
            );
            if let Some(u) = usage {
                data = data.set("usage", render_usage(u));
            }
            push_frame(&mut out, "message_delta", data);
        },
        CanonicalStreamEvent::MessageStop => {
            if !st.terminal_sent {
                ensure_message_start(&mut out, st);
                close_open_block(&mut out, st);
                push_frame(
                    &mut out,
                    "message_stop",
                    JsonMap::new().set("type", string("message_stop")),
                );
                st.terminal_sent = true;
            }
        },
    }
    out
}

/// Writes the text of a canonical event's frames.
pub fn render_stream_event(event: &CanonicalStreamEvent, st: &mut StreamRenderState) -> (r: Result<
    Vec<u8>,
    AdapterError,
>)
    ensures
        r matches Ok(bytes) && bytes@ == encode_utf8(
            frames_text(written(event@, old(st)@).frames),
        ),
        final(st)@ == written(event@, old(st)@).st,
        fragment_reads_back(event@),
{
    let frames = stream_frames(event, st);
    Ok(write_frames(&frames).as_bytes_vec())
}

} // verus!
