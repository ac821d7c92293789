//! The OpenAI Chat Completions dialect.

use vstd::prelude::*;
use vstd::utf8::encode_utf8;

use crate::json::{
    copy_or_null, double, json_read, json_text, nests_within, opt_double, opt_str, opt_uint, parse, put_opt,
    read_depth, reads_back, seq_view, str_values, string, string_array, string_items, strings_in, uint, Json, JsonMap,
    JsonV, Num,
};
use crate::llm::adapter::{
    collect_extra, collected_extra, emit_or_drop_extra, emitted, put_missing, result_view, AdapterError, AdapterErrorV,
};
use crate::llm::anthropic::{flat_text, flatten_content};
use crate::llm::canonical::{
    find_late_input, fragment_reads_back, late_input, next_index, BlockV, CanonicalMessage, CanonicalRequest, CanonicalResponse, CanonicalStreamEvent, CanonicalTool,
    ContentBlock, EventV, MessageV, ParseStateV, RenderStateV, ReportV, RequestV, ResponseV, Role, Sampling,
    SamplingV, StopReason, StopReasonV, StreamParseState, StreamRenderState, StreamToolRender, ToolChoice,
    ToolChoiceV, ToolRenderV, ToolV, TranslationReport, Usage,
};
use crate::llm::openai_laws::{law_request_round_trip, representable};
use crate::llm::delta::{Delta, DeltaV, Finish, FinishV, ToolCallDelta, ToolCallDeltaV, Usage as DeltaUsage};
use crate::sse::{chunks_text, write_chunks, Chunk, ChunkV, SseEvent};
use crate::text::{
    before_first, concat2, concat3, decimal, decimal_text, join, joined, opt_view, or_empty, rest_after, same,
    split_first, split_once, strip_prefix, strs, text_or_empty, texts, trim, trimmed, views,
};

pub use crate::llm::adapter::OpenAiAdapter;

verus! {

/// The media type and data of an image URL: those of a data URL, else no type and
/// the URL itself.
pub open spec fn image_of(url: Seq<char>) -> (Seq<char>, Seq<char>) {
    match rest_after(url, "data:"@) {
        Some(rest) => match split_first(rest, ',') {
            Some((meta, data)) => (before_first(meta, ';'), data),
            None => (Seq::empty(), url),
        },
        None => (Seq::empty(), url),
    }
}

/// Takes the media type and the data out of an image's URL.
pub fn parse_image_url(url: &str) -> (r: (String, String))
    ensures
        (r.0@, r.1@) == image_of(url@),
{
    if let Some(rest) = strip_prefix(url, "data:") {
        if let Some((meta, data)) = split_once(rest, ',') {
            let media_type = match split_once(meta, ';') {
                Some((kind, _)) => kind.to_owned(),
                None => meta.to_owned(),
            };
            return (media_type, data.to_owned());
        }
    }
    (String::new(), url.to_owned())
}

/// The content block that a content part stands for, if any.
pub open spec fn one_part(part: JsonV) -> Option<BlockV> {
    match part.text_at("type"@) {
        None => None,
        Some(kind) => if kind == "text"@ {
            Some(BlockV::Text { text: or_empty(part.text_at("text"@)) })
        } else if kind == "image_url"@ {
            match part.get("image_url"@) {
                None => None,
                Some(image) => match image.text_at("url"@) {
                    None => None,
                    Some(url) => Some(
                        BlockV::Image { media_type: image_of(url).0, data: image_of(url).1 },
                    ),
                },
            }
        } else {
            None
        },
    }
}

/// The blocks that some content parts stand for.
pub open spec fn parts_of(items: Seq<JsonV>) -> Seq<BlockV>
    decreases items.len(),
{
    if items.len() == 0 {
        Seq::empty()
    } else {
        let rest = parts_of(items.drop_last());
        match one_part(items.last()) {
            Some(block) => rest.push(block),
            None => rest,
        }
    }
}

/// The content of a message: one text block for a string, the parts of an array.
pub open spec fn content_of(content: JsonV) -> Seq<BlockV> {
    match content {
        JsonV::Str(s) => seq![BlockV::Text { text: s }],
        JsonV::Array(items) => parts_of(items),
        _ => Seq::empty(),
    }
}

fn parse_one_part(part: &Json) -> (r: Option<ContentBlock>)
    ensures
        opt_view(r) == one_part(part@),
{
    match part.str_at("type") {
        None => None,
        Some(kind) => {
            if same(kind.as_str(), "text") {
                Some(ContentBlock::Text { text: text_or_empty(part.str_at("text")) })
            } else if same(kind.as_str(), "image_url") {
                match part.get("image_url") {
                    None => None,
                    Some(image) => match image.str_at("url") {
                        None => None,
                        Some(url) => {
                            let (media_type, data) = parse_image_url(url.as_str());
                            Some(ContentBlock::Image { media_type, data })
                        },
                    },
                }
            } else {
                None
            }
        },
    }
}

fn parse_content_blocks(content: &Json) -> (r: Vec<ContentBlock>)
    ensures
        views(r@) == content_of(content@),
{
    let mut out: Vec<ContentBlock> = Vec::new();
    match content {
        Json::Str(s) => {
            out.push(ContentBlock::Text { text: s.clone() });
            assert(views(out@) == content_of(content@));
        },
        Json::Array(items) => {
            let ghost all = seq_view(items@);
            let mut i: usize = 0;
            while i < items.len()
                invariant
                    i <= items.len(),
                    all == seq_view(items@),
                    views(out@) == parts_of(all.take(i as int)),
                decreases items.len() - i,
            {
                let ghost before = views(out@);
                assert(all.take(i + 1).drop_last() == all.take(i as int));
                assert(all.take(i + 1).last() == items@[i as int]@);
                if let Some(block) = parse_one_part(&items[i]) {
                    out.push(block);
                    assert(views(out@) == before.push(block@));
                }
                i += 1;
            }
            assert(all.take(i as int) == all);
        },
        _ => {
            assert(views(out@) == content_of(content@));
        },
    }
    out
}

/// The input of a tool call: the document in its arguments text, null where
/// there is none.
pub open spec fn arguments_of(arguments: Option<Seq<char>>) -> JsonV {
    match arguments {
        None => JsonV::Null,
        Some(text) => match json_read(encode_utf8(text)) {
            Ok(v) => v,
            Err(_) => JsonV::Null,
        },
    }
}

/// The block that a tool call stands for: it must name a function.
pub open spec fn call_block(call: JsonV) -> Option<BlockV> {
    match call.get("function"@) {
        None => None,
        Some(function) => Some(
            BlockV::ToolUse {
                id: or_empty(call.text_at("id"@)),
                name: or_empty(function.text_at("name"@)),
                input: arguments_of(function.text_at("arguments"@)),
            },
        ),
    }
}

/// The blocks that some tool calls stand for.
pub open spec fn calls_of(items: Seq<JsonV>) -> Seq<BlockV>
    decreases items.len(),
{
    if items.len() == 0 {
        Seq::empty()
    } else {
        let rest = calls_of(items.drop_last());
        match call_block(items.last()) {
            Some(block) => rest.push(block),
            None => rest,
        }
    }
}

fn parse_call(call: &Json) -> (r: Option<ContentBlock>)
    ensures
        opt_view(r) == call_block(call@),
{
    match call.get("function") {
        None => None,
        Some(function) => {
            let input = match function.str_at("arguments") {
                None => Json::Null,
                Some(text) => match parse(text.as_str().as_bytes()) {
                    Ok(v) => v,
                    Err(_) => Json::Null,
                },
            };
            Some(
                ContentBlock::ToolUse {
                    id: text_or_empty(call.str_at("id")),
                    name: text_or_empty(function.str_at("name")),
                    input,
                },
            )
        },
    }
}

fn push_calls(calls: &Vec<Json>, out: &mut Vec<ContentBlock>)
    ensures
        views(final(out)@) == views(old(out)@) + calls_of(seq_view(calls@)),
{
    let ghost all = seq_view(calls@);
    let ghost base = views(out@);
    let mut i: usize = 0;
    assert(views(out@) == base + calls_of(all.take(0)));
    while i < calls.len()
        invariant
            i <= calls.len(),
            all == seq_view(calls@),
            views(out@) == base + calls_of(all.take(i as int)),
        decreases calls.len() - i,
    {
        let ghost before = views(out@);
        assert(all.take(i + 1).drop_last() == all.take(i as int));
        assert(all.take(i + 1).last() == calls@[i as int]@);
        if let Some(block) = parse_call(&calls[i]) {
            out.push(block);
            assert(views(out@) == before.push(block@));
            assert(before.push(block@) == base + calls_of(all.take(i + 1)));
        }
        i += 1;
    }
    assert(all.take(i as int) == all);
}

/// Whether a role's messages are tool results.
pub open spec fn tool_role(role: Seq<char>) -> bool {
    role == "tool"@ || role == "function"@
}

/// The content of a message of a role: the result of a tool, or its content
/// followed by its tool calls.
pub open spec fn message_blocks(role: Seq<char>, m: JsonV) -> Seq<BlockV> {
    if tool_role(role) {
        seq![
            BlockV::ToolResult {
                id: match m.text_at("tool_call_id"@) {
                    Some(id) => id,
                    None => or_empty(m.text_at("name"@)),
                },
                content: match m.get("content"@) {
                    Some(content) => flat_text(content),
                    None => Seq::empty(),
                },
                is_error: false,
            },
        ]
    } else {
        (match m.get("content"@) {
            Some(content) => content_of(content),
            None => Seq::empty(),
        }) + (match m.items_at("tool_calls"@) {
            Some(calls) => calls_of(calls),
            None => Seq::empty(),
        })
    }
}

fn message_content(role: &str, m: &Json) -> (r: Vec<ContentBlock>)
    ensures
        views(r@) == message_blocks(role@, m@),
{
    if same(role, "tool") || same(role, "function") {
        let id = match m.str_at("tool_call_id") {
            Some(id) => id.clone(),
            None => text_or_empty(m.str_at("name")),
        };
        let content = match m.get("content") {
            Some(content) => flatten_content(content),
            None => String::new(),
        };
        let mut out: Vec<ContentBlock> = Vec::new();
        out.push(ContentBlock::ToolResult { id, content, is_error: false });
        assert(views(out@) == message_blocks(role@, m@));
        return out;
    }
    let mut blocks = match m.get("content") {
        Some(content) => parse_content_blocks(content),
        None => Vec::new(),
    };
    if let Some(calls) = m.array_at("tool_calls") {
        push_calls(calls, &mut blocks);
    }
    assert(views(blocks@) == message_blocks(role@, m@));
    blocks
}

/// The role of a name; unknown names are the user's.
pub open spec fn role_of(name: Seq<char>) -> Role {
    if name == "system"@ {
        Role::System
    } else if name == "assistant"@ {
        Role::Assistant
    } else if tool_role(name) {
        Role::Tool
    } else {
        Role::User
    }
}

fn parse_role(name: &str) -> (r: Role)
    ensures
        r == role_of(name@),
{
    if same(name, "system") {
        Role::System
    } else if same(name, "assistant") {
        Role::Assistant
    } else if same(name, "tool") || same(name, "function") {
        Role::Tool
    } else {
        Role::User
    }
}

/// The stop reason of a finish reason; unknown ones are kept.
pub open spec fn stop_reason_of(name: Seq<char>) -> StopReasonV {
    if name == "stop"@ {
        StopReasonV::EndTurn
    } else if name == "length"@ {
        StopReasonV::MaxTokens
    } else if name == "tool_calls"@ || name == "function_call"@ {
        StopReasonV::ToolUse
    } else {
        StopReasonV::Other(name)
    }
}

fn parse_stop_reason(name: &str) -> (r: StopReason)
    ensures
        r@ == stop_reason_of(name@),
{
    if same(name, "stop") {
        StopReason::EndTurn
    } else if same(name, "length") {
        StopReason::MaxTokens
    } else if same(name, "tool_calls") || same(name, "function_call") {
        StopReason::ToolUse
    } else {
        StopReason::Other(name.to_owned())
    }
}

/// The tool choice that a value stands for, if any.
pub open spec fn tool_choice_of(value: JsonV) -> Option<ToolChoiceV> {
    match value {
        JsonV::Str(s) => if s == "auto"@ {
            Some(ToolChoiceV::Auto)
        } else if s == "none"@ {
            Some(ToolChoiceV::Never)
        } else if s == "required"@ {
            Some(ToolChoiceV::Any)
        } else {
            None
        },
        _ => match value.get("function"@) {
            None => None,
            Some(function) => match function.text_at("name"@) {
                Some(name) => Some(ToolChoiceV::Tool(name)),
                None => None,
            },
        },
    }
}

fn parse_tool_choice(value: &Json) -> (r: Option<ToolChoice>)
    ensures
        opt_view(r) == tool_choice_of(value@),
{
    match value {
        Json::Str(s) => {
            if same(s.as_str(), "auto") {
                Some(ToolChoice::Auto)
            } else if same(s.as_str(), "none") {
                Some(ToolChoice::Never)
            } else if same(s.as_str(), "required") {
                Some(ToolChoice::Any)
            } else {
                None
            }
        },
        _ => match value.get("function") {
            None => None,
            Some(function) => match function.str_at("name") {
                Some(name) => Some(ToolChoice::Tool(name.clone())),
                None => None,
            },
        },
    }
}

/// The stop sequences of a value: one string, or the strings of an array.
pub open spec fn stop_of(value: JsonV) -> Seq<Seq<char>> {
    match value {
        JsonV::Str(s) => seq![s],
        JsonV::Array(items) => string_items(items),
        _ => Seq::empty(),
    }
}

fn parse_stop(value: &Json) -> (r: Vec<String>)
    ensures
        texts(r@) == stop_of(value@),
{
    match value {
        Json::Str(s) => {
            let mut out: Vec<String> = Vec::new();
            out.push(s.clone());
            assert(texts(out@) == stop_of(value@));
            out
        },
        Json::Array(items) => strings_in(items),
        _ => {
            let out: Vec<String> = Vec::new();
            assert(texts(out@) == stop_of(value@));
            out
        },
    }
}

/// The tool that a function definition stands for: it must have a name.
pub open spec fn function_tool(function: JsonV) -> Option<ToolV> {
    match function.text_at("name"@) {
        None => None,
        Some(name) => Some(
            ToolV {
                name,
                description: function.text_at("description"@),
                input_schema: match function.get("parameters"@) {
                    Some(schema) => schema,
                    None => JsonV::Null,
                },
            },
        ),
    }
}

/// The tool that an entry stands for; under `wrapped` the definition is its
/// `function` member.
pub open spec fn entry_tool(entry: JsonV, wrapped: bool) -> Option<ToolV> {
    if wrapped {
        match entry.get("function"@) {
            Some(function) => function_tool(function),
            None => None,
        }
    } else {
        function_tool(entry)
    }
}

/// The tools that some entries stand for.
pub open spec fn tools_of(items: Seq<JsonV>, wrapped: bool) -> Seq<ToolV>
    decreases items.len(),
{
    if items.len() == 0 {
        Seq::empty()
    } else {
        let rest = tools_of(items.drop_last(), wrapped);
        match entry_tool(items.last(), wrapped) {
            Some(tool) => rest.push(tool),
            None => rest,
        }
    }
}

/// The tools of a request: its tools, or its functions where it has no tools.
pub open spec fn request_tools(v: JsonV) -> Seq<ToolV> {
    match v.items_at("tools"@) {
        Some(items) => tools_of(items, true),
        None => match v.items_at("functions"@) {
            Some(items) => tools_of(items, false),
            None => Seq::empty(),
        },
    }
}

fn parse_function(function: &Json) -> (r: Option<CanonicalTool>)
    ensures
        opt_view(r) == function_tool(function@),
{
    match function.str_at("name") {
        None => None,
        Some(name) => {
            let description = match function.str_at("description") {
                Some(d) => Some(d.clone()),
                None => None,
            };
            let tool = CanonicalTool {
                name: name.clone(),
                description,
                input_schema: copy_or_null(function.get("parameters")),
            };
            assert(tool@ == function_tool(function@)->Some_0);
            Some(tool)
        },
    }
}

fn parse_entries(items: &Vec<Json>, wrapped: bool) -> (r: Vec<CanonicalTool>)
    ensures
        views(r@) == tools_of(seq_view(items@), wrapped),
{
    let ghost all = seq_view(items@);
    let mut out: Vec<CanonicalTool> = Vec::new();
    let mut i: usize = 0;
    while i < items.len()
        invariant
            i <= items.len(),
            all == seq_view(items@),
            views(out@) == tools_of(all.take(i as int), wrapped),
        decreases items.len() - i,
    {
        let ghost before = views(out@);
        assert(all.take(i + 1).drop_last() == all.take(i as int));
        assert(all.take(i + 1).last() == items@[i as int]@);
        let tool = if wrapped {
            match items[i].get("function") {
                Some(function) => parse_function(function),
                None => None,
            }
        } else {
            parse_function(&items[i])
        };
        if let Some(tool) = tool {
            out.push(tool);
            assert(views(out@) == before.push(tool@));
        }
        i += 1;
    }
    assert(all.take(i as int) == all);
    out
}

fn parse_tools(value: &Json) -> (r: Vec<CanonicalTool>)
    ensures
        views(r@) == request_tools(value@),
{
    match value.array_at("tools") {
        Some(items) => parse_entries(items, true),
        None => match value.array_at("functions") {
            Some(items) => parse_entries(items, false),
            None => {
                let out: Vec<CanonicalTool> = Vec::new();
                assert(views(out@) == Seq::<ToolV>::empty());
                out
            },
        },
    }
}

/// The role name of a message, empty where it has none.
pub open spec fn role_name(m: JsonV) -> Seq<char> {
    or_empty(m.text_at("role"@))
}

/// The texts of the system messages among some messages.
pub open spec fn system_parts(items: Seq<JsonV>) -> Seq<Seq<char>>
    decreases items.len(),
{
    if items.len() == 0 {
        Seq::empty()
    } else {
        let rest = system_parts(items.drop_last());
        let m = items.last();
        if role_name(m) == "system"@ {
            rest.push(
                match m.get("content"@) {
                    Some(content) => flat_text(content),
                    None => Seq::empty(),
                },
            )
        } else {
            rest
        }
    }
}

/// The messages among some values that are not system messages.
pub open spec fn messages_of(items: Seq<JsonV>) -> Seq<MessageV>
    decreases items.len(),
{
    if items.len() == 0 {
        Seq::empty()
    } else {
        let rest = messages_of(items.drop_last());
        let m = items.last();
        if role_name(m) == "system"@ {
            rest
        } else {
            rest.push(
                MessageV { role: role_of(role_name(m)), content: message_blocks(role_name(m), m) },
            )
        }
    }
}

fn parse_messages(items: &Vec<Json>) -> (r: (Vec<String>, Vec<CanonicalMessage>))
    ensures
        texts(r.0@) == system_parts(seq_view(items@)),
        views(r.1@) == messages_of(seq_view(items@)),
{
    let ghost all = seq_view(items@);
    let mut parts: Vec<String> = Vec::new();
    let mut messages: Vec<CanonicalMessage> = Vec::new();
    let mut i: usize = 0;
    while i < items.len()
        invariant
            i <= items.len(),
            all == seq_view(items@),
            texts(parts@) == system_parts(all.take(i as int)),
            views(messages@) == messages_of(all.take(i as int)),
        decreases items.len() - i,
    {
        let ghost parts0 = texts(parts@);
        let ghost messages0 = views(messages@);
        let m = &items[i];
        assert(all.take(i + 1).drop_last() == all.take(i as int));
        assert(all.take(i + 1).last() == m@);
        let role = text_or_empty(m.str_at("role"));
        if same(role.as_str(), "system") {
            let text = match m.get("content") {
                Some(content) => flatten_content(content),
                None => String::new(),
            };
            parts.push(text);
            assert(texts(parts@) == parts0.push(text@));
        } else {
            let message = CanonicalMessage {
                role: parse_role(role.as_str()),
                content: message_content(role.as_str(), m),
            };
            messages.push(message);
            assert(views(messages@) == messages0.push(message@));
        }
        i += 1;
    }
    assert(all.take(i as int) == all);
    (parts, messages)
}

/// The request fields that have a place of their own.
pub open spec fn request_fields() -> Seq<Seq<char>> {
    seq![
        "model"@,
        "messages"@,
        "tools"@,
        "functions"@,
        "tool_choice"@,
        "max_tokens"@,
        "max_completion_tokens"@,
        "temperature"@,
        "top_p"@,
        "stop"@,
        "stream"@,
    ]
}

/// The response fields that have a place of their own.
pub open spec fn response_fields() -> Seq<Seq<char>> {
    seq!["model"@, "choices"@, "usage"@]
}

/// The system prompt of its parts: one per line; none where there is no part.
pub open spec fn system_text(parts: Seq<Seq<char>>) -> Option<Seq<char>> {
    if parts.len() == 0 {
        None
    } else {
        Some(joined(parts, "\n"@))
    }
}

/// The request that a body stands for. A body must name its model.
pub open spec fn request_of(v: JsonV) -> Result<RequestV, AdapterErrorV> {
    match v.text_at("model"@) {
        None => Err(AdapterErrorV::Malformed("missing required field 'model'"@)),
        Some(model) => {
            let items = match v.items_at("messages"@) {
                Some(items) => items,
                None => Seq::empty(),
            };
            Ok(
                RequestV {
                    model,
                    messages: messages_of(items),
                    system: system_text(system_parts(items)),
                    tools: request_tools(v),
                    tool_choice: match v.get("tool_choice"@) {
                        Some(choice) => tool_choice_of(choice),
                        None => None,
                    },
                    sampling: SamplingV {
                        temperature: v.double_at("temperature"@),
                        top_p: v.double_at("top_p"@),
                        top_k: None,
                        max_tokens: match v.uint_at("max_tokens"@) {
                            Some(n) => Some(n),
                            None => v.uint_at("max_completion_tokens"@),
                        },
                        stop: match v.get("stop"@) {
                            Some(stop) => stop_of(stop),
                            None => Seq::empty(),
                        },
                    },
                    stream: v.get("stream"@) == Some(JsonV::Bool(true)),
                    extra: collected_extra(v, request_fields(), "openai"@),
                },
            )
        },
    }
}

/// The request that a body's bytes stand for.
pub open spec fn request_read(body: Seq<u8>) -> Result<RequestV, AdapterErrorV> {
    match json_read(body) {
        Err(e) => Err(AdapterErrorV::Malformed("invalid JSON: "@ + e)),
        Ok(v) => request_of(v),
    }
}

/// Reads a request from the value of its body.
pub fn parse_request_value(value: &Json) -> (r: Result<CanonicalRequest, AdapterError>)
    ensures
        result_view(r) == request_of(value@),
{
    let model = match value.str_at("model") {
        Some(model) => model.clone(),
        None => {
            return Err(AdapterError::Malformed("missing required field 'model'".to_owned()));
        },
    };
    let ghost items_v = match value@.items_at("messages"@) {
        Some(items) => items,
        None => Seq::empty(),
    };
    let (parts, messages) = match value.array_at("messages") {
        Some(items) => parse_messages(items),
        None => (Vec::new(), Vec::new()),
    };
    assert(texts(parts@) == system_parts(items_v));
    assert(views(messages@) == messages_of(items_v));
    let system = if parts.len() == 0 {
        None
    } else {
        Some(join(&parts, "\n"))
    };
    let tools = parse_tools(value);
    let tool_choice = match value.get("tool_choice") {
        Some(choice) => parse_tool_choice(choice),
        None => None,
    };
    let max_tokens = match value.u64_at("max_tokens") {
        Some(n) => Some(n),
        None => value.u64_at("max_completion_tokens"),
    };
    let stop = match value.get("stop") {
        Some(stop) => parse_stop(stop),
        None => Vec::new(),
    };
    let sampling = Sampling {
        temperature: value.double_at("temperature"),
        top_p: value.double_at("top_p"),
        top_k: None,
        max_tokens,
        stop,
    };
    let stream: bool = match value.get("stream") {
        Some(Json::Bool(b)) => *b,
        _ => false,
    };
    let known = [
        "model",
        "messages",
        "tools",
        "functions",
        "tool_choice",
        "max_tokens",
        "max_completion_tokens",
        "temperature",
        "top_p",
        "stop",
        "stream",
    ];
    assert(strs(known@) == request_fields());
    let extra = collect_extra(value, known.as_slice(), "openai");
    let r = CanonicalRequest {
        model,
        messages,
        system,
        tools,
        tool_choice,
        sampling,
        stream,
        extra,
    };
    assert(r@.sampling == request_of(value@)->Ok_0.sampling);
    assert(r@ == request_of(value@)->Ok_0);
    Ok(r)
}

/// Reads a request from its body.
pub fn parse_body(body: &[u8]) -> (r: Result<CanonicalRequest, AdapterError>)
    ensures
        result_view(r) == request_read(body@),
{
    match parse(body) {
        Err(e) => Err(AdapterError::Malformed(concat2("invalid JSON: ", e.as_str()))),
        Ok(value) => parse_request_value(&value),
    }
}

/// The token counts of a usage value.
pub open spec fn usage_of(u: JsonV) -> Usage {
    Usage {
        input_tokens: u.uint_at("prompt_tokens"@),
        output_tokens: u.uint_at("completion_tokens"@),
    }
}

fn parse_usage(u: &Json) -> (r: Usage)
    ensures
        r == usage_of(u@),
{
    Usage { input_tokens: u.u64_at("prompt_tokens"), output_tokens: u.u64_at("completion_tokens") }
}

/// The first choice of a response, null where there is none.
pub open spec fn first_choice(v: JsonV) -> JsonV {
    match v.items_at("choices"@) {
        Some(items) if items.len() > 0 => items[0],
        _ => JsonV::Null,
    }
}

/// The response that a body stands for: that of its first choice.
pub open spec fn response_of(v: JsonV) -> ResponseV {
    let choice = first_choice(v);
    ResponseV {
        model: or_empty(v.text_at("model"@)),
        content: match choice.get("message"@) {
            Some(m) => message_blocks("assistant"@, m),
            None => Seq::empty(),
        },
        stop_reason: match choice.text_at("finish_reason"@) {
            Some(name) => Some(stop_reason_of(name)),
            None => None,
        },
        usage: match v.get("usage"@) {
            Some(u) => Some(usage_of(u)),
            None => None,
        },
        extra: collected_extra(v, response_fields(), "openai"@),
    }
}

/// The response that a body's bytes stand for.
pub open spec fn response_read(body: Seq<u8>) -> Result<ResponseV, AdapterErrorV> {
    match json_read(body) {
        Err(e) => Err(AdapterErrorV::Malformed("invalid JSON: "@ + e)),
        Ok(v) => Ok(response_of(v)),
    }
}

/// Reads a response from the value of its body.
pub fn parse_response_value(value: &Json) -> (r: CanonicalResponse)
    ensures
        r@ == response_of(value@),
{
    let nothing = Json::Null;
    let choice = match value.array_at("choices") {
        Some(items) => if items.len() > 0 {
            &items[0]
        } else {
            &nothing
        },
        None => &nothing,
    };
    let content = match choice.get("message") {
        Some(m) => message_content("assistant", m),
        None => Vec::new(),
    };
    let stop_reason = match choice.str_at("finish_reason") {
        Some(name) => Some(parse_stop_reason(name.as_str())),
        None => None,
    };
    let usage = match value.get("usage") {
        Some(u) => Some(parse_usage(u)),
        None => None,
    };
    let known = ["model", "choices", "usage"];
    assert(strs(known@) == response_fields());
    let extra = collect_extra(value, known.as_slice(), "openai");
    let r = CanonicalResponse {
        model: text_or_empty(value.str_at("model")),
        content,
        stop_reason,
        usage,
        extra,
    };
    assert(r@ == response_of(value@));
    r
}

/// Reads a response from its body.
pub fn parse_response_body(body: &[u8]) -> (r: Result<CanonicalResponse, AdapterError>)
    ensures
        result_view(r) == response_read(body@),
{
    match parse(body) {
        Err(e) => Err(AdapterError::Malformed(concat2("invalid JSON: ", e.as_str()))),
        Ok(value) => Ok(parse_response_value(&value)),
    }
}

/// The URL of an image: a data URL where the media type is known.
pub open spec fn image_url(media_type: Seq<char>, data: Seq<char>) -> Seq<char> {
    if media_type.len() == 0 {
        data
    } else {
        "data:"@ + media_type + ";base64,"@ + data
    }
}

/// Writes the URL of an image.
pub fn render_image_url(media_type: &str, data: &str) -> (r: String)
    ensures
        r@ == image_url(media_type@, data@),
{
    if media_type.is_empty() {
        data.to_owned()
    } else {
        let mut out = concat3("data:", media_type, ";base64,");
        out.append(data);
        out
    }
}

/// Whether a block is part of a message's visible content.
pub open spec fn visible_block(b: BlockV) -> bool {
    b is Text || b is Image
}

/// The visible blocks among the content.
pub open spec fn visible(blocks: Seq<BlockV>) -> Seq<BlockV>
    decreases blocks.len(),
{
    if blocks.len() == 0 {
        Seq::empty()
    } else {
        let rest = visible(blocks.drop_last());
        if visible_block(blocks.last()) {
            rest.push(blocks.last())
        } else {
            rest
        }
    }
}

/// The content part of a visible block.
pub open spec fn part_value(b: BlockV) -> JsonV {
    match b {
        BlockV::Text { text } => JsonV::Object(
            map!["type"@ => JsonV::Str("text"@), "text"@ => JsonV::Str(text)],
        ),
        BlockV::Image { media_type, data } => JsonV::Object(
            map![
                "type"@ => JsonV::Str("image_url"@),
                "image_url"@ => JsonV::Object(map!["url"@ => JsonV::Str(image_url(media_type, data))]),
            ],
        ),
        _ => JsonV::Null,
    }
}

/// The content member of a message: a lone text as a string, nothing as null,
/// anything else as an array of parts.
pub open spec fn content_value(blocks: Seq<BlockV>) -> JsonV {
    if blocks.len() == 0 {
        JsonV::Null
    } else if blocks.len() == 1 && blocks[0] is Text {
        JsonV::Str(blocks[0]->Text_text)
    } else {
        JsonV::Array(blocks.map_values(|b: BlockV| part_value(b)))
    }
}

fn render_part(block: &ContentBlock) -> (r: Json)
    ensures
        r@ == part_value(block@),
{
    match block {
        ContentBlock::Text { text } => Json::Object(
            JsonMap::new().set("type", string("text")).set("text", string(text.as_str())),
        ),
        ContentBlock::Image { media_type, data } => {
            let url = render_image_url(media_type.as_str(), data.as_str());
            let image = JsonMap::new().set("url", Json::Str(url));
            Json::Object(
                JsonMap::new().set("type", string("image_url")).set("image_url", Json::Object(image)),
            )
        },
        _ => Json::Null,
    }
}

fn write_content_parts(blocks: &Vec<&ContentBlock>) -> (r: Json)
    requires
        forall|i: int| 0 <= i < blocks@.len() ==> visible_block(#[trigger] views(blocks@)[i]),
    ensures
        r@ == content_value(views(blocks@)),
{
    if blocks.len() == 0 {
        return Json::Null;
    }
    if blocks.len() == 1 {
        if let ContentBlock::Text { text } = blocks[0] {
            assert(views(blocks@)[0] == blocks@[0]@);
            return Json::Str(text.clone());
        }
        assert(views(blocks@)[0] == blocks@[0]@);
    }
    let mut parts: Vec<Json> = Vec::new();
    let mut i: usize = 0;
    while i < blocks.len()
        invariant
            i <= blocks.len(),
            parts@.len() == i,
            forall|k: int| 0 <= k < i ==> (#[trigger] parts@[k])@ == part_value(blocks@[k]@),
        decreases blocks.len() - i,
    {
        parts.push(render_part(blocks[i]));
        i += 1;
    }
    assert(seq_view(parts@) == views(blocks@).map_values(|b: BlockV| part_value(b)));
    Json::Array(parts)
}

/// Whether all blocks can stand in a message's content.
pub open spec fn all_visible(blocks: Seq<BlockV>) -> bool {
    forall|i: int| 0 <= i < blocks.len() ==> visible_block(#[trigger] blocks[i])
}

/// The error for a block that cannot stand in a message's content.
pub open spec fn misplaced_block() -> AdapterErrorV {
    AdapterErrorV::Malformed("render_content_parts received a ToolUse/ToolResult block; callers must filter content parts to Text/Image only before calling"@)
}

/// Writes the content of a message; an error where a block has its place elsewhere.
pub fn render_content_parts(blocks: &Vec<&ContentBlock>) -> (r: Result<Json, AdapterError>)
    ensures
        match r {
            Ok(v) => all_visible(views(blocks@)) && v@ == content_value(views(blocks@)),
            Err(e) => !all_visible(views(blocks@)) && e@ == misplaced_block(),
        },
{
    let ghost all = views(blocks@);
    let mut i: usize = 0;
    while i < blocks.len()
        invariant
            i <= blocks.len(),
            all == views(blocks@),
            forall|k: int| 0 <= k < i ==> visible_block(#[trigger] all[k]),
        decreases blocks.len() - i,
    {
        assert(all[i as int] == blocks@[i as int]@);
        match blocks[i] {
            ContentBlock::Text { .. } => {},
            ContentBlock::Image { .. } => {},
            _ => {
                assert(!visible_block(all[i as int]));
                return Err(
                    AdapterError::Malformed(
                        "render_content_parts received a ToolUse/ToolResult block; callers must filter content parts to Text/Image only before calling".to_owned(),
                    ),
                );
            },
        }
        i += 1;
    }
    Ok(write_content_parts(blocks))
}


/// The value of a tool call.
pub open spec fn call_value(id: Seq<char>, name: Seq<char>, input: JsonV) -> JsonV {
    JsonV::Object(
        map![
            "id"@ => JsonV::Str(id),
            "type"@ => JsonV::Str("function"@),
            "function"@ => JsonV::Object(map![
                "name"@ => JsonV::Str(name),
                "arguments"@ => JsonV::Str(json_text(input)),
            ]),
        ],
    )
}

/// Whether the inputs of all tool calls read back from their own texts.
pub open spec fn inputs_read_back(blocks: Seq<BlockV>) -> bool {
    forall|i: int|
        0 <= i < blocks.len() && (#[trigger] blocks[i]) is ToolUse ==> reads_back(
            blocks[i]->ToolUse_input,
        )
}

fn render_call(id: &str, name: &str, input: &Json) -> (r: Json)
    ensures
        r@ == call_value(id@, name@, input@),
        reads_back(input@),
{
    let arguments = input.to_text();
    let function = JsonMap::new().set("name", string(name)).set(
        "arguments",
        string(arguments.as_str()),
    );
    Json::Object(
        JsonMap::new().set("id", string(id)).set("type", string("function")).set(
            "function",
            Json::Object(function),
        ),
    )
}

/// The values of the tool calls among the content.
pub open spec fn call_values(blocks: Seq<BlockV>) -> Seq<JsonV>
    decreases blocks.len(),
{
    if blocks.len() == 0 {
        Seq::empty()
    } else {
        let rest = call_values(blocks.drop_last());
        match blocks.last() {
            BlockV::ToolUse { id, name, input } => rest.push(call_value(id, name, input)),
            _ => rest,
        }
    }
}

/// The message of a tool result.
pub open spec fn result_value(id: Seq<char>, content: Seq<char>) -> JsonV {
    JsonV::Object(
        map![
            "role"@ => JsonV::Str("tool"@),
            "tool_call_id"@ => JsonV::Str(id),
            "content"@ => JsonV::Str(content),
        ],
    )
}

/// The messages of the tool results among the content.
pub open spec fn result_values(blocks: Seq<BlockV>) -> Seq<JsonV>
    decreases blocks.len(),
{
    if blocks.len() == 0 {
        Seq::empty()
    } else {
        let rest = result_values(blocks.drop_last());
        match blocks.last() {
            BlockV::ToolResult { id, content, .. } => rest.push(result_value(id, content)),
            _ => rest,
        }
    }
}

/// The report on the tool results among the content: the dialect has no mark for
/// a failed one.
pub open spec fn error_drops(blocks: Seq<BlockV>, index: nat, report: ReportV) -> ReportV
    decreases blocks.len(),
{
    if blocks.len() == 0 {
        report
    } else {
        let before = error_drops(blocks.drop_last(), index, report);
        match blocks.last() {
            BlockV::ToolResult { is_error: true, .. } => before.dropping(
                "messages["@ + decimal(index) + "].content.tool_result.is_error"@,
                "openai tool-role message has no is_error field"@,
            ),
            _ => before,
        }
    }
}

/// What a message is written as, and the report on it.
#[verifier::ext_equal]
pub struct Sent {
    pub values: Seq<JsonV>,
    pub report: ReportV,
}

/// The remark on a tool call in a message that is not the assistant's.
pub open spec fn forced_role_note(index: nat, role: Role) -> Seq<char> {
    "messages["@ + decimal(index) + "]: role \""@ + role.name()
        + "\" has tool_use content, which openai only supports on an assistant message; rendered role forced to \"assistant\""@
}

/// The value of a message with the given role, content and tool calls.
pub open spec fn message_object(role: Seq<char>, content: JsonV, calls: Seq<JsonV>) -> JsonV {
    let m = map!["role"@ => JsonV::Str(role), "content"@ => content];
    JsonV::Object(
        if calls.len() > 0 {
            m.insert("tool_calls"@, JsonV::Array(calls))
        } else {
            m
        },
    )
}

/// Writes a message: each tool result as a message of its own, then the rest. What
/// is left of a tool's message without a call to answer is dropped.
pub open spec fn sent_message(m: MessageV, index: nat, report: ReportV) -> Sent {
    let shown = visible(m.content);
    let calls = call_values(m.content);
    let results = result_values(m.content);
    let report = error_drops(m.content, index, report);
    if shown.len() == 0 && calls.len() == 0 && results.len() > 0 {
        Sent { values: results, report }
    } else if calls.len() > 0 {
        Sent {
            values: results.push(message_object("assistant"@, content_value(shown), calls)),
            report: if m.role == Role::Assistant {
                report
            } else {
                report.noting(forced_role_note(index, m.role))
            },
        }
    } else if m.role == Role::Tool {
        Sent {
            values: results,
            report: report.dropping(
                "messages["@ + decimal(index) + "]"@,
                "openai tool-role message has no tool_call_id to pair with non-tool_result content; message dropped"@,
            ),
        }
    } else {
        Sent {
            values: results.push(message_object(m.role.name(), content_value(shown), calls)),
            report,
        }
    }
}

proof fn lemma_visible(blocks: Seq<BlockV>)
    ensures
        forall|i: int| 0 <= i < visible(blocks).len() ==> visible_block(#[trigger] visible(blocks)[i]),
    decreases blocks.len(),
{
    if blocks.len() > 0 {
        let rest = visible(blocks.drop_last());
        lemma_visible(blocks.drop_last());
        assert forall|i: int| 0 <= i < visible(blocks).len() implies visible_block(
            #[trigger] visible(blocks)[i],
        ) by {
            if i < rest.len() {
                assert(visible(blocks)[i] == rest[i]);
            }
        }
    }
}

#[verifier::rlimit(40)]
fn render_message(
    msg: &CanonicalMessage,
    index: usize,
    report: &mut TranslationReport,
    out: &mut Vec<Json>,
)
    ensures
        ({
            let sent = sent_message(msg@, index as nat, old(report)@);
            &&& seq_view(final(out)@) == seq_view(old(out)@) + sent.values
            &&& final(report)@ == sent.report
        }),
        inputs_read_back(msg@.content),
{
    let ghost all = msg@.content;
    let ghost base = seq_view(out@);
    let index_text = decimal_text(index as u64);
    let mut shown: Vec<&ContentBlock> = Vec::new();
    let mut calls: Vec<Json> = Vec::new();
    let mut saw_result: bool = false;
    assert(base == base + result_values(all.take(0)));
    let mut i: usize = 0;
    while i < msg.content.len()
        invariant
            i <= msg.content.len(),
            all == views(msg.content@),
            index_text@ == decimal(index as nat),
            views(shown@) == visible(all.take(i as int)),
            seq_view(calls@) == call_values(all.take(i as int)),
            seq_view(out@) == base + result_values(all.take(i as int)),
            saw_result == (result_values(all.take(i as int)).len() > 0),
            report@ == error_drops(all.take(i as int), index as nat, old(report)@),
            inputs_read_back(all.take(i as int)),
        decreases msg.content.len() - i,
    {
        let ghost shown0 = views(shown@);
        let ghost calls0 = seq_view(calls@);
        let ghost out0 = seq_view(out@);
        let block = &msg.content[i];
        let ghost t = all.take(i + 1);
        assert(t.drop_last() == all.take(i as int));
        assert(t.last() == block@);
        match block {
            ContentBlock::ToolUse { id, name, input } => {
                let call = render_call(id.as_str(), name.as_str(), input);
                calls.push(call);
                assert(seq_view(calls@) == calls0.push(call@));
            },
            ContentBlock::ToolResult { id, content, is_error } => {
                saw_result = true;
                if *is_error {
                    report.drop(
                        concat3(
                            "messages[",
                            index_text.as_str(),
                            "].content.tool_result.is_error",
                        ),
                        "openai tool-role message has no is_error field".to_owned(),
                    );
                }
                let result = Json::Object(
                    JsonMap::new().set("role", string("tool")).set(
                        "tool_call_id",
                        string(id.as_str()),
                    ).set("content", string(content.as_str())),
                );
                assert(result@ == result_value(id@, content@));
                out.push(result);
                assert(seq_view(out@) == out0.push(result@));
                assert(out0.push(result@) == base + result_values(t));
            },
            _ => {
                shown.push(block);
                assert(views(shown@) == shown0.push(block@));
            },
        }
        assert forall|k: int| 0 <= k < t.len() && (#[trigger] t[k]) is ToolUse implies reads_back(
            t[k]->ToolUse_input,
        ) by {
            if k < i {
                assert(all.take(i as int)[k] == t[k]);
            }
        }
        i += 1;
    }
    assert(all.take(i as int) == all);
    proof {
        lemma_visible(all);
    }
    if shown.len() == 0 && calls.len() == 0 && saw_result {
        return ;
    }
    let role: &str = if calls.len() > 0 {
        if msg.role != Role::Assistant {
            let mut note = concat3("messages[", index_text.as_str(), "]: role \"");
            note.append(msg.role.as_str());
            note.append(
                "\" has tool_use content, which openai only supports on an assistant message; rendered role forced to \"assistant\"",
            );
            report.note(note);
        }
        "assistant"
    } else if msg.role == Role::Tool {
        report.drop(
            concat3("messages[", index_text.as_str(), "]"),
            "openai tool-role message has no tool_call_id to pair with non-tool_result content; message dropped".to_owned(),
        );
        return ;
    } else {
        msg.role.as_str()
    };
    let ghost out1 = seq_view(out@);
    let mut obj = JsonMap::new().set("role", string(role)).set(
        "content",
        write_content_parts(&shown),
    );
    if calls.len() > 0 {
        obj = obj.set("tool_calls", Json::Array(calls));
    }
    let value = Json::Object(obj);
    assert(value@ == message_object(role@, content_value(visible(all)), call_values(all)));
    out.push(value);
    assert(seq_view(out@) == out1.push(value@));
    assert(seq_view(out@) == base + result_values(all).push(value@));
}

/// Writes the messages: the system prompt in front, then each message.
pub open spec fn sent_messages(
    system: Option<Seq<char>>,
    messages: Seq<MessageV>,
    report: ReportV,
) -> Sent
    decreases messages.len(),
{
    if messages.len() == 0 {
        Sent {
            values: match system {
                Some(s) => seq![
                    JsonV::Object(map!["role"@ => JsonV::Str("system"@), "content"@ => JsonV::Str(s)]),
                ],
                None => Seq::empty(),
            },
            report,
        }
    } else {
        let before = sent_messages(system, messages.drop_last(), report);
        let one = sent_message(messages.last(), (messages.len() - 1) as nat, before.report);
        Sent { values: before.values + one.values, report: one.report }
    }
}

/// Whether the inputs of all tool calls in all messages read back.
pub open spec fn messages_read_back(messages: Seq<MessageV>) -> bool {
    forall|i: int| 0 <= i < messages.len() ==> inputs_read_back((#[trigger] messages[i]).content)
}

fn render_messages(req: &CanonicalRequest, report: &mut TranslationReport) -> (r: Vec<Json>)
    ensures
        ({
            let sent = sent_messages(req@.system, req@.messages, old(report)@);
            &&& seq_view(r@) == sent.values
            &&& final(report)@ == sent.report
        }),
        messages_read_back(req@.messages),
{
    let ghost all = req@.messages;
    let ghost report0 = report@;
    let mut out: Vec<Json> = Vec::new();
    if let Some(system) = &req.system {
        out.push(
            Json::Object(
                JsonMap::new().set("role", string("system")).set("content", string(system.as_str())),
            ),
        );
    }
    assert(all.take(0) == Seq::<MessageV>::empty());
    assert(seq_view(out@) == sent_messages(req@.system, all.take(0), report0).values);
    let mut i: usize = 0;
    while i < req.messages.len()
        invariant
            i <= req.messages.len(),
            all == views(req.messages@),
            seq_view(out@) == sent_messages(req@.system, all.take(i as int), report0).values,
            report@ == sent_messages(req@.system, all.take(i as int), report0).report,
            messages_read_back(all.take(i as int)),
        decreases req.messages.len() - i,
    {
        let msg = &req.messages[i];
        let ghost t = all.take(i + 1);
        assert(t.drop_last() == all.take(i as int));
        assert(t.last() == msg@);
        render_message(msg, i, report, &mut out);
        assert forall|k: int| 0 <= k < t.len() implies inputs_read_back((#[trigger] t[k]).content) by {
            if k < i {
                assert(all.take(i as int)[k] == t[k]);
            }
        }
        i += 1;
    }
    assert(all.take(i as int) == all);
    out
}

/// The value of a tool.
pub open spec fn tool_value(t: ToolV) -> JsonV {
    let function = put_opt(
        map!["name"@ => JsonV::Str(t.name)],
        "description"@,
        opt_str(t.description),
    ).insert("parameters"@, t.input_schema);
    JsonV::Object(map!["type"@ => JsonV::Str("function"@), "function"@ => JsonV::Object(function)])
}

fn render_tools(tools: &Vec<CanonicalTool>) -> (r: Json)
    ensures
        r@ == JsonV::Array(views(tools@).map_values(|t: ToolV| tool_value(t))),
{
    let mut out: Vec<Json> = Vec::new();
    let mut i: usize = 0;
    while i < tools.len()
        invariant
            i <= tools.len(),
            out@.len() == i,
            forall|k: int| 0 <= k < i ==> (#[trigger] out@[k])@ == tool_value(tools@[k]@),
        decreases tools.len() - i,
    {
        let t = &tools[i];
        let mut function = JsonMap::new().set("name", string(t.name.as_str()));
        if let Some(description) = &t.description {
            function = function.set("description", string(description.as_str()));
        }
        function = function.set("parameters", t.input_schema.dup());
        out.push(
            Json::Object(
                JsonMap::new().set("type", string("function")).set("function", Json::Object(function)),
            ),
        );
        i += 1;
    }
    assert(seq_view(out@) == views(tools@).map_values(|t: ToolV| tool_value(t)));
    Json::Array(out)
}

/// The value of a tool choice.
pub open spec fn tool_choice_value(choice: ToolChoiceV) -> JsonV {
    match choice {
        ToolChoiceV::Auto => JsonV::Str("auto"@),
        ToolChoiceV::Never => JsonV::Str("none"@),
        ToolChoiceV::Any => JsonV::Str("required"@),
        ToolChoiceV::Tool(name) => JsonV::Object(
            map![
                "type"@ => JsonV::Str("function"@),
                "function"@ => JsonV::Object(map!["name"@ => JsonV::Str(name)]),
            ],
        ),
    }
}

fn render_tool_choice(choice: &ToolChoice) -> (r: Json)
    ensures
        r@ == tool_choice_value(choice@),
{
    match choice {
        ToolChoice::Auto => string("auto"),
        ToolChoice::Never => string("none"),
        ToolChoice::Any => string("required"),
        ToolChoice::Tool(name) => {
            let function = JsonMap::new().set("name", string(name.as_str()));
            Json::Object(
                JsonMap::new().set("type", string("function")).set("function", Json::Object(function)),
            )
        },
    }
}

/// The typed fields of a request's body.
pub open spec fn typed_request(req: RequestV, messages: Seq<JsonV>) -> Map<Seq<char>, JsonV> {
    let m1 = map!["model"@ => JsonV::Str(req.model), "messages"@ => JsonV::Array(messages)];
    let m2 = if req.tools.len() > 0 {
        m1.insert("tools"@, JsonV::Array(req.tools.map_values(|t: ToolV| tool_value(t))))
    } else {
        m1
    };
    let m3 = match req.tool_choice {
        Some(choice) => m2.insert("tool_choice"@, tool_choice_value(choice)),
        None => m2,
    };
    let m4 = put_opt(m3, "temperature"@, opt_double(req.sampling.temperature));
    let m5 = put_opt(m4, "top_p"@, opt_double(req.sampling.top_p));
    let m6 = put_opt(m5, "max_completion_tokens"@, opt_uint(req.sampling.max_tokens));
    let m7 = if req.sampling.stop.len() > 0 {
        m6.insert("stop"@, JsonV::Array(str_values(req.sampling.stop)))
    } else {
        m6
    };
    m7.insert("stream"@, JsonV::Bool(req.stream))
}

/// The report on a request's sampling: the dialect has no `top_k`.
pub open spec fn sampling_report(req: RequestV, report: ReportV) -> ReportV {
    if req.sampling.top_k is Some {
        report.dropping("sampling.top_k"@, "openai has no top_k"@)
    } else {
        report
    }
}

/// The body of a request, and the report on what it could not carry.
pub open spec fn request_value(req: RequestV, report: ReportV) -> (JsonV, ReportV) {
    let sent = sent_messages(req.system, req.messages, report);
    let (members, report) = emitted(
        "openai"@,
        req.extra,
        typed_request(req, sent.values),
        sampling_report(req, sent.report),
    );
    (JsonV::Object(members), report)
}

/// Writes the value of a request's body.
pub fn render_request_value(req: &CanonicalRequest, report: &mut TranslationReport) -> (r: Json)
    ensures
        (r@, final(report)@) == request_value(req@, old(report)@),
        messages_read_back(req@.messages),
{
    let messages = render_messages(req, report);
    let ghost messages_v = seq_view(messages@);
    let mut body = JsonMap::new().set("model", string(req.model.as_str())).set(
        "messages",
        Json::Array(messages),
    );
    if req.tools.len() > 0 {
        body = body.set("tools", render_tools(&req.tools));
    }
    if let Some(choice) = &req.tool_choice {
        body = body.set("tool_choice", render_tool_choice(choice));
    }
    if let Some(t) = req.sampling.temperature {
        body = body.set("temperature", double(t));
    }
    if let Some(t) = req.sampling.top_p {
        body = body.set("top_p", double(t));
    }
    if req.sampling.top_k.is_some() {
        report.drop("sampling.top_k".to_owned(), "openai has no top_k".to_owned());
    }
    if let Some(n) = req.sampling.max_tokens {
        body = body.set("max_completion_tokens", uint(n));
    }
    if req.sampling.stop.len() > 0 {
        body = body.set("stop", string_array(&req.sampling.stop));
    }
    body = body.set("stream", Json::Bool(req.stream));
    assert(body@ == typed_request(req@, messages_v));
    emit_or_drop_extra("openai", &req.extra, &mut body, report);
    Json::Object(body)
}

/// The finish reason of a stop reason. The dialect has none of its own for a stop
/// sequence.
pub open spec fn stop_reason_name(reason: StopReasonV) -> Seq<char> {
    match reason {
        StopReasonV::EndTurn => "stop"@,
        StopReasonV::MaxTokens => "length"@,
        StopReasonV::ToolUse => "tool_calls"@,
        StopReasonV::StopSequence => "stop"@,
        StopReasonV::Other(name) => name,
    }
}

/// The report on a stop reason.
pub open spec fn stop_reason_report(reason: StopReasonV, report: ReportV) -> ReportV {
    if reason is StopSequence {
        report.noting(
            "stop_reason: StopSequence has no distinct OpenAI finish_reason, mapped to \"stop\""@,
        )
    } else {
        report
    }
}

fn render_stop_reason(reason: &StopReason, report: &mut TranslationReport) -> (r: String)
    ensures
        r@ == stop_reason_name(reason@),
        final(report)@ == stop_reason_report(reason@, old(report)@),
{
    match reason {
        StopReason::EndTurn => "stop".to_owned(),
        StopReason::MaxTokens => "length".to_owned(),
        StopReason::ToolUse => "tool_calls".to_owned(),
        StopReason::StopSequence => {
            report.note(
                "stop_reason: StopSequence has no distinct OpenAI finish_reason, mapped to \"stop\"".to_owned(),
            );
            "stop".to_owned()
        },
        StopReason::Other(name) => name.clone(),
    }
}

/// The report on the tool results in a response: it has no place for them.
pub open spec fn result_drops(blocks: Seq<BlockV>, report: ReportV) -> ReportV
    decreases blocks.len(),
{
    if blocks.len() == 0 {
        report
    } else {
        let before = result_drops(blocks.drop_last(), report);
        if blocks.last() is ToolResult {
            before.dropping(
                "content"@,
                "openai response message cannot carry a tool_result content block"@,
            )
        } else {
            before
        }
    }
}

/// The value of token counts.
pub open spec fn usage_value(u: Usage) -> JsonV {
    JsonV::Object(
        put_opt(
            put_opt(Map::empty(), "prompt_tokens"@, opt_uint(u.input_tokens)),
            "completion_tokens"@,
            opt_uint(u.output_tokens),
        ),
    )
}

fn render_usage(u: &Usage) -> (r: Json)
    ensures
        r@ == usage_value(*u),
{
    let mut m = JsonMap::new();
    if let Some(n) = u.input_tokens {
        m = m.set("prompt_tokens", uint(n));
    }
    if let Some(n) = u.output_tokens {
        m = m.set("completion_tokens", uint(n));
    }
    Json::Object(m)
}

/// The one choice of a response.
pub open spec fn choice_value(resp: ResponseV) -> JsonV {
    let c = map![
        "index"@ => JsonV::Number(Num::PosInt(0)),
        "message"@ => message_object(
            "assistant"@,
            content_value(visible(resp.content)),
            call_values(resp.content),
        ),
    ];
    JsonV::Object(
        match resp.stop_reason {
            Some(reason) => c.insert("finish_reason"@, JsonV::Str(stop_reason_name(reason))),
            None => c,
        },
    )
}

/// The typed fields of a response's body.
pub open spec fn typed_response(resp: ResponseV) -> Map<Seq<char>, JsonV> {
    let m = map![
        "model"@ => JsonV::Str(resp.model),
        "choices"@ => JsonV::Array(seq![choice_value(resp)]),
    ];
    match resp.usage {
        Some(u) => m.insert("usage"@, usage_value(u)),
        None => m,
    }
}

/// A response body with the fields that every client expects.
pub open spec fn completed_response(m: Map<Seq<char>, JsonV>) -> Map<Seq<char>, JsonV> {
    put_missing(
        put_missing(
            put_missing(m, "object"@, JsonV::Str("chat.completion"@)),
            "id"@,
            JsonV::Str("chatcmpl-translated"@),
        ),
        "created"@,
        JsonV::Number(Num::PosInt(0)),
    )
}

/// The body of a response, and the report on what it could not carry.
pub open spec fn response_value(resp: ResponseV, report: ReportV) -> (JsonV, ReportV) {
    let dropped = result_drops(resp.content, report);
    let noted = match resp.stop_reason {
        Some(reason) => stop_reason_report(reason, dropped),
        None => dropped,
    };
    let (members, report) = emitted("openai"@, resp.extra, typed_response(resp), noted);
    (JsonV::Object(completed_response(members)), report)
}

fn set_missing(m: JsonMap, key: &str, val: Json) -> (r: JsonMap)
    ensures
        r@ == put_missing(m@, key@, val@),
{
    if m.contains_key(key) {
        m
    } else {
        m.set(key, val)
    }
}

/// Writes the value of a response's body.
#[verifier::rlimit(40)]
pub fn render_response_value(resp: &CanonicalResponse, report: &mut TranslationReport) -> (r: Json)
    ensures
        (r@, final(report)@) == response_value(resp@, old(report)@),
        inputs_read_back(resp@.content),
{
    let ghost all = resp@.content;
    let mut shown: Vec<&ContentBlock> = Vec::new();
    let mut calls: Vec<Json> = Vec::new();
    let mut i: usize = 0;
    while i < resp.content.len()
        invariant
            i <= resp.content.len(),
            all == views(resp.content@),
            views(shown@) == visible(all.take(i as int)),
            seq_view(calls@) == call_values(all.take(i as int)),
            report@ == result_drops(all.take(i as int), old(report)@),
            inputs_read_back(all.take(i as int)),
        decreases resp.content.len() - i,
    {
        let ghost shown0 = views(shown@);
        let ghost calls0 = seq_view(calls@);
        let block = &resp.content[i];
        let ghost t = all.take(i + 1);
        assert(t.drop_last() == all.take(i as int));
        assert(t.last() == block@);
        match block {
            ContentBlock::ToolUse { id, name, input } => {
                let call = render_call(id.as_str(), name.as_str(), input);
                calls.push(call);
                assert(seq_view(calls@) == calls0.push(call@));
            },
            ContentBlock::ToolResult { .. } => {
                report.drop(
                    "content".to_owned(),
                    "openai response message cannot carry a tool_result content block".to_owned(),
                );
            },
            _ => {
                shown.push(block);
                assert(views(shown@) == shown0.push(block@));
            },
        }
        assert forall|k: int| 0 <= k < t.len() && (#[trigger] t[k]) is ToolUse implies reads_back(
            t[k]->ToolUse_input,
        ) by {
            if k < i {
                assert(all.take(i as int)[k] == t[k]);
            }
        }
        i += 1;
    }
    assert(all.take(i as int) == all);
    proof {
        lemma_visible(all);
    }
    let mut message = JsonMap::new().set("role", string("assistant")).set(
        "content",
        write_content_parts(&shown),
    );
    if calls.len() > 0 {
        message = message.set("tool_calls", Json::Array(calls));
    }
    let mut choice = JsonMap::new().set("index", uint(0)).set("message", Json::Object(message));
    if let Some(reason) = &resp.stop_reason {
        choice = choice.set("finish_reason", Json::Str(render_stop_reason(reason, report)));
    }
    assert(JsonV::Object(choice@) == choice_value(resp@));
    let mut choices: Vec<Json> = Vec::new();
    choices.push(Json::Object(choice));
    assert(seq_view(choices@) == seq![choice_value(resp@)]);
    let mut body = JsonMap::new().set("model", string(resp.model.as_str())).set(
        "choices",
        Json::Array(choices),
    );
    if let Some(usage) = &resp.usage {
        body = body.set("usage", render_usage(usage));
    }
    assert(body@ == typed_response(resp@));
    emit_or_drop_extra("openai", &resp.extra, &mut body, report);
    body = set_missing(body, "object", string("chat.completion"));
    body = set_missing(body, "id", string("chatcmpl-translated"));
    body = set_missing(body, "created", uint(0));
    Json::Object(body)
}

/// Writes a request's body.
pub fn render_request_body(req: &CanonicalRequest, report: &mut TranslationReport) -> (r: Result<
    Vec<u8>,
    AdapterError,
>)
    ensures
        r matches Ok(bytes) && bytes@ == encode_utf8(
            json_text(request_value(req@, old(report)@).0),
        ),
        final(report)@ == request_value(req@, old(report)@).1,
        messages_read_back(req@.messages),
        representable(req@) && nests_within(request_value(req@, old(report)@).0, read_depth())
            ==> result_view(Ok::<CanonicalRequest, AdapterError>(*req)) == request_read(r->Ok_0@),
{
    let value = render_request_value(req, report);
    let text = value.to_text();
    proof {
        if representable(req@) {
            law_request_round_trip(req@, old(report)@);
        }
    }
    Ok(text.as_bytes_vec())
}

/// Writes a response's body.
pub fn render_response_body(resp: &CanonicalResponse, report: &mut TranslationReport) -> (r: Result<
    Vec<u8>,
    AdapterError,
>)
    ensures
        r matches Ok(bytes) && bytes@ == encode_utf8(
            json_text(response_value(resp@, old(report)@).0),
        ),
        final(report)@ == response_value(resp@, old(report)@).1,
        inputs_read_back(resp@.content),
        nests_within(response_value(resp@, old(report)@).0, read_depth()) ==> response_read(r->Ok_0@)
            == Ok::<ResponseV, AdapterErrorV>(response_of(response_value(resp@, old(report)@).0)),
{
    let value = render_response_value(resp, report);
    Ok(value.to_text().as_bytes_vec())
}

/// The usage member of a chunk, unless it is null.
pub open spec fn chunk_usage(v: JsonV) -> Option<JsonV> {
    match v.get("usage"@) {
        Some(JsonV::Null) => None,
        u => u,
    }
}

/// The first tool call of a delta.
pub open spec fn first_call(delta: JsonV) -> Option<JsonV> {
    match delta.items_at("tool_calls"@) {
        Some(calls) if calls.len() > 0 => Some(calls[0]),
        _ => None,
    }
}

/// A member of a call's function, where it has one.
pub open spec fn function_text(call: JsonV, key: Seq<char>) -> Option<Seq<char>> {
    match call.get("function"@) {
        Some(function) => function.text_at(key),
        None => None,
    }
}

/// The fragment that a chunk's value carries, if any: its token counts, else its
/// finish reason, else its text, else its first tool call.
pub open spec fn delta_of(v: JsonV) -> Option<DeltaV> {
    let choice = first_choice(v);
    match chunk_usage(v) {
        Some(u) => Some(
            DeltaV::of_usage(
                DeltaUsage {
                    input_tokens: u.uint_at("prompt_tokens"@),
                    output_tokens: u.uint_at("completion_tokens"@),
                },
            ),
        ),
        None => match choice.text_at("finish_reason"@) {
            Some(reason) => Some(DeltaV::of_finish(FinishV { reason: Some(reason) })),
            None => match choice.get("delta"@) {
                None => None,
                Some(delta) => match delta.text_at("content"@) {
                    Some(text) => Some(DeltaV::of_text(text)),
                    None => match first_call(delta) {
                        None => None,
                        Some(call) => Some(
                            DeltaV::of_tool_call(
                                ToolCallDeltaV {
                                    id: call.text_at("id"@),
                                    name: function_text(call, "name"@),
                                    arguments_fragment: function_text(call, "arguments"@),
                                },
                            ),
                        ),
                    },
                },
            },
        },
    }
}

fn copy_text(s: Option<&String>) -> (r: Option<String>)
    ensures
        opt_view(r) == (match s {
            Some(x) => Some(x@),
            None => None,
        }),
{
    match s {
        Some(x) => Some(x.clone()),
        None => None,
    }
}

fn parse_function_text(call: &Json, key: &str) -> (r: Option<String>)
    ensures
        opt_view(r) == function_text(call@, key@),
{
    match call.get("function") {
        Some(function) => copy_text(function.str_at(key)),
        None => None,
    }
}

fn parse_first_choice<'a>(value: &'a Json) -> (r: Option<&'a Json>)
    ensures
        match r {
            Some(c) => first_choice(value@) == c@,
            None => first_choice(value@) == JsonV::Null,
        },
{
    match value.array_at("choices") {
        Some(items) => if items.len() > 0 {
            Some(&items[0])
        } else {
            None
        },
        None => None,
    }
}

fn parse_first_call<'a>(delta: &'a Json) -> (r: Option<&'a Json>)
    ensures
        match r {
            Some(c) => first_call(delta@) == Some(c@),
            None => first_call(delta@) is None,
        },
{
    match delta.array_at("tool_calls") {
        Some(items) => if items.len() > 0 {
            Some(&items[0])
        } else {
            None
        },
        None => None,
    }
}

fn parse_chunk_usage<'a>(value: &'a Json) -> (r: Option<&'a Json>)
    ensures
        match r {
            Some(u) => chunk_usage(value@) == Some(u@),
            None => chunk_usage(value@) is None,
        },
{
    match value.get("usage") {
        Some(Json::Null) => None,
        u => u,
    }
}

/// Reads the fragment in a chunk's value.
pub fn parse_delta_value(value: &Json) -> (r: Option<Delta>)
    ensures
        opt_view(r) == delta_of(value@),
{
    if let Some(u) = parse_chunk_usage(value) {
        return Some(
            Delta::usage(
                DeltaUsage {
                    input_tokens: u.u64_at("prompt_tokens"),
                    output_tokens: u.u64_at("completion_tokens"),
                },
            ),
        );
    }
    match parse_first_choice(value) {
        None => None,
        Some(choice) => {
            if let Some(reason) = choice.str_at("finish_reason") {
                return Some(Delta::finish(Finish { reason: Some(reason.clone()) }));
            }
            match choice.get("delta") {
                None => None,
                Some(delta) => {
                    if let Some(text) = delta.str_at("content") {
                        return Some(Delta::text(text.clone()));
                    }
                    match parse_first_call(delta) {
                        None => None,
                        Some(call) => {
                            let r = ToolCallDelta {
                                id: copy_text(call.str_at("id")),
                                name: parse_function_text(call, "name"),
                                arguments_fragment: parse_function_text(call, "arguments"),
                            };
                            assert(r@.id == call@.text_at("id"@));
                            Some(Delta::tool_call(r))
                        },
                    }
                },
            }
        },
    }
}

/// The fragment that a stream event carries, if any.
pub open spec fn delta_read(data: Seq<char>) -> Option<DeltaV> {
    if trimmed(data) == "[DONE]"@ {
        None
    } else {
        match json_read(encode_utf8(data)) {
            Ok(v) => delta_of(v),
            Err(_) => None,
        }
    }
}

/// Reads the fragment in a stream event.
pub fn parse_delta(event: &SseEvent) -> (r: Option<Delta>)
    ensures
        opt_view(r) == delta_read(event.data@),
{
    if same(trim(event.data.as_str()), "[DONE]") {
        return None;
    }
    match parse(event.data.as_str().as_bytes()) {
        Ok(value) => parse_delta_value(&value),
        Err(_) => None,
    }
}

/// The slot of a tool call, zero where it is missing.
pub open spec fn slot_of(call: JsonV) -> u64 {
    match call.uint_at("index"@) {
        Some(i) => i,
        None => 0,
    }
}

/// The canonical event that a chunk's value stands for, if any, and the state
/// after it. The first fragment of a tool call opens its block; later ones carry
/// its arguments.
pub open spec fn event_of(v: JsonV, st: ParseStateV) -> (Option<EventV>, ParseStateV) {
    let choice = first_choice(v);
    match chunk_usage(v) {
        Some(u) => (
            Some(EventV::MessageDelta { stop_reason: None, usage: Some(usage_of(u)) }),
            st,
        ),
        None => match choice.text_at("finish_reason"@) {
            Some(name) => (
                Some(
                    EventV::MessageDelta { stop_reason: Some(stop_reason_of(name)), usage: None },
                ),
                st,
            ),
            None => match choice.get("delta"@) {
                None => (None, st),
                Some(delta) => match delta.text_at("content"@) {
                    Some(text) => {
                        let (index, next) = st.text_index();
                        (
                            Some(
                                EventV::ContentBlockDelta {
                                    index,
                                    text: Some(text),
                                    partial_json: None,
                                },
                            ),
                            next,
                        )
                    },
                    None => match first_call(delta) {
                        None => (None, st),
                        Some(call) => {
                            let (index, is_new, next) = st.tool_index(slot_of(call));
                            if is_new {
                                (
                                    Some(
                                        EventV::ContentBlockStart {
                                            index,
                                            block: BlockV::ToolUse {
                                                id: or_empty(call.text_at("id"@)),
                                                name: or_empty(function_text(call, "name"@)),
                                                input: JsonV::Null,
                                            },
                                        },
                                    ),
                                    next,
                                )
                            } else {
                                (
                                    Some(
                                        EventV::ContentBlockDelta {
                                            index,
                                            text: None,
                                            partial_json: Some(
                                                or_empty(function_text(call, "arguments"@)),
                                            ),
                                        },
                                    ),
                                    next,
                                )
                            }
                        },
                    },
                },
            },
        },
    }
}

fn text_or_blank(s: Option<String>) -> (r: String)
    ensures
        r@ == or_empty(opt_view(s)),
{
    match s {
        Some(x) => x,
        None => String::new(),
    }
}

/// Reads the canonical event from a chunk's value.
pub fn parse_event_value(value: &Json, st: &mut StreamParseState) -> (r: Option<CanonicalStreamEvent>)
    ensures
        (opt_view(r), final(st)@) == event_of(value@, old(st)@),
{
    if let Some(u) = parse_chunk_usage(value) {
        return Some(
            CanonicalStreamEvent::MessageDelta { stop_reason: None, usage: Some(parse_usage(u)) },
        );
    }
    match parse_first_choice(value) {
        None => None,
        Some(choice) => {
            if let Some(name) = choice.str_at("finish_reason") {
                return Some(
                    CanonicalStreamEvent::MessageDelta {
                        stop_reason: Some(parse_stop_reason(name.as_str())),
                        usage: None,
                    },
                );
            }
            match choice.get("delta") {
                None => None,
                Some(delta) => {
                    if let Some(text) = delta.str_at("content") {
                        let index = st.text_index();
                        return Some(
                            CanonicalStreamEvent::ContentBlockDelta {
                                index,
                                text: Some(text.clone()),
                                partial_json: None,
                            },
                        );
                    }
                    match parse_first_call(delta) {
                        None => None,
                        Some(call) => {
                            let slot = match call.u64_at("index") {
                                Some(i) => i,
                                None => 0,
                            };
                            let (index, is_new) = st.tool_index(slot);
                            if is_new {
                                Some(
                                    CanonicalStreamEvent::ContentBlockStart {
                                        index,
                                        block: ContentBlock::ToolUse {
                                            id: text_or_empty(call.str_at("id")),
                                            name: text_or_blank(parse_function_text(call, "name")),
                                            input: Json::Null,
                                        },
                                    },
                                )
                            } else {
                                let fragment = text_or_blank(
                                    parse_function_text(call, "arguments"),
                                );
                                Some(
                                    CanonicalStreamEvent::ContentBlockDelta {
                                        index,
                                        text: None,
                                        partial_json: Some(fragment),
                                    },
                                )
                            }
                        },
                    }
                },
            }
        },
    }
}

/// The canonical event that a stream event stands for, and the state after it:
/// none where the data is blank or malformed, the end of the message for the
/// stream's terminal.
pub open spec fn event_read(data: Seq<char>, st: ParseStateV) -> (Option<EventV>, ParseStateV) {
    let text = trimmed(data);
    if text.len() == 0 {
        (None, st)
    } else if text == "[DONE]"@ {
        (Some(EventV::MessageStop), st)
    } else {
        match json_read(encode_utf8(text)) {
            Ok(v) => event_of(v, st),
            Err(_) => (None, st),
        }
    }
}

/// Reads the canonical event from a stream event.
pub fn parse_stream_event(event: &SseEvent, st: &mut StreamParseState) -> (r: Result<
    Option<CanonicalStreamEvent>,
    AdapterError,
>)
    ensures
        r matches Ok(e) && (opt_view(e), final(st)@) == event_read(event.data@, old(st)@),
{
    let data = trim(event.data.as_str());
    if data.is_empty() {
        return Ok(None);
    }
    if same(data, "[DONE]") {
        return Ok(Some(CanonicalStreamEvent::MessageStop));
    }
    match parse(data.as_bytes()) {
        Ok(value) => Ok(parse_event_value(&value, st)),
        Err(_) => Ok(None),
    }
}

/// A chunk with a delta and perhaps a finish reason.
pub open spec fn delta_chunk(model: Seq<char>, delta: JsonV, finish: Option<Seq<char>>) -> ChunkV {
    let choice = map![
        "index"@ => JsonV::Number(Num::PosInt(0)),
        "delta"@ => delta,
        "finish_reason"@ => match finish {
            Some(reason) => JsonV::Str(reason),
            None => JsonV::Null,
        },
    ];
    ChunkV::Data(
        JsonV::Object(
            map![
                "object"@ => JsonV::Str("chat.completion.chunk"@),
                "model"@ => JsonV::Str(model),
                "choices"@ => JsonV::Array(seq![JsonV::Object(choice)]),
            ],
        ),
    )
}

/// The chunk that gives the token counts.
pub open spec fn usage_chunk(model: Seq<char>, u: Usage) -> ChunkV {
    ChunkV::Data(
        JsonV::Object(
            map![
                "object"@ => JsonV::Str("chat.completion.chunk"@),
                "model"@ => JsonV::Str(model),
                "choices"@ => JsonV::Array(Seq::empty()),
                "usage"@ => usage_value(u),
            ],
        ),
    )
}

/// The chunk that opens the message with its role.
pub open spec fn role_chunk(st: RenderStateV) -> ChunkV {
    delta_chunk(
        st.model,
        JsonV::Object(map!["role"@ => JsonV::Str(st.role_or_assistant().name())]),
        None,
    )
}

/// The delta that opens a tool call.
pub open spec fn call_start_delta(slot: u64, id: Seq<char>, name: Seq<char>) -> JsonV {
    let call = map![
        "index"@ => JsonV::Number(Num::PosInt(slot)),
        "id"@ => JsonV::Str(id),
        "type"@ => JsonV::Str("function"@),
        "function"@ => JsonV::Object(map![
            "name"@ => JsonV::Str(name),
            "arguments"@ => JsonV::Str(""@),
        ]),
    ];
    JsonV::Object(map!["tool_calls"@ => JsonV::Array(seq![JsonV::Object(call)])])
}

/// The delta that carries a fragment of a tool call's arguments.
pub open spec fn call_args_delta(slot: u64, arguments: Seq<char>) -> JsonV {
    let call = map![
        "index"@ => JsonV::Number(Num::PosInt(slot)),
        "function"@ => JsonV::Object(map!["arguments"@ => JsonV::Str(arguments)]),
    ];
    JsonV::Object(map!["tool_calls"@ => JsonV::Array(seq![JsonV::Object(call)])])
}

/// What one step wrote: the pieces, the state after them, and the report.
#[verifier::ext_equal]
pub struct Streamed {
    pub chunks: Seq<ChunkV>,
    pub st: RenderStateV,
    pub report: ReportV,
}

impl Streamed {
    /// Opens the message unless it is open.
    pub open spec fn opened(self) -> Streamed {
        if self.st.message_started {
            self
        } else {
            Streamed {
                chunks: self.chunks.push(role_chunk(self.st)),
                st: RenderStateV { message_started: true, ..self.st },
                report: self.report,
            }
        }
    }

    /// Writes one more piece.
    pub open spec fn then_chunk(self, chunk: ChunkV) -> Streamed {
        Streamed { chunks: self.chunks.push(chunk), ..self }
    }
}

/// The pieces that a canonical event is written as, the state after it, and the
/// report. Starts of blocks that are no tool calls, and stops, have no piece. The
/// input of a tool call that comes whole follows its start as one fragment.
pub open spec fn streamed(event: EventV, st: RenderStateV, report: ReportV) -> Streamed {
    let none = Streamed { chunks: Seq::empty(), st, report };
    match event {
        EventV::MessageStart { model, role } => {
            let named = RenderStateV { model, role: Some(role), ..st };
            Streamed {
                chunks: seq![role_chunk(named)],
                st: RenderStateV { message_started: true, ..named },
                report,
            }
        },
        EventV::ContentBlockStart { index, block: BlockV::ToolUse { id, name, input } } => {
            let open = none.opened();
            let slot = open.st.next_tool_slot;
            let tool = ToolRenderV { slot, name, args: Seq::empty() };
            let started = Streamed {
                chunks: open.chunks.push(
                    delta_chunk(open.st.model, call_start_delta(slot, id, name), None),
                ),
                st: RenderStateV { next_tool_slot: next_index(slot), ..open.st }.with_tool(index, tool),
                report,
            };
            match late_input(BlockV::ToolUse { id, name, input }) {
                Some(input) => started.then_chunk(
                    delta_chunk(open.st.model, call_args_delta(slot, json_text(input)), None),
                ),
                None => started,
            }
        },
        EventV::ContentBlockStart { .. } => none,
        EventV::ContentBlockDelta { text: Some(text), .. } => {
            let open = none.opened();
            open.then_chunk(
                delta_chunk(
                    open.st.model,
                    JsonV::Object(map!["content"@ => JsonV::Str(text)]),
                    None,
                ),
            )
        },
        EventV::ContentBlockDelta { index, text: None, partial_json: Some(partial) } => {
            if st.tool_render.dom().contains(index) {
                none.then_chunk(
                    delta_chunk(st.model, call_args_delta(st.tool_render[index].slot, partial), None),
                )
            } else {
                let slot = st.next_tool_slot;
                let tool = ToolRenderV { slot, name: Seq::empty(), args: Seq::empty() };
                Streamed {
                    chunks: seq![delta_chunk(st.model, call_args_delta(slot, partial), None)],
                    st: RenderStateV { next_tool_slot: next_index(slot), ..st }.with_tool(index, tool),
                    report,
                }
            }
        },
        EventV::ContentBlockDelta { .. } => none,
        EventV::ContentBlockStop { .. } => none,
        EventV::MessageDelta { stop_reason, usage } => {
            let first = match stop_reason {
                Some(reason) => Streamed {
                    chunks: seq![
                        delta_chunk(
                            st.model,
                            JsonV::Object(Map::empty()),
                            Some(stop_reason_name(reason)),
                        ),
                    ],
                    st,
                    report: stop_reason_report(reason, report),
                },
                None => none,
            };
            match usage {
                Some(u) => first.then_chunk(usage_chunk(st.model, u)),
                None => first,
            }
        },
        EventV::MessageStop => if st.terminal_sent {
            none
        } else {
            Streamed {
                chunks: seq![ChunkV::Done],
                st: RenderStateV { terminal_sent: true, ..st },
                report,
            }
        },
    }
}

fn push_chunk(out: &mut Vec<Chunk>, chunk: JsonMap)
    ensures
        views(final(out)@) == views(old(out)@).push(ChunkV::Data(JsonV::Object(chunk@))),
{
    let c = Chunk::Data(Json::Object(chunk));
    let ghost cv = c@;
    out.push(c);
    assert(views(out@) == views(old(out)@).push(cv));
}

fn emit_chunk(out: &mut Vec<Chunk>, st: &StreamRenderState, delta: Json, finish: Option<String>)
    ensures
        views(final(out)@) == views(old(out)@).push(
            delta_chunk(st@.model, delta@, opt_view(finish)),
        ),
{
    let finish = match finish {
        Some(reason) => Json::Str(reason),
        None => Json::Null,
    };
    let choice = JsonMap::new().set("index", uint(0)).set("delta", delta).set(
        "finish_reason",
        finish,
    );
    let ghost choice_v = JsonV::Object(choice@);
    let mut choices: Vec<Json> = Vec::new();
    choices.push(Json::Object(choice));
    assert(seq_view(choices@) == seq![choice_v]);
    push_chunk(
        out,
        JsonMap::new().set("object", string("chat.completion.chunk")).set(
            "model",
            string(st.model.as_str()),
        ).set("choices", Json::Array(choices)),
    );
}

fn emit_role_chunk(out: &mut Vec<Chunk>, st: &mut StreamRenderState)
    ensures
        views(final(out)@) == views(old(out)@).push(role_chunk(old(st)@)),
        final(st)@ == (RenderStateV { message_started: true, ..old(st)@ }),
{
    let role = st.role_or_assistant();
    let delta = Json::Object(JsonMap::new().set("role", string(role.as_str())));
    emit_chunk(out, st, delta, None);
    st.message_started = true;
    assert(st@ == (RenderStateV { message_started: true, ..old(st)@ }));
}

fn ensure_role_chunk(out: &mut Vec<Chunk>, st: &mut StreamRenderState)
    ensures
        ({
            let before = Streamed {
                chunks: views(old(out)@),
                st: old(st)@,
                report: ReportV::empty(),
            };
            &&& views(final(out)@) == before.opened().chunks
            &&& final(st)@ == before.opened().st
        }),
{
    if !st.message_started {
        emit_role_chunk(out, st);
    }
}

fn one_call(call: JsonMap) -> (r: Json)
    ensures
        r@ == JsonV::Object(map!["tool_calls"@ => JsonV::Array(seq![JsonV::Object(call@)])]),
{
    let ghost call_v = JsonV::Object(call@);
    let mut calls: Vec<Json> = Vec::new();
    calls.push(Json::Object(call));
    assert(seq_view(calls@) == seq![call_v]);
    Json::Object(JsonMap::new().set("tool_calls", Json::Array(calls)))
}

fn emit_arguments(out: &mut Vec<Chunk>, st: &StreamRenderState, slot: u64, arguments: &str)
    ensures
        views(final(out)@) == views(old(out)@).push(
            delta_chunk(st@.model, call_args_delta(slot, arguments@), None),
        ),
{
    let function = JsonMap::new().set("arguments", string(arguments));
    let call = JsonMap::new().set("index", uint(slot)).set("function", Json::Object(function));
    emit_chunk(out, st, one_call(call), None);
}

/// Writes the pieces of a canonical event.
#[verifier::rlimit(40)]
pub fn stream_chunks(
    event: &CanonicalStreamEvent,
    st: &mut StreamRenderState,
    report: &mut TranslationReport,
) -> (r: Vec<Chunk>)
    ensures
        (Streamed { chunks: views(r@), st: final(st)@, report: final(report)@ }) == streamed(
            event@,
            old(st)@,
            old(report)@,
        ),
        fragment_reads_back(event@),
{
    let mut out: Vec<Chunk> = Vec::new();
    assert(views(out@) == Seq::<ChunkV>::empty());
    match event {
        CanonicalStreamEvent::MessageStart { model, role } => {
            st.model = model.clone();
            st.role = Some(*role);
            emit_role_chunk(&mut out, st);
        },
        CanonicalStreamEvent::ContentBlockStart { index, block } => {
            if let ContentBlock::ToolUse { id, name, .. } = block {
                ensure_role_chunk(&mut out, st);
                let slot = st.take_slot();
                st.set_tool(
                    *index,
                    StreamToolRender { slot, name: name.clone(), args: String::new() },
                );
                let function = JsonMap::new().set("name", string(name.as_str())).set(
                    "arguments",
                    string(""),
                );
                let call = JsonMap::new().set("index", uint(slot)).set(
                    "id",
                    string(id.as_str()),
                ).set("type", string("function")).set("function", Json::Object(function));
                emit_chunk(&mut out, st, one_call(call), None);
                if let Some(input) = find_late_input(block) {
                    let arguments = input.to_text();
                    emit_arguments(&mut out, st, slot, arguments.as_str());
                }
            }
        },
        CanonicalStreamEvent::ContentBlockDelta { index, text, partial_json } => {
            if let Some(text) = text {
                ensure_role_chunk(&mut out, st);
                let delta = Json::Object(JsonMap::new().set("content", string(text.as_str())));
                emit_chunk(&mut out, st, delta, None);
            } else if let Some(partial) = partial_json {
                let known = match st.tool(*index) {
                    Some(tool) => Some(tool.slot),
                    None => None,
                };
                let slot = match known {
                    Some(slot) => slot,
                    None => {
                        let slot = st.take_slot();
                        st.set_tool(
                            *index,
                            StreamToolRender { slot, name: String::new(), args: String::new() },
                        );
                        slot
                    },
                };
                emit_arguments(&mut out, st, slot, partial.as_str());
            }
        },
        CanonicalStreamEvent::ContentBlockStop { .. } => {},
        CanonicalStreamEvent::MessageDelta { stop_reason, usage } => {
            if let Some(reason) = stop_reason {
                let name = render_stop_reason(reason, report);
                emit_chunk(&mut out, st, Json::Object(JsonMap::new()), Some(name));
            }
            if let Some(u) = usage {
                let choices: Vec<Json> = Vec::new();
                assert(seq_view(choices@) == Seq::<JsonV>::empty());
                push_chunk(
                    &mut out,
                    JsonMap::new().set("object", string("chat.completion.chunk")).set(
                        "model",
                        string(st.model.as_str()),
                    ).set("choices", Json::Array(choices)).set("usage", render_usage(u)),
                );
            }
        },
        CanonicalStreamEvent::MessageStop => {
            if !st.terminal_sent {
                out.push(Chunk::Done);
                assert(views(out@) == seq![ChunkV::Done]);
                st.terminal_sent = true;
            }
        },
    }
    assert(views(out@) == streamed(event@, old(st)@, old(report)@).chunks);
    out
}

/// Writes the text of a canonical event's pieces.
pub fn render_stream_event(
    event: &CanonicalStreamEvent,
    st: &mut StreamRenderState,
    report: &mut TranslationReport,
) -> (r: Result<Vec<u8>, AdapterError>)
    ensures
        r matches Ok(bytes) && bytes@ == encode_utf8(
            chunks_text(streamed(event@, old(st)@, old(report)@).chunks),
        ),
        final(st)@ == streamed(event@, old(st)@, old(report)@).st,
        final(report)@ == streamed(event@, old(st)@, old(report)@).report,
        fragment_reads_back(event@),
{
    let chunks = stream_chunks(event, st, report);
    Ok(write_chunks(&chunks).as_bytes_vec())
}

} // verus!
