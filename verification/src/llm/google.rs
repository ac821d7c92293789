//! The Google `generateContent` dialect.

use vstd::prelude::*;
use vstd::utf8::encode_utf8;

use crate::json::{
    copy_or_null, double, json_read, json_text, nests_within, opt_double, opt_str, opt_uint, parse, put_opt,
    read_depth, seq_view, str_values, string, string_array, string_items, strings_in, uint, Json, JsonMap, JsonV, Num,
};
use crate::llm::adapter::{
    collect_extra, collected_extra, emit_or_drop_extra, emitted, result_view, AdapterError, AdapterErrorV,
};
use crate::llm::canonical::{
    block_texts, find_late_input, late_input, BlockV, CanonicalMessage, CanonicalRequest, CanonicalResponse, CanonicalStreamEvent, CanonicalTool,
    ContentBlock, EventV, MessageV, ParseStateV, RenderStateV, ReportV, RequestCtx, RequestV, ResponseV, Role,
    Sampling, SamplingV, StopReason, StopReasonV, StreamParseState, StreamRenderState, StreamToolRender, ToolRenderV,
    ToolV, TranslationReport, Usage,
};
use crate::llm::delta::{Delta, DeltaV, Finish, FinishV, Usage as DeltaUsage};
use crate::sse::{chunks_text, write_chunks, Chunk, ChunkV, SseEvent};
use crate::text::{
    before_first, concat2, concat3, decimal, decimal_text, join, joined, opt_view, or_empty, same, split_at_part,
    split_once, split_once_at, strs, text_or_empty, texts, trim, trimmed, views,
};

pub use crate::llm::adapter::GoogleAdapter;

verus! {

/// The texts of the text parts among some parts.
pub open spec fn part_texts(items: Seq<JsonV>) -> Seq<Seq<char>>
    decreases items.len(),
{
    if items.len() == 0 {
        Seq::empty()
    } else {
        let rest = part_texts(items.drop_last());
        match items.last().text_at("text"@) {
            Some(text) => rest.push(text),
            None => rest,
        }
    }
}

/// The text of a parts value: its text parts, one per line.
pub open spec fn flat_parts(parts: JsonV) -> Seq<char> {
    match parts {
        JsonV::Array(items) => joined(part_texts(items), "\n"@),
        _ => Seq::empty(),
    }
}

fn flatten_parts(parts: &Json) -> (r: String)
    ensures
        r@ == flat_parts(parts@),
{
    match parts {
        Json::Array(items) => {
            let ghost all = seq_view(items@);
            let mut out: Vec<String> = Vec::new();
            let mut i: usize = 0;
            while i < items.len()
                invariant
                    i <= items.len(),
                    all == seq_view(items@),
                    texts(out@) == part_texts(all.take(i as int)),
                decreases items.len() - i,
            {
                let ghost before = texts(out@);
                assert(all.take(i + 1).drop_last() == all.take(i as int));
                assert(all.take(i + 1).last() == items@[i as int]@);
                if let Some(text) = items[i].str_at("text") {
                    out.push(text.clone());
                    assert(texts(out@) == before.push(text@));
                }
                i += 1;
            }
            assert(all.take(i as int) == all);
            join(&out, "\n")
        },
        _ => String::new(),
    }
}

/// A value that may be absent, null where it is.
pub open spec fn or_null(v: Option<JsonV>) -> JsonV {
    match v {
        Some(x) => x,
        None => JsonV::Null,
    }
}

/// The content block that a part stands for, if any. A call's name is its id too.
pub open spec fn one_part(part: JsonV) -> Option<BlockV> {
    match part.text_at("text"@) {
        Some(text) => Some(BlockV::Text { text }),
        None => match part.get("inlineData"@) {
            Some(inline) => Some(
                BlockV::Image {
                    media_type: or_empty(inline.text_at("mimeType"@)),
                    data: or_empty(inline.text_at("data"@)),
                },
            ),
            None => match part.get("functionCall"@) {
                Some(call) => Some(
                    BlockV::ToolUse {
                        id: or_empty(call.text_at("name"@)),
                        name: or_empty(call.text_at("name"@)),
                        input: or_null(call.get("args"@)),
                    },
                ),
                None => match part.get("functionResponse"@) {
                    Some(response) => Some(
                        BlockV::ToolResult {
                            id: or_empty(response.text_at("name"@)),
                            content: match response.get("response"@) {
                                Some(r) => json_text(r),
                                None => Seq::empty(),
                            },
                            is_error: false,
                        },
                    ),
                    None => None,
                },
            },
        },
    }
}

/// The blocks that some parts stand for.
pub open spec fn parts_of(items: Seq<JsonV>) -> Seq<BlockV>
    decreases items.len(),
{
    if items.len() == 0 {
        Seq::empty()
    } else {
        let rest = parts_of(items.drop_last());
        match one_part(items.last()) {
            Some(block) => rest.push(block),
            None => rest,
        }
    }
}

/// The blocks of a parts value.
pub open spec fn blocks_of(parts: JsonV) -> Seq<BlockV> {
    match parts {
        JsonV::Array(items) => parts_of(items),
        _ => Seq::empty(),
    }
}

fn parse_one_part(part: &Json) -> (r: Option<ContentBlock>)
    ensures
        opt_view(r) == one_part(part@),
{
    if let Some(text) = part.str_at("text") {
        return Some(ContentBlock::Text { text: text.clone() });
    }
    if let Some(inline) = part.get("inlineData") {
        return Some(
            ContentBlock::Image {
                media_type: text_or_empty(inline.str_at("mimeType")),
                data: text_or_empty(inline.str_at("data")),
            },
        );
    }
    if let Some(call) = part.get("functionCall") {
        return Some(
            ContentBlock::ToolUse {
                id: text_or_empty(call.str_at("name")),
                name: text_or_empty(call.str_at("name")),
                input: copy_or_null(call.get("args")),
            },
        );
    }
    if let Some(response) = part.get("functionResponse") {
        let content = match response.get("response") {
            Some(r) => r.to_text(),
            None => String::new(),
        };
        return Some(
            ContentBlock::ToolResult {
                id: text_or_empty(response.str_at("name")),
                content,
                is_error: false,
            },
        );
    }
    None
}

fn parts_to_blocks(parts: &Json) -> (r: Vec<ContentBlock>)
    ensures
        views(r@) == blocks_of(parts@),
{
    let mut out: Vec<ContentBlock> = Vec::new();
    if let Json::Array(items) = parts {
        let ghost all = seq_view(items@);
        let mut i: usize = 0;
        while i < items.len()
            invariant
                i <= items.len(),
                all == seq_view(items@),
                views(out@) == parts_of(all.take(i as int)),
            decreases items.len() - i,
        {
            let ghost before = views(out@);
            assert(all.take(i + 1).drop_last() == all.take(i as int));
            assert(all.take(i + 1).last() == items@[i as int]@);
            if let Some(block) = parse_one_part(&items[i]) {
                out.push(block);
                assert(views(out@) == before.push(block@));
            }
            i += 1;
        }
        assert(all.take(i as int) == all);
    } else {
        assert(views(out@) == blocks_of(parts@));
    }
    out
}

/// The role of a name: the model's, a tool's, or the user's.
pub open spec fn role_of(name: Seq<char>) -> Role {
    if name == "model"@ {
        Role::Assistant
    } else if name == "function"@ {
        Role::Tool
    } else {
        Role::User
    }
}

fn parse_role(name: &str) -> (r: Role)
    ensures
        r == role_of(name@),
{
    if same(name, "model") {
        Role::Assistant
    } else if same(name, "function") {
        Role::Tool
    } else {
        Role::User
    }
}

/// The stop reason of a finish reason; unknown ones are kept.
pub open spec fn stop_reason_of(name: Seq<char>) -> StopReasonV {
    if name == "STOP"@ {
        StopReasonV::EndTurn
    } else if name == "MAX_TOKENS"@ {
        StopReasonV::MaxTokens
    } else {
        StopReasonV::Other(name)
    }
}

fn parse_stop_reason(name: &str) -> (r: StopReason)
    ensures
        r@ == stop_reason_of(name@),
{
    if same(name, "STOP") {
        StopReason::EndTurn
    } else if same(name, "MAX_TOKENS") {
        StopReason::MaxTokens
    } else {
        StopReason::Other(name.to_owned())
    }
}

/// The model that a path names: what follows its first `models/`, up to the next
/// colon.
pub open spec fn path_model(path: Seq<char>) -> Option<Seq<char>> {
    match split_at_part(path, "models/"@) {
        None => None,
        Some((_, rest)) => {
            let model = before_first(rest, ':');
            if model.len() == 0 {
                None
            } else {
                Some(model)
            }
        },
    }
}

/// The model that a path names.
pub fn model_from_path(path: &str) -> (r: Option<String>)
    ensures
        opt_view(r) == path_model(path@),
{
    match split_once_at(path, "models/") {
        None => None,
        Some((_, rest)) => {
            let model = match split_once(rest, ':') {
                Some((a, _)) => a,
                None => rest,
            };
            if model.is_empty() {
                None
            } else {
                Some(model.to_owned())
            }
        },
    }
}

/// The tool that a function declaration stands for: it must have a name.
pub open spec fn declared_tool(d: JsonV) -> Option<ToolV> {
    match d.text_at("name"@) {
        None => None,
        Some(name) => Some(
            ToolV {
                name,
                description: d.text_at("description"@),
                input_schema: or_null(d.get("parameters"@)),
            },
        ),
    }
}

/// The tools that some declarations stand for.
pub open spec fn declared_tools(items: Seq<JsonV>) -> Seq<ToolV>
    decreases items.len(),
{
    if items.len() == 0 {
        Seq::empty()
    } else {
        let rest = declared_tools(items.drop_last());
        match declared_tool(items.last()) {
            Some(tool) => rest.push(tool),
            None => rest,
        }
    }
}

/// The tools that some tool entries declare.
pub open spec fn tools_of(items: Seq<JsonV>) -> Seq<ToolV>
    decreases items.len(),
{
    if items.len() == 0 {
        Seq::empty()
    } else {
        tools_of(items.drop_last()) + (match items.last().items_at("functionDeclarations"@) {
            Some(declarations) => declared_tools(declarations),
            None => Seq::empty(),
        })
    }
}

fn push_declared(items: &Vec<Json>, out: &mut Vec<CanonicalTool>)
    ensures
        views(final(out)@) == views(old(out)@) + declared_tools(seq_view(items@)),
{
    let ghost all = seq_view(items@);
    let ghost base = views(out@);
    assert(base == base + declared_tools(all.take(0)));
    let mut i: usize = 0;
    while i < items.len()
        invariant
            i <= items.len(),
            all == seq_view(items@),
            views(out@) == base + declared_tools(all.take(i as int)),
        decreases items.len() - i,
    {
        let ghost before = views(out@);
        let d = &items[i];
        assert(all.take(i + 1).drop_last() == all.take(i as int));
        assert(all.take(i + 1).last() == d@);
        if let Some(name) = d.str_at("name") {
            let description = match d.str_at("description") {
                Some(x) => Some(x.clone()),
                None => None,
            };
            let tool = CanonicalTool {
                name: name.clone(),
                description,
                input_schema: copy_or_null(d.get("parameters")),
            };
            assert(tool@ == declared_tool(d@)->Some_0);
            out.push(tool);
            assert(views(out@) == before.push(tool@));
            assert(before.push(tool@) == base + declared_tools(all.take(i + 1)));
        }
        i += 1;
    }
    assert(all.take(i as int) == all);
}

fn parse_tools(items: &Vec<Json>) -> (r: Vec<CanonicalTool>)
    ensures
        views(r@) == tools_of(seq_view(items@)),
{
    let ghost all = seq_view(items@);
    let mut out: Vec<CanonicalTool> = Vec::new();
    let mut i: usize = 0;
    while i < items.len()
        invariant
            i <= items.len(),
            all == seq_view(items@),
            views(out@) == tools_of(all.take(i as int)),
        decreases items.len() - i,
    {
        assert(all.take(i + 1).drop_last() == all.take(i as int));
        assert(all.take(i + 1).last() == items@[i as int]@);
        if let Some(declarations) = items[i].array_at("functionDeclarations") {
            push_declared(declarations, &mut out);
        }
        i += 1;
    }
    assert(all.take(i as int) == all);
    out
}

/// The message that a content entry stands for.
pub open spec fn message_of(c: JsonV) -> MessageV {
    MessageV {
        role: match c.text_at("role"@) {
            Some(name) => role_of(name),
            None => Role::User,
        },
        content: match c.get("parts"@) {
            Some(parts) => blocks_of(parts),
            None => Seq::empty(),
        },
    }
}

fn parse_message(c: &Json) -> (r: CanonicalMessage)
    ensures
        r@ == message_of(c@),
{
    let role = match c.str_at("role") {
        Some(name) => parse_role(name.as_str()),
        None => Role::User,
    };
    let content = match c.get("parts") {
        Some(parts) => parts_to_blocks(parts),
        None => Vec::new(),
    };
    let r = CanonicalMessage { role, content };
    assert(r@ == message_of(c@));
    r
}

/// The request fields that have a place of their own.
pub open spec fn request_fields() -> Seq<Seq<char>> {
    seq!["model"@, "contents"@, "systemInstruction"@, "tools"@, "generationConfig"@]
}

/// The response fields that have a place of their own.
pub open spec fn response_fields() -> Seq<Seq<char>> {
    seq!["candidates"@, "usageMetadata"@, "modelVersion"@, "model"@]
}

/// The request that a body stands for. Its model is the one that the path names,
/// else the body's.
pub open spec fn request_of(v: JsonV, path: Seq<char>) -> RequestV {
    let config = or_null(v.get("generationConfig"@));
    RequestV {
        model: match path_model(path) {
            Some(model) => model,
            None => or_empty(v.text_at("model"@)),
        },
        messages: match v.items_at("contents"@) {
            Some(items) => items.map_values(|c: JsonV| message_of(c)),
            None => Seq::empty(),
        },
        system: match or_null(v.get("systemInstruction"@)).get("parts"@) {
            Some(parts) => Some(flat_parts(parts)),
            None => None,
        },
        tools: match v.items_at("tools"@) {
            Some(items) => tools_of(items),
            None => Seq::empty(),
        },
        tool_choice: None,
        sampling: SamplingV {
            temperature: config.double_at("temperature"@),
            top_p: config.double_at("topP"@),
            top_k: config.uint_at("topK"@),
            max_tokens: config.uint_at("maxOutputTokens"@),
            stop: match config.items_at("stopSequences"@) {
                Some(items) => string_items(items),
                None => Seq::empty(),
            },
        },
        stream: false,
        extra: collected_extra(v, request_fields(), "google"@),
    }
}

/// The request that a body's bytes stand for.
pub open spec fn request_read(body: Seq<u8>, path: Seq<char>) -> Result<RequestV, AdapterErrorV> {
    match json_read(body) {
        Err(e) => Err(AdapterErrorV::Malformed("invalid JSON: "@ + e)),
        Ok(v) => Ok(request_of(v, path)),
    }
}

/// Reads a request from the value of its body.
pub fn parse_request_value(value: &Json, ctx: &RequestCtx) -> (r: CanonicalRequest)
    ensures
        r@ == request_of(value@, ctx.path@),
{
    let nothing = Json::Null;
    let model = match model_from_path(ctx.path.as_str()) {
        Some(model) => model,
        None => text_or_empty(value.str_at("model")),
    };
    let mut messages: Vec<CanonicalMessage> = Vec::new();
    if let Some(items) = value.array_at("contents") {
        let mut i: usize = 0;
        while i < items.len()
            invariant
                i <= items.len(),
                messages@.len() == i,
                forall|k: int| 0 <= k < i ==> (#[trigger] messages@[k])@ == message_of(items@[k]@),
            decreases items.len() - i,
        {
            messages.push(parse_message(&items[i]));
            i += 1;
        }
        assert(views(messages@) == seq_view(items@).map_values(|c: JsonV| message_of(c)));
    } else {
        assert(views(messages@) == Seq::<MessageV>::empty());
    }
    let instruction = match value.get("systemInstruction") {
        Some(x) => x,
        None => &nothing,
    };
    let system = match instruction.get("parts") {
        Some(parts) => Some(flatten_parts(parts)),
        None => None,
    };
    let tools = match value.array_at("tools") {
        Some(items) => parse_tools(items),
        None => Vec::new(),
    };
    let config = match value.get("generationConfig") {
        Some(x) => x,
        None => &nothing,
    };
    let stop = match config.array_at("stopSequences") {
        Some(items) => strings_in(items),
        None => Vec::new(),
    };
    let sampling = Sampling {
        temperature: config.double_at("temperature"),
        top_p: config.double_at("topP"),
        top_k: config.u64_at("topK"),
        max_tokens: config.u64_at("maxOutputTokens"),
        stop,
    };
    let known = ["model", "contents", "systemInstruction", "tools", "generationConfig"];
    assert(strs(known@) == request_fields());
    let extra = collect_extra(value, known.as_slice(), "google");
    let r = CanonicalRequest {
        model,
        messages,
        system,
        tools,
        tool_choice: None,
        sampling,
        stream: false,
        extra,
    };
    assert(r@.sampling == request_of(value@, ctx.path@).sampling);
    assert(r@ == request_of(value@, ctx.path@));
    r
}

/// Reads a request from its body.
pub fn parse_body(body: &[u8], ctx: &RequestCtx) -> (r: Result<CanonicalRequest, AdapterError>)
    ensures
        result_view(r) == request_read(body@, ctx.path@),
{
    match parse(body) {
        Err(e) => Err(AdapterError::Malformed(concat2("invalid JSON: ", e.as_str()))),
        Ok(value) => Ok(parse_request_value(&value, ctx)),
    }
}

/// The token counts of a usage value.
pub open spec fn usage_of(u: JsonV) -> Usage {
    Usage {
        input_tokens: u.uint_at("promptTokenCount"@),
        output_tokens: u.uint_at("candidatesTokenCount"@),
    }
}

fn parse_usage(u: &Json) -> (r: Usage)
    ensures
        r == usage_of(u@),
{
    Usage {
        input_tokens: u.u64_at("promptTokenCount"),
        output_tokens: u.u64_at("candidatesTokenCount"),
    }
}

/// The first candidate of a response, null where there is none.
pub open spec fn first_candidate(v: JsonV) -> JsonV {
    match v.items_at("candidates"@) {
        Some(items) if items.len() > 0 => items[0],
        _ => JsonV::Null,
    }
}

/// The response that a body stands for: that of its first candidate.
pub open spec fn response_of(v: JsonV) -> ResponseV {
    let candidate = first_candidate(v);
    ResponseV {
        model: match v.text_at("modelVersion"@) {
            Some(model) => model,
            None => or_empty(v.text_at("model"@)),
        },
        content: match or_null(candidate.get("content"@)).get("parts"@) {
            Some(parts) => blocks_of(parts),
            None => Seq::empty(),
        },
        stop_reason: match candidate.text_at("finishReason"@) {
            Some(name) => Some(stop_reason_of(name)),
            None => None,
        },
        usage: match v.get("usageMetadata"@) {
            Some(u) => Some(usage_of(u)),
            None => None,
        },
        extra: collected_extra(v, response_fields(), "google"@),
    }
}

/// The response that a body's bytes stand for.
pub open spec fn response_read(body: Seq<u8>) -> Result<ResponseV, AdapterErrorV> {
    match json_read(body) {
        Err(e) => Err(AdapterErrorV::Malformed("invalid JSON: "@ + e)),
        Ok(v) => Ok(response_of(v)),
    }
}

fn parse_first_candidate<'a>(value: &'a Json) -> (r: Option<&'a Json>)
    ensures
        match r {
            Some(c) => first_candidate(value@) == c@,
            None => first_candidate(value@) == JsonV::Null,
        },
{
    match value.array_at("candidates") {
        Some(items) => if items.len() > 0 {
            Some(&items[0])
        } else {
            None
        },
        None => None,
    }
}

/// Reads a response from the value of its body.
pub fn parse_response_value(value: &Json) -> (r: CanonicalResponse)
    ensures
        r@ == response_of(value@),
{
    let nothing = Json::Null;
    let candidate = match parse_first_candidate(value) {
        Some(c) => c,
        None => &nothing,
    };
    let holder = match candidate.get("content") {
        Some(c) => c,
        None => &nothing,
    };
    let content = match holder.get("parts") {
        Some(parts) => parts_to_blocks(parts),
        None => Vec::new(),
    };
    let stop_reason = match candidate.str_at("finishReason") {
        Some(name) => Some(parse_stop_reason(name.as_str())),
        None => None,
    };
    let usage = match value.get("usageMetadata") {
        Some(u) => Some(parse_usage(u)),
        None => None,
    };
    let model = match value.str_at("modelVersion") {
        Some(model) => model.clone(),
        None => text_or_empty(value.str_at("model")),
    };
    let known = ["candidates", "usageMetadata", "modelVersion", "model"];
    assert(strs(known@) == response_fields());
    let extra = collect_extra(value, known.as_slice(), "google");
    let r = CanonicalResponse { model, content, stop_reason, usage, extra };
    assert(r@ == response_of(value@));
    r
}

/// Reads a response from its body.
pub fn parse_response_body(body: &[u8]) -> (r: Result<CanonicalResponse, AdapterError>)
    ensures
        result_view(r) == response_read(body@),
{
    match parse(body) {
        Err(e) => Err(AdapterError::Malformed(concat2("invalid JSON: ", e.as_str()))),
        Ok(value) => Ok(parse_response_value(&value)),
    }
}

/// The response member that a tool result's text is written as: the document in
/// it, or an object with the text where it is none.
pub open spec fn result_value(content: Seq<char>) -> JsonV {
    match json_read(encode_utf8(content)) {
        Ok(v) => v,
        Err(_) => JsonV::Object(map!["result"@ => JsonV::Str(content)]),
    }
}

/// The part of a call.
pub open spec fn call_part(name: Seq<char>, args: JsonV) -> JsonV {
    JsonV::Object(
        map![
            "functionCall"@ => JsonV::Object(map!["name"@ => JsonV::Str(name), "args"@ => args]),
        ],
    )
}

/// The part of a content block.
pub open spec fn part_value(block: BlockV) -> JsonV {
    match block {
        BlockV::Text { text } => JsonV::Object(map!["text"@ => JsonV::Str(text)]),
        BlockV::Image { media_type, data } => JsonV::Object(
            map![
                "inlineData"@ => JsonV::Object(map![
                    "mimeType"@ => JsonV::Str(media_type),
                    "data"@ => JsonV::Str(data),
                ]),
            ],
        ),
        BlockV::ToolUse { id, name, input } => call_part(name, input),
        BlockV::ToolResult { id, content, is_error } => JsonV::Object(
            map![
                "functionResponse"@ => JsonV::Object(map![
                    "name"@ => JsonV::Str(id),
                    "response"@ => result_value(content),
                ]),
            ],
        ),
    }
}

/// The report on a content block at a path.
pub open spec fn part_report(block: BlockV, path: Seq<char>, report: ReportV) -> ReportV {
    match block {
        BlockV::ToolUse { id, name, input } => if id != name {
            report.dropping(
                path + ".tool_use.id"@,
                "google functionCall has no separate id field; only name is preserved"@,
            )
        } else {
            report
        },
        BlockV::ToolResult { id, content, is_error } => {
            let report = if is_error {
                report.dropping(
                    path + ".tool_result.is_error"@,
                    "google functionResponse has no is_error field"@,
                )
            } else {
                report
            };
            if json_read(encode_utf8(content)) is Err {
                report.noting(
                    path
                        + ".tool_result.content: not a JSON object, wrapped as {\"result\": ...} for google functionResponse"@,
                )
            } else {
                report
            }
        },
        _ => report,
    }
}

fn render_block(block: &ContentBlock, path: &str, report: &mut TranslationReport) -> (r: Json)
    ensures
        r@ == part_value(block@),
        final(report)@ == part_report(block@, path@, old(report)@),
{
    match block {
        ContentBlock::Text { text } => Json::Object(
            JsonMap::new().set("text", string(text.as_str())),
        ),
        ContentBlock::Image { media_type, data } => {
            let inline = JsonMap::new().set("mimeType", string(media_type.as_str())).set(
                "data",
                string(data.as_str()),
            );
            Json::Object(JsonMap::new().set("inlineData", Json::Object(inline)))
        },
        ContentBlock::ToolUse { id, name, input } => {
            if !same(id.as_str(), name.as_str()) {
                report.drop(
                    concat2(path, ".tool_use.id"),
                    "google functionCall has no separate id field; only name is preserved".to_owned(),
                );
            }
            render_call(name.as_str(), input.dup())
        },
        ContentBlock::ToolResult { id, content, is_error } => {
            if *is_error {
                report.drop(
                    concat2(path, ".tool_result.is_error"),
                    "google functionResponse has no is_error field".to_owned(),
                );
            }
            let response = match parse(content.as_str().as_bytes()) {
                Ok(v) => v,
                Err(_) => {
                    report.note(
                        concat2(
                            path,
                            ".tool_result.content: not a JSON object, wrapped as {\"result\": ...} for google functionResponse",
                        ),
                    );
                    Json::Object(JsonMap::new().set("result", string(content.as_str())))
                },
            };
            let body = JsonMap::new().set("name", string(id.as_str())).set("response", response);
            Json::Object(JsonMap::new().set("functionResponse", Json::Object(body)))
        },
    }
}

fn render_call(name: &str, args: Json) -> (r: Json)
    ensures
        r@ == call_part(name@, args@),
{
    let call = JsonMap::new().set("name", string(name)).set("args", args);
    Json::Object(JsonMap::new().set("functionCall", Json::Object(call)))
}

/// The parts of some content blocks.
pub open spec fn part_values(blocks: Seq<BlockV>) -> Seq<JsonV> {
    blocks.map_values(|b: BlockV| part_value(b))
}

/// The report on some content blocks at a path.
pub open spec fn parts_report(blocks: Seq<BlockV>, path: Seq<char>, report: ReportV) -> ReportV
    decreases blocks.len(),
{
    if blocks.len() == 0 {
        report
    } else {
        part_report(blocks.last(), path, parts_report(blocks.drop_last(), path, report))
    }
}

fn render_blocks(blocks: &Vec<ContentBlock>, path: &str, report: &mut TranslationReport) -> (r: Json)
    ensures
        r@ == JsonV::Array(part_values(views(blocks@))),
        final(report)@ == parts_report(views(blocks@), path@, old(report)@),
{
    let ghost all = views(blocks@);
    let mut out: Vec<Json> = Vec::new();
    let mut i: usize = 0;
    while i < blocks.len()
        invariant
            i <= blocks.len(),
            all == views(blocks@),
            out@.len() == i,
            forall|k: int| 0 <= k < i ==> (#[trigger] out@[k])@ == part_value(blocks@[k]@),
            report@ == parts_report(all.take(i as int), path@, old(report)@),
        decreases blocks.len() - i,
    {
        assert(all.take(i + 1).drop_last() == all.take(i as int));
        assert(all.take(i + 1).last() == blocks@[i as int]@);
        out.push(render_block(&blocks[i], path, report));
        i += 1;
    }
    assert(all.take(i as int) == all);
    assert(seq_view(out@) == part_values(views(blocks@)));
    Json::Array(out)
}

/// The dialect's name of a role.
pub open spec fn role_name(role: Role) -> Seq<char> {
    match role {
        Role::User => "user"@,
        Role::Assistant => "model"@,
        Role::Tool => "function"@,
        Role::System => "system"@,
    }
}

/// The content entry of a message.
pub open spec fn message_value(m: MessageV) -> JsonV {
    JsonV::Object(
        map![
            "role"@ => JsonV::Str(role_name(m.role)),
            "parts"@ => JsonV::Array(part_values(m.content)),
        ],
    )
}

/// The path of a message's content in reports.
pub open spec fn content_path(index: nat) -> Seq<char> {
    "messages["@ + decimal(index) + "].content"@
}

fn render_message(msg: &CanonicalMessage, index: usize, report: &mut TranslationReport) -> (r: Json)
    requires
        msg.role != Role::System,
    ensures
        r@ == message_value(msg@),
        final(report)@ == parts_report(msg@.content, content_path(index as nat), old(report)@),
{
    let role: &str = match msg.role {
        Role::User => "user",
        Role::Assistant => "model",
        _ => "function",
    };
    let index_text = decimal_text(index as u64);
    let path = concat3("messages[", index_text.as_str(), "].content");
    let parts = render_blocks(&msg.content, path.as_str(), report);
    Json::Object(JsonMap::new().set("role", string(role)).set("parts", parts))
}

/// What writing messages gives: their values, and the report.
#[verifier::ext_equal]
pub struct Sent {
    pub values: Seq<JsonV>,
    pub report: ReportV,
}

/// Writes the messages that are not system messages.
pub open spec fn sent_messages(messages: Seq<MessageV>, report: ReportV) -> Sent
    decreases messages.len(),
{
    if messages.len() == 0 {
        Sent { values: Seq::empty(), report }
    } else {
        let before = sent_messages(messages.drop_last(), report);
        let m = messages.last();
        if m.role == Role::System {
            before
        } else {
            Sent {
                values: before.values.push(message_value(m)),
                report: parts_report(
                    m.content,
                    content_path((messages.len() - 1) as nat),
                    before.report,
                ),
            }
        }
    }
}

fn render_messages(messages: &Vec<CanonicalMessage>, report: &mut TranslationReport) -> (r: Vec<Json>)
    ensures
        ({
            let sent = sent_messages(views(messages@), old(report)@);
            &&& seq_view(r@) == sent.values
            &&& final(report)@ == sent.report
        }),
{
    let ghost all = views(messages@);
    let ghost report0 = report@;
    let mut out: Vec<Json> = Vec::new();
    assert(all.take(0) == Seq::<MessageV>::empty());
    assert(seq_view(out@) == sent_messages(all.take(0), report0).values);
    let mut i: usize = 0;
    while i < messages.len()
        invariant
            i <= messages.len(),
            all == views(messages@),
            seq_view(out@) == sent_messages(all.take(i as int), report0).values,
            report@ == sent_messages(all.take(i as int), report0).report,
        decreases messages.len() - i,
    {
        let msg = &messages[i];
        let ghost before = seq_view(out@);
        assert(all.take(i + 1).drop_last() == all.take(i as int));
        assert(all.take(i + 1).last() == msg@);
        if msg.role != Role::System {
            let value = render_message(msg, i, report);
            out.push(value);
            assert(seq_view(out@) == before.push(value@));
        }
        i += 1;
    }
    assert(all.take(i as int) == all);
    out
}

/// The parts of the system prompt, and the report on the system messages.
#[verifier::ext_equal]
pub struct SystemParts {
    pub parts: Seq<Seq<char>>,
    pub report: ReportV,
}

/// The report on the content of a system message: what is not text is dropped.
pub open spec fn system_drops(content: Seq<BlockV>, index: nat, report: ReportV) -> ReportV
    decreases content.len(),
{
    if content.len() == 0 {
        report
    } else {
        let before = system_drops(content.drop_last(), index, report);
        match content.last() {
            BlockV::Text { .. } => before,
            _ => before.dropping(
                content_path(index),
                "google systemInstruction is text-only; non-text content in a system-role message has no representation there"@,
            ),
        }
    }
}

/// Gathers the system prompt: the request's own, then the system messages' texts.
pub open spec fn system_parts(
    system: Option<Seq<char>>,
    messages: Seq<MessageV>,
    report: ReportV,
) -> SystemParts
    decreases messages.len(),
{
    if messages.len() == 0 {
        SystemParts {
            parts: match system {
                Some(s) => seq![s],
                None => Seq::empty(),
            },
            report,
        }
    } else {
        let before = system_parts(system, messages.drop_last(), report);
        let m = messages.last();
        if m.role == Role::System {
            SystemParts {
                parts: before.parts + block_texts(m.content),
                report: system_drops(m.content, (messages.len() - 1) as nat, before.report),
            }
        } else {
            before
        }
    }
}

fn render_system_message(
    msg: &CanonicalMessage,
    index: usize,
    report: &mut TranslationReport,
    parts: &mut Vec<String>,
)
    ensures
        texts(final(parts)@) == texts(old(parts)@) + block_texts(msg@.content),
        final(report)@ == system_drops(msg@.content, index as nat, old(report)@),
{
    let ghost all = msg@.content;
    let ghost before = texts(parts@);
    let mut i: usize = 0;
    assert(texts(parts@) == before + block_texts(all.take(0)));
    while i < msg.content.len()
        invariant
            i <= msg.content.len(),
            all == views(msg.content@),
            texts(parts@) == before + block_texts(all.take(i as int)),
            report@ == system_drops(all.take(i as int), index as nat, old(report)@),
        decreases msg.content.len() - i,
    {
        let ghost now = texts(parts@);
        assert(all.take(i + 1).drop_last() == all.take(i as int));
        assert(all.take(i + 1).last() == msg.content@[i as int]@);
        match &msg.content[i] {
            ContentBlock::Text { text } => {
                parts.push(text.clone());
                assert(texts(parts@) == now.push(text@));
                assert(now.push(text@) == before + block_texts(all.take(i + 1)));
            },
            _ => {
                let index_text = decimal_text(index as u64);
                report.drop(
                    concat3("messages[", index_text.as_str(), "].content"),
                    "google systemInstruction is text-only; non-text content in a system-role message has no representation there".to_owned(),
                );
            },
        }
        i += 1;
    }
    assert(all.take(i as int) == all);
}

/// The system instruction of the prompt's parts.
pub open spec fn instruction_value(parts: Seq<Seq<char>>) -> JsonV {
    JsonV::Object(
        map![
            "parts"@ => JsonV::Array(
                parts.map_values(|p: Seq<char>| JsonV::Object(map!["text"@ => JsonV::Str(p)])),
            ),
        ],
    )
}

/// The system instruction, where the prompt has any part.
pub open spec fn opt_instruction(parts: Seq<Seq<char>>) -> Option<JsonV> {
    if parts.len() == 0 {
        None
    } else {
        Some(instruction_value(parts))
    }
}

fn render_system_instruction(req: &CanonicalRequest, report: &mut TranslationReport) -> (r: Option<Json>)
    ensures
        ({
            let gathered = system_parts(req@.system, req@.messages, old(report)@);
            &&& opt_view(r) == opt_instruction(gathered.parts)
            &&& final(report)@ == gathered.report
        }),
{
    let ghost all = req@.messages;
    let ghost report0 = report@;
    let mut parts: Vec<String> = Vec::new();
    if let Some(system) = &req.system {
        parts.push(system.clone());
    }
    assert(all.take(0) == Seq::<MessageV>::empty());
    assert(texts(parts@) == system_parts(req@.system, all.take(0), report0).parts);
    let mut i: usize = 0;
    while i < req.messages.len()
        invariant
            i <= req.messages.len(),
            all == views(req.messages@),
            texts(parts@) == system_parts(req@.system, all.take(i as int), report0).parts,
            report@ == system_parts(req@.system, all.take(i as int), report0).report,
        decreases req.messages.len() - i,
    {
        let msg = &req.messages[i];
        assert(all.take(i + 1).drop_last() == all.take(i as int));
        assert(all.take(i + 1).last() == msg@);
        if msg.role == Role::System {
            render_system_message(msg, i, report, &mut parts);
        }
        i += 1;
    }
    assert(all.take(i as int) == all);
    if parts.len() == 0 {
        return None;
    }
    let ghost gathered = texts(parts@);
    let mut values: Vec<Json> = Vec::new();
    let mut j: usize = 0;
    while j < parts.len()
        invariant
            j <= parts.len(),
            values@.len() == j,
            forall|k: int|
                0 <= k < j ==> (#[trigger] values@[k])@ == JsonV::Object(
                    map!["text"@ => JsonV::Str(parts@[k]@)],
                ),
        decreases parts.len() - j,
    {
        values.push(Json::Object(JsonMap::new().set("text", string(parts[j].as_str()))));
        j += 1;
    }
    assert(seq_view(values@) == gathered.map_values(
        |p: Seq<char>| JsonV::Object(map!["text"@ => JsonV::Str(p)]),
    ));
    Some(Json::Object(JsonMap::new().set("parts", Json::Array(values))))
}

/// The declaration of a tool.
pub open spec fn declaration_value(t: ToolV) -> JsonV {
    JsonV::Object(
        put_opt(
            map!["name"@ => JsonV::Str(t.name)],
            "description"@,
            opt_str(t.description),
        ).insert("parameters"@, t.input_schema),
    )
}

/// The tools member of a request: one entry with all declarations.
pub open spec fn tools_value(tools: Seq<ToolV>) -> JsonV {
    let declarations = tools.map_values(|t: ToolV| declaration_value(t));
    JsonV::Array(
        seq![JsonV::Object(map!["functionDeclarations"@ => JsonV::Array(declarations)])],
    )
}

fn render_tools(tools: &Vec<CanonicalTool>) -> (r: Json)
    ensures
        r@ == tools_value(views(tools@)),
{
    let mut out: Vec<Json> = Vec::new();
    let mut i: usize = 0;
    while i < tools.len()
        invariant
            i <= tools.len(),
            out@.len() == i,
            forall|k: int| 0 <= k < i ==> (#[trigger] out@[k])@ == declaration_value(tools@[k]@),
        decreases tools.len() - i,
    {
        let t = &tools[i];
        let mut d = JsonMap::new().set("name", string(t.name.as_str()));
        if let Some(description) = &t.description {
            d = d.set("description", string(description.as_str()));
        }
        d = d.set("parameters", t.input_schema.dup());
        out.push(Json::Object(d));
        i += 1;
    }
    assert(seq_view(out@) == views(tools@).map_values(|t: ToolV| declaration_value(t)));
    let entry = Json::Object(JsonMap::new().set("functionDeclarations", Json::Array(out)));
    let ghost entry_v = entry@;
    let mut entries: Vec<Json> = Vec::new();
    entries.push(entry);
    assert(seq_view(entries@) == seq![entry_v]);
    Json::Array(entries)
}

/// The generation settings of a request.
pub open spec fn config_members(s: SamplingV) -> Map<Seq<char>, JsonV> {
    let m1 = put_opt(Map::empty(), "temperature"@, opt_double(s.temperature));
    let m2 = put_opt(m1, "topP"@, opt_double(s.top_p));
    let m3 = put_opt(m2, "topK"@, opt_uint(s.top_k));
    let m4 = put_opt(m3, "maxOutputTokens"@, opt_uint(s.max_tokens));
    if s.stop.len() > 0 {
        m4.insert("stopSequences"@, JsonV::Array(str_values(s.stop)))
    } else {
        m4
    }
}

fn render_config(s: &Sampling) -> (r: JsonMap)
    ensures
        r@ == config_members(s@),
{
    let mut m = JsonMap::new();
    if let Some(t) = s.temperature {
        m = m.set("temperature", double(t));
    }
    if let Some(t) = s.top_p {
        m = m.set("topP", double(t));
    }
    if let Some(n) = s.top_k {
        m = m.set("topK", uint(n));
    }
    if let Some(n) = s.max_tokens {
        m = m.set("maxOutputTokens", uint(n));
    }
    if s.stop.len() > 0 {
        m = m.set("stopSequences", string_array(&s.stop));
    }
    assert(m@ == config_members(s@));
    m
}

/// The typed fields of a request's body.
pub open spec fn typed_request(
    req: RequestV,
    instruction: Option<JsonV>,
    contents: Seq<JsonV>,
) -> Map<Seq<char>, JsonV> {
    let m1 = map!["model"@ => JsonV::Str(req.model), "contents"@ => JsonV::Array(contents)];
    let m2 = put_opt(m1, "systemInstruction"@, instruction);
    let m3 = if req.tools.len() > 0 {
        m2.insert("tools"@, tools_value(req.tools))
    } else {
        m2
    };
    let config = config_members(req.sampling);
    if config == Map::<Seq<char>, JsonV>::empty() {
        m3
    } else {
        m3.insert("generationConfig"@, JsonV::Object(config))
    }
}

/// The report on the request fields that the dialect has no place for.
pub open spec fn field_report(req: RequestV, report: ReportV) -> ReportV {
    let r1 = if req.tool_choice is Some {
        report.dropping("tool_choice"@, "google adapter does not model tool_choice/toolConfig yet"@)
    } else {
        report
    };
    if req.stream {
        r1.dropping(
            "stream"@,
            "google signals streaming via URL path segment, not body; render_request has no ctx to select streamGenerateContent"@,
        )
    } else {
        r1
    }
}

/// The body of a request, and the report on what it could not carry.
pub open spec fn request_value(req: RequestV, report: ReportV) -> (JsonV, ReportV) {
    let gathered = system_parts(req.system, req.messages, report);
    let sent = sent_messages(req.messages, gathered.report);
    let typed = typed_request(req, opt_instruction(gathered.parts), sent.values);
    let (members, report) = emitted("google"@, req.extra, typed, field_report(req, sent.report));
    (JsonV::Object(members), report)
}

/// Writes the value of a request's body.
pub fn render_request_value(req: &CanonicalRequest, report: &mut TranslationReport) -> (r: Json)
    ensures
        (r@, final(report)@) == request_value(req@, old(report)@),
{
    let instruction = render_system_instruction(req, report);
    let ghost instruction_v = opt_view(instruction);
    let contents = render_messages(&req.messages, report);
    let ghost contents_v = seq_view(contents@);
    let mut body = JsonMap::new().set("model", string(req.model.as_str())).set(
        "contents",
        Json::Array(contents),
    );
    if let Some(instruction) = instruction {
        body = body.set("systemInstruction", instruction);
    }
    if req.tools.len() > 0 {
        body = body.set("tools", render_tools(&req.tools));
    }
    if req.tool_choice.is_some() {
        report.drop(
            "tool_choice".to_owned(),
            "google adapter does not model tool_choice/toolConfig yet".to_owned(),
        );
    }
    let config = render_config(&req.sampling);
    if !config.is_empty() {
        body = body.set("generationConfig", Json::Object(config));
    }
    if req.stream {
        report.drop(
            "stream".to_owned(),
            "google signals streaming via URL path segment, not body; render_request has no ctx to select streamGenerateContent".to_owned(),
        );
    }
    assert(body@ == typed_request(req@, instruction_v, contents_v));
    emit_or_drop_extra("google", &req.extra, &mut body, report);
    Json::Object(body)
}

/// Writes a request's body.
pub fn render_request_body(req: &CanonicalRequest, report: &mut TranslationReport) -> (r: Result<
    Vec<u8>,
    AdapterError,
>)
    ensures
        r matches Ok(bytes) && bytes@ == encode_utf8(
            json_text(request_value(req@, old(report)@).0),
        ),
        final(report)@ == request_value(req@, old(report)@).1,
        nests_within(request_value(req@, old(report)@).0, read_depth()) ==> forall|path: Seq<char>|
            #[trigger] request_read(r->Ok_0@, path) == Ok::<RequestV, AdapterErrorV>(
                request_of(request_value(req@, old(report)@).0, path),
            ),
{
    let value = render_request_value(req, report);
    Ok(value.to_text().as_bytes_vec())
}

/// The finish reason of a stop reason. The dialect has none of its own for a tool
/// call or a stop sequence.
pub open spec fn stop_reason_name(reason: StopReasonV) -> Seq<char> {
    match reason {
        StopReasonV::EndTurn => "STOP"@,
        StopReasonV::MaxTokens => "MAX_TOKENS"@,
        StopReasonV::ToolUse => "STOP"@,
        StopReasonV::StopSequence => "STOP"@,
        StopReasonV::Other(name) => name,
    }
}

/// The report on a stop reason.
pub open spec fn stop_reason_report(reason: StopReasonV, report: ReportV) -> ReportV {
    match reason {
        StopReasonV::ToolUse => report.noting(
            "stop_reason: ToolUse has no distinct google finishReason, mapped to \"STOP\""@,
        ),
        StopReasonV::StopSequence => report.noting(
            "stop_reason: StopSequence has no distinct google finishReason, mapped to \"STOP\""@,
        ),
        _ => report,
    }
}

fn render_stop_reason(reason: &StopReason, report: &mut TranslationReport) -> (r: String)
    ensures
        r@ == stop_reason_name(reason@),
        final(report)@ == stop_reason_report(reason@, old(report)@),
{
    match reason {
        StopReason::EndTurn => "STOP".to_owned(),
        StopReason::MaxTokens => "MAX_TOKENS".to_owned(),
        StopReason::ToolUse => {
            report.note(
                "stop_reason: ToolUse has no distinct google finishReason, mapped to \"STOP\"".to_owned(),
            );
            "STOP".to_owned()
        },
        StopReason::StopSequence => {
            report.note(
                "stop_reason: StopSequence has no distinct google finishReason, mapped to \"STOP\"".to_owned(),
            );
            "STOP".to_owned()
        },
        StopReason::Other(name) => name.clone(),
    }
}

/// The value of token counts.
pub open spec fn usage_value(u: Usage) -> JsonV {
    JsonV::Object(
        put_opt(
            put_opt(Map::empty(), "promptTokenCount"@, opt_uint(u.input_tokens)),
            "candidatesTokenCount"@,
            opt_uint(u.output_tokens),
        ),
    )
}

fn render_usage(u: &Usage) -> (r: Json)
    ensures
        r@ == usage_value(*u),
{
    let mut m = JsonMap::new();
    if let Some(n) = u.input_tokens {
        m = m.set("promptTokenCount", uint(n));
    }
    if let Some(n) = u.output_tokens {
        m = m.set("candidatesTokenCount", uint(n));
    }
    Json::Object(m)
}

/// A candidate with the given parts and perhaps a finish reason.
pub open spec fn candidate_value(parts: Seq<JsonV>, finish: Option<Seq<char>>) -> JsonV {
    let content = map!["parts"@ => JsonV::Array(parts), "role"@ => JsonV::Str("model"@)];
    JsonV::Object(
        put_opt(
            map!["content"@ => JsonV::Object(content), "index"@ => JsonV::Number(Num::PosInt(0))],
            "finishReason"@,
            opt_str(finish),
        ),
    )
}

fn one_candidate(parts: Json, finish: Option<String>) -> (r: Json)
    requires
        parts@ is Array,
    ensures
        r@ == JsonV::Array(seq![candidate_value(parts@->Array_0, opt_view(finish))]),
{
    let ghost finish_v = opt_view(finish);
    let ghost parts_v = parts@;
    let content = JsonMap::new().set("parts", parts).set("role", string("model"));
    let mut c = JsonMap::new().set("content", Json::Object(content)).set("index", uint(0));
    if let Some(reason) = finish {
        c = c.set("finishReason", Json::Str(reason));
    }
    assert(JsonV::Object(c@) == candidate_value(parts_v->Array_0, finish_v));
    let mut out: Vec<Json> = Vec::new();
    out.push(Json::Object(c));
    assert(seq_view(out@) == seq![candidate_value(parts_v->Array_0, finish_v)]);
    Json::Array(out)
}

/// The finish reason of a stop reason that may be absent.
pub open spec fn opt_finish(reason: Option<StopReasonV>) -> Option<Seq<char>> {
    match reason {
        Some(r) => Some(stop_reason_name(r)),
        None => None,
    }
}

/// The report on a stop reason that may be absent.
pub open spec fn opt_finish_report(reason: Option<StopReasonV>, report: ReportV) -> ReportV {
    match reason {
        Some(r) => stop_reason_report(r, report),
        None => report,
    }
}

fn render_finish(reason: &Option<StopReason>, report: &mut TranslationReport) -> (r: Option<String>)
    ensures
        opt_view(r) == opt_finish(opt_view(*reason)),
        final(report)@ == opt_finish_report(opt_view(*reason), old(report)@),
{
    match reason {
        Some(reason) => Some(render_stop_reason(reason, report)),
        None => None,
    }
}

/// The typed fields of a response's body.
pub open spec fn typed_response(resp: ResponseV) -> Map<Seq<char>, JsonV> {
    let candidate = candidate_value(part_values(resp.content), opt_finish(resp.stop_reason));
    let m = map![
        "candidates"@ => JsonV::Array(seq![candidate]),
        "modelVersion"@ => JsonV::Str(resp.model),
    ];
    match resp.usage {
        Some(u) => m.insert("usageMetadata"@, usage_value(u)),
        None => m,
    }
}

/// The body of a response, and the report on what it could not carry.
pub open spec fn response_value(resp: ResponseV, report: ReportV) -> (JsonV, ReportV) {
    let noted = opt_finish_report(
        resp.stop_reason,
        parts_report(resp.content, "content"@, report),
    );
    let (members, report) = emitted("google"@, resp.extra, typed_response(resp), noted);
    (JsonV::Object(members), report)
}

/// Writes the value of a response's body.
pub fn render_response_value(resp: &CanonicalResponse, report: &mut TranslationReport) -> (r: Json)
    ensures
        (r@, final(report)@) == response_value(resp@, old(report)@),
{
    let parts = render_blocks(&resp.content, "content", report);
    let finish = render_finish(&resp.stop_reason, report);
    let mut body = JsonMap::new().set("candidates", one_candidate(parts, finish)).set(
        "modelVersion",
        string(resp.model.as_str()),
    );
    if let Some(usage) = &resp.usage {
        body = body.set("usageMetadata", render_usage(usage));
    }
    assert(body@ == typed_response(resp@));
    emit_or_drop_extra("google", &resp.extra, &mut body, report);
    Json::Object(body)
}

/// Writes a response's body.
pub fn render_response_body(resp: &CanonicalResponse, report: &mut TranslationReport) -> (r: Result<
    Vec<u8>,
    AdapterError,
>)
    ensures
        r matches Ok(bytes) && bytes@ == encode_utf8(
            json_text(response_value(resp@, old(report)@).0),
        ),
        final(report)@ == response_value(resp@, old(report)@).1,
        nests_within(response_value(resp@, old(report)@).0, read_depth()) ==> response_read(r->Ok_0@)
            == Ok::<ResponseV, AdapterErrorV>(response_of(response_value(resp@, old(report)@).0)),
{
    let value = render_response_value(resp, report);
    Ok(value.to_text().as_bytes_vec())
}

/// The first part of a candidate, if any.
pub open spec fn first_part(candidate: JsonV) -> Option<JsonV> {
    match or_null(candidate.get("content"@)).items_at("parts"@) {
        Some(parts) if parts.len() > 0 => Some(parts[0]),
        _ => None,
    }
}

fn parse_first_part<'a>(candidate: &'a Json) -> (r: Option<&'a Json>)
    ensures
        match r {
            Some(p) => first_part(candidate@) == Some(p@),
            None => first_part(candidate@) is None,
        },
{
    match candidate.get("content") {
        Some(content) => match content.array_at("parts") {
            Some(parts) => if parts.len() > 0 {
                Some(&parts[0])
            } else {
                None
            },
            None => None,
        },
        None => None,
    }
}

/// The fragment that a chunk's value carries, if any: its token counts, else its
/// finish reason, else the text of its first part.
pub open spec fn delta_of(v: JsonV) -> Option<DeltaV> {
    let candidate = first_candidate(v);
    match v.get("usageMetadata"@) {
        Some(u) => Some(
            DeltaV::of_usage(
                DeltaUsage {
                    input_tokens: u.uint_at("promptTokenCount"@),
                    output_tokens: u.uint_at("candidatesTokenCount"@),
                },
            ),
        ),
        None => match candidate.text_at("finishReason"@) {
            Some(reason) => Some(DeltaV::of_finish(FinishV { reason: Some(reason) })),
            None => match first_part(candidate) {
                None => None,
                Some(part) => match part.text_at("text"@) {
                    Some(text) => Some(DeltaV::of_text(text)),
                    None => None,
                },
            },
        },
    }
}

/// Reads the fragment in a chunk's value.
pub fn parse_delta_value(value: &Json) -> (r: Option<Delta>)
    ensures
        opt_view(r) == delta_of(value@),
{
    if let Some(u) = value.get("usageMetadata") {
        return Some(
            Delta::usage(
                DeltaUsage {
                    input_tokens: u.u64_at("promptTokenCount"),
                    output_tokens: u.u64_at("candidatesTokenCount"),
                },
            ),
        );
    }
    match parse_first_candidate(value) {
        None => None,
        Some(candidate) => {
            if let Some(reason) = candidate.str_at("finishReason") {
                return Some(Delta::finish(Finish { reason: Some(reason.clone()) }));
            }
            match parse_first_part(candidate) {
                None => None,
                Some(part) => match part.str_at("text") {
                    Some(text) => Some(Delta::text(text.clone())),
                    None => None,
                },
            }
        },
    }
}

/// The fragment that a stream event carries, if any; a malformed event has none.
pub open spec fn delta_read(data: Seq<char>) -> Option<DeltaV> {
    match json_read(encode_utf8(data)) {
        Ok(v) => delta_of(v),
        Err(_) => None,
    }
}

/// Reads the fragment in a stream event.
pub fn parse_delta(event: &SseEvent) -> (r: Option<Delta>)
    ensures
        opt_view(r) == delta_read(event.data@),
{
    match parse(event.data.as_str().as_bytes()) {
        Ok(value) => parse_delta_value(&value),
        Err(_) => None,
    }
}

/// The canonical event of a candidate's first part, if any, and the state after
/// it: text, or a whole call.
pub open spec fn content_event(candidate: JsonV, st: ParseStateV) -> (Option<EventV>, ParseStateV) {
    match first_part(candidate) {
        None => (None, st),
        Some(part) => match part.text_at("text"@) {
            Some(text) => {
                let (index, next) = st.text_index();
                (
                    Some(
                        EventV::ContentBlockDelta { index, text: Some(text), partial_json: None },
                    ),
                    next,
                )
            },
            None => match part.get("functionCall"@) {
                None => (None, st),
                Some(call) => {
                    let (index, next) = st.fresh_index();
                    let name = or_empty(call.text_at("name"@));
                    (
                        Some(
                            EventV::ContentBlockStart {
                                index,
                                block: BlockV::ToolUse {
                                    id: name,
                                    name,
                                    input: or_null(call.get("args"@)),
                                },
                            },
                        ),
                        next,
                    )
                },
            },
        },
    }
}

fn parse_content_part(candidate: &Json, st: &mut StreamParseState) -> (r: Option<
    CanonicalStreamEvent,
>)
    ensures
        (opt_view(r), final(st)@) == content_event(candidate@, old(st)@),
{
    match parse_first_part(candidate) {
        None => None,
        Some(part) => {
            if let Some(text) = part.str_at("text") {
                let index = st.text_index();
                return Some(
                    CanonicalStreamEvent::ContentBlockDelta {
                        index,
                        text: Some(text.clone()),
                        partial_json: None,
                    },
                );
            }
            match part.get("functionCall") {
                None => None,
                Some(call) => {
                    let index = st.fresh_index();
                    Some(
                        CanonicalStreamEvent::ContentBlockStart {
                            index,
                            block: ContentBlock::ToolUse {
                                id: text_or_empty(call.str_at("name")),
                                name: text_or_empty(call.str_at("name")),
                                input: copy_or_null(call.get("args")),
                            },
                        },
                    )
                },
            }
        },
    }
}

/// The end-of-message event of a chunk, where it has token counts or a finish
/// reason.
pub open spec fn end_event(v: JsonV) -> Option<EventV> {
    let usage = match v.get("usageMetadata"@) {
        Some(u) => Some(usage_of(u)),
        None => None,
    };
    let stop_reason = match first_candidate(v).text_at("finishReason"@) {
        Some(name) => Some(stop_reason_of(name)),
        None => None,
    };
    if usage is Some || stop_reason is Some {
        Some(EventV::MessageDelta { stop_reason, usage })
    } else {
        None
    }
}

/// The canonical event that a chunk's value stands for, if any, and the state
/// after it. Where a chunk has both content and an end, the content comes first
/// and the end waits.
pub open spec fn event_of(v: JsonV, st: ParseStateV) -> (Option<EventV>, ParseStateV) {
    let (content, next) = content_event(first_candidate(v), st);
    match (content, end_event(v)) {
        (Some(content), Some(end)) => (
            Some(content),
            ParseStateV { pending: next.pending.push(end), ..next },
        ),
        (Some(content), None) => (Some(content), next),
        (None, end) => (end, next),
    }
}

/// Reads the canonical event from a chunk's value.
pub fn parse_event_value(value: &Json, st: &mut StreamParseState) -> (r: Option<CanonicalStreamEvent>)
    ensures
        (opt_view(r), final(st)@) == event_of(value@, old(st)@),
{
    let nothing = Json::Null;
    let candidate = match parse_first_candidate(value) {
        Some(c) => c,
        None => &nothing,
    };
    let content = parse_content_part(candidate, st);
    let usage = match value.get("usageMetadata") {
        Some(u) => Some(parse_usage(u)),
        None => None,
    };
    let stop_reason = match candidate.str_at("finishReason") {
        Some(name) => Some(parse_stop_reason(name.as_str())),
        None => None,
    };
    let end = if usage.is_some() || stop_reason.is_some() {
        Some(CanonicalStreamEvent::MessageDelta { stop_reason, usage })
    } else {
        None
    };
    assert(opt_view(end) == end_event(value@));
    match content {
        Some(content) => {
            if let Some(end) = end {
                st.push_pending(end);
            }
            Some(content)
        },
        None => end,
    }
}

/// The canonical event that a stream event stands for, and the state after it:
/// none where the data is blank or malformed.
pub open spec fn event_read(data: Seq<char>, st: ParseStateV) -> (Option<EventV>, ParseStateV) {
    let text = trimmed(data);
    if text.len() == 0 {
        (None, st)
    } else {
        match json_read(encode_utf8(text)) {
            Ok(v) => event_of(v, st),
            Err(_) => (None, st),
        }
    }
}

/// Reads the canonical event from a stream event.
pub fn parse_stream_event(event: &SseEvent, st: &mut StreamParseState) -> (r: Result<
    Option<CanonicalStreamEvent>,
    AdapterError,
>)
    ensures
        r matches Ok(e) && (opt_view(e), final(st)@) == event_read(event.data@, old(st)@),
{
    let data = trim(event.data.as_str());
    if data.is_empty() {
        return Ok(None);
    }
    match parse(data.as_bytes()) {
        Ok(value) => Ok(parse_event_value(&value, st)),
        Err(_) => Ok(None),
    }
}

/// A chunk of a stream.
pub open spec fn chunk_value(
    parts: Seq<JsonV>,
    finish: Option<Seq<char>>,
    usage: Option<Usage>,
) -> ChunkV {
    let m = map!["candidates"@ => JsonV::Array(seq![candidate_value(parts, finish)])];
    ChunkV::Data(
        JsonV::Object(
            match usage {
                Some(u) => m.insert("usageMetadata"@, usage_value(u)),
                None => m,
            },
        ),
    )
}

/// The arguments of a call from their accumulated text, an empty object where the
/// text is no document.
pub open spec fn args_value(args: Seq<char>) -> JsonV {
    match json_read(encode_utf8(args)) {
        Ok(v) => v,
        Err(_) => JsonV::Object(Map::empty()),
    }
}

/// What one step wrote: the chunks, the state after them, and the report.
#[verifier::ext_equal]
pub struct Streamed {
    pub chunks: Seq<ChunkV>,
    pub st: RenderStateV,
    pub report: ReportV,
}

/// The tool call of a block, blank where none was recorded.
pub open spec fn tool_or_blank(st: RenderStateV, index: u64) -> ToolRenderV {
    if st.tool_render.dom().contains(index) {
        st.tool_render[index]
    } else {
        ToolRenderV { slot: 0, name: Seq::empty(), args: Seq::empty() }
    }
}

/// The chunks that a canonical event is written as, the state after it, and the
/// report. A call whose arguments come in fragments, as a null or empty input at its
/// start tells, is held back until its block stops; the dialect has no terminal.
pub open spec fn streamed(event: EventV, st: RenderStateV, report: ReportV) -> Streamed {
    let none = Streamed { chunks: Seq::empty(), st, report };
    match event {
        EventV::MessageStart { model, role } => Streamed {
            st: RenderStateV { model, role: Some(role), message_started: true, ..st },
            ..none
        },
        EventV::ContentBlockStart { index, block: BlockV::ToolUse { id, name, input } } => {
            match late_input(BlockV::ToolUse { id, name, input }) {
                None => Streamed {
                    st: st.with_tool(index, ToolRenderV { slot: 0, name, args: Seq::empty() }),
                    ..none
                },
                Some(input) => Streamed {
                    chunks: seq![chunk_value(seq![call_part(name, input)], None, None)],
                    ..none
                },
            }
        },
        EventV::ContentBlockStart { .. } => none,
        EventV::ContentBlockDelta { text: Some(text), .. } => Streamed {
            chunks: seq![
                chunk_value(seq![JsonV::Object(map!["text"@ => JsonV::Str(text)])], None, None),
            ],
            ..none
        },
        EventV::ContentBlockDelta { index, text: None, partial_json: Some(partial) } => {
            let tool = tool_or_blank(st, index);
            Streamed {
                st: st.with_tool(index, ToolRenderV { args: tool.args + partial, ..tool }),
                ..none
            }
        },
        EventV::ContentBlockDelta { .. } => none,
        EventV::ContentBlockStop { index } => if st.tool_render.dom().contains(index) {
            let tool = st.tool_render[index];
            Streamed {
                chunks: seq![
                    chunk_value(seq![call_part(tool.name, args_value(tool.args))], None, None),
                ],
                st: RenderStateV { tool_render: st.tool_render.remove(index), ..st },
                report,
            }
        } else {
            none
        },
        EventV::MessageDelta { stop_reason, usage } => Streamed {
            chunks: seq![chunk_value(Seq::empty(), opt_finish(stop_reason), usage)],
            st,
            report: opt_finish_report(stop_reason, report),
        },
        EventV::MessageStop => Streamed { st: RenderStateV { terminal_sent: true, ..st }, ..none },
    }
}

fn one_part_array(part: Json) -> (r: Json)
    ensures
        r@ == JsonV::Array(seq![part@]),
{
    let ghost part_v = part@;
    let mut parts: Vec<Json> = Vec::new();
    parts.push(part);
    assert(seq_view(parts@) == seq![part_v]);
    Json::Array(parts)
}

fn push_google_chunk(
    out: &mut Vec<Chunk>,
    parts: Json,
    finish: Option<String>,
    usage: &Option<Usage>,
)
    requires
        parts@ is Array,
    ensures
        views(final(out)@) == views(old(out)@).push(
            chunk_value(parts@->Array_0, opt_view(finish), *usage),
        ),
{
    let ghost want = chunk_value(parts@->Array_0, opt_view(finish), *usage);
    let mut m = JsonMap::new().set("candidates", one_candidate(parts, finish));
    if let Some(u) = usage {
        m = m.set("usageMetadata", render_usage(u));
    }
    let c = Chunk::Data(Json::Object(m));
    assert(c@ == want);
    out.push(c);
    assert(views(out@) == views(old(out)@).push(want));
}

/// Writes the chunks of a canonical event.
pub fn stream_chunks(
    event: &CanonicalStreamEvent,
    st: &mut StreamRenderState,
    report: &mut TranslationReport,
) -> (r: Vec<Chunk>)
    ensures
        (Streamed { chunks: views(r@), st: final(st)@, report: final(report)@ }) == streamed(
            event@,
            old(st)@,
            old(report)@,
        ),
{
    let mut out: Vec<Chunk> = Vec::new();
    let no_usage: Option<Usage> = None;
    assert(views(out@) == Seq::<ChunkV>::empty());
    match event {
        CanonicalStreamEvent::MessageStart { model, role } => {
            st.model = model.clone();
            st.role = Some(*role);
            st.message_started = true;
        },
        CanonicalStreamEvent::ContentBlockStart { index, block } => {
            if let ContentBlock::ToolUse { name, .. } = block {
                match find_late_input(block) {
                    None => {
                        st.set_tool(
                            *index,
                            StreamToolRender { slot: 0, name: name.clone(), args: String::new() },
                        );
                    },
                    Some(input) => {
                        let part = render_call(name.as_str(), input.dup());
                        push_google_chunk(&mut out, one_part_array(part), None, &no_usage);
                    },
                }
            }
        },
        CanonicalStreamEvent::ContentBlockDelta { index, text, partial_json } => {
            if let Some(text) = text {
                let part = Json::Object(JsonMap::new().set("text", string(text.as_str())));
                push_google_chunk(&mut out, one_part_array(part), None, &no_usage);
            } else if let Some(partial) = partial_json {
                let mut tool = match st.tool(*index) {
                    Some(t) => StreamToolRender {
                        slot: t.slot,
                        name: t.name.clone(),
                        args: t.args.clone(),
                    },
                    None => StreamToolRender { slot: 0, name: String::new(), args: String::new() },
                };
                tool.args.append(partial.as_str());
                st.set_tool(*index, tool);
            }
        },
        CanonicalStreamEvent::ContentBlockStop { index } => {
            if let Some(tool) = st.take_tool(*index) {
                let args = match parse(tool.args.as_str().as_bytes()) {
                    Ok(v) => v,
                    Err(_) => Json::Object(JsonMap::new()),
                };
                let part = render_call(tool.name.as_str(), args);
                push_google_chunk(&mut out, one_part_array(part), None, &no_usage);
            } else {
                assert(st@.tool_render == old(st)@.tool_render);
            }
        },
        CanonicalStreamEvent::MessageDelta { stop_reason, usage } => {
            let finish = render_finish(stop_reason, report);
            let parts: Vec<Json> = Vec::new();
            assert(seq_view(parts@) == Seq::<JsonV>::empty());
            push_google_chunk(&mut out, Json::Array(parts), finish, usage);
        },
        CanonicalStreamEvent::MessageStop => {
            st.terminal_sent = true;
        },
    }
    assert(views(out@) == streamed(event@, old(st)@, old(report)@).chunks);
    out
}

/// Writes the text of a canonical event's chunks.
pub fn render_stream_event(
    event: &CanonicalStreamEvent,
    st: &mut StreamRenderState,
    report: &mut TranslationReport,
) -> (r: Result<Vec<u8>, AdapterError>)
    ensures
        r matches Ok(bytes) && bytes@ == encode_utf8(
            chunks_text(streamed(event@, old(st)@, old(report)@).chunks),
        ),
        final(st)@ == streamed(event@, old(st)@, old(report)@).st,
        final(report)@ == streamed(event@, old(st)@, old(report)@).report,
{
    let chunks = stream_chunks(event, st, report);
    Ok(write_chunks(&chunks).as_bytes_vec())
}

} // verus!
