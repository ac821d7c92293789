//! What a request, a response and a stream look like in Google's dialect.

use vstd::prelude::*;
use vstd::utf8::encode_utf8;

use crate::json::{double_value, json_read, JsonV, Num};
use crate::json_laws::has_only;
use crate::llm::canonical::{
    block_texts, BlockV, DroppedV, EventV, MessageV, RenderStateV, ReportV, RequestV, ResponseV, Role, SamplingV,
    StopReasonV, ToolRenderV, ToolV, Usage,
};
use crate::llm::extra_laws::{
    collision_remark, foreign_entry, law_extra_fields_are_written, lemma_provider_names,
};
use crate::llm::google::{
    candidate_value, config_members, declaration_value, field_report, instruction_value, message_value, opt_finish,
    opt_finish_report, opt_instruction, part_values, parts_report, request_value, response_value, sent_messages,
    streamed, system_drops, system_parts, tools_value, typed_request, typed_response,
};
use crate::llm::view_laws::text_in_block;
use crate::llm::words::lemma_google_words;
use crate::sse::ChunkV;
use crate::text::{decimal, in_order};

verus! {

/// Whether a value is the part of a call.
pub open spec fn is_call(v: JsonV, name: Seq<char>, args: JsonV) -> bool {
    v.get("functionCall"@) matches Some(call) && call.get("name"@) == Some(JsonV::Str(name)) && call.get("args"@)
        == Some(args) && has_only(call, set!["name"@, "args"@]) && has_only(v, set!["functionCall"@])
}

/// Whether a value is the part of a content block: of an answer with its document, or
/// with its text as the result where that is no document.
pub open spec fn is_part(v: JsonV, b: BlockV) -> bool {
    match b {
        BlockV::Text { text } => v.get("text"@) == Some(JsonV::Str(text)) && has_only(v, set!["text"@]),
        BlockV::Image { media_type, data } => has_only(v, set!["inlineData"@]) && (v.get("inlineData"@) matches Some(d)
            && has_only(d, set!["mimeType"@, "data"@]) && d.get("mimeType"@) == Some(JsonV::Str(media_type)) && d.get("data"@) == Some(JsonV::Str(data))),
        BlockV::ToolUse { name, input, .. } => is_call(v, name, input),
        BlockV::ToolResult { id, content, .. } => {
            &&& has_only(v, set!["functionResponse"@])
            &&& v.get("functionResponse"@) matches Some(answer) && has_only(answer, set!["name"@, "response"@]) && answer.get("name"@) == Some(JsonV::Str(id)) && (
            answer.get("response"@) matches Some(r) && match json_read(encode_utf8(content)) {
                Ok(document) => r == document,
                Err(_) => r.get("result"@) == Some(JsonV::Str(content)) && has_only(r, set!["result"@]),
            })
        },
    }
}

/// Whether a value is the list of the parts of some blocks, in order.
pub open spec fn are_parts(v: JsonV, blocks: Seq<BlockV>) -> bool {
    v matches JsonV::Array(items) && items.len() == blocks.len() && forall|k: int|
        0 <= k < items.len() ==> is_part(#[trigger] items[k], blocks[k])
}

proof fn lemma_parts(blocks: Seq<BlockV>)
    ensures
        are_parts(JsonV::Array(part_values(blocks)), blocks),
{
    lemma_google_words();
}

/// Every content block of a message stands in it, in order, whatever its kind.
pub proof fn law_messages_keep_their_content(m: MessageV)
    ensures
        message_value(m).get("role"@) == Some(
            JsonV::Str(
                match m.role {
                    Role::User => "user"@,
                    Role::Assistant => "model"@,
                    Role::Tool => "function"@,
                    Role::System => "system"@,
                },
            ),
        ),
        message_value(m).get("parts"@) matches Some(parts) && are_parts(parts, m.content),
        has_only(message_value(m), set!["role"@, "parts"@]),
{
    lemma_google_words();
    lemma_parts(m.content);
}

/// The report entry for what a block loses: a call its id, where that is not its name;
/// an answer that it was an error.
pub open spec fn lost_in_part(path: Seq<char>, b: BlockV) -> Option<DroppedV> {
    match b {
        BlockV::ToolUse { id, name, .. } => if id != name {
            Some(
                DroppedV {
                    path: path + ".tool_use.id"@,
                    reason: "google functionCall has no separate id field; only name is preserved"@,
                },
            )
        } else {
            None
        },
        BlockV::ToolResult { is_error: true, .. } => Some(
            DroppedV {
                path: path + ".tool_result.is_error"@,
                reason: "google functionResponse has no is_error field"@,
            },
        ),
        _ => None,
    }
}

/// The remark on an answer that is no document.
pub open spec fn remark_on_part(path: Seq<char>, b: BlockV) -> Option<Seq<char>> {
    match b {
        BlockV::ToolResult { content, .. } => if json_read(encode_utf8(content)) is Err {
            Some(
                path
                    + ".tool_result.content: not a JSON object, wrapped as {\"result\": ...} for google functionResponse"@,
            )
        } else {
            None
        },
        _ => None,
    }
}

/// The report of some blocks says what is lost in each, in order, and nothing else.
pub proof fn law_part_report_is_exact(blocks: Seq<BlockV>, path: Seq<char>, report: ReportV)
    ensures
        parts_report(blocks, path, report).dropped == report.dropped + blocks.filter_map(
            |b: BlockV| lost_in_part(path, b),
        ),
        parts_report(blocks, path, report).notes == report.notes + blocks.filter_map(
            |b: BlockV| remark_on_part(path, b),
        ),
    decreases blocks.len(),
{
    let f = |b: BlockV| lost_in_part(path, b);
    let g = |b: BlockV| remark_on_part(path, b);
    if blocks.len() > 0 {
        law_part_report_is_exact(blocks.drop_last(), path, report);
        let after = parts_report(blocks, path, report);
        assert(after.dropped =~= report.dropped + blocks.filter_map(f));
        assert(after.notes =~= report.notes + blocks.filter_map(g));
    } else {
        assert(report.dropped + Seq::<DroppedV>::empty() == report.dropped);
        assert(report.notes + Seq::<Seq<char>>::empty() == report.notes);
    }
}

/// The path of a message's content in the report.
pub open spec fn path_of_content(index: nat) -> Seq<char> {
    "messages["@ + decimal(index) + "].content"@
}

/// The messages of a request are written in order, without those of the system role;
/// each loses what its blocks lose.
pub proof fn law_messages_follow_each_other(messages: Seq<MessageV>, last: MessageV, report: ReportV)
    ensures
        ({
            let before = sent_messages(messages, report);
            let after = sent_messages(messages.push(last), report);
            &&& sent_messages(Seq::empty(), report).values.len() == 0
            &&& sent_messages(Seq::empty(), report).report == report
            &&& last.role is System ==> after == before
            &&& !(last.role is System) ==> after.values == before.values.push(message_value(last)) && after.report
                == parts_report(last.content, path_of_content(messages.len()), before.report)
        }),
{
    assert(messages.push(last).drop_last() == messages);
}

/// The report entry for a block of a system message that is no text.
pub open spec fn system_entry(index: nat, b: BlockV) -> Option<DroppedV> {
    if b is Text {
        None
    } else {
        Some(
            DroppedV {
                path: path_of_content(index),
                reason: "google systemInstruction is text-only; non-text content in a system-role message has no representation there"@,
            },
        )
    }
}

proof fn lemma_system(content: Seq<BlockV>, index: nat, report: ReportV)
    ensures
        block_texts(content) == content.filter_map(|b: BlockV| text_in_block(b)),
        system_drops(content, index, report).notes == report.notes,
        system_drops(content, index, report).dropped == report.dropped + content.filter_map(
            |b: BlockV| system_entry(index, b),
        ),
    decreases content.len(),
{
    let f = |b: BlockV| system_entry(index, b);
    if content.len() > 0 {
        lemma_system(content.drop_last(), index, report);
        assert(system_drops(content, index, report).dropped =~= report.dropped + content.filter_map(f));
    } else {
        assert(report.dropped + Seq::<DroppedV>::empty() == report.dropped);
    }
}

/// The system prompt comes first in the instruction; the texts of each system message
/// follow, in order, and what else such a message holds is in the report.
pub proof fn law_instructions_are_gathered(
    system: Option<Seq<char>>,
    messages: Seq<MessageV>,
    last: MessageV,
    report: ReportV,
)
    ensures
        ({
            let none = system_parts(system, Seq::empty(), report);
            let before = system_parts(system, messages, report);
            let after = system_parts(system, messages.push(last), report);
            &&& none.report == report
            &&& none.parts == match system {
                Some(s) => seq![s],
                None => Seq::empty(),
            }
            &&& !(last.role is System) ==> after == before
            &&& last.role is System ==> {
                &&& after.parts == before.parts + last.content.filter_map(|b: BlockV| text_in_block(b))
                &&& after.report.dropped == before.report.dropped + last.content.filter_map(
                    |b: BlockV| system_entry(messages.len(), b),
                )
                &&& after.report.notes == before.report.notes
            }
        }),
{
    let before = system_parts(system, messages, report);
    lemma_system(last.content, messages.len(), before.report);
    assert(messages.push(last).drop_last() == messages);
}

/// Whether a value is an instruction with some texts, a part for each, in order.
pub open spec fn is_instruction(v: JsonV, texts: Seq<Seq<char>>) -> bool {
    has_only(v, set!["parts"@]) && (v.get("parts"@) matches Some(JsonV::Array(items)) && items.len() == texts.len()
        && forall|k: int|
        0 <= k < items.len() ==> (#[trigger] items[k]).get("text"@) == Some(JsonV::Str(texts[k])) && has_only(
            items[k],
            set!["text"@],
        ))
}

/// Whether a value is a tool's declaration.
pub open spec fn is_declaration(v: JsonV, t: ToolV) -> bool {
    &&& has_only(v, set!["name"@, "description"@, "parameters"@])
    &&& v.get("name"@) == Some(JsonV::Str(t.name))
    &&& v.get("parameters"@) == Some(t.input_schema)
    &&& v.get("description"@) == match t.description {
        Some(d) => Some(JsonV::Str(d)),
        None => None,
    }
}

/// Whether a value is the one list of tools with a declaration for each, in order.
pub open spec fn are_tools(v: JsonV, tools: Seq<ToolV>) -> bool {
    v matches JsonV::Array(lists) && lists.len() == 1 && has_only(lists[0], set!["functionDeclarations"@]) && (lists[0].get("functionDeclarations"@) matches Some(
        JsonV::Array(items),
    ) && items.len() == tools.len() && forall|k: int|
        0 <= k < items.len() ==> is_declaration(#[trigger] items[k], tools[k]))
}

/// Whether a value gives the sampling: each field that is set under its name, the
/// others not at all.
pub open spec fn is_config(v: JsonV, s: SamplingV) -> bool {
    &&& has_only(v, set!["temperature"@, "topP"@, "topK"@, "maxOutputTokens"@, "stopSequences"@])
    &&& v.get("temperature"@) == match s.temperature {
        Some(d) => Some(double_value(d)),
        None => None,
    }
    &&& v.get("topP"@) == match s.top_p {
        Some(d) => Some(double_value(d)),
        None => None,
    }
    &&& v.get("topK"@) == match s.top_k {
        Some(n) => Some(JsonV::Number(Num::PosInt(n))),
        None => None,
    }
    &&& v.get("maxOutputTokens"@) == match s.max_tokens {
        Some(n) => Some(JsonV::Number(Num::PosInt(n))),
        None => None,
    }
    &&& s.stop.len() == 0 ==> v.get("stopSequences"@) is None
    &&& s.stop.len() > 0 ==> (v.get("stopSequences"@) matches Some(JsonV::Array(items)) && items.len() == s.stop.len()
        && forall|k: int| 0 <= k < items.len() ==> #[trigger] items[k] == JsonV::Str(s.stop[k]))
}

/// Whether any field of the sampling is set.
pub open spec fn sampling_is_set(s: SamplingV) -> bool {
    s.temperature is Some || s.top_p is Some || s.top_k is Some || s.max_tokens is Some || s.stop.len() > 0
}

proof fn lemma_config(s: SamplingV)
    ensures
        is_config(JsonV::Object(config_members(s)), s),
        config_members(s) == Map::<Seq<char>, JsonV>::empty() <==> !sampling_is_set(s),
{
    lemma_google_words();
    let m = config_members(s);
    if s.temperature is Some {
        assert(m.dom().contains("temperature"@));
    }
    if s.top_p is Some {
        assert(m.dom().contains("topP"@));
    }
    if s.top_k is Some {
        assert(m.dom().contains("topK"@));
    }
    if s.max_tokens is Some {
        assert(m.dom().contains("maxOutputTokens"@));
    }
    if s.stop.len() > 0 {
        assert(m.dom().contains("stopSequences"@));
    }
}

proof fn lemma_values(texts: Seq<Seq<char>>, tools: Seq<ToolV>)
    ensures
        is_instruction(instruction_value(texts), texts),
        are_tools(tools_value(tools), tools),
{
    lemma_google_words();
    let items = tools.map_values(|t: ToolV| declaration_value(t));
    let list = JsonV::Object(map!["functionDeclarations"@ => JsonV::Array(items)]);
    assert(seq![list][0] == list);
    assert(list.get("functionDeclarations"@) == Some(JsonV::Array(items)));
    assert forall|k: int| 0 <= k < items.len() implies is_declaration(#[trigger] items[k], tools[k]) by {}
}

proof fn lemma_typed_request(req: RequestV, instruction: Option<JsonV>, contents: Seq<JsonV>)
    ensures
        ({
            let body = JsonV::Object(typed_request(req, instruction, contents));
            &&& body.get("model"@) == Some(JsonV::Str(req.model))
            &&& body.get("contents"@) == Some(JsonV::Array(contents))
            &&& body.get("systemInstruction"@) == instruction
            &&& body.get("tools"@) == if req.tools.len() > 0 {
                Some(tools_value(req.tools))
            } else {
                None
            }
            &&& body.get("generationConfig"@) == if config_members(req.sampling) == Map::<
                Seq<char>,
                JsonV,
            >::empty() {
                None
            } else {
                Some(JsonV::Object(config_members(req.sampling)))
            }
        }),
{
    lemma_google_words();
}

/// Every field of a request that Google's dialect has stands in its body under its
/// name, whatever extra fields come with it; what is absent is not written.
pub proof fn law_requests_keep_their_fields(req: RequestV, report: ReportV)
    requires
        req.extra.dom().finite(),
    ensures
        ({
            let body = request_value(req, report).0;
            let gathered = system_parts(req.system, req.messages, report);
            &&& body.get("model"@) == Some(JsonV::Str(req.model))
            &&& body.get("contents"@) == Some(JsonV::Array(sent_messages(req.messages, gathered.report).values))
            &&& gathered.parts.len() > 0 ==> (body.get("systemInstruction"@) matches Some(v) && is_instruction(
                v,
                gathered.parts,
            ))
            &&& req.tools.len() > 0 ==> (body.get("tools"@) matches Some(v) && are_tools(v, req.tools))
            &&& sampling_is_set(req.sampling) ==> (body.get("generationConfig"@) matches Some(v) && is_config(
                v,
                req.sampling,
            ))
            &&& req.extra.dom() == Set::<Seq<char>>::empty() ==> {
                &&& gathered.parts.len() == 0 ==> body.get("systemInstruction"@) is None
                &&& req.tools.len() == 0 ==> body.get("tools"@) is None
                &&& !sampling_is_set(req.sampling) ==> body.get("generationConfig"@) is None
            }
        }),
{
    lemma_google_words();
    lemma_provider_names();
    let gathered = system_parts(req.system, req.messages, report);
    let sent = sent_messages(req.messages, gathered.report);
    let instruction = opt_instruction(gathered.parts);
    let typed = typed_request(req, instruction, sent.values);
    let r = field_report(req, sent.report);
    law_extra_fields_are_written("google"@, req.extra, typed, r, "model"@);
    law_extra_fields_are_written("google"@, req.extra, typed, r, "contents"@);
    law_extra_fields_are_written("google"@, req.extra, typed, r, "systemInstruction"@);
    law_extra_fields_are_written("google"@, req.extra, typed, r, "tools"@);
    law_extra_fields_are_written("google"@, req.extra, typed, r, "generationConfig"@);
    lemma_typed_request(req, instruction, sent.values);
    lemma_config(req.sampling);
    lemma_values(gathered.parts, req.tools);
}

/// A request's body has no members but these and the extra fields of the dialect itself.
pub proof fn law_requests_hold_nothing_else(req: RequestV, report: ReportV, key: Seq<char>)
    requires
        req.extra.dom().finite(),
        request_value(req, report).0.get(key) is Some,
    ensures
        req.extra.dom().contains("google"@ + "."@ + key) || set!["model"@, "contents"@, "systemInstruction"@, "tools"@, "generationConfig"@].contains(key),
{
    lemma_provider_names();
    let gathered = system_parts(req.system, req.messages, report);
    let sent = sent_messages(req.messages, gathered.report);
    law_extra_fields_are_written(
        "google"@,
        req.extra,
        typed_request(req, opt_instruction(gathered.parts), sent.values),
        field_report(req, sent.report),
        key,
    );
}

/// A response's body has no members but these and the extra fields of the dialect itself.
pub proof fn law_responses_hold_nothing_else(resp: ResponseV, report: ReportV, key: Seq<char>)
    requires
        resp.extra.dom().finite(),
        response_value(resp, report).0.get(key) is Some,
    ensures
        resp.extra.dom().contains("google"@ + "."@ + key) || set!["candidates"@, "modelVersion"@, "usageMetadata"@].contains(key),
{
    lemma_provider_names();
    let r = opt_finish_report(resp.stop_reason, parts_report(resp.content, "content"@, report));
    law_extra_fields_are_written("google"@, resp.extra, typed_response(resp), r, key);
}

/// The report of a request grows by what the system messages lose, then by what the
/// other messages lose, then by a tool choice and a wish to stream, which the body has
/// no place for, then by the fields of other dialects.
pub proof fn law_request_report_is_exact(req: RequestV, report: ReportV)
    requires
        req.extra.dom().finite(),
    ensures
        ({
            let gathered = system_parts(req.system, req.messages, report);
            let sent = sent_messages(req.messages, gathered.report);
            let after = request_value(req, report).1;
            let choice = if req.tool_choice is Some {
                sent.report.dropped.push(
                    DroppedV {
                        path: "tool_choice"@,
                        reason: "google adapter does not model tool_choice/toolConfig yet"@,
                    },
                )
            } else {
                sent.report.dropped
            };
            let stream = if req.stream {
                choice.push(
                    DroppedV {
                        path: "stream"@,
                        reason: "google signals streaming via URL path segment, not body; render_request has no ctx to select streamGenerateContent"@,
                    },
                )
            } else {
                choice
            };
            &&& after.dropped == stream + in_order(req.extra.dom()).filter_map(
                |k: Seq<char>| foreign_entry("google"@, k),
            )
            &&& after.notes == sent.report.notes + in_order(req.extra.dom()).filter_map(
                |k: Seq<char>|
                    collision_remark(
                        "google"@,
                        typed_request(req, opt_instruction(gathered.parts), sent.values),
                        k,
                    ),
            )
        }),
{
    lemma_provider_names();
    let gathered = system_parts(req.system, req.messages, report);
    let sent = sent_messages(req.messages, gathered.report);
    law_extra_fields_are_written(
        "google"@,
        req.extra,
        typed_request(req, opt_instruction(gathered.parts), sent.values),
        field_report(req, sent.report),
        "model"@,
    );
}

/// Whether a text is a stop reason's name.
pub open spec fn is_finish_reason(name: Seq<char>, reason: StopReasonV) -> bool {
    match reason {
        StopReasonV::EndTurn => name == "STOP"@,
        StopReasonV::MaxTokens => name == "MAX_TOKENS"@,
        StopReasonV::ToolUse => name == "STOP"@,
        StopReasonV::StopSequence => name == "STOP"@,
        StopReasonV::Other(other) => name == other,
    }
}

/// The remarks once a stop reason was written: two have no name of their own.
pub open spec fn remarks_on_reason(notes: Seq<Seq<char>>, reason: Option<StopReasonV>) -> Seq<Seq<char>> {
    match reason {
        Some(StopReasonV::ToolUse) => notes.push(
            "stop_reason: ToolUse has no distinct google finishReason, mapped to \"STOP\""@,
        ),
        Some(StopReasonV::StopSequence) => notes.push(
            "stop_reason: StopSequence has no distinct google finishReason, mapped to \"STOP\""@,
        ),
        _ => notes,
    }
}

/// Whether a value gives token counts: each that is known under its name, the others
/// not at all.
pub open spec fn is_usage(v: JsonV, u: Usage) -> bool {
    &&& has_only(v, set!["promptTokenCount"@, "candidatesTokenCount"@])
    &&& v.get("promptTokenCount"@) == match u.input_tokens {
        Some(n) => Some(JsonV::Number(Num::PosInt(n))),
        None => None,
    }
    &&& v.get("candidatesTokenCount"@) == match u.output_tokens {
        Some(n) => Some(JsonV::Number(Num::PosInt(n))),
        None => None,
    }
}

/// Whether a value is a body with one candidate, the model's, with those parts and
/// that finish reason.
pub open spec fn has_candidate(v: JsonV, parts: Seq<JsonV>, finish: Option<StopReasonV>) -> bool {
    v.get("candidates"@) matches Some(JsonV::Array(candidates)) && candidates.len() == 1 && {
        &&& has_only(candidates[0], set!["content"@, "index"@, "finishReason"@])
        &&& candidates[0].get("index"@) == Some(JsonV::Number(Num::PosInt(0)))
        &&& candidates[0].get("content"@) matches Some(content) && has_only(content, set!["parts"@, "role"@]) && content.get("role"@) == Some(JsonV::Str("model"@))
            && content.get("parts"@) == Some(JsonV::Array(parts))
        &&& match finish {
            Some(reason) => candidates[0].get("finishReason"@) matches Some(JsonV::Str(name)) && is_finish_reason(
                name,
                reason,
            ),
            None => candidates[0].get("finishReason"@) is None,
        }
    }
}

proof fn lemma_candidate(parts: Seq<JsonV>, finish: Option<StopReasonV>, body: JsonV)
    ensures
        body.get("candidates"@) == Some(JsonV::Array(seq![candidate_value(parts, opt_finish(finish))]))
            ==> has_candidate(body, parts, finish),
{
    lemma_google_words();
    let c = candidate_value(parts, opt_finish(finish));
    assert(seq![c][0] == c);
}

/// Every field of a response stands in its body under its name in Google's dialect:
/// one candidate with all content blocks in order and the finish reason, the token
/// counts. The report says what is lost and nothing else.
pub proof fn law_responses_keep_their_fields(resp: ResponseV, report: ReportV)
    requires
        resp.extra.dom().finite(),
    ensures
        ({
            let body = response_value(resp, report).0;
            let after = response_value(resp, report).1;
            &&& body.get("modelVersion"@) == Some(JsonV::Str(resp.model))
            &&& are_parts(JsonV::Array(part_values(resp.content)), resp.content)
            &&& has_candidate(body, part_values(resp.content), resp.stop_reason)
            &&& resp.usage matches Some(u) ==> (body.get("usageMetadata"@) matches Some(v) && is_usage(v, u))
            &&& resp.extra.dom() == Set::<Seq<char>>::empty() && resp.usage is None ==> body.get("usageMetadata"@) is None
            &&& after.dropped == report.dropped + resp.content.filter_map(|b: BlockV| lost_in_part("content"@, b))
                + in_order(resp.extra.dom()).filter_map(|k: Seq<char>| foreign_entry("google"@, k))
            &&& after.notes == remarks_on_reason(
                report.notes + resp.content.filter_map(|b: BlockV| remark_on_part("content"@, b)),
                resp.stop_reason,
            ) + in_order(resp.extra.dom()).filter_map(
                |k: Seq<char>| collision_remark("google"@, typed_response(resp), k),
            )
        }),
{
    lemma_google_words();
    lemma_provider_names();
    lemma_parts(resp.content);
    law_part_report_is_exact(resp.content, "content"@, report);
    let typed = typed_response(resp);
    let r = opt_finish_report(resp.stop_reason, parts_report(resp.content, "content"@, report));
    law_extra_fields_are_written("google"@, resp.extra, typed, r, "modelVersion"@);
    law_extra_fields_are_written("google"@, resp.extra, typed, r, "candidates"@);
    law_extra_fields_are_written("google"@, resp.extra, typed, r, "usageMetadata"@);
    let body = response_value(resp, report).0;
    lemma_candidate(part_values(resp.content), resp.stop_reason, body);
}

/// Whether a piece of a stream is a chunk without an end, whose one part passes a test.
pub open spec fn is_chunk_of(c: ChunkV, holds: spec_fn(JsonV) -> bool) -> bool {
    c matches ChunkV::Data(v) && has_only(v, set!["candidates"@]) && exists|part: JsonV|
        #[trigger] has_candidate(v, seq![part], None) && holds(part)
}

/// What each event of a stream becomes in Google's dialect. A call that comes in
/// fragments is kept back until its block ends, and then written whole.
pub proof fn law_streams_are_written(event: EventV, st: RenderStateV, report: ReportV)
    ensures
        ({
            let s = streamed(event, st, report);
            match event {
                EventV::MessageStart { model, role } => {
                    &&& s.chunks.len() == 0
                    &&& s.st == (RenderStateV { model, role: Some(role), message_started: true, ..st })
                    &&& s.report == report
                },
                EventV::ContentBlockStart { index, block: BlockV::ToolUse { id, name, input } } => {
                    let whole = input != JsonV::Null && input != JsonV::Object(Map::empty());
                    &&& whole ==> s.chunks.len() == 1 && is_chunk_of(
                        s.chunks[0],
                        |part: JsonV| is_call(part, name, input),
                    ) && s.st == st
                    &&& !whole ==> s.chunks.len() == 0 && s.st == (RenderStateV {
                        tool_render: st.tool_render.insert(
                            index,
                            ToolRenderV { slot: 0, name, args: Seq::empty() },
                        ),
                        ..st
                    })
                    &&& s.report == report
                },
                EventV::ContentBlockDelta { text: Some(text), .. } => {
                    &&& s.chunks.len() == 1
                    &&& is_chunk_of(
                        s.chunks[0],
                        |part: JsonV| part.get("text"@) == Some(JsonV::Str(text)) && has_only(part, set!["text"@]),
                    )
                    &&& s.st == st
                    &&& s.report == report
                },
                EventV::ContentBlockDelta { index, text: None, partial_json: Some(piece) } => {
                    let known = st.tool_render.dom().contains(index);
                    &&& s.chunks.len() == 0
                    &&& s.st.tool_render.dom() == st.tool_render.dom().insert(index)
                    &&& s.st == (RenderStateV { tool_render: s.st.tool_render, ..st })
                    &&& known ==> {
                        &&& s.st.tool_render[index].name == st.tool_render[index].name
                        &&& s.st.tool_render[index].args == st.tool_render[index].args + piece
                    }
                    &&& !known ==> s.st.tool_render[index].name.len() == 0 && s.st.tool_render[index].args == piece
                    &&& forall|i: u64|
                        i != index && st.tool_render.dom().contains(i) ==> #[trigger] s.st.tool_render[i]
                            == st.tool_render[i]
                    &&& s.report == report
                },
                EventV::ContentBlockStop { index } => {
                    let known = st.tool_render.dom().contains(index);
                    &&& known ==> {
                        let tool = st.tool_render[index];
                        &&& s.chunks.len() == 1
                        &&& is_chunk_of(
                            s.chunks[0],
                            |part: JsonV|
                                is_call(
                                    part,
                                    tool.name,
                                    match json_read(encode_utf8(tool.args)) {
                                        Ok(document) => document,
                                        Err(_) => JsonV::Object(Map::empty()),
                                    },
                                ),
                        )
                        &&& s.st == (RenderStateV { tool_render: st.tool_render.remove(index), ..st })
                    }
                    &&& !known ==> s.chunks.len() == 0 && s.st == st
                    &&& s.report == report
                },
                EventV::MessageDelta { stop_reason, usage } => {
                    &&& s.chunks.len() == 1
                    &&& s.chunks[0] matches ChunkV::Data(v) && has_candidate(v, Seq::empty(), stop_reason)
                        && has_only(v, set!["candidates"@, "usageMetadata"@]) && match usage {
                        Some(u) => v.get("usageMetadata"@) matches Some(counts) && is_usage(counts, u),
                        None => v.get("usageMetadata"@) is None,
                    }
                    &&& s.st == st
                    &&& s.report.dropped == report.dropped
                    &&& s.report.notes == remarks_on_reason(report.notes, stop_reason)
                },
                EventV::MessageStop => {
                    &&& s.chunks.len() == 0
                    &&& s.st == (RenderStateV { terminal_sent: true, ..st })
                    &&& s.report == report
                },
                _ => s.chunks.len() == 0 && s.st == st && s.report == report,
            }
        }),
{
    lemma_google_words();
    let s = streamed(event, st, report);
    if let EventV::ContentBlockDelta { index, text: None, partial_json: Some(piece) } = event {
        assert(s.st.tool_render.dom() =~= st.tool_render.dom().insert(index));
        assert(Seq::<char>::empty() + piece == piece);
    }
    if let EventV::MessageDelta { stop_reason, usage } = event {
        if let ChunkV::Data(v) = s.chunks[0] {
            lemma_candidate(Seq::empty(), stop_reason, v);
        }
    } else if s.chunks.len() == 1 {
        let part = match event {
            EventV::ContentBlockStart { index, block: BlockV::ToolUse { id, name, input } } => crate::llm::google::call_part(
                name,
                input,
            ),
            EventV::ContentBlockDelta { text: Some(text), .. } => JsonV::Object(
                map!["text"@ => JsonV::Str(text)],
            ),
            EventV::ContentBlockStop { index } => crate::llm::google::call_part(
                st.tool_render[index].name,
                crate::llm::google::args_value(st.tool_render[index].args),
            ),
            _ => JsonV::Null,
        };
        if let ChunkV::Data(v) = s.chunks[0] {
            lemma_candidate(seq![part], None, v);
            assert(has_candidate(v, seq![part], None));
        }
    }
}

} // verus!
