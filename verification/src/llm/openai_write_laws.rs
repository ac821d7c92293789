//! What a request and a response look like in OpenAI's dialect.

use vstd::prelude::*;

use crate::json::{double_value, json_text, str_values, JsonV, Num};
use crate::json_laws::has_only;
use crate::llm::canonical::{BlockV, DroppedV, EventV, MessageV, RenderStateV, ReportV, RequestV, ResponseV, Role, StopReasonV, ToolChoiceV, Usage};
use crate::llm::adapter::emitted;
use crate::llm::extra_laws::{collision_remark, foreign_entry, law_extra_fields_are_written, lemma_provider_names};
use crate::llm::openai::{
    call_values, choice_value, completed_response, content_value, error_drops, message_object, part_value,
    request_value, response_value, result_drops, result_values, sampling_report, sent_message, sent_messages,
    stop_reason_report, streamed, tool_choice_value, tool_value, typed_request, typed_response, visible,
};
use crate::llm::words::lemma_openai_words;
use crate::sse::{chunks_text, ChunkV};
use crate::text::{decimal, in_order};

verus! {

/// Whether a value is the content part of a text or an image.
pub open spec fn is_part(v: JsonV, b: BlockV) -> bool {
    match b {
        BlockV::Text { text } => v.get("type"@) == Some(JsonV::Str("text"@)) && v.get("text"@) == Some(
            JsonV::Str(text),
        ) && has_only(v, set!["type"@, "text"@]),
        BlockV::Image { media_type, data } => {
            &&& v.get("type"@) == Some(JsonV::Str("image_url"@))
            &&& has_only(v, set!["type"@, "image_url"@])
            &&& v.get("image_url"@) matches Some(image) && has_only(image, set!["url"@]) && image.get("url"@) == Some(
                JsonV::Str(
                    if media_type.len() == 0 {
                        data
                    } else {
                        "data:"@ + media_type + ";base64,"@ + data
                    },
                ),
            )
        },
        _ => false,
    }
}

/// Whether a value is the content of a message with some text and images: nothing
/// for none, the bare text of a single text, the parts in order of any others.
pub open spec fn is_content(v: JsonV, shown: Seq<BlockV>) -> bool {
    if shown.len() == 0 {
        v is Null
    } else if shown.len() == 1 && shown[0] is Text {
        v == JsonV::Str(shown[0]->Text_text)
    } else {
        v matches JsonV::Array(parts) && parts.len() == shown.len() && forall|k: int|
            0 <= k < shown.len() ==> is_part(#[trigger] parts[k], shown[k])
    }
}

/// Whether a value is a tool call.
pub open spec fn is_call(v: JsonV, b: BlockV) -> bool {
    b matches BlockV::ToolUse { id, name, input } && {
        &&& v.get("id"@) == Some(JsonV::Str(id))
        &&& v.get("type"@) == Some(JsonV::Str("function"@))
        &&& has_only(v, set!["id"@, "type"@, "function"@])
        &&& v.get("function"@) matches Some(function) && has_only(function, set!["name"@, "arguments"@]) && function.get("name"@) == Some(JsonV::Str(name))
            && function.get("arguments"@) == Some(JsonV::Str(json_text(input)))
    }
}

/// Whether a value has some tool calls, in order; none where there is none.
pub open spec fn has_calls(v: JsonV, calls: Seq<BlockV>) -> bool {
    if calls.len() == 0 {
        v.get("tool_calls"@) is None
    } else {
        v.get("tool_calls"@) matches Some(JsonV::Array(items)) && items.len() == calls.len() && forall|k: int|
            0 <= k < calls.len() ==> is_call(#[trigger] items[k], calls[k])
    }
}

/// Whether a value is the answer to a tool call.
pub open spec fn is_result(v: JsonV, b: BlockV) -> bool {
    b matches BlockV::ToolResult { id, content, .. } && v.get("role"@) == Some(JsonV::Str("tool"@)) && v.get(
        "tool_call_id"@,
    ) == Some(JsonV::Str(id)) && v.get("content"@) == Some(JsonV::Str(content)) && has_only(
        v,
        set!["role"@, "tool_call_id"@, "content"@],
    )
}

/// The blocks with a text or an image.
pub open spec fn seen(blocks: Seq<BlockV>) -> Seq<BlockV> {
    blocks.filter(|b: BlockV| b is Text || b is Image)
}

/// The blocks with a tool call.
pub open spec fn called(blocks: Seq<BlockV>) -> Seq<BlockV> {
    blocks.filter(|b: BlockV| b is ToolUse)
}

/// The blocks with the answer to a tool call.
pub open spec fn answered(blocks: Seq<BlockV>) -> Seq<BlockV> {
    blocks.filter(|b: BlockV| b is ToolResult)
}

proof fn lemma_blocks(blocks: Seq<BlockV>)
    ensures
        visible(blocks) == seen(blocks),
        call_values(blocks).len() == called(blocks).len(),
        forall|k: int|
            0 <= k < called(blocks).len() ==> is_call(#[trigger] call_values(blocks)[k], called(blocks)[k]),
        result_values(blocks).len() == answered(blocks).len(),
        forall|k: int|
            0 <= k < answered(blocks).len() ==> is_result(
                #[trigger] result_values(blocks)[k],
                answered(blocks)[k],
            ),
        forall|k: int| 0 <= k < seen(blocks).len() ==> (#[trigger] seen(blocks)[k]) is Text || seen(
            blocks,
        )[k] is Image,
    decreases blocks.len(),
{
    lemma_openai_words();
    reveal(Seq::filter);
    if blocks.len() > 0 {
        let before = blocks.drop_last();
        lemma_blocks(before);
        assert forall|k: int| 0 <= k < called(blocks).len() implies is_call(
            #[trigger] call_values(blocks)[k],
            called(blocks)[k],
        ) by {
            if k < called(before).len() {
                assert(is_call(call_values(before)[k], called(before)[k]));
            }
        }
        assert forall|k: int| 0 <= k < answered(blocks).len() implies is_result(
            #[trigger] result_values(blocks)[k],
            answered(blocks)[k],
        ) by {
            if k < answered(before).len() {
                assert(is_result(result_values(before)[k], answered(before)[k]));
            }
        }
        assert forall|k: int| 0 <= k < seen(blocks).len() implies (#[trigger] seen(blocks)[k]) is Text || seen(
            blocks,
        )[k] is Image by {
            if k < seen(before).len() {
                assert(seen(before)[k] is Text || seen(before)[k] is Image);
            }
        }
    }
}

proof fn lemma_content(shown: Seq<BlockV>)
    requires
        forall|k: int| 0 <= k < shown.len() ==> (#[trigger] shown[k]) is Text || shown[k] is Image,
    ensures
        is_content(content_value(shown), shown),
{
    lemma_openai_words();
    let parts = shown.map_values(|b: BlockV| part_value(b));
    assert forall|k: int| 0 <= k < shown.len() implies is_part(#[trigger] parts[k], shown[k]) by {
        assert(shown[k] is Text || shown[k] is Image);
    }
}

/// Whether a message of the canonical form becomes a message of its own, besides the
/// answers to tool calls that it holds: it calls a tool, or it is not of the tool
/// role and has text or images, or nothing at all.
pub open spec fn stands_alone(m: MessageV) -> bool {
    called(m.content).len() > 0 || (m.role != Role::Tool && (seen(m.content).len() > 0 || answered(m.content).len()
        == 0))
}

/// Nothing of a message is lost on the way to OpenAI's dialect but what the tool role
/// cannot carry: each answer to a tool call becomes a tool message with its id and
/// content, in order, and all text, images and tool calls, in order, stand in the one
/// message behind them.
pub proof fn law_messages_keep_their_content(m: MessageV, index: nat, report: ReportV)
    ensures
        ({
            let sent = sent_message(m, index, report).values;
            let n = answered(m.content).len() as int;
            &&& sent.len() == n + if stands_alone(m) {
                1int
            } else {
                0
            }
            &&& forall|k: int| 0 <= k < n ==> is_result(#[trigger] sent[k], answered(m.content)[k])
            &&& stands_alone(m) ==> {
                &&& has_only(sent[n], set!["role"@, "content"@, "tool_calls"@])
                &&& sent[n].get("role"@) == Some(
                    JsonV::Str(
                        if called(m.content).len() > 0 {
                            "assistant"@
                        } else {
                            match m.role {
                                Role::System => "system"@,
                                Role::User => "user"@,
                                Role::Assistant => "assistant"@,
                                Role::Tool => "tool"@,
                            }
                        },
                    ),
                )
                &&& sent[n].get("content"@) matches Some(c) && is_content(c, seen(m.content))
                &&& has_calls(sent[n], called(m.content))
                &&& sent[n].get("tool_call_id"@) is None
            }
        }),
{
    lemma_openai_words();
    lemma_blocks(m.content);
    lemma_content(seen(m.content));
    let sent = sent_message(m, index, report).values;
    let results = result_values(m.content);
    let n = answered(m.content).len() as int;
    assert forall|k: int| 0 <= k < n implies is_result(#[trigger] sent[k], answered(m.content)[k]) by {
        assert(sent[k] == results[k]);
    }
    if stands_alone(m) {
        let calls = call_values(m.content);
        let v = sent[n];
        let role = if calls.len() > 0 {
            "assistant"@
        } else {
            m.role.name()
        };
        assert(v == message_object(role, content_value(visible(m.content)), calls));
        if calls.len() > 0 {
            assert(v.get("tool_calls"@) == Some(JsonV::Array(calls)));
        }
    }
}

/// The report entry for an answer that is an error.
pub open spec fn error_entry(index: nat, b: BlockV) -> Option<DroppedV> {
    match b {
        BlockV::ToolResult { is_error: true, .. } => Some(
            DroppedV {
                path: "messages["@ + decimal(index) + "].content.tool_result.is_error"@,
                reason: "openai tool-role message has no is_error field"@,
            },
        ),
        _ => None,
    }
}

proof fn lemma_errors(blocks: Seq<BlockV>, index: nat, report: ReportV)
    ensures
        error_drops(blocks, index, report).notes == report.notes,
        error_drops(blocks, index, report).dropped == report.dropped + blocks.filter_map(
            |b: BlockV| error_entry(index, b),
        ),
    decreases blocks.len(),
{
    let f = |b: BlockV| error_entry(index, b);
    if blocks.len() > 0 {
        lemma_errors(blocks.drop_last(), index, report);
        assert(error_drops(blocks, index, report).dropped =~= report.dropped + blocks.filter_map(f));
    } else {
        assert(report.dropped + Seq::<DroppedV>::empty() == report.dropped);
    }
}

/// The report of a message says what is lost and nothing else: that an answer was an
/// error, in order, and then that what the tool role cannot carry was left out; a
/// remark says that a message with tool calls was made the assistant's.
pub proof fn law_message_report_is_exact(m: MessageV, index: nat, report: ReportV)
    ensures
        ({
            let after = sent_message(m, index, report).report;
            let errors = m.content.filter_map(|b: BlockV| error_entry(index, b));
            let left_out = called(m.content).len() == 0 && m.role == Role::Tool && (seen(m.content).len() > 0
                || answered(m.content).len() == 0);
            &&& after.dropped == if left_out {
                (report.dropped + errors).push(
                    DroppedV {
                        path: "messages["@ + decimal(index) + "]"@,
                        reason: "openai tool-role message has no tool_call_id to pair with non-tool_result content; message dropped"@,
                    },
                )
            } else {
                report.dropped + errors
            }
            &&& called(m.content).len() > 0 && m.role != Role::Assistant ==> after.notes == report.notes.push(
                "messages["@ + decimal(index) + "]: role \""@ + (match m.role {
                    Role::System => "system"@,
                    Role::User => "user"@,
                    Role::Assistant => "assistant"@,
                    Role::Tool => "tool"@,
                })
                    + "\" has tool_use content, which openai only supports on an assistant message; rendered role forced to \"assistant\""@,
            )
            &&& !(called(m.content).len() > 0 && m.role != Role::Assistant) ==> after.notes == report.notes
        }),
{
    lemma_blocks(m.content);
    lemma_errors(m.content, index, report);
}

/// The messages of a request follow each other: the system prompt first, where there
/// is one, then what each message becomes, in order, by its own place.
pub proof fn law_messages_follow_each_other(
    system: Option<Seq<char>>,
    messages: Seq<MessageV>,
    last: MessageV,
    report: ReportV,
)
    ensures
        ({
            let none = sent_messages(system, Seq::empty(), report);
            let before = sent_messages(system, messages, report);
            let after = sent_messages(system, messages.push(last), report);
            let one = sent_message(last, messages.len(), before.report);
            &&& none.report == report
            &&& system is None ==> none.values.len() == 0
            &&& system matches Some(s) ==> none.values.len() == 1 && none.values[0].get("role"@) == Some(
                JsonV::Str("system"@),
            ) && none.values[0].get("content"@) == Some(JsonV::Str(s))
            &&& after.values == before.values + one.values
            &&& after.report == one.report
        }),
{
    lemma_openai_words();
    assert(messages.push(last).drop_last() == messages);
}

/// Whether a value is a tool's definition.
pub open spec fn is_tool(v: JsonV, t: crate::llm::canonical::ToolV) -> bool {
    &&& v.get("type"@) == Some(JsonV::Str("function"@))
    &&& has_only(v, set!["type"@, "function"@])
    &&& v.get("function"@) matches Some(f) && {
        &&& has_only(f, set!["name"@, "description"@, "parameters"@])
        &&& f.get("name"@) == Some(JsonV::Str(t.name))
        &&& f.get("parameters"@) == Some(t.input_schema)
        &&& f.get("description"@) == match t.description {
            Some(d) => Some(JsonV::Str(d)),
            None => None,
        }
    }
}

/// Whether a value is a tool choice.
pub open spec fn is_choice(v: JsonV, c: ToolChoiceV) -> bool {
    match c {
        ToolChoiceV::Auto => v == JsonV::Str("auto"@),
        ToolChoiceV::Never => v == JsonV::Str("none"@),
        ToolChoiceV::Any => v == JsonV::Str("required"@),
        ToolChoiceV::Tool(name) => v.get("type"@) == Some(JsonV::Str("function"@)) && (v.get("function"@) matches Some(
            f,
        ) && f.get("name"@) == Some(JsonV::Str(name)) && has_only(f, set!["name"@])) && has_only(v, set!["type"@, "function"@]),
    }
}

proof fn lemma_typed_request(req: RequestV, messages: Seq<JsonV>)
    ensures
        ({
            let body = JsonV::Object(typed_request(req, messages));
            &&& body.get("model"@) == Some(JsonV::Str(req.model))
            &&& body.get("messages"@) == Some(JsonV::Array(messages))
            &&& body.get("stream"@) == Some(JsonV::Bool(req.stream))
            &&& body.get("tools"@) == if req.tools.len() > 0 {
                Some(JsonV::Array(req.tools.map_values(|t: crate::llm::canonical::ToolV| tool_value(t))))
            } else {
                None
            }
            &&& body.get("tool_choice"@) == match req.tool_choice {
                Some(c) => Some(tool_choice_value(c)),
                None => None,
            }
            &&& body.get("temperature"@) == match req.sampling.temperature {
                Some(d) => Some(double_value(d)),
                None => None,
            }
            &&& body.get("top_p"@) == match req.sampling.top_p {
                Some(d) => Some(double_value(d)),
                None => None,
            }
            &&& body.get("max_completion_tokens"@) == match req.sampling.max_tokens {
                Some(n) => Some(JsonV::Number(Num::PosInt(n))),
                None => None,
            }
            &&& body.get("stop"@) == if req.sampling.stop.len() > 0 {
                Some(JsonV::Array(str_values(req.sampling.stop)))
            } else {
                None
            }
            &&& body.get("max_tokens"@) is None
            &&& body.get("system"@) is None
        }),
{
    lemma_openai_words();
}

proof fn lemma_tool_values(req: RequestV)
    ensures
        forall|k: int|
            0 <= k < req.tools.len() ==> is_tool(tool_value(#[trigger] req.tools[k]), req.tools[k]),
        req.tool_choice matches Some(c) ==> is_choice(tool_choice_value(c), c),
{
    lemma_openai_words();
}

/// Every field of a request stands in its body under its name in OpenAI's dialect,
/// whatever extra fields come with it; what is absent is not written.
pub proof fn law_requests_keep_their_fields(req: RequestV, report: ReportV)
    requires
        req.extra.dom().finite(),
    ensures
        ({
            let body = request_value(req, report).0;
            &&& body.get("model"@) == Some(JsonV::Str(req.model))
            &&& body.get("messages"@) == Some(
                JsonV::Array(sent_messages(req.system, req.messages, report).values),
            )
            &&& body.get("stream"@) == Some(JsonV::Bool(req.stream))
            &&& req.tools.len() > 0 ==> (body.get("tools"@) matches Some(JsonV::Array(items)) && items.len()
                == req.tools.len() && forall|k: int|
                0 <= k < items.len() ==> is_tool(#[trigger] items[k], req.tools[k]))
            &&& req.tool_choice matches Some(c) ==> (body.get("tool_choice"@) matches Some(v) && is_choice(v, c))
            &&& req.sampling.temperature matches Some(d) ==> body.get("temperature"@) == Some(double_value(d))
            &&& req.sampling.top_p matches Some(d) ==> body.get("top_p"@) == Some(double_value(d))
            &&& req.sampling.max_tokens matches Some(n) ==> body.get("max_completion_tokens"@) == Some(
                JsonV::Number(Num::PosInt(n)),
            )
            &&& req.sampling.stop.len() > 0 ==> (body.get("stop"@) matches Some(JsonV::Array(items)) && items.len()
                == req.sampling.stop.len() && forall|k: int|
                0 <= k < items.len() ==> #[trigger] items[k] == JsonV::Str(req.sampling.stop[k]))
            &&& req.extra.dom() == Set::<Seq<char>>::empty() ==> {
                &&& req.tools.len() == 0 ==> body.get("tools"@) is None
                &&& req.tool_choice is None ==> body.get("tool_choice"@) is None
                &&& req.sampling.temperature is None ==> body.get("temperature"@) is None
                &&& req.sampling.top_p is None ==> body.get("top_p"@) is None
                &&& req.sampling.max_tokens is None ==> body.get("max_completion_tokens"@) is None
                &&& req.sampling.stop.len() == 0 ==> body.get("stop"@) is None
                &&& body.get("max_tokens"@) is None && body.get("system"@) is None
            }
        }),
{
    lemma_openai_words();
    lemma_provider_names();
    let sent = sent_messages(req.system, req.messages, report);
    let typed = typed_request(req, sent.values);
    let r = sampling_report(req, sent.report);
    law_extra_fields_are_written("openai"@, req.extra, typed, r, "model"@);
    law_extra_fields_are_written("openai"@, req.extra, typed, r, "messages"@);
    law_extra_fields_are_written("openai"@, req.extra, typed, r, "stream"@);
    law_extra_fields_are_written("openai"@, req.extra, typed, r, "tools"@);
    law_extra_fields_are_written("openai"@, req.extra, typed, r, "tool_choice"@);
    law_extra_fields_are_written("openai"@, req.extra, typed, r, "temperature"@);
    law_extra_fields_are_written("openai"@, req.extra, typed, r, "top_p"@);
    law_extra_fields_are_written("openai"@, req.extra, typed, r, "max_completion_tokens"@);
    law_extra_fields_are_written("openai"@, req.extra, typed, r, "max_tokens"@);
    law_extra_fields_are_written("openai"@, req.extra, typed, r, "stop"@);
    law_extra_fields_are_written("openai"@, req.extra, typed, r, "system"@);
    lemma_typed_request(req, sent.values);
    lemma_tool_values(req);
}

/// A request's body has no members but these and the extra fields of the dialect itself.
pub proof fn law_requests_hold_nothing_else(req: RequestV, report: ReportV, key: Seq<char>)
    requires
        req.extra.dom().finite(),
        request_value(req, report).0.get(key) is Some,
    ensures
        req.extra.dom().contains("openai"@ + "."@ + key) || set!["model"@, "messages"@, "tools"@, "tool_choice"@, "temperature"@, "top_p"@, "max_completion_tokens"@, "stop"@, "stream"@].contains(key),
{
    lemma_provider_names();
    let sent = sent_messages(req.system, req.messages, report);
    law_extra_fields_are_written(
        "openai"@,
        req.extra,
        typed_request(req, sent.values),
        sampling_report(req, sent.report),
        key,
    );
}

/// The report of a request grows by what each message loses, in order, then by the
/// sampling field that OpenAI's dialect lacks, then by the fields of other dialects.
pub proof fn law_request_report_is_exact(req: RequestV, report: ReportV)
    requires
        req.extra.dom().finite(),
    ensures
        ({
            let sent = sent_messages(req.system, req.messages, report).report;
            let top_k = if req.sampling.top_k is Some {
                sent.dropped.push(
                    DroppedV { path: "sampling.top_k"@, reason: "openai has no top_k"@ },
                )
            } else {
                sent.dropped
            };
            request_value(req, report).1.dropped == top_k + in_order(req.extra.dom()).filter_map(
                |k: Seq<char>| foreign_entry("openai"@, k),
            )
        }),
        request_value(req, report).1.notes == sent_messages(req.system, req.messages, report).report.notes + in_order(
            req.extra.dom(),
        ).filter_map(
            |k: Seq<char>|
                collision_remark(
                    "openai"@,
                    typed_request(req, sent_messages(req.system, req.messages, report).values),
                    k,
                ),
        ),
{
    lemma_provider_names();
    let sent = sent_messages(req.system, req.messages, report);
    law_extra_fields_are_written(
        "openai"@,
        req.extra,
        typed_request(req, sent.values),
        sampling_report(req, sent.report),
        "model"@,
    );
}

/// The name of a stop reason in OpenAI's dialect.
pub open spec fn is_finish_reason(name: Seq<char>, reason: StopReasonV) -> bool {
    match reason {
        StopReasonV::EndTurn => name == "stop"@,
        StopReasonV::MaxTokens => name == "length"@,
        StopReasonV::ToolUse => name == "tool_calls"@,
        StopReasonV::StopSequence => name == "stop"@,
        StopReasonV::Other(other) => name == other,
    }
}

/// Whether a value gives token counts: each that is known under its name, the others
/// not at all.
pub open spec fn is_usage(v: JsonV, u: Usage) -> bool {
    &&& has_only(v, set!["prompt_tokens"@, "completion_tokens"@])
    &&& v.get("prompt_tokens"@) == match u.input_tokens {
        Some(n) => Some(JsonV::Number(Num::PosInt(n))),
        None => None,
    }
    &&& v.get("completion_tokens"@) == match u.output_tokens {
        Some(n) => Some(JsonV::Number(Num::PosInt(n))),
        None => None,
    }
}

/// Every field of a response stands in its body under its name in OpenAI's dialect:
/// one choice with all text, images and tool calls in order, the finish reason, the
/// token counts. What OpenAI's own clients ask for is there too.
pub proof fn law_responses_keep_their_fields(resp: ResponseV, report: ReportV)
    requires
        resp.extra.dom().finite(),
    ensures
        ({
            let body = response_value(resp, report).0;
            &&& body.get("model"@) == Some(JsonV::Str(resp.model))
            &&& body.get("choices"@) matches Some(JsonV::Array(choices)) && choices.len() == 1 && {
                let choice = choices[0];
                &&& has_only(choice, set!["index"@, "message"@, "finish_reason"@])
                &&& choice.get("index"@) == Some(JsonV::Number(Num::PosInt(0)))
                &&& choice.get("message"@) matches Some(message) && {
                    &&& has_only(message, set!["role"@, "content"@, "tool_calls"@])
                    &&& message.get("role"@) == Some(JsonV::Str("assistant"@))
                    &&& message.get("content"@) matches Some(c) && is_content(c, seen(resp.content))
                    &&& has_calls(message, called(resp.content))
                }
                &&& resp.stop_reason matches Some(reason) ==> (choice.get("finish_reason"@) matches Some(
                    JsonV::Str(name),
                ) && is_finish_reason(name, reason))
                &&& resp.stop_reason is None ==> choice.get("finish_reason"@) is None
            }
            &&& resp.usage matches Some(u) ==> (body.get("usage"@) matches Some(v) && is_usage(v, u))
            &&& resp.extra.dom() == Set::<Seq<char>>::empty() ==> {
                &&& resp.usage is None ==> body.get("usage"@) is None
                &&& body.get("object"@) == Some(JsonV::Str("chat.completion"@))
                &&& body.get("id"@) == Some(JsonV::Str("chatcmpl-translated"@))
                &&& body.get("created"@) == Some(JsonV::Number(Num::PosInt(0)))
            }
        }),
{
    lemma_openai_words();
    lemma_provider_names();
    lemma_blocks(resp.content);
    lemma_content(seen(resp.content));
    let typed = typed_response(resp);
    let dropped = result_drops(resp.content, report);
    let r = match resp.stop_reason {
        Some(reason) => stop_reason_report(reason, dropped),
        None => dropped,
    };
    law_extra_fields_are_written("openai"@, resp.extra, typed, r, "model"@);
    law_extra_fields_are_written("openai"@, resp.extra, typed, r, "choices"@);
    law_extra_fields_are_written("openai"@, resp.extra, typed, r, "usage"@);
    law_extra_fields_are_written("openai"@, resp.extra, typed, r, "object"@);
    law_extra_fields_are_written("openai"@, resp.extra, typed, r, "id"@);
    law_extra_fields_are_written("openai"@, resp.extra, typed, r, "created"@);
    let m = emitted("openai"@, resp.extra, typed, r).0;
    let body = response_value(resp, report).0;
    assert(body == JsonV::Object(completed_response(m)));
    let choice = choice_value(resp);
    let calls = call_values(resp.content);
    let message = message_object("assistant"@, content_value(visible(resp.content)), calls);
    assert(choice.get("message"@) == Some(message));
    if calls.len() > 0 {
        assert(message.get("tool_calls"@) == Some(JsonV::Array(calls)));
    }
    assert(typed["choices"@] == JsonV::Array(seq![choice]));
    assert(seq![choice][0] == choice);
}

/// A response's body has no members but these and the extra fields of the dialect itself.
pub proof fn law_responses_hold_nothing_else(resp: ResponseV, report: ReportV, key: Seq<char>)
    requires
        resp.extra.dom().finite(),
        response_value(resp, report).0.get(key) is Some,
    ensures
        resp.extra.dom().contains("openai"@ + "."@ + key) || set!["model"@, "choices"@, "usage"@, "object"@, "id"@, "created"@].contains(key),
{
    lemma_provider_names();
    let dropped = result_drops(resp.content, report);
    let r = match resp.stop_reason {
        Some(reason) => stop_reason_report(reason, dropped),
        None => dropped,
    };
    law_extra_fields_are_written("openai"@, resp.extra, typed_response(resp), r, key);
}

proof fn lemma_result_drops(blocks: Seq<BlockV>, report: ReportV)
    ensures
        result_drops(blocks, report).notes == report.notes,
        result_drops(blocks, report).dropped == report.dropped + answered(blocks).map_values(
            |b: BlockV|
                DroppedV {
                    path: "content"@,
                    reason: "openai response message cannot carry a tool_result content block"@,
                },
        ),
    decreases blocks.len(),
{
    reveal(Seq::filter);
    let f = |b: BlockV|
        DroppedV {
            path: "content"@,
            reason: "openai response message cannot carry a tool_result content block"@,
        };
    if blocks.len() > 0 {
        lemma_result_drops(blocks.drop_last(), report);
    }
    assert(result_drops(blocks, report).dropped =~= report.dropped + answered(blocks).map_values(f));
}

/// The report of a response has an entry for each answer to a tool call in it, which
/// the dialect cannot carry there, and for each field of another dialect; a remark
/// says that a stop sequence has no finish reason of its own.
pub proof fn law_response_report_is_exact(resp: ResponseV, report: ReportV)
    requires
        resp.extra.dom().finite(),
    ensures
        response_value(resp, report).1.dropped == report.dropped + answered(resp.content).map_values(
            |b: BlockV|
                DroppedV {
                    path: "content"@,
                    reason: "openai response message cannot carry a tool_result content block"@,
                },
        ) + in_order(resp.extra.dom()).filter_map(|k: Seq<char>| foreign_entry("openai"@, k)),
        response_value(resp, report).1.notes == (if resp.stop_reason == Some(StopReasonV::StopSequence) {
            report.notes.push(
                "stop_reason: StopSequence has no distinct OpenAI finish_reason, mapped to \"stop\""@,
            )
        } else {
            report.notes
        }) + in_order(resp.extra.dom()).filter_map(
            |k: Seq<char>| collision_remark("openai"@, typed_response(resp), k),
        ),
{
    lemma_provider_names();
    lemma_result_drops(resp.content, report);
    let dropped = result_drops(resp.content, report);
    let r = match resp.stop_reason {
        Some(reason) => stop_reason_report(reason, dropped),
        None => dropped,
    };
    law_extra_fields_are_written("openai"@, resp.extra, typed_response(resp), r, "model"@);
}

/// Whether a piece of a stream is a chunk of a model with one choice, which has that
/// finish reason, and gives its delta to a test.
pub open spec fn is_chunk(
    c: ChunkV,
    model: Seq<char>,
    finish: Option<StopReasonV>,
    holds: spec_fn(JsonV) -> bool,
) -> bool {
    c matches ChunkV::Data(v) && {
        &&& v.get("object"@) == Some(JsonV::Str("chat.completion.chunk"@))
        &&& v.get("model"@) == Some(JsonV::Str(model))
        &&& has_only(v, set!["object"@, "model"@, "choices"@])
        &&& v.get("choices"@) matches Some(JsonV::Array(choices)) && choices.len() == 1 && {
            &&& has_only(choices[0], set!["index"@, "delta"@, "finish_reason"@])
            &&& choices[0].get("index"@) == Some(JsonV::Number(Num::PosInt(0)))
            &&& finish is None ==> choices[0].get("finish_reason"@) == Some(JsonV::Null)
            &&& finish matches Some(reason) ==> (choices[0].get("finish_reason"@) matches Some(JsonV::Str(name))
                && is_finish_reason(name, reason))
            &&& choices[0].get("delta"@) matches Some(delta) && holds(delta)
        }
    }
}

/// Whether a delta opens a tool call.
pub open spec fn opens_call(delta: JsonV, slot: u64, id: Seq<char>, name: Seq<char>) -> bool {
    delta.get("tool_calls"@) matches Some(JsonV::Array(calls)) && calls.len() == 1 && {
        &&& calls[0].get("index"@) == Some(JsonV::Number(Num::PosInt(slot)))
        &&& has_only(delta, set!["tool_calls"@]) && has_only(calls[0], set!["index"@, "id"@, "type"@, "function"@])
        &&& calls[0].get("id"@) == Some(JsonV::Str(id))
        &&& calls[0].get("type"@) == Some(JsonV::Str("function"@))
        &&& calls[0].get("function"@) matches Some(f) && f.get("name"@) == Some(JsonV::Str(name)) && f.get(
            "arguments"@,
        ) == Some(JsonV::Str(""@))
    }
}

/// Whether a delta adds to the arguments of a tool call.
pub open spec fn adds_arguments(delta: JsonV, slot: u64, text: Seq<char>) -> bool {
    delta.get("tool_calls"@) matches Some(JsonV::Array(calls)) && calls.len() == 1 && {
        &&& calls[0].get("index"@) == Some(JsonV::Number(Num::PosInt(slot)))
        &&& has_only(delta, set!["tool_calls"@]) && has_only(calls[0], set!["index"@, "function"@])
        &&& calls[0].get("function"@) matches Some(f) && f.get("arguments"@) == Some(JsonV::Str(text))
    }
}

/// The name of the role that a stream opens with.
pub open spec fn opening_role(st: RenderStateV) -> Seq<char> {
    match st.role {
        Some(Role::System) => "system"@,
        Some(Role::User) => "user"@,
        Some(Role::Assistant) => "assistant"@,
        Some(Role::Tool) => "tool"@,
        None => "assistant"@,
    }
}

/// Whether a piece of a stream is the chunk with the role.
pub open spec fn is_opening(c: ChunkV, st: RenderStateV) -> bool {
    is_chunk(c, st.model, None, |delta: JsonV| delta.get("role"@) == Some(JsonV::Str(opening_role(st))) && has_only(delta, set!["role"@]))
}

/// What each event of a stream becomes in OpenAI's dialect.
pub proof fn law_streams_are_written(event: EventV, st: RenderStateV, report: ReportV)
    ensures
        ({
            let s = streamed(event, st, report);
            let ahead: int = if st.message_started {
                0
            } else {
                1
            };
            match event {
                EventV::MessageStart { model, role } => {
                    &&& s.chunks.len() == 1
                    &&& is_opening(s.chunks[0], RenderStateV { model, role: Some(role), ..st })
                    &&& s.st == (RenderStateV { model, role: Some(role), message_started: true, ..st })
                    &&& s.report == report
                },
                EventV::ContentBlockStart { index, block: BlockV::ToolUse { id, name, input } } => {
                    let slot = st.next_tool_slot;
                    let whole = input != JsonV::Null && input != JsonV::Object(Map::empty());
                    &&& s.chunks.len() == ahead + 1 + if whole {
                        1int
                    } else {
                        0
                    }
                    &&& ahead == 1 ==> is_opening(s.chunks[0], st)
                    &&& is_chunk(s.chunks[ahead], st.model, None, |delta: JsonV| opens_call(delta, slot, id, name))
                    &&& whole ==> is_chunk(
                        s.chunks[ahead + 1],
                        st.model,
                        None,
                        |delta: JsonV| adds_arguments(delta, slot, json_text(input)),
                    )
                    &&& s.st.message_started
                    &&& s.st.model == st.model && s.st.role == st.role && s.st.terminal_sent == st.terminal_sent
                    &&& s.st.tool_render.dom() == st.tool_render.dom().insert(index)
                    &&& s.st.tool_render[index].slot == slot
                    &&& forall|i: u64|
                        i != index && st.tool_render.dom().contains(i) ==> #[trigger] s.st.tool_render[i]
                            == st.tool_render[i]
                    &&& slot < u64::MAX ==> s.st.next_tool_slot == slot + 1
                    &&& s.report == report
                },
                EventV::ContentBlockDelta { text: Some(text), .. } => {
                    &&& s.chunks.len() == ahead + 1
                    &&& ahead == 1 ==> is_opening(s.chunks[0], st)
                    &&& is_chunk(
                        s.chunks[ahead],
                        st.model,
                        None,
                        |delta: JsonV| delta.get("content"@) == Some(JsonV::Str(text)) && has_only(delta, set!["content"@]),
                    )
                    &&& s.st == (RenderStateV { message_started: true, ..st })
                    &&& s.report == report
                },
                EventV::ContentBlockDelta { index, text: None, partial_json: Some(part) } => {
                    let slot = if st.tool_render.dom().contains(index) {
                        st.tool_render[index].slot
                    } else {
                        st.next_tool_slot
                    };
                    &&& s.chunks.len() == 1
                    &&& is_chunk(s.chunks[0], st.model, None, |delta: JsonV| adds_arguments(delta, slot, part))
                    &&& s.st.tool_render.dom().contains(index) && s.st.tool_render[index].slot == slot
                    &&& st.tool_render.dom().contains(index) ==> s.st == st
                    &&& s.report == report
                },
                EventV::MessageDelta { stop_reason, usage } => {
                    let first: int = if stop_reason is Some {
                        1
                    } else {
                        0
                    };
                    &&& s.chunks.len() == first + if usage is Some {
                        1int
                    } else {
                        0
                    }
                    &&& first == 1 ==> is_chunk(
                        s.chunks[0],
                        st.model,
                        stop_reason,
                        |delta: JsonV| delta == JsonV::Object(Map::empty()),
                    )
                    &&& usage matches Some(u) ==> (s.chunks[first] matches ChunkV::Data(v) && v.get("model"@) == Some(
                        JsonV::Str(st.model),
                    ) && v.get("choices"@) == Some(JsonV::Array(Seq::empty())) && (v.get("usage"@) matches Some(
                        counts,
                    ) && is_usage(counts, u)))
                    &&& s.st == st
                    &&& s.report.dropped == report.dropped
                    &&& stop_reason == Some(StopReasonV::StopSequence) ==> s.report.notes == report.notes.push(
                        "stop_reason: StopSequence has no distinct OpenAI finish_reason, mapped to \"stop\""@,
                    )
                    &&& stop_reason != Some(StopReasonV::StopSequence) ==> s.report == report
                },
                EventV::MessageStop => {
                    &&& st.terminal_sent ==> s.chunks.len() == 0 && s.st == st
                    &&& !st.terminal_sent ==> s.chunks == seq![ChunkV::Done] && s.st == (RenderStateV {
                        terminal_sent: true,
                        ..st
                    })
                    &&& s.report == report
                },
                _ => s.chunks.len() == 0 && s.st == st && s.report == report,
            }
        }),
{
    lemma_openai_words();
    let s = streamed(event, st, report);
    match event {
        EventV::ContentBlockStart { index, block: BlockV::ToolUse { id, name, input } } => {
            assert(s.st.tool_render.dom() =~= st.tool_render.dom().insert(index));
        },
        EventV::MessageDelta { stop_reason, usage } => {
            assert(s.report.dropped =~= report.dropped);
        },
        _ => {},
    }
}

/// The pieces of a stream follow each other in its text, each as one event: a line
/// with its data and a blank line.
pub proof fn law_stream_text_is_framed(chunks: Seq<ChunkV>, last: ChunkV)
    ensures
        chunks_text(Seq::<ChunkV>::empty()) == Seq::<char>::empty(),
        chunks_text(chunks.push(last)) == chunks_text(chunks) + match last {
            ChunkV::Data(v) => "data: "@ + json_text(v) + "\n\n"@,
            ChunkV::Done => "data: [DONE]\n\n"@,
        },
{
    assert(chunks.push(last).drop_last() == chunks);
}

} // verus!
