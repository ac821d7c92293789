//! What a request, a response and a stream look like in Anthropic's dialect.

use vstd::prelude::*;

use crate::json::{double_value, json_text, str_values, JsonV, Num};
use crate::json_laws::has_only;
use crate::llm::adapter::emitted;
use crate::llm::anthropic::{
    block_value, block_values, completed_response, frames_text, message_value, request_value, response_value,
    split_messages, stream_block_value, system_drops, system_text, tool_choice_value, tool_value, typed_request,
    typed_response, written, FrameV,
};
use crate::llm::canonical::{
    block_texts, BlockV, DroppedV, EventV, MessageV, RenderStateV, ReportV, RequestV, ResponseV, Role, StopReasonV,
    ToolChoiceV, ToolV, Usage,
};
use crate::llm::extra_laws::{
    collision_remark, foreign_entry, law_extra_fields_are_written, lemma_provider_names,
};
use crate::llm::view_laws::text_in_block;
use crate::llm::words::lemma_anthropic_words;
use crate::text::{decimal, in_order, joined};

verus! {

/// Whether a value is a content block.
pub open spec fn is_block(v: JsonV, b: BlockV) -> bool {
    match b {
        BlockV::Text { text } => v.get("type"@) == Some(JsonV::Str("text"@)) && v.get("text"@) == Some(
            JsonV::Str(text),
        ) && has_only(v, set!["type"@, "text"@]),
        BlockV::Image { media_type, data } => has_only(v, set!["type"@, "source"@]) && v.get("type"@) == Some(JsonV::Str("image"@)) && (v.get(
            "source"@,
        ) matches Some(source) && source.get("type"@) == Some(JsonV::Str("base64"@)) && source.get("media_type"@)
            == Some(JsonV::Str(media_type)) && source.get("data"@) == Some(JsonV::Str(data)) && has_only(
            source,
            set!["type"@, "media_type"@, "data"@],
        )),
        BlockV::ToolUse { id, name, input } => v.get("type"@) == Some(JsonV::Str("tool_use"@)) && v.get("id"@)
            == Some(JsonV::Str(id)) && v.get("name"@) == Some(JsonV::Str(name)) && v.get("input"@) == Some(input) && has_only(
            v,
            set!["type"@, "id"@, "name"@, "input"@],
        ),
        BlockV::ToolResult { id, content, is_error } => v.get("type"@) == Some(JsonV::Str("tool_result"@)) && v.get(
            "tool_use_id"@,
        ) == Some(JsonV::Str(id)) && v.get("content"@) == Some(JsonV::Str(content)) && v.get("is_error"@) == Some(
            JsonV::Bool(is_error),
        ) && has_only(v, set!["type"@, "tool_use_id"@, "content"@, "is_error"@]),
    }
}

/// Whether a value is the list of some content blocks, in order.
pub open spec fn are_blocks(v: JsonV, blocks: Seq<BlockV>) -> bool {
    v matches JsonV::Array(items) && items.len() == blocks.len() && forall|k: int|
        0 <= k < items.len() ==> is_block(#[trigger] items[k], blocks[k])
}

proof fn lemma_blocks(blocks: Seq<BlockV>)
    ensures
        are_blocks(JsonV::Array(block_values(blocks)), blocks),
{
    lemma_anthropic_words();
}

/// Every content block of a message stands in it, in order, whatever its kind; the
/// message is the assistant's or the user's.
pub proof fn law_messages_keep_their_content(m: MessageV)
    ensures
        message_value(m).get("role"@) == Some(
            JsonV::Str(
                if m.role is Assistant {
                    "assistant"@
                } else {
                    "user"@
                },
            ),
        ),
        message_value(m).get("content"@) matches Some(c) && are_blocks(c, m.content),
        has_only(message_value(m), set!["role"@, "content"@]),
{
    lemma_anthropic_words();
    lemma_blocks(m.content);
}

/// The report entry for a block of a system message that is no text.
pub open spec fn system_entry(index: nat, b: BlockV) -> Option<DroppedV> {
    if b is Text {
        None
    } else {
        Some(
            DroppedV {
                path: "messages["@ + decimal(index) + "].content"@,
                reason: "anthropic system prompt is plain text; non-text content in a system-role message has no representation there"@,
            },
        )
    }
}

proof fn lemma_system(content: Seq<BlockV>, index: nat, report: ReportV)
    ensures
        block_texts(content) == content.filter_map(|b: BlockV| text_in_block(b)),
        system_drops(content, index, report).notes == report.notes,
        system_drops(content, index, report).dropped == report.dropped + content.filter_map(
            |b: BlockV| system_entry(index, b),
        ),
    decreases content.len(),
{
    let f = |b: BlockV| system_entry(index, b);
    if content.len() > 0 {
        lemma_system(content.drop_last(), index, report);
        assert(system_drops(content, index, report).dropped =~= report.dropped + content.filter_map(f));
    } else {
        assert(report.dropped + Seq::<DroppedV>::empty() == report.dropped);
    }
}

/// The messages of a request are told apart, in order: the texts of a system message
/// join the system prompt, and what else it holds is in the report; any other message
/// is written in its place, with a remark where the tool role becomes the user's.
pub proof fn law_messages_are_told_apart(
    system: Option<Seq<char>>,
    messages: Seq<MessageV>,
    last: MessageV,
    report: ReportV,
)
    ensures
        ({
            let none = split_messages(system, Seq::empty(), report);
            let before = split_messages(system, messages, report);
            let after = split_messages(system, messages.push(last), report);
            let index = messages.len();
            &&& none.messages.len() == 0 && none.report == report
            &&& none.parts == match system {
                Some(s) => seq![s],
                None => Seq::empty(),
            }
            &&& last.role is System ==> {
                &&& after.parts == before.parts + last.content.filter_map(|b: BlockV| text_in_block(b))
                &&& after.messages == before.messages
                &&& after.report.dropped == before.report.dropped + last.content.filter_map(
                    |b: BlockV| system_entry(index, b),
                )
                &&& after.report.notes == before.report.notes
            }
            &&& !(last.role is System) ==> {
                &&& after.parts == before.parts
                &&& after.messages == before.messages.push(message_value(last))
                &&& after.report.dropped == before.report.dropped
                &&& after.report.notes == if last.role is Tool {
                    before.report.notes.push(
                        "messages["@ + decimal(index)
                            + "]: role \"tool\" has no Anthropic equivalent, downgraded to \"user\""@,
                    )
                } else {
                    before.report.notes
                }
            }
        }),
{
    let before = split_messages(system, messages, report);
    lemma_system(last.content, messages.len(), before.report);
    assert(messages.push(last).drop_last() == messages);
}

/// Whether a value is a tool's definition.
pub open spec fn is_tool(v: JsonV, t: ToolV) -> bool {
    &&& has_only(v, set!["name"@, "description"@, "input_schema"@])
    &&& v.get("name"@) == Some(JsonV::Str(t.name))
    &&& v.get("input_schema"@) == Some(t.input_schema)
    &&& v.get("description"@) == match t.description {
        Some(d) => Some(JsonV::Str(d)),
        None => None,
    }
}

/// Whether a value is a tool choice.
pub open spec fn is_choice(v: JsonV, c: ToolChoiceV) -> bool {
    match c {
        ToolChoiceV::Auto => v.get("type"@) == Some(JsonV::Str("auto"@)) && has_only(v, set!["type"@]),
        ToolChoiceV::Any => v.get("type"@) == Some(JsonV::Str("any"@)) && has_only(v, set!["type"@]),
        ToolChoiceV::Never => v.get("type"@) == Some(JsonV::Str("none"@)) && has_only(v, set!["type"@]),
        ToolChoiceV::Tool(name) => v.get("type"@) == Some(JsonV::Str("tool"@)) && v.get("name"@) == Some(
            JsonV::Str(name),
        ) && has_only(v, set!["type"@, "name"@]),
    }
}

/// Whether a text is a stop reason's name.
pub open spec fn is_stop_reason(name: Seq<char>, reason: StopReasonV) -> bool {
    match reason {
        StopReasonV::EndTurn => name == "end_turn"@,
        StopReasonV::MaxTokens => name == "max_tokens"@,
        StopReasonV::ToolUse => name == "tool_use"@,
        StopReasonV::StopSequence => name == "stop_sequence"@,
        StopReasonV::Other(other) => name == other,
    }
}

/// Whether a value gives token counts: each that is known under its name, the others
/// not at all.
pub open spec fn is_usage(v: JsonV, u: Usage) -> bool {
    &&& has_only(v, set!["input_tokens"@, "output_tokens"@])
    &&& v.get("input_tokens"@) == match u.input_tokens {
        Some(n) => Some(JsonV::Number(Num::PosInt(n))),
        None => None,
    }
    &&& v.get("output_tokens"@) == match u.output_tokens {
        Some(n) => Some(JsonV::Number(Num::PosInt(n))),
        None => None,
    }
}

proof fn lemma_parts(req: RequestV)
    ensures
        forall|k: int| 0 <= k < req.tools.len() ==> is_tool(tool_value(#[trigger] req.tools[k]), req.tools[k]),
        req.tool_choice matches Some(c) ==> is_choice(tool_choice_value(c), c),
{
    lemma_anthropic_words();
}

proof fn lemma_typed_request(req: RequestV, system: Option<Seq<char>>, messages: Seq<JsonV>)
    ensures
        ({
            let body = JsonV::Object(typed_request(req, system, messages));
            &&& body.get("model"@) == Some(JsonV::Str(req.model))
            &&& body.get("system"@) == match system {
                Some(s) => Some(JsonV::Str(s)),
                None => None,
            }
            &&& body.get("messages"@) == Some(JsonV::Array(messages))
            &&& body.get("stream"@) == Some(JsonV::Bool(req.stream))
            &&& body.get("tools"@) == if req.tools.len() > 0 {
                Some(JsonV::Array(req.tools.map_values(|t: ToolV| tool_value(t))))
            } else {
                None
            }
            &&& body.get("tool_choice"@) == match req.tool_choice {
                Some(c) => Some(tool_choice_value(c)),
                None => None,
            }
            &&& body.get("temperature"@) == match req.sampling.temperature {
                Some(d) => Some(double_value(d)),
                None => None,
            }
            &&& body.get("top_p"@) == match req.sampling.top_p {
                Some(d) => Some(double_value(d)),
                None => None,
            }
            &&& body.get("top_k"@) == match req.sampling.top_k {
                Some(n) => Some(JsonV::Number(Num::PosInt(n))),
                None => None,
            }
            &&& body.get("max_tokens"@) == match req.sampling.max_tokens {
                Some(n) => Some(JsonV::Number(Num::PosInt(n))),
                None => None,
            }
            &&& body.get("stop_sequences"@) == if req.sampling.stop.len() > 0 {
                Some(JsonV::Array(str_values(req.sampling.stop)))
            } else {
                None
            }
        }),
{
    lemma_anthropic_words();
}

/// Every field of a request stands in its body under its name in Anthropic's dialect,
/// whatever extra fields come with it; what is absent is not written.
pub proof fn law_requests_keep_their_fields(req: RequestV, report: ReportV)
    requires
        req.extra.dom().finite(),
    ensures
        ({
            let body = request_value(req, report).0;
            let split = split_messages(req.system, req.messages, report);
            &&& body.get("model"@) == Some(JsonV::Str(req.model))
            &&& body.get("messages"@) == Some(JsonV::Array(split.messages))
            &&& split.parts.len() > 0 ==> body.get("system"@) == Some(JsonV::Str(joined(split.parts, "\n"@)))
            &&& body.get("stream"@) == Some(JsonV::Bool(req.stream))
            &&& req.tools.len() > 0 ==> (body.get("tools"@) matches Some(JsonV::Array(items)) && items.len()
                == req.tools.len() && forall|k: int|
                0 <= k < items.len() ==> is_tool(#[trigger] items[k], req.tools[k]))
            &&& req.tool_choice matches Some(c) ==> (body.get("tool_choice"@) matches Some(v) && is_choice(v, c))
            &&& req.sampling.temperature matches Some(d) ==> body.get("temperature"@) == Some(double_value(d))
            &&& req.sampling.top_p matches Some(d) ==> body.get("top_p"@) == Some(double_value(d))
            &&& req.sampling.top_k matches Some(n) ==> body.get("top_k"@) == Some(JsonV::Number(Num::PosInt(n)))
            &&& req.sampling.max_tokens matches Some(n) ==> body.get("max_tokens"@) == Some(
                JsonV::Number(Num::PosInt(n)),
            )
            &&& req.sampling.stop.len() > 0 ==> (body.get("stop_sequences"@) matches Some(JsonV::Array(items))
                && items.len() == req.sampling.stop.len() && forall|k: int|
                0 <= k < items.len() ==> #[trigger] items[k] == JsonV::Str(req.sampling.stop[k]))
            &&& req.extra.dom() == Set::<Seq<char>>::empty() ==> {
                &&& split.parts.len() == 0 ==> body.get("system"@) is None
                &&& req.tools.len() == 0 ==> body.get("tools"@) is None
                &&& req.tool_choice is None ==> body.get("tool_choice"@) is None
                &&& req.sampling.temperature is None ==> body.get("temperature"@) is None
                &&& req.sampling.top_p is None ==> body.get("top_p"@) is None
                &&& req.sampling.top_k is None ==> body.get("top_k"@) is None
                &&& req.sampling.max_tokens is None ==> body.get("max_tokens"@) is None
                &&& req.sampling.stop.len() == 0 ==> body.get("stop_sequences"@) is None
            }
        }),
{
    lemma_anthropic_words();
    lemma_provider_names();
    let split = split_messages(req.system, req.messages, report);
    let typed = typed_request(req, system_text(split.parts), split.messages);
    let r = split.report;
    law_extra_fields_are_written("anthropic"@, req.extra, typed, r, "model"@);
    law_extra_fields_are_written("anthropic"@, req.extra, typed, r, "system"@);
    law_extra_fields_are_written("anthropic"@, req.extra, typed, r, "messages"@);
    law_extra_fields_are_written("anthropic"@, req.extra, typed, r, "stream"@);
    law_extra_fields_are_written("anthropic"@, req.extra, typed, r, "tools"@);
    law_extra_fields_are_written("anthropic"@, req.extra, typed, r, "tool_choice"@);
    law_extra_fields_are_written("anthropic"@, req.extra, typed, r, "temperature"@);
    law_extra_fields_are_written("anthropic"@, req.extra, typed, r, "top_p"@);
    law_extra_fields_are_written("anthropic"@, req.extra, typed, r, "top_k"@);
    law_extra_fields_are_written("anthropic"@, req.extra, typed, r, "max_tokens"@);
    law_extra_fields_are_written("anthropic"@, req.extra, typed, r, "stop_sequences"@);
    lemma_typed_request(req, system_text(split.parts), split.messages);
    lemma_parts(req);
}

/// A request's body has no members but these and the extra fields of the dialect itself.
pub proof fn law_requests_hold_nothing_else(req: RequestV, report: ReportV, key: Seq<char>)
    requires
        req.extra.dom().finite(),
        request_value(req, report).0.get(key) is Some,
    ensures
        req.extra.dom().contains("anthropic"@ + "."@ + key) || set!["model"@, "system"@, "messages"@, "tools"@, "tool_choice"@, "temperature"@, "top_p"@, "top_k"@, "max_tokens"@, "stop_sequences"@, "stream"@].contains(key),
{
    lemma_provider_names();
    let split = split_messages(req.system, req.messages, report);
    law_extra_fields_are_written(
        "anthropic"@,
        req.extra,
        typed_request(req, system_text(split.parts), split.messages),
        split.report,
        key,
    );
}

/// A response's body has no members but these and the extra fields of the dialect itself.
pub proof fn law_responses_hold_nothing_else(resp: ResponseV, report: ReportV, key: Seq<char>)
    requires
        resp.extra.dom().finite(),
        response_value(resp, report).0.get(key) is Some,
    ensures
        resp.extra.dom().contains("anthropic"@ + "."@ + key) || set!["model"@, "content"@, "stop_reason"@, "usage"@, "type"@, "role"@, "id"@].contains(key),
{
    lemma_provider_names();
    law_extra_fields_are_written("anthropic"@, resp.extra, typed_response(resp), report, key);
}

/// The report of a request grows by what each message loses, in order, and by the
/// fields of other dialects.
pub proof fn law_request_report_is_exact(req: RequestV, report: ReportV)
    requires
        req.extra.dom().finite(),
    ensures
        ({
            let split = split_messages(req.system, req.messages, report);
            let after = request_value(req, report).1;
            &&& after.dropped == split.report.dropped + in_order(req.extra.dom()).filter_map(
                |k: Seq<char>| foreign_entry("anthropic"@, k),
            )
            &&& after.notes == split.report.notes + in_order(req.extra.dom()).filter_map(
                |k: Seq<char>|
                    collision_remark(
                        "anthropic"@,
                        typed_request(req, system_text(split.parts), split.messages),
                        k,
                    ),
            )
        }),
{
    lemma_provider_names();
    let split = split_messages(req.system, req.messages, report);
    law_extra_fields_are_written(
        "anthropic"@,
        req.extra,
        typed_request(req, system_text(split.parts), split.messages),
        split.report,
        "model"@,
    );
}

/// Every field of a response stands in its body under its name in Anthropic's
/// dialect: all content blocks in order, the stop reason, the token counts. What
/// Anthropic's own clients ask for is there too.
pub proof fn law_responses_keep_their_fields(resp: ResponseV, report: ReportV)
    requires
        resp.extra.dom().finite(),
    ensures
        ({
            let body = response_value(resp, report).0;
            let after = response_value(resp, report).1;
            &&& body.get("model"@) == Some(JsonV::Str(resp.model))
            &&& body.get("content"@) matches Some(c) && are_blocks(c, resp.content)
            &&& resp.stop_reason matches Some(reason) ==> (body.get("stop_reason"@) matches Some(JsonV::Str(name))
                && is_stop_reason(name, reason))
            &&& resp.usage matches Some(u) ==> (body.get("usage"@) matches Some(v) && is_usage(v, u))
            &&& resp.extra.dom() == Set::<Seq<char>>::empty() ==> {
                &&& resp.stop_reason is None ==> body.get("stop_reason"@) is None
                &&& resp.usage is None ==> body.get("usage"@) is None
                &&& body.get("type"@) == Some(JsonV::Str("message"@))
                &&& body.get("role"@) == Some(JsonV::Str("assistant"@))
                &&& body.get("id"@) == Some(JsonV::Str("msg_translated"@))
            }
            &&& after.dropped == report.dropped + in_order(resp.extra.dom()).filter_map(
                |k: Seq<char>| foreign_entry("anthropic"@, k),
            )
            &&& after.notes == report.notes + in_order(resp.extra.dom()).filter_map(
                |k: Seq<char>| collision_remark("anthropic"@, typed_response(resp), k),
            )
        }),
{
    lemma_anthropic_words();
    lemma_provider_names();
    lemma_blocks(resp.content);
    let typed = typed_response(resp);
    law_extra_fields_are_written("anthropic"@, resp.extra, typed, report, "model"@);
    law_extra_fields_are_written("anthropic"@, resp.extra, typed, report, "content"@);
    law_extra_fields_are_written("anthropic"@, resp.extra, typed, report, "stop_reason"@);
    law_extra_fields_are_written("anthropic"@, resp.extra, typed, report, "usage"@);
    law_extra_fields_are_written("anthropic"@, resp.extra, typed, report, "type"@);
    law_extra_fields_are_written("anthropic"@, resp.extra, typed, report, "role"@);
    law_extra_fields_are_written("anthropic"@, resp.extra, typed, report, "id"@);
    let m = emitted("anthropic"@, resp.extra, typed, report).0;
    assert(response_value(resp, report).0 == JsonV::Object(completed_response(m)));
}

/// Whether a frame has a name, and its data the same type.
pub open spec fn is_frame(f: FrameV, name: Seq<char>) -> bool {
    f.event == name && f.data.get("type"@) == Some(JsonV::Str(name))
}

/// Whether a frame opens a message.
pub open spec fn opens_message(f: FrameV, model: Seq<char>, role: Option<Role>) -> bool {
    let zero = JsonV::Number(Num::PosInt(0));
    is_frame(f, "message_start"@) && has_only(f.data, set!["type"@, "message"@]) && (f.data.get("message"@) matches Some(m) && {
        &&& has_only(m, set!["type"@, "role"@, "model"@, "content"@, "stop_reason"@, "usage"@])
        &&& m.get("type"@) == Some(JsonV::Str("message"@))
        &&& m.get("role"@) == Some(
            JsonV::Str(
                match role {
                    Some(Role::System) => "system"@,
                    Some(Role::User) => "user"@,
                    Some(Role::Tool) => "tool"@,
                    _ => "assistant"@,
                },
            ),
        )
        &&& m.get("model"@) == Some(JsonV::Str(model))
        &&& m.get("content"@) == Some(JsonV::Array(Seq::empty()))
        &&& m.get("stop_reason"@) == Some(JsonV::Null)
        &&& m.get("usage"@) matches Some(u) && u.get("input_tokens"@) == Some(zero) && u.get("output_tokens"@)
            == Some(zero)
    })
}

/// Whether a frame is about the block of an index.
pub open spec fn is_block_frame(f: FrameV, name: Seq<char>, index: u64) -> bool {
    is_frame(f, name) && f.data.get("index"@) == Some(JsonV::Number(Num::PosInt(index)))
}

/// Whether a frame opens a block.
pub open spec fn opens_block(f: FrameV, index: u64, b: BlockV) -> bool {
    is_block_frame(f, "content_block_start"@, index) && has_only(f.data, set!["type"@, "index"@, "content_block"@]) && (f.data.get("content_block"@) matches Some(v) && is_block(v, b))
}

/// Whether a frame adds a piece to a block.
pub open spec fn adds_piece(f: FrameV, index: u64, kind: Seq<char>, key: Seq<char>, piece: Seq<char>) -> bool {
    is_block_frame(f, "content_block_delta"@, index) && has_only(f.data, set!["type"@, "index"@, "delta"@]) && (f.data.get(
        "delta"@,
    ) matches Some(d) && has_only(d, set!["type"@, key]) && d.get("type"@)
        == Some(JsonV::Str(kind)) && d.get(key) == Some(JsonV::Str(piece)))
}

/// The block with which a stream opens one: a tool call without its input, which
/// follows, and an empty text in place of a tool's answer.
pub open spec fn opening_block(b: BlockV) -> BlockV {
    match b {
        BlockV::ToolUse { id, name, .. } => BlockV::ToolUse { id, name, input: JsonV::Object(Map::empty()) },
        BlockV::ToolResult { .. } => BlockV::Text { text: Seq::empty() },
        _ => b,
    }
}

proof fn lemma_opening_block(b: BlockV)
    ensures
        is_block(stream_block_value(b), opening_block(b)),
        is_block(block_value(BlockV::Text { text: Seq::empty() }), BlockV::Text { text: Seq::empty() }),
{
    lemma_anthropic_words();
}

/// What each event of a stream becomes in Anthropic's dialect. The opening of the
/// message comes ahead where it is still owed, then the end of another block that is
/// still open, then the event's own frames.
#[verifier::rlimit(60)]
pub proof fn law_streams_are_written(event: EventV, st: RenderStateV)
    ensures
        ({
            let w = written(event, st);
            let ahead: int = if st.message_started {
                0
            } else {
                1
            };
            let begun = RenderStateV { message_started: true, ..st };
            match event {
                EventV::MessageStart { model, role } => {
                    &&& w.frames.len() == 1
                    &&& opens_message(w.frames[0], model, Some(role))
                    &&& w.st == (RenderStateV { model, role: Some(role), message_started: true, ..st })
                },
                EventV::ContentBlockStart { index, block } => {
                    let other = st.open_block is Some && st.open_block != Some(index);
                    let at: int = ahead + if other {
                        1int
                    } else {
                        0
                    };
                    let whole = block matches BlockV::ToolUse { input, .. } && input != JsonV::Null && input
                        != JsonV::Object(Map::empty());
                    &&& w.frames.len() == at + 1 + if whole {
                        1int
                    } else {
                        0
                    }
                    &&& ahead == 1 ==> opens_message(w.frames[0], st.model, st.role)
                    &&& other ==> is_block_frame(w.frames[ahead], "content_block_stop"@, st.open_block->Some_0)
                    &&& opens_block(w.frames[at], index, opening_block(block))
                    &&& whole ==> (block matches BlockV::ToolUse { input, .. } && adds_piece(
                        w.frames[at + 1],
                        index,
                        "input_json_delta"@,
                        "partial_json"@,
                        json_text(input),
                    ))
                    &&& w.st == (RenderStateV {
                        started_blocks: st.started_blocks.insert(index),
                        open_block: Some(index),
                        ..begun
                    })
                },
                EventV::ContentBlockDelta { index, text, partial_json } => {
                    let fresh = !st.started_blocks.contains(index);
                    let other = fresh && st.open_block is Some && st.open_block != Some(index);
                    let opening: int = ahead + if other {
                        1int
                    } else {
                        0
                    };
                    let at: int = opening + if fresh {
                        1int
                    } else {
                        0
                    };
                    &&& w.frames.len() == at + if text is Some || partial_json is Some {
                        1int
                    } else {
                        0
                    }
                    &&& ahead == 1 ==> opens_message(w.frames[0], st.model, st.role)
                    &&& other ==> is_block_frame(w.frames[ahead], "content_block_stop"@, st.open_block->Some_0)
                    &&& fresh ==> opens_block(w.frames[opening], index, BlockV::Text { text: Seq::empty() })
                    &&& text matches Some(piece) ==> adds_piece(w.frames[at], index, "text_delta"@, "text"@, piece)
                    &&& text is None ==> (partial_json matches Some(piece) ==> adds_piece(
                        w.frames[at],
                        index,
                        "input_json_delta"@,
                        "partial_json"@,
                        piece,
                    ))
                    &&& fresh ==> w.st == (RenderStateV {
                        started_blocks: st.started_blocks.insert(index),
                        open_block: Some(index),
                        ..begun
                    })
                    &&& !fresh ==> w.st == begun
                },
                EventV::ContentBlockStop { index } => {
                    &&& w.frames.len() == 1
                    &&& is_block_frame(w.frames[0], "content_block_stop"@, index)
                    &&& st.open_block == Some(index) ==> w.st == (RenderStateV { open_block: None, ..st })
                    &&& st.open_block != Some(index) ==> w.st == st
                },
                EventV::MessageDelta { stop_reason, usage } => {
                    let at: int = ahead + if st.open_block is Some {
                        1int
                    } else {
                        0
                    };
                    &&& w.frames.len() == at + 1
                    &&& ahead == 1 ==> opens_message(w.frames[0], st.model, st.role)
                    &&& st.open_block matches Some(open) ==> is_block_frame(
                        w.frames[ahead],
                        "content_block_stop"@,
                        open,
                    )
                    &&& is_frame(w.frames[at], "message_delta"@)
                    &&& has_only(w.frames[at].data, set!["type"@, "delta"@, "usage"@])
                    &&& w.frames[at].data.get("delta"@) matches Some(d) && match stop_reason {
                        Some(reason) => has_only(d, set!["stop_reason"@]) && (d.get("stop_reason"@) matches Some(
                            JsonV::Str(name),
                        ) && is_stop_reason(name, reason)),
                        None => d == JsonV::Object(Map::empty()),
                    }
                    &&& match usage {
                        Some(u) => w.frames[at].data.get("usage"@) matches Some(v) && is_usage(v, u),
                        None => w.frames[at].data.get("usage"@) is None,
                    }
                    &&& w.st == (RenderStateV { open_block: None, ..begun })
                },
                EventV::MessageStop => {
                    let at: int = ahead + if st.open_block is Some {
                        1int
                    } else {
                        0
                    };
                    &&& st.terminal_sent ==> w.frames.len() == 0 && w.st == st
                    &&& !st.terminal_sent ==> {
                        &&& w.frames.len() == at + 1
                        &&& ahead == 1 ==> opens_message(w.frames[0], st.model, st.role)
                        &&& st.open_block matches Some(open) ==> is_block_frame(
                            w.frames[ahead],
                            "content_block_stop"@,
                            open,
                        )
                        &&& is_frame(w.frames[at], "message_stop"@)
                        &&& w.st == (RenderStateV { open_block: None, terminal_sent: true, ..begun })
                    }
                },
            }
        }),
{
    lemma_anthropic_words();
    if let EventV::ContentBlockStart { block, .. } = event {
        lemma_opening_block(block);
    }
    lemma_opening_block(BlockV::Text { text: Seq::empty() });
}

/// The frames of a stream follow each other in its text: a line with the name, a line
/// with the data, and a blank line.
pub proof fn law_stream_text_is_framed(frames: Seq<FrameV>, last: FrameV)
    ensures
        frames_text(Seq::<FrameV>::empty()) == Seq::<char>::empty(),
        frames_text(frames.push(last)) == frames_text(frames) + ("event: "@ + last.event + "\ndata: "@ + json_text(
            last.data,
        ) + "\n\n"@),
{
    assert(frames.push(last).drop_last() == frames);
}

} // verus!
