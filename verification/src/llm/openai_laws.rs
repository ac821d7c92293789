//! What holds of the OpenAI dialect as a whole.

use vstd::prelude::*;
use vstd::utf8::encode_utf8;

use crate::json::{finite_bits, input_whole, json_read, json_text, JsonV};
use crate::llm::adapter::{
    emitted, lemma_extra_comes_back, lemma_own_put_missing, lemma_put_missing, own_extra, put_missing, stripped, tagged,
    AdapterErrorV,
};
use crate::llm::anthropic_laws::lemma_strings_round_trip;
use crate::llm::canonical::{
    late_input, BlockV, EventV, MessageV, ParseStateV, RenderStateV, ReportV, RequestV, ResponseV, Role, StopReasonV, ToolChoiceV,
    ToolV,
};
use crate::llm::openai::{
    call_block, call_value, call_values, calls_of, completed_response, content_of, content_value,
    error_drops, event_of, first_choice, function_tool, image_of, image_url, message_blocks, message_object,
    messages_of, one_part, part_value, parts_of, request_fields, request_of, request_value, response_fields,
    response_of, response_value, result_drops, result_values, role_name, role_of, sent_message,
    sent_messages, stop_reason_name, stop_reason_of, streamed, system_parts, tool_choice_of,
    tool_choice_value, tool_value, tools_of, typed_request, typed_response, usage_of, usage_value, visible,
};
use crate::llm::words::lemma_openai_words;
use crate::text::{joined, lemma_split_first, rest_after};

verus! {

/// A finish reason survives being written and read, unless the dialect lacks it
/// or it is another reason's name kept as text.
pub proof fn law_stop_reason_round_trip(reason: StopReasonV)
    requires
        !(reason is StopSequence),
        reason matches StopReasonV::Other(name) ==> stop_reason_of(name) is Other,
    ensures
        stop_reason_of(stop_reason_name(reason)) == reason,
{
    lemma_openai_words();
}

/// A tool choice survives being written and read.
pub proof fn law_tool_choice_round_trip(choice: ToolChoiceV)
    ensures
        tool_choice_of(tool_choice_value(choice)) == Some(choice),
{
    lemma_openai_words();
}

/// Whether an image's URL tells its media type and data apart: a type without
/// comma or semicolon, or no type and data that is no data URL.
pub open spec fn image_whole(media_type: Seq<char>, data: Seq<char>) -> bool {
    if media_type.len() == 0 {
        image_of(data) == (media_type, data)
    } else {
        !media_type.contains(',') && !media_type.contains(';')
    }
}

/// An image's media type and data survive being written as a URL and read.
pub proof fn law_image_url_round_trip(media_type: Seq<char>, data: Seq<char>)
    requires
        image_whole(media_type, data),
    ensures
        image_of(image_url(media_type, data)) == (media_type, data),
{
    if media_type.len() > 0 {
        reveal_strlit("data:");
        reveal_strlit(";base64,");
        let tail = ";base64,"@;
        let a = tail.take(7);
        let url = image_url(media_type, data);
        let rest = media_type + tail + data;
        assert(url.take(5) == "data:"@);
        assert(url.skip(5) == rest);
        assert(rest_after(url, "data:"@) == Some(rest));
        let meta = media_type + a;
        assert(rest == meta + seq![','] + data);
        assert(!meta.contains(',')) by {
            assert forall|i: int| 0 <= i < meta.len() implies meta[i] != ',' by {
                if i < media_type.len() {
                    assert(media_type.contains(media_type[i]));
                } else {
                    assert(meta[i] == tail[i - media_type.len()]);
                }
            }
        }
        lemma_split_first(meta, ',', data);
        assert(meta == media_type + seq![';'] + a.skip(1));
        lemma_split_first(media_type, ';', a.skip(1));
    }
}

/// Whether a visible block survives as a content part.
pub open spec fn part_whole(b: BlockV) -> bool {
    match b {
        BlockV::Text { .. } => true,
        BlockV::Image { media_type, data } => image_whole(media_type, data),
        _ => false,
    }
}

/// A visible block survives being written and read.
pub proof fn law_part_round_trip(b: BlockV)
    requires
        part_whole(b),
    ensures
        one_part(part_value(b)) == Some(b),
{
    lemma_openai_words();
    if let BlockV::Image { media_type, data } = b {
        law_image_url_round_trip(media_type, data);
    }
}

proof fn lemma_parts_round_trip(blocks: Seq<BlockV>)
    requires
        forall|i: int| 0 <= i < blocks.len() ==> part_whole(#[trigger] blocks[i]),
    ensures
        parts_of(blocks.map_values(|b: BlockV| part_value(b))) == blocks,
    decreases blocks.len(),
{
    let vals = blocks.map_values(|b: BlockV| part_value(b));
    if blocks.len() > 0 {
        let rest = blocks.drop_last();
        assert forall|i: int| 0 <= i < rest.len() implies part_whole(#[trigger] rest[i]) by {
            assert(rest[i] == blocks[i]);
        }
        lemma_parts_round_trip(rest);
        assert(part_whole(blocks[blocks.len() - 1]));
        law_part_round_trip(blocks.last());
        assert(vals.drop_last() == rest.map_values(|b: BlockV| part_value(b)));
        assert(blocks == rest.push(blocks.last()));
    }
}

/// Visible content survives being written and read.
pub proof fn law_content_round_trip(blocks: Seq<BlockV>)
    requires
        forall|i: int| 0 <= i < blocks.len() ==> part_whole(#[trigger] blocks[i]),
    ensures
        content_of(content_value(blocks)) == blocks,
{
    lemma_parts_round_trip(blocks);
    if blocks.len() == 1 && blocks[0] is Text {
        assert(blocks == seq![blocks[0]]);
    }
}

/// A tool call survives being written and read, where its input reads back from
/// its own text.
pub proof fn law_call_round_trip(id: Seq<char>, name: Seq<char>, input: JsonV)
    requires
        input_whole(input),
    ensures
        call_block(call_value(id, name, input)) == Some(BlockV::ToolUse { id, name, input }),
{
    lemma_openai_words();
}

/// The tool calls among the content.
pub open spec fn tool_uses(blocks: Seq<BlockV>) -> Seq<BlockV>
    decreases blocks.len(),
{
    if blocks.len() == 0 {
        Seq::empty()
    } else if blocks.last() is ToolUse {
        tool_uses(blocks.drop_last()).push(blocks.last())
    } else {
        tool_uses(blocks.drop_last())
    }
}

/// Whether content is of the assistant's form: visible blocks, then tool calls.
pub open spec fn assistant_whole(blocks: Seq<BlockV>) -> bool {
    &&& forall|i: int|
        0 <= i < blocks.len() ==> part_whole(#[trigger] blocks[i]) || (blocks[i] is ToolUse
            && input_whole(blocks[i]->ToolUse_input))
    &&& forall|i: int, j: int|
        0 <= i < j < blocks.len() && (#[trigger] blocks[i]) is ToolUse ==> (
        #[trigger] blocks[j]) is ToolUse
}

proof fn lemma_assistant(blocks: Seq<BlockV>)
    requires
        assistant_whole(blocks),
    ensures
        visible(blocks) + tool_uses(blocks) == blocks,
        calls_of(call_values(blocks)) == tool_uses(blocks),
        forall|i: int| 0 <= i < visible(blocks).len() ==> part_whole(#[trigger] visible(blocks)[i]),
        result_values(blocks) == Seq::<JsonV>::empty(),
        (forall|i: int| 0 <= i < blocks.len() ==> !((#[trigger] blocks[i]) is ToolUse)) ==> tool_uses(
            blocks,
        ).len() == 0 && call_values(blocks).len() == 0,
        forall|report: ReportV, index: nat| #[trigger] error_drops(blocks, index, report) == report,
        forall|report: ReportV| #[trigger] result_drops(blocks, report) == report,
    decreases blocks.len(),
{
    if blocks.len() > 0 {
        let rest = blocks.drop_last();
        let last = blocks.last();
        assert(blocks[blocks.len() - 1] == last);
        assert(assistant_whole(rest)) by {
            assert forall|i: int| 0 <= i < rest.len() implies part_whole(#[trigger] rest[i]) || (
            rest[i] is ToolUse && input_whole(rest[i]->ToolUse_input)) by {
                assert(rest[i] == blocks[i]);
            }
            assert forall|i: int, j: int|
                0 <= i < j < rest.len() && (#[trigger] rest[i]) is ToolUse implies (
            #[trigger] rest[j]) is ToolUse by {
                assert(rest[i] == blocks[i] && rest[j] == blocks[j]);
            }
        }
        lemma_assistant(rest);
        assert(blocks == rest.push(last));
        if last is ToolUse {
            let call = call_value(last->ToolUse_id, last->ToolUse_name, last->ToolUse_input);
            law_call_round_trip(last->ToolUse_id, last->ToolUse_name, last->ToolUse_input);
            assert(call_values(blocks) == call_values(rest).push(call));
            assert(call_values(blocks).drop_last() == call_values(rest));
            assert(visible(blocks) + tool_uses(blocks) == blocks);
        } else {
            assert forall|i: int| 0 <= i < rest.len() implies !((#[trigger] rest[i]) is ToolUse) by {
                if rest[i] is ToolUse {
                    assert(blocks[i] is ToolUse);
                    assert(blocks[blocks.len() - 1] is ToolUse);
                }
            }
            assert(tool_uses(rest).len() == 0);
            assert(visible(rest) == rest) by {
                assert(visible(rest) + tool_uses(rest) == visible(rest));
            }
            assert(visible(blocks) + tool_uses(blocks) == blocks);
        }
        assert forall|i: int| 0 <= i < visible(blocks).len() implies part_whole(
            #[trigger] visible(blocks)[i],
        ) by {
            if i < visible(rest).len() {
                assert(visible(blocks)[i] == visible(rest)[i]);
            }
        }
        assert forall|report: ReportV, index: nat| #[trigger] error_drops(blocks, index, report)
            == report by {
            assert(error_drops(rest, index, report) == report);
        }
        assert forall|report: ReportV| #[trigger] result_drops(blocks, report) == report by {
            assert(result_drops(rest, report) == report);
        }
        if forall|i: int| 0 <= i < blocks.len() ==> !((#[trigger] blocks[i]) is ToolUse) {
            assert forall|i: int| 0 <= i < rest.len() implies !((#[trigger] rest[i]) is ToolUse) by {
                assert(rest[i] == blocks[i]);
            }
        }
    }
}

/// Whether a message survives in the dialect: a user's visible content, an
/// assistant's content with its tool calls at the end, or one tool result that is
/// no error.
pub open spec fn message_whole(m: MessageV) -> bool {
    match m.role {
        Role::System => false,
        Role::Tool => m.content.len() == 1 && (m.content[0] matches BlockV::ToolResult {
            is_error,
            ..
        } && !is_error),
        Role::User => assistant_whole(m.content) && forall|i: int|
            0 <= i < m.content.len() ==> !((#[trigger] m.content[i]) is ToolUse),
        Role::Assistant => assistant_whole(m.content),
    }
}

/// A message that survives is written as one value, which reads as the message;
/// nothing is reported.
pub proof fn law_message_round_trip(m: MessageV, index: nat, report: ReportV)
    requires
        message_whole(m),
    ensures
        sent_message(m, index, report).values.len() == 1,
        sent_message(m, index, report).report == report,
        ({
            let v = sent_message(m, index, report).values[0];
            &&& role_name(v) != "system"@
            &&& role_of(role_name(v)) == m.role
            &&& message_blocks(role_name(v), v) == m.content
        }),
{
    lemma_openai_words();
    let sent = sent_message(m, index, report);
    if m.role == Role::Tool {
        let c = m.content;
        let none = Seq::<BlockV>::empty();
        assert(c.drop_last() == none);
        assert(c.last() == c[0]);
        assert(visible(none) == none);
        assert(visible(c) == none);
        assert(call_values(none) == Seq::<JsonV>::empty());
        assert(call_values(c).len() == 0);
        assert(result_values(none) == Seq::<JsonV>::empty());
        assert(result_values(c).len() == 1);
        assert(error_drops(none, index, report) == report);
        assert(error_drops(c, index, report) == report);
        let v = sent.values[0];
        assert(message_blocks(role_name(v), v) == m.content);
    } else {
        lemma_assistant(m.content);
        law_content_round_trip(visible(m.content));
        let calls = call_values(m.content);
        let v = sent.values[0];
        let role = if calls.len() > 0 {
            "assistant"@
        } else {
            m.role.name()
        };
        assert(v == message_object(role, content_value(visible(m.content)), calls));
        assert(role_name(v) == role);
        if calls.len() == 0 {
            assert(calls_of(calls) == Seq::<BlockV>::empty());
        }
        assert(message_blocks(role_name(v), v) == visible(m.content) + calls_of(calls));
    }
}

proof fn lemma_sent_messages(system: Option<Seq<char>>, messages: Seq<MessageV>, report: ReportV)
    requires
        forall|i: int| 0 <= i < messages.len() ==> message_whole(#[trigger] messages[i]),
    ensures
        ({
            let sent = sent_messages(system, messages, report);
            &&& messages_of(sent.values) == messages
            &&& system_parts(sent.values) == (match system {
                Some(s) => seq![s],
                None => Seq::empty(),
            })
            &&& sent.report == report
        }),
    decreases messages.len(),
{
    let sent = sent_messages(system, messages, report);
    if messages.len() == 0 {
        lemma_openai_words();
        if let Some(s) = system {
            let none = Seq::<JsonV>::empty();
            assert(sent.values.drop_last() == none);
            assert(messages_of(none) == Seq::<MessageV>::empty());
            assert(system_parts(none) == Seq::<Seq<char>>::empty());
            assert(system_parts(sent.values) == seq![s]);
        }
        assert(messages_of(sent.values) == messages);
    } else {
        let rest = messages.drop_last();
        assert forall|i: int| 0 <= i < rest.len() implies message_whole(#[trigger] rest[i]) by {
            assert(rest[i] == messages[i]);
        }
        lemma_sent_messages(system, rest, report);
        let before = sent_messages(system, rest, report);
        let last = messages.last();
        let index = (messages.len() - 1) as nat;
        assert(messages[messages.len() - 1] == last);
        law_message_round_trip(last, index, before.report);
        let v = sent_message(last, index, before.report).values[0];
        assert(sent.values == before.values.push(v));
        assert(sent.values.drop_last() == before.values);
        assert(messages == rest.push(last));
        assert(messages_of(sent.values).last() =~= last);
    }
}

proof fn lemma_tools_round_trip(tools: Seq<ToolV>)
    ensures
        tools_of(tools.map_values(|t: ToolV| tool_value(t)), true) == tools,
    decreases tools.len(),
{
    let vals = tools.map_values(|t: ToolV| tool_value(t));
    if tools.len() > 0 {
        lemma_openai_words();
        lemma_tools_round_trip(tools.drop_last());
        let f = tool_value(tools.last()).get("function"@)->Some_0;
        assert(function_tool(f)->Some_0 =~= tools.last());
        assert(vals.drop_last() == tools.drop_last().map_values(|t: ToolV| tool_value(t)));
        assert(tools == tools.drop_last().push(tools.last()));
    }
}

/// Whether the OpenAI dialect has a place for everything in a request: messages
/// that survive, no `top_k`, only finite numbers, and no extra fields but its own.
pub open spec fn representable(req: RequestV) -> bool {
    &&& forall|i: int| 0 <= i < req.messages.len() ==> message_whole(#[trigger] req.messages[i])
    &&& req.sampling.top_k is None
    &&& req.sampling.temperature matches Some(d) ==> finite_bits(d.bits)
    &&& req.sampling.top_p matches Some(d) ==> finite_bits(d.bits)
    &&& own_extra("openai"@, req.extra, request_fields())
}

proof fn lemma_no_dot()
    ensures
        !"openai"@.contains('.'),
{
    reveal_strlit("openai");
}

proof fn lemma_typed_dom(req: RequestV, messages: Seq<JsonV>)
    ensures
        forall|k: Seq<char>| #[trigger]
            typed_request(req, messages).dom().contains(k) ==> request_fields().contains(k),
{
    let f = request_fields();
    assert(f[0] == "model"@);
    assert(f[1] == "messages"@);
    assert(f[2] == "tools"@);
    assert(f[4] == "tool_choice"@);
    assert(f[6] == "max_completion_tokens"@);
    assert(f[7] == "temperature"@);
    assert(f[8] == "top_p"@);
    assert(f[9] == "stop"@);
    assert(f[10] == "stream"@);
}

/// A request that the dialect has a place for survives being written and read
/// whole, and nothing is reported.
#[verifier::rlimit(80)]
pub proof fn law_request_round_trip(req: RequestV, report: ReportV)
    requires
        representable(req),
    ensures
        request_of(request_value(req, report).0) == Ok::<RequestV, AdapterErrorV>(req),
        request_value(req, report).1 == report,
{
    lemma_sent_messages(req.system, req.messages, report);
    let sent = sent_messages(req.system, req.messages, report);
    let typed = typed_request(req, sent.values);
    lemma_typed_dom(req, sent.values);
    lemma_no_dot();
    lemma_extra_comes_back("openai"@, req.extra, request_fields(), typed);
    let body = typed.union_prefer_right(stripped("openai"@, req.extra));
    assert(request_value(req, report) == (JsonV::Object(body), report));
    let f = request_fields();
    assert(f[0] == "model"@ && f[1] == "messages"@ && f[2] == "tools"@ && f[3] == "functions"@ && f[4]
        == "tool_choice"@ && f[5] == "max_tokens"@ && f[6] == "max_completion_tokens"@ && f[7]
        == "temperature"@ && f[8] == "top_p"@ && f[9] == "stop"@ && f[10] == "stream"@);
    lemma_openai_words();
    let v = JsonV::Object(body);
    let got = request_of(v)->Ok_0;
    assert(v.get("model"@) == Some(JsonV::Str(req.model)));
    assert(v.get("messages"@) == Some(JsonV::Array(sent.values)));
    assert(got.messages == req.messages);
    assert(got.system == req.system) by {
        if let Some(s) = req.system {
            assert(joined(seq![s], "\n"@) == s);
        }
    }
    lemma_tools_round_trip(req.tools);
    assert(v.get("functions"@) is None);
    assert(got.tools == req.tools);
    if let Some(choice) = req.tool_choice {
        law_tool_choice_round_trip(choice);
    }
    assert(got.tool_choice == req.tool_choice);
    lemma_strings_round_trip(req.sampling.stop);
    assert(v.get("max_tokens"@) is None);
    assert(got.sampling =~= req.sampling);
    assert(got.stream == req.stream);
    assert(got.extra == req.extra);
    assert(got =~= req);
}

/// The extra fields with those that every written response has.
pub open spec fn completed_extra(extra: Map<Seq<char>, JsonV>) -> Map<Seq<char>, JsonV> {
    let p = "openai"@;
    put_missing(
        put_missing(
            put_missing(extra, tagged(p, "object"@), JsonV::Str("chat.completion"@)),
            tagged(p, "id"@),
            JsonV::Str("chatcmpl-translated"@),
        ),
        tagged(p, "created"@),
        JsonV::Number(crate::json::Num::PosInt(0)),
    )
}

/// Whether the OpenAI dialect has a place for everything in a response.
pub open spec fn response_representable(resp: ResponseV) -> bool {
    &&& assistant_whole(resp.content)
    &&& !(resp.stop_reason matches Some(StopReasonV::StopSequence))
    &&& resp.stop_reason matches Some(StopReasonV::Other(name)) ==> stop_reason_of(name) is Other
    &&& own_extra("openai"@, resp.extra, response_fields())
}

/// A response that the dialect has a place for survives being written and read,
/// with the fields added that every client expects; where it has those already,
/// it comes back as it was. Nothing is reported.
#[verifier::rlimit(80)]
pub proof fn law_response_round_trip(resp: ResponseV, report: ReportV)
    requires
        response_representable(resp),
    ensures
        response_of(response_value(resp, report).0) == (ResponseV {
            extra: completed_extra(resp.extra),
            ..resp
        }),
        response_value(resp, report).1 == report,
{
    lemma_openai_words();
    let p = "openai"@;
    let f = response_fields();
    assert(f[0] == "model"@ && f[1] == "choices"@ && f[2] == "usage"@);
    let typed = typed_response(resp);
    assert forall|k: Seq<char>| #[trigger] typed.dom().contains(k) implies f.contains(k) by {}
    lemma_no_dot();
    lemma_assistant(resp.content);
    law_content_round_trip(visible(resp.content));
    lemma_extra_comes_back(p, resp.extra, f, typed);
    let m = typed.union_prefer_right(stripped(p, resp.extra));
    assert(emitted(p, resp.extra, typed, report) == (m, report));
    let zero = JsonV::Number(crate::json::Num::PosInt(0));
    let e1 = put_missing(resp.extra, tagged(p, "object"@), JsonV::Str("chat.completion"@));
    let e2 = put_missing(e1, tagged(p, "id"@), JsonV::Str("chatcmpl-translated"@));
    let e3 = put_missing(e2, tagged(p, "created"@), zero);
    assert(!f.contains("object"@));
    assert(!f.contains("id"@));
    assert(!f.contains("created"@));
    lemma_own_put_missing(p, resp.extra, f, "object"@, JsonV::Str("chat.completion"@));
    lemma_own_put_missing(p, e1, f, "id"@, JsonV::Str("chatcmpl-translated"@));
    lemma_own_put_missing(p, e2, f, "created"@, zero);
    lemma_put_missing(p, typed, resp.extra, "object"@, JsonV::Str("chat.completion"@));
    lemma_put_missing(p, typed, e1, "id"@, JsonV::Str("chatcmpl-translated"@));
    lemma_put_missing(p, typed, e2, "created"@, zero);
    let body = typed.union_prefer_right(stripped(p, e3));
    assert(completed_response(m) == body);
    lemma_extra_comes_back(p, e3, f, typed);
    let v = JsonV::Object(body);
    assert(response_value(resp, report) == (v, report));
    let got = response_of(v);
    assert(v.get("model"@) == Some(JsonV::Str(resp.model)));
    let choice = first_choice(v);
    assert(choice == crate::llm::openai::choice_value(resp));
    let calls = call_values(resp.content);
    let message = message_object("assistant"@, content_value(visible(resp.content)), calls);
    assert(choice.get("message"@) == Some(message));
    if calls.len() == 0 {
        assert(calls_of(calls) == Seq::<BlockV>::empty());
    }
    assert(message_blocks("assistant"@, message) == visible(resp.content) + calls_of(calls));
    assert(got.content == resp.content);
    if let Some(reason) = resp.stop_reason {
        law_stop_reason_round_trip(reason);
    }
    assert(got.stop_reason == resp.stop_reason);
    if let Some(u) = resp.usage {
        assert(usage_of(usage_value(u)) == u);
    }
    assert(got.usage == resp.usage);
    assert(got.extra == e3);
    assert(got =~= (ResponseV { extra: completed_extra(resp.extra), ..resp }));
}

/// A tool-role message always names the call that it answers, whatever the
/// source's messages are.
pub proof fn law_tool_messages_name_their_call(m: MessageV, index: nat, report: ReportV)
    ensures
        forall|i: int|
            0 <= i < sent_message(m, index, report).values.len() && role_name(
                #[trigger] sent_message(m, index, report).values[i],
            ) == "tool"@ ==> sent_message(m, index, report).values[i].text_at(
                "tool_call_id"@,
            ) is Some,
{
    lemma_openai_words();
    lemma_results_name_their_call(m.content);
    let sent = sent_message(m, index, report);
    let results = result_values(m.content);
    assert forall|i: int| 0 <= i < sent.values.len() && role_name(#[trigger] sent.values[i])
        == "tool"@ implies sent.values[i].text_at("tool_call_id"@) is Some by {
        if i < results.len() {
            assert(sent.values[i] == results[i]);
        } else {
            let calls = call_values(m.content);
            let v = sent.values[i];
            let role = if calls.len() > 0 {
                "assistant"@
            } else {
                m.role.name()
            };
            assert(v == message_object(role, content_value(visible(m.content)), calls));
            assert(role_name(v) == role);
        }
    }
}

proof fn lemma_results_name_their_call(blocks: Seq<BlockV>)
    ensures
        forall|i: int|
            0 <= i < result_values(blocks).len() ==> (#[trigger] result_values(blocks)[i]).text_at(
                "tool_call_id"@,
            ) is Some,
    decreases blocks.len(),
{
    if blocks.len() > 0 {
        lemma_openai_words();
        let rest = result_values(blocks.drop_last());
        lemma_results_name_their_call(blocks.drop_last());
        assert forall|i: int| 0 <= i < result_values(blocks).len() implies (
        #[trigger] result_values(blocks)[i]).text_at("tool_call_id"@) is Some by {
            if i < rest.len() {
                assert(result_values(blocks)[i] == rest[i]);
            }
        }
    }
}

/// A stream's text, stop reason and token counts survive being written and read:
/// the last chunk of the event reads as the event, at the reader's text block.
pub proof fn law_stream_event_round_trip(
    event: EventV,
    st: RenderStateV,
    report: ReportV,
    reader: ParseStateV,
)
    requires
        match event {
            EventV::ContentBlockDelta { index, text, partial_json } => text is Some
                && partial_json is None && index == reader.text_index().0,
            EventV::MessageDelta { stop_reason: Some(reason), usage: None } => !(
            reason is StopSequence) && (reason matches StopReasonV::Other(name) ==> stop_reason_of(
                name,
            ) is Other),
            EventV::MessageDelta { stop_reason: None, usage: Some(_) } => true,
            _ => false,
        },
    ensures
        ({
            let chunks = streamed(event, st, report).chunks;
            &&& chunks.len() > 0
            &&& chunks.last() is Data
            &&& event_of(chunks.last()->Data_0, reader).0 == Some(event)
        }),
{
    lemma_openai_words();
    let chunks = streamed(event, st, report).chunks;
    let v = chunks.last()->Data_0;
    match event {
        EventV::ContentBlockDelta { index, text, partial_json } => {
            assert(event_of(v, reader).0->Some_0 =~= event);
        },
        EventV::MessageDelta { stop_reason, usage } => {
            if let Some(reason) = stop_reason {
                law_stop_reason_round_trip(reason);
            }
            if let Some(u) = usage {
                assert(usage_of(usage_value(u)) == u);
                assert(v.get("usage"@) == Some(usage_value(u)));
            }
            assert(event_of(v, reader).0->Some_0 =~= event);
        },
        _ => {},
    }
}

/// A tool call survives being streamed: the start that was written opens a block
/// of the same id and name at the reader, and a fragment written for that block
/// reads as a fragment of the reader's block.
pub proof fn law_streamed_call_round_trip(
    index: u64,
    id: Seq<char>,
    name: Seq<char>,
    partial: Seq<char>,
    st: RenderStateV,
    report: ReportV,
    reader: ParseStateV,
)
    requires
        !reader.tool_indices.dom().contains(st.next_tool_slot),
    ensures
        ({
            let start = EventV::ContentBlockStart {
                index,
                block: BlockV::ToolUse { id, name, input: JsonV::Null },
            };
            let s1 = streamed(start, st, report);
            let (e1, r1) = event_of(s1.chunks.last()->Data_0, reader);
            let delta = EventV::ContentBlockDelta {
                index,
                text: None,
                partial_json: Some(partial),
            };
            let s2 = streamed(delta, s1.st, s1.report);
            let (e2, r2) = event_of(s2.chunks.last()->Data_0, r1);
            &&& e1 == Some(
                EventV::ContentBlockStart {
                    index: reader.next_index,
                    block: BlockV::ToolUse { id, name, input: JsonV::Null },
                },
            )
            &&& e2 == Some(
                EventV::ContentBlockDelta {
                    index: reader.next_index,
                    text: None,
                    partial_json: Some(partial),
                },
            )
        }),
{
    lemma_openai_words();
    let start = EventV::ContentBlockStart {
        index,
        block: BlockV::ToolUse { id, name, input: JsonV::Null },
    };
    let s1 = streamed(start, st, report);
    let v1 = s1.chunks.last()->Data_0;
    let (e1, r1) = event_of(v1, reader);
    assert(e1->Some_0 =~= EventV::ContentBlockStart {
        index: reader.next_index,
        block: BlockV::ToolUse { id, name, input: JsonV::Null },
    });
    let delta = EventV::ContentBlockDelta { index, text: None, partial_json: Some(partial) };
    let s2 = streamed(delta, s1.st, s1.report);
    let v2 = s2.chunks.last()->Data_0;
    let (e2, r2) = event_of(v2, r1);
    assert(e2->Some_0 =~= EventV::ContentBlockDelta {
        index: reader.next_index,
        text: None,
        partial_json: Some(partial),
    });
}

/// A tool call that comes whole loses nothing: its start opens a block of the same
/// id and name at the reader, and the one fragment behind it holds its input.
pub proof fn law_whole_call_keeps_its_input(
    index: u64,
    id: Seq<char>,
    name: Seq<char>,
    input: JsonV,
    st: RenderStateV,
    report: ReportV,
    reader: ParseStateV,
)
    requires
        late_input(BlockV::ToolUse { id, name, input }) is Some,
        input_whole(input),
        !reader.tool_indices.dom().contains(st.next_tool_slot),
    ensures
        ({
            let start = EventV::ContentBlockStart {
                index,
                block: BlockV::ToolUse { id, name, input },
            };
            let s = streamed(start, st, report);
            let n = s.chunks.len() as int;
            let (e1, r1) = event_of(s.chunks[n - 2]->Data_0, reader);
            let (e2, r2) = event_of(s.chunks[n - 1]->Data_0, r1);
            &&& n >= 2
            &&& s.report == report
            &&& e1 == Some(
                EventV::ContentBlockStart {
                    index: reader.next_index,
                    block: BlockV::ToolUse { id, name, input: JsonV::Null },
                },
            )
            &&& e2 == Some(
                EventV::ContentBlockDelta {
                    index: reader.next_index,
                    text: None,
                    partial_json: Some(json_text(input)),
                },
            )
            &&& json_read(encode_utf8(json_text(input))) == Ok::<JsonV, Seq<char>>(input)
        }),
{
    lemma_openai_words();
    let start = EventV::ContentBlockStart { index, block: BlockV::ToolUse { id, name, input } };
    let s = streamed(start, st, report);
    let n = s.chunks.len() as int;
    let (e1, r1) = event_of(s.chunks[n - 2]->Data_0, reader);
    assert(e1->Some_0 =~= EventV::ContentBlockStart {
        index: reader.next_index,
        block: BlockV::ToolUse { id, name, input: JsonV::Null },
    });
    let (e2, r2) = event_of(s.chunks[n - 1]->Data_0, r1);
    assert(e2->Some_0 =~= EventV::ContentBlockDelta {
        index: reader.next_index,
        text: None,
        partial_json: Some(json_text(input)),
    });
}

/// The terminal is written at most once in a stream.
pub proof fn law_terminal_comes_once(event: EventV, st: RenderStateV, report: ReportV)
    ensures
        st.terminal_sent ==> streamed(event, st, report).st.terminal_sent,
        event is MessageStop ==> streamed(event, st, report).st.terminal_sent,
        forall|i: int|
            0 <= i < streamed(event, st, report).chunks.len() && (#[trigger] streamed(
                event,
                st,
                report,
            ).chunks[i]) is Done ==> event is MessageStop && !st.terminal_sent,
{
}

/// Text and tool calls come after the chunk with the role, and that chunk comes
/// once unless the source starts the message again.
pub proof fn law_role_comes_first(event: EventV, st: RenderStateV, report: ReportV)
    requires
        match event {
            EventV::ContentBlockDelta { text, .. } => text is Some,
            EventV::ContentBlockStart { block, .. } => block is ToolUse,
            _ => false,
        },
    ensures
        streamed(event, st, report).st.message_started,
        streamed(event, st, report).chunks.len() == (if st.message_started {
            1int
        } else {
            2
        }) + (if event matches EventV::ContentBlockStart { block, .. } && late_input(block) is Some {
            1int
        } else {
            0
        }),
        !st.message_started ==> streamed(event, st, report).chunks[0]
            == crate::llm::openai::role_chunk(st),
{
}

} // verus!
