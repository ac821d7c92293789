//! What holds of the Anthropic dialect as a whole.

use vstd::prelude::*;
use vstd::utf8::encode_utf8;

use crate::json::{
    finite_bits, input_whole, json_read, json_text, opt_double, opt_str, opt_uint, str_values, string_items, JsonV,
};
use crate::llm::adapter::{
    emitted, lemma_extra_comes_back, lemma_own_put_missing, lemma_put_missing, own_extra, put_missing, stripped, tagged,
    AdapterErrorV,
};
use crate::llm::anthropic::{
    block_start_frame, block_value, block_values, blocks_of, completed_response, event_of, input_frame, message_of, message_start_frame, message_value,
    one_block, request_fields, request_of, request_value, response_fields, response_of, response_value,
    split_messages, stop_reason_name, stop_reason_of, stream_block_value, system_text, tool_choice_of,
    tool_choice_value, tool_of, tool_value, tools_of, typed_request, typed_response, usage_of, usage_value,
    written, FrameV, Split,
};
use crate::llm::canonical::{
    late_input, BlockV, EventV, MessageV, RenderStateV, ReportV, RequestV, ResponseV, Role, StopReasonV, ToolChoiceV,
    ToolV,
};
use crate::llm::words::lemma_anthropic_words;

verus! {

/// A stop reason survives being written and read, unless it is another reason's
/// name kept as text.
pub proof fn law_stop_reason_round_trip(reason: StopReasonV)
    requires
        reason matches StopReasonV::Other(name) ==> stop_reason_of(name) is Other,
    ensures
        stop_reason_of(stop_reason_name(reason)) == reason,
{
    lemma_anthropic_words();
}

/// A tool choice survives being written and read.
pub proof fn law_tool_choice_round_trip(choice: ToolChoiceV)
    ensures
        tool_choice_of(tool_choice_value(choice)) == Some(choice),
{
    lemma_anthropic_words();
}

/// A content block survives being written and read.
pub proof fn law_block_round_trip(block: BlockV)
    ensures
        one_block(block_value(block)) == Some(block),
{
    lemma_anthropic_words();
}

proof fn lemma_blocks_round_trip(blocks: Seq<BlockV>)
    ensures
        blocks_of(block_values(blocks)) == blocks,
    decreases blocks.len(),
{
    if blocks.len() > 0 {
        lemma_blocks_round_trip(blocks.drop_last());
        law_block_round_trip(blocks.last());
        assert(block_values(blocks).drop_last() == block_values(blocks.drop_last()));
        assert(blocks == blocks.drop_last().push(blocks.last()));
    }
}

/// A tool definition survives being written and read.
pub proof fn law_tool_round_trip(tool: ToolV)
    ensures
        tool_of(tool_value(tool)) == Some(tool),
{
    lemma_anthropic_words();
    assert(tool_of(tool_value(tool))->Some_0 =~= tool);
}

proof fn lemma_tools_round_trip(tools: Seq<ToolV>)
    ensures
        tools_of(tools.map_values(|t: ToolV| tool_value(t))) == tools,
    decreases tools.len(),
{
    let vals = tools.map_values(|t: ToolV| tool_value(t));
    if tools.len() > 0 {
        lemma_tools_round_trip(tools.drop_last());
        law_tool_round_trip(tools.last());
        assert(vals.drop_last() == tools.drop_last().map_values(|t: ToolV| tool_value(t)));
        assert(tools == tools.drop_last().push(tools.last()));
    }
}

pub proof fn lemma_strings_round_trip(s: Seq<Seq<char>>)
    ensures
        string_items(str_values(s)) == s,
    decreases s.len(),
{
    if s.len() > 0 {
        lemma_strings_round_trip(s.drop_last());
        assert(str_values(s).drop_last() == str_values(s.drop_last()));
        assert(s == s.drop_last().push(s.last()));
    }
}

/// A user's or assistant's message survives being written and read.
pub proof fn law_message_round_trip(m: MessageV)
    requires
        m.role == Role::User || m.role == Role::Assistant,
    ensures
        message_of(message_value(m)) == m,
{
    lemma_anthropic_words();
    lemma_blocks_round_trip(m.content);
    assert(message_of(message_value(m)) =~= m);
}

/// Whether every message is the user's or the assistant's.
pub open spec fn plain_roles(messages: Seq<MessageV>) -> bool {
    forall|i: int|
        0 <= i < messages.len() ==> (#[trigger] messages[i]).role == Role::User
            || messages[i].role == Role::Assistant
}

/// Whether the Anthropic dialect has a place for everything in a request: no
/// message of a role it lacks, only finite numbers, and no extra fields but its
/// own.
pub open spec fn representable(req: RequestV) -> bool {
    &&& plain_roles(req.messages)
    &&& req.sampling.temperature matches Some(d) ==> finite_bits(d.bits)
    &&& req.sampling.top_p matches Some(d) ==> finite_bits(d.bits)
    &&& own_extra("anthropic"@, req.extra, request_fields())
}

proof fn lemma_no_dot()
    ensures
        !"anthropic"@.contains('.'),
{
    reveal_strlit("anthropic");
}

proof fn lemma_split(req: RequestV, messages: Seq<MessageV>, report: ReportV)
    requires
        forall|i: int|
            0 <= i < messages.len() ==> (#[trigger] messages[i]).role == Role::User
                || messages[i].role == Role::Assistant,
    ensures
        split_messages(req.system, messages, report) == (Split {
            parts: match req.system {
                Some(s) => seq![s],
                None => Seq::empty(),
            },
            messages: messages.map_values(|m: MessageV| message_value(m)),
            report,
        }),
    decreases messages.len(),
{
    let vals = messages.map_values(|m: MessageV| message_value(m));
    if messages.len() > 0 {
        let rest = messages.drop_last();
        assert forall|i: int| 0 <= i < rest.len() implies (#[trigger] rest[i]).role == Role::User
            || rest[i].role == Role::Assistant by {
            assert(rest[i] == messages[i]);
        }
        lemma_split(req, rest, report);
        assert(messages[messages.len() - 1] == messages.last());
        assert(vals == rest.map_values(|m: MessageV| message_value(m)).push(
            message_value(messages.last()),
        ));
    } else {
        assert(vals == Seq::<JsonV>::empty());
    }
}

proof fn lemma_typed_dom(req: RequestV, system: Option<Seq<char>>, messages: Seq<JsonV>)
    ensures
        forall|k: Seq<char>| #[trigger]
            typed_request(req, system, messages).dom().contains(k) ==> request_fields().contains(k),
{
    let f = request_fields();
    assert(f[0] == "model"@);
    assert(f[1] == "messages"@);
    assert(f[2] == "system"@);
    assert(f[3] == "tools"@);
    assert(f[4] == "tool_choice"@);
    assert(f[5] == "max_tokens"@);
    assert(f[6] == "temperature"@);
    assert(f[7] == "top_p"@);
    assert(f[8] == "top_k"@);
    assert(f[9] == "stop_sequences"@);
    assert(f[10] == "stream"@);
}

/// Each field of a written request stands where it is looked for.
proof fn lemma_typed_members(req: RequestV, system: Option<Seq<char>>, messages: Seq<JsonV>)
    ensures
        ({
            let v = JsonV::Object(typed_request(req, system, messages));
            &&& v.get("model"@) == Some(JsonV::Str(req.model))
            &&& v.get("messages"@) == Some(JsonV::Array(messages))
            &&& v.get("system"@) == opt_str(system)
            &&& v.get("tools"@) == if req.tools.len() > 0 {
                Some(JsonV::Array(req.tools.map_values(|t: ToolV| tool_value(t))))
            } else {
                None
            }
            &&& v.get("tool_choice"@) == match req.tool_choice {
                Some(choice) => Some(tool_choice_value(choice)),
                None => None,
            }
            &&& v.get("temperature"@) == opt_double(req.sampling.temperature)
            &&& v.get("top_p"@) == opt_double(req.sampling.top_p)
            &&& v.get("top_k"@) == opt_uint(req.sampling.top_k)
            &&& v.get("max_tokens"@) == opt_uint(req.sampling.max_tokens)
            &&& v.get("stop_sequences"@) == if req.sampling.stop.len() > 0 {
                Some(JsonV::Array(str_values(req.sampling.stop)))
            } else {
                None
            }
            &&& v.get("stream"@) == Some(JsonV::Bool(req.stream))
        }),
{
    lemma_anthropic_words();
}

/// A request that the dialect has a place for survives being written and read
/// whole, and nothing is reported.
#[verifier::rlimit(60)]
pub proof fn law_request_round_trip(req: RequestV, report: ReportV)
    requires
        representable(req),
    ensures
        request_of(request_value(req, report).0) == Ok::<RequestV, AdapterErrorV>(
            req,
        ),
        request_value(req, report).1 == report,
{
    lemma_split(req, req.messages, report);
    let split = split_messages(req.system, req.messages, report);
    let system = system_text(split.parts);
    let typed = typed_request(req, system, split.messages);
    assert(system == req.system);
    lemma_typed_dom(req, system, split.messages);
    lemma_no_dot();
    lemma_extra_comes_back("anthropic"@, req.extra, request_fields(), typed);
    let body = typed.union_prefer_right(stripped("anthropic"@, req.extra));
    assert(request_value(req, report) == (JsonV::Object(body), report));
    let f = request_fields();
    assert(f[0] == "model"@ && f[1] == "messages"@ && f[2] == "system"@ && f[3] == "tools"@ && f[4]
        == "tool_choice"@ && f[5] == "max_tokens"@ && f[6] == "temperature"@ && f[7] == "top_p"@ && f[8]
        == "top_k"@ && f[9] == "stop_sequences"@ && f[10] == "stream"@);
    lemma_typed_members(req, system, split.messages);
    let v = JsonV::Object(body);
    assert(forall|k: Seq<char>| f.contains(k) ==> #[trigger] v.get(k) == JsonV::Object(typed).get(k));
    let got = request_of(v)->Ok_0;
    assert(v.get("model"@) == Some(JsonV::Str(req.model)));
    assert(v.get("messages"@) == Some(JsonV::Array(split.messages)));
    assert(got.messages == req.messages) by {
        assert forall|i: int| 0 <= i < req.messages.len() implies message_of(
            #[trigger] split.messages[i],
        ) == req.messages[i] by {
            law_message_round_trip(req.messages[i]);
        }
    }
    assert(got.system == req.system);
    lemma_tools_round_trip(req.tools);
    assert(got.tools == req.tools);
    if let Some(choice) = req.tool_choice {
        law_tool_choice_round_trip(choice);
    }
    assert(got.tool_choice == req.tool_choice);
    lemma_strings_round_trip(req.sampling.stop);
    assert(got.sampling =~= req.sampling);
    assert(got.stream == req.stream);
    assert(got.extra == req.extra);
    assert(got =~= req);
}

/// The extra fields with those that every written response has.
pub open spec fn completed_extra(extra: Map<Seq<char>, JsonV>) -> Map<Seq<char>, JsonV> {
    let p = "anthropic"@;
    put_missing(
        put_missing(
            put_missing(extra, tagged(p, "type"@), JsonV::Str("message"@)),
            tagged(p, "role"@),
            JsonV::Str("assistant"@),
        ),
        tagged(p, "id"@),
        JsonV::Str("msg_translated"@),
    )
}

/// A response survives being written and read, with the fields added that every
/// client expects; where it has those already, it comes back as it was. Nothing
/// is reported.
#[verifier::rlimit(60)]
pub proof fn law_response_round_trip(resp: ResponseV, report: ReportV)
    requires
        resp.stop_reason matches Some(StopReasonV::Other(name)) ==> stop_reason_of(name) is Other,
        own_extra("anthropic"@, resp.extra, response_fields()),
    ensures
        response_of(response_value(resp, report).0) == (ResponseV {
            extra: completed_extra(resp.extra),
            ..resp
        }),
        response_value(resp, report).1 == report,
{
    lemma_anthropic_words();
    let p = "anthropic"@;
    let f = response_fields();
    assert(f[0] == "model"@ && f[1] == "content"@ && f[2] == "stop_reason"@ && f[3] == "usage"@);
    let typed = typed_response(resp);
    assert forall|k: Seq<char>| #[trigger] typed.dom().contains(k) implies f.contains(k) by {}
    lemma_no_dot();
    lemma_extra_comes_back(p, resp.extra, f, typed);
    let m = typed.union_prefer_right(stripped(p, resp.extra));
    assert(emitted(p, resp.extra, typed, report) == (m, report));
    let e1 = put_missing(resp.extra, tagged(p, "type"@), JsonV::Str("message"@));
    let e2 = put_missing(e1, tagged(p, "role"@), JsonV::Str("assistant"@));
    let e3 = put_missing(e2, tagged(p, "id"@), JsonV::Str("msg_translated"@));
    assert(!f.contains("type"@));
    assert(!f.contains("role"@));
    assert(!f.contains("id"@));
    lemma_own_put_missing(p, resp.extra, f, "type"@, JsonV::Str("message"@));
    lemma_own_put_missing(p, e1, f, "role"@, JsonV::Str("assistant"@));
    lemma_own_put_missing(p, e2, f, "id"@, JsonV::Str("msg_translated"@));
    lemma_put_missing(p, typed, resp.extra, "type"@, JsonV::Str("message"@));
    lemma_put_missing(p, typed, e1, "role"@, JsonV::Str("assistant"@));
    lemma_put_missing(p, typed, e2, "id"@, JsonV::Str("msg_translated"@));
    let body = typed.union_prefer_right(stripped(p, e3));
    assert(completed_response(m) == body);
    lemma_extra_comes_back(p, e3, f, typed);
    let v = JsonV::Object(body);
    assert(response_value(resp, report) == (v, report));
    let got = response_of(v);
    assert(v.get("model"@) == Some(JsonV::Str(resp.model)));
    lemma_blocks_round_trip(resp.content);
    assert(v.get("content"@) == Some(JsonV::Array(block_values(resp.content))));
    assert(got.content == resp.content);
    if let Some(reason) = resp.stop_reason {
        law_stop_reason_round_trip(reason);
    }
    assert(got.stop_reason == resp.stop_reason);
    if let Some(u) = resp.usage {
        assert(usage_of(usage_value(u)) == u);
    }
    assert(got.usage == resp.usage);
    assert(got.extra == e3);
    assert(got =~= (ResponseV { extra: completed_extra(resp.extra), ..resp }));
}

/// Whether a stream event is one that Anthropic frames carry whole: no tool
/// result at a block's start, a tool call there with an input that reads back from
/// its own text, one fragment per delta, and no reason kept as text that has a name
/// of its own.
pub open spec fn framed_whole(event: EventV) -> bool {
    match event {
        EventV::ContentBlockStart { index, block } => match block {
            BlockV::ToolResult { .. } => false,
            BlockV::ToolUse { input, .. } => input != JsonV::Null && (late_input(block) is Some
                ==> input_whole(input)),
            _ => true,
        },
        EventV::ContentBlockDelta { index, text, partial_json } => (text is Some) != (
        partial_json is Some),
        EventV::MessageDelta { stop_reason, usage } => stop_reason matches Some(
            StopReasonV::Other(name),
        ) ==> stop_reason_of(name) is Other,
        _ => true,
    }
}

/// A tool call's start with the input that a fragment gives, where the fragment is
/// one of that call's input and holds a document.
pub open spec fn start_filled(start: Option<EventV>, fragment: Option<EventV>) -> Option<EventV> {
    match (start, fragment) {
        (
            Some(EventV::ContentBlockStart { index, block: BlockV::ToolUse { id, name, .. } }),
            Some(EventV::ContentBlockDelta { index: at, text: None, partial_json: Some(partial) }),
        ) if at == index => match json_read(encode_utf8(partial)) {
            Ok(input) => Some(
                EventV::ContentBlockStart { index, block: BlockV::ToolUse { id, name, input } },
            ),
            Err(_) => None,
        },
        _ => None,
    }
}

/// The event that the frames of one step read as together: the last frame's, or
/// the tool call's that the last frame fills.
pub open spec fn frames_event(frames: Seq<FrameV>) -> Option<EventV> {
    let last = event_of(frames.last().data);
    if frames.len() < 2 {
        last
    } else {
        match start_filled(event_of(frames[frames.len() - 2].data), last) {
            Some(event) => Some(event),
            None => last,
        }
    }
}

/// A stream event survives being written and read: its frames together read as the
/// event. Only a second terminal is not written.
pub proof fn law_stream_event_round_trip(event: EventV, st: RenderStateV)
    requires
        framed_whole(event),
        event is MessageStop ==> !st.terminal_sent,
    ensures
        written(event, st).frames.len() > 0,
        frames_event(written(event, st).frames) == Some(event),
{
    lemma_anthropic_words();
    let frames = written(event, st).frames;
    let data = frames.last().data;
    match event {
        EventV::MessageStart { model, role } => {
            assert(event_of(data)->Some_0 =~= event);
        },
        EventV::ContentBlockStart { index, block } => {
            if let BlockV::ToolUse { id, name, input } = block {
                let bare = BlockV::ToolUse { id, name, input: JsonV::Object(Map::empty()) };
                let opening = EventV::ContentBlockStart { index, block: bare };
                let start = block_start_frame(index, block_value(bare));
                law_block_round_trip(bare);
                assert(event_of(start.data)->Some_0 =~= opening);
                if late_input(block) is Some {
                    assert(frames[frames.len() - 2] == start);
                    assert(frames.last() == input_frame(index, json_text(input)));
                    assert(event_of(data)->Some_0 =~= EventV::ContentBlockDelta {
                        index,
                        text: None,
                        partial_json: Some(json_text(input)),
                    });
                } else {
                    assert(frames.last() == start);
                    assert(opening == event);
                }
            } else {
                law_block_round_trip(block);
                assert(stream_block_value(block) == block_value(block));
                assert(event_of(data)->Some_0 =~= event);
            }
        },
        EventV::ContentBlockDelta { index, text, partial_json } => {
            assert(event_of(data)->Some_0 =~= event);
            if frames.len() >= 2 {
                let before = frames[frames.len() - 2];
                let blank = BlockV::Text { text: Seq::empty() };
                if !st.started_blocks.contains(index) {
                    assert(before == block_start_frame(index, block_value(blank)));
                    law_block_round_trip(blank);
                    assert(event_of(before.data)->Some_0 =~= EventV::ContentBlockStart {
                        index,
                        block: blank,
                    });
                } else {
                    assert(before == message_start_frame(st));
                }
            }
        },
        EventV::ContentBlockStop { index } => {
            assert(event_of(data)->Some_0 =~= event);
        },
        EventV::MessageDelta { stop_reason, usage } => {
            if let Some(reason) = stop_reason {
                law_stop_reason_round_trip(reason);
            }
            if let Some(u) = usage {
                assert(usage_of(usage_value(u)) == u);
            }
            assert(event_of(data)->Some_0 =~= event);
        },
        EventV::MessageStop => {
            assert(event_of(data)->Some_0 =~= event);
        },
    }
}

/// The arguments of a tool call never come with its opening: they follow as one
/// fragment, or there are none.
pub proof fn law_calls_open_empty(index: u64, id: Seq<char>, name: Seq<char>, input: JsonV, st: RenderStateV)
    ensures
        ({
            let frames = written(
                EventV::ContentBlockStart { index, block: BlockV::ToolUse { id, name, input } },
                st,
            ).frames;
            let opening = block_start_frame(
                index,
                block_value(BlockV::ToolUse { id, name, input: JsonV::Object(Map::empty()) }),
            );
            if input == JsonV::Null || input == JsonV::Object(Map::empty()) {
                frames.len() > 0 && frames.last() == opening
            } else {
                frames.len() > 1 && frames[frames.len() - 2] == opening && frames.last()
                    == input_frame(index, json_text(input))
            }
        }),
{
}

/// The message opens before anything else is written, once it is open it stays
/// open, and every event but a lone block close opens it.
pub proof fn law_preamble_comes_first(event: EventV, st: RenderStateV)
    requires
        !(event is ContentBlockStop),
        event is MessageStop ==> !st.terminal_sent,
    ensures
        st.message_started ==> written(event, st).st.message_started,
        written(event, st).st.message_started,
        !st.message_started ==> written(event, st).frames.len() > 0 && written(
            event,
            st,
        ).frames[0].event == "message_start"@,
{
}

/// The terminal is written at most once in a stream: after it, no event writes
/// another.
pub proof fn law_terminal_comes_once(event: EventV, st: RenderStateV)
    ensures
        st.terminal_sent ==> written(event, st).st.terminal_sent,
        event is MessageStop ==> written(event, st).st.terminal_sent,
        forall|i: int|
            0 <= i < written(event, st).frames.len() && #[trigger] written(
                event,
                st,
            ).frames[i].event == "message_stop"@ ==> event is MessageStop && !st.terminal_sent,
{
    lemma_anthropic_words();
}

/// The block open after a frame, given the one open before it; none of the two
/// where the frame would open a second block.
pub open spec fn open_after_frame(open: Option<u64>, f: FrameV) -> Option<Option<u64>> {
    match f.data.uint_at("index"@) {
        Some(index) if f.event == "content_block_start"@ => if open is None || open == Some(index) {
            Some(Some(index))
        } else {
            None
        },
        Some(index) if f.event == "content_block_stop"@ => Some(
            if open == Some(index) {
                None
            } else {
                open
            },
        ),
        _ => Some(open),
    }
}

/// The block open after some frames; nothing where two blocks would be open at
/// once.
pub open spec fn open_after(open: Option<u64>, frames: Seq<FrameV>) -> Option<Option<u64>>
    decreases frames.len(),
{
    if frames.len() == 0 {
        Some(open)
    } else {
        match open_after(open, frames.drop_last()) {
            Some(before) => open_after_frame(before, frames.last()),
            None => None,
        }
    }
}

/// At most one block is open at a time, whatever the source sends, and the state
/// knows which.
pub proof fn law_one_block_open(event: EventV, st: RenderStateV)
    ensures
        open_after(st.open_block, written(event, st).frames) == Some(written(event, st).st.open_block),
{
    lemma_anthropic_words();
    reveal_with_fuel(open_after, 6);
    let frames = written(event, st).frames;
    let n = frames.len();
    assert(n <= 4);
    if n > 0 {
        let f1 = frames.drop_last();
        if f1.len() > 0 {
            let f2 = f1.drop_last();
            assert(f1.last() == frames[n - 2]);
            if f2.len() > 0 {
                let f3 = f2.drop_last();
                assert(f2.last() == frames[n - 3]);
                if f3.len() > 0 {
                    assert(f3.last() == frames[n - 4]);
                    assert(f3.drop_last().len() == 0);
                }
            }
        }
    }
}

} // verus!
