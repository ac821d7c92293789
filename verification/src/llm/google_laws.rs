//! What holds of the Google dialect as a whole.

use vstd::prelude::*;
use vstd::utf8::encode_utf8;

use crate::json::{finite_bits, json_read, json_text, JsonV};
use crate::llm::adapter::{lemma_extra_comes_back, own_extra, stripped};
use crate::llm::anthropic_laws::lemma_strings_round_trip;
use crate::llm::canonical::{
    late_input, BlockV, EventV, MessageV, ParseStateV, RenderStateV, ReportV, RequestV, ResponseV, Role, StopReasonV,
    ToolV,
};
use crate::llm::google::{
    args_value, call_part, chunk_value, config_members, content_path, declaration_value, declared_tool,
    declared_tools, event_of, first_candidate, first_part, instruction_value, message_of, message_value,
    one_part, opt_instruction, or_null, part_report, part_texts, part_value, part_values, parts_of,
    parts_report, path_model, request_fields, request_of, request_value, response_fields, response_of,
    response_value, role_name, role_of, sent_messages, stop_reason_name, stop_reason_of, streamed,
    system_parts, tools_of, tools_value, typed_request, typed_response, usage_of, usage_value, Sent,
    SystemParts,
};
use crate::llm::words::lemma_google_words;
use crate::text::joined;

verus! {

/// A finish reason survives being written and read, unless the dialect lacks it
/// or it is another reason's name kept as text.
pub proof fn law_stop_reason_round_trip(reason: StopReasonV)
    requires
        !(reason is StopSequence),
        !(reason is ToolUse),
        reason matches StopReasonV::Other(name) ==> stop_reason_of(name) is Other,
    ensures
        stop_reason_of(stop_reason_name(reason)) == reason,
{
    lemma_google_words();
}

/// A role survives being written and read; the system's is never written in the
/// contents.
pub proof fn law_role_round_trip(role: Role)
    requires
        role != Role::System,
    ensures
        role_of(role_name(role)) == role,
{
    lemma_google_words();
}

/// The contents of a body never give a message of the system, whatever role they
/// name.
pub proof fn law_contents_hold_no_system(c: JsonV)
    ensures
        message_of(c).role != Role::System,
{
}

/// Whether a tool result's text is the compact text of a document.
pub open spec fn compact_text(content: Seq<char>) -> bool {
    json_read(encode_utf8(content)) matches Ok(v) && json_text(v) == content
}

/// Whether a block survives as a part: a call under its own name, a result that is
/// no error and whose text is a compact document.
pub open spec fn part_whole(b: BlockV) -> bool {
    match b {
        BlockV::ToolUse { id, name, input } => id == name,
        BlockV::ToolResult { id, content, is_error } => !is_error && compact_text(content),
        _ => true,
    }
}

/// A block that survives reads as itself from its part, and nothing is reported.
pub proof fn law_part_round_trip(b: BlockV, path: Seq<char>, report: ReportV)
    requires
        part_whole(b),
    ensures
        one_part(part_value(b)) == Some(b),
        part_report(b, path, report) == report,
{
    lemma_google_words();
}

/// Whether all blocks survive as parts.
pub open spec fn parts_whole(blocks: Seq<BlockV>) -> bool {
    forall|i: int| 0 <= i < blocks.len() ==> part_whole(#[trigger] blocks[i])
}

proof fn lemma_parts_round_trip(blocks: Seq<BlockV>, path: Seq<char>, report: ReportV)
    requires
        parts_whole(blocks),
    ensures
        parts_of(part_values(blocks)) == blocks,
        parts_report(blocks, path, report) == report,
    decreases blocks.len(),
{
    if blocks.len() > 0 {
        let rest = blocks.drop_last();
        assert forall|i: int| 0 <= i < rest.len() implies part_whole(#[trigger] rest[i]) by {
            assert(rest[i] == blocks[i]);
        }
        lemma_parts_round_trip(rest, path, report);
        assert(part_whole(blocks[blocks.len() - 1]));
        law_part_round_trip(blocks.last(), path, report);
        assert(part_values(blocks).drop_last() == part_values(rest));
        assert(blocks == rest.push(blocks.last()));
    }
}

/// Whether a message survives: any role but the system's, and blocks that
/// survive.
pub open spec fn message_whole(m: MessageV) -> bool {
    m.role != Role::System && parts_whole(m.content)
}

/// A message that survives reads as itself from its content entry.
pub proof fn law_message_round_trip(m: MessageV)
    requires
        message_whole(m),
    ensures
        message_of(message_value(m)) == m,
{
    lemma_google_words();
    law_role_round_trip(m.role);
    lemma_parts_round_trip(m.content, Seq::empty(), ReportV::empty());
    assert(message_of(message_value(m)) =~= m);
}

proof fn lemma_sent_messages(messages: Seq<MessageV>, report: ReportV)
    requires
        forall|i: int| 0 <= i < messages.len() ==> message_whole(#[trigger] messages[i]),
    ensures
        sent_messages(messages, report) == (Sent {
            values: messages.map_values(|m: MessageV| message_value(m)),
            report,
        }),
    decreases messages.len(),
{
    let vals = messages.map_values(|m: MessageV| message_value(m));
    if messages.len() > 0 {
        let rest = messages.drop_last();
        assert forall|i: int| 0 <= i < rest.len() implies message_whole(#[trigger] rest[i]) by {
            assert(rest[i] == messages[i]);
        }
        lemma_sent_messages(rest, report);
        assert(messages[messages.len() - 1] == messages.last());
        lemma_parts_round_trip(
            messages.last().content,
            content_path((messages.len() - 1) as nat),
            report,
        );
        assert(vals == rest.map_values(|m: MessageV| message_value(m)).push(
            message_value(messages.last()),
        ));
    } else {
        assert(vals == Seq::<JsonV>::empty());
    }
}

proof fn lemma_system_parts(system: Option<Seq<char>>, messages: Seq<MessageV>, report: ReportV)
    requires
        forall|i: int| 0 <= i < messages.len() ==> message_whole(#[trigger] messages[i]),
    ensures
        system_parts(system, messages, report) == (SystemParts {
            parts: match system {
                Some(s) => seq![s],
                None => Seq::empty(),
            },
            report,
        }),
    decreases messages.len(),
{
    if messages.len() > 0 {
        let rest = messages.drop_last();
        assert forall|i: int| 0 <= i < rest.len() implies message_whole(#[trigger] rest[i]) by {
            assert(rest[i] == messages[i]);
        }
        lemma_system_parts(system, rest, report);
        assert(messages[messages.len() - 1] == messages.last());
    }
}

proof fn lemma_declared(tools: Seq<ToolV>)
    ensures
        declared_tools(tools.map_values(|t: ToolV| declaration_value(t))) == tools,
    decreases tools.len(),
{
    let vals = tools.map_values(|t: ToolV| declaration_value(t));
    if tools.len() > 0 {
        lemma_google_words();
        lemma_declared(tools.drop_last());
        assert(declared_tool(declaration_value(tools.last()))->Some_0 =~= tools.last());
        assert(vals.drop_last() == tools.drop_last().map_values(|t: ToolV| declaration_value(t)));
        assert(tools == tools.drop_last().push(tools.last()));
    }
}

/// Tool definitions survive being written and read.
pub proof fn law_tools_round_trip(tools: Seq<ToolV>)
    ensures
        tools_value(tools) matches JsonV::Array(items) && tools_of(items) == tools,
{
    lemma_google_words();
    lemma_declared(tools);
    let items = tools_value(tools)->Array_0;
    let none = Seq::<JsonV>::empty();
    assert(items.drop_last() == none);
    assert(tools_of(none) == Seq::<ToolV>::empty());
    assert(tools_of(items) == tools);
}

/// Whether the Google dialect has a place for everything in a request: messages
/// that survive, no tool choice, no streaming mark, only finite numbers, and no
/// extra fields but its own.
pub open spec fn representable(req: RequestV) -> bool {
    &&& forall|i: int| 0 <= i < req.messages.len() ==> message_whole(#[trigger] req.messages[i])
    &&& req.tool_choice is None
    &&& !req.stream
    &&& req.sampling.temperature matches Some(d) ==> finite_bits(d.bits)
    &&& req.sampling.top_p matches Some(d) ==> finite_bits(d.bits)
    &&& own_extra("google"@, req.extra, request_fields())
}

proof fn lemma_no_dot()
    ensures
        !"google"@.contains('.'),
{
    reveal_strlit("google");
}

proof fn lemma_config(req: RequestV, v: JsonV)
    requires
        req.sampling.temperature matches Some(d) ==> finite_bits(d.bits),
        req.sampling.top_p matches Some(d) ==> finite_bits(d.bits),
        ({
            let config = config_members(req.sampling);
            or_null(v.get("generationConfig"@)) == (if config == Map::<Seq<char>, JsonV>::empty() {
                JsonV::Null
            } else {
                JsonV::Object(config)
            })
        }),
    ensures
        request_of(v, Seq::empty()).sampling == req.sampling,
{
    lemma_google_words();
    lemma_strings_round_trip(req.sampling.stop);
    let config = config_members(req.sampling);
    let got = request_of(v, Seq::empty()).sampling;
    if config == Map::<Seq<char>, JsonV>::empty() {
        assert(!config.dom().contains("temperature"@));
        assert(!config.dom().contains("topP"@));
        assert(!config.dom().contains("topK"@));
        assert(!config.dom().contains("maxOutputTokens"@));
        assert(!config.dom().contains("stopSequences"@));
        assert(got =~= req.sampling);
    } else {
        assert(got =~= req.sampling);
    }
}

/// A request that the dialect has a place for survives being written and read
/// whole from a path that names no other model, and nothing is reported.
#[verifier::rlimit(80)]
pub proof fn law_request_round_trip(req: RequestV, report: ReportV, path: Seq<char>)
    requires
        representable(req),
        path_model(path) is None || path_model(path) == Some(req.model),
    ensures
        request_of(request_value(req, report).0, path) == req,
        request_value(req, report).1 == report,
{
    lemma_system_parts(req.system, req.messages, report);
    lemma_sent_messages(req.messages, report);
    let gathered = system_parts(req.system, req.messages, report);
    let sent = sent_messages(req.messages, gathered.report);
    let instruction = opt_instruction(gathered.parts);
    let typed = typed_request(req, instruction, sent.values);
    let f = request_fields();
    assert(f[0] == "model"@ && f[1] == "contents"@ && f[2] == "systemInstruction"@ && f[3] == "tools"@
        && f[4] == "generationConfig"@);
    assert forall|k: Seq<char>| #[trigger] typed.dom().contains(k) implies f.contains(k) by {}
    lemma_no_dot();
    lemma_extra_comes_back("google"@, req.extra, f, typed);
    let body = typed.union_prefer_right(stripped("google"@, req.extra));
    let v = JsonV::Object(body);
    assert(request_value(req, report) == (v, report));
    lemma_google_words();
    let got = request_of(v, path);
    assert(v.get("model"@) == Some(JsonV::Str(req.model)));
    assert(got.model == req.model);
    assert(v.get("contents"@) == Some(JsonV::Array(sent.values)));
    assert(got.messages == req.messages) by {
        assert forall|i: int| 0 <= i < req.messages.len() implies message_of(
            #[trigger] sent.values[i],
        ) == req.messages[i] by {
            law_message_round_trip(req.messages[i]);
        }
    }
    assert(v.get("systemInstruction"@) == instruction);
    assert(got.system == req.system) by {
        if let Some(s) = req.system {
            let part = JsonV::Object(map!["text"@ => JsonV::Str(s)]);
            let parts = seq![s].map_values(
                |p: Seq<char>| JsonV::Object(map!["text"@ => JsonV::Str(p)]),
            );
            assert(parts == seq![part]);
            assert(instruction_value(seq![s]).get("parts"@) == Some(JsonV::Array(parts)));
            let none = Seq::<JsonV>::empty();
            assert(parts.drop_last() == none);
            assert(part_texts(none) == Seq::<Seq<char>>::empty());
            assert(part_texts(parts) == seq![s]);
            assert(joined(seq![s], "\n"@) == s);
        }
    }
    law_tools_round_trip(req.tools);
    assert(got.tools == req.tools);
    let config = config_members(req.sampling);
    assert(or_null(v.get("generationConfig"@)) == (if config == Map::<Seq<char>, JsonV>::empty() {
        JsonV::Null
    } else {
        JsonV::Object(config)
    }));
    lemma_config(req, v);
    assert(got.sampling == request_of(v, Seq::empty()).sampling);
    assert(got.extra == req.extra);
    assert(got =~= req);
}

/// Whether the Google dialect has a place for everything in a response.
pub open spec fn response_representable(resp: ResponseV) -> bool {
    &&& parts_whole(resp.content)
    &&& resp.stop_reason matches Some(reason) ==> !(reason is StopSequence) && !(reason is ToolUse)
        && (reason matches StopReasonV::Other(name) ==> stop_reason_of(name) is Other)
    &&& own_extra("google"@, resp.extra, response_fields())
}

/// A response that the dialect has a place for survives being written and read
/// whole, and nothing is reported.
#[verifier::rlimit(80)]
pub proof fn law_response_round_trip(resp: ResponseV, report: ReportV)
    requires
        response_representable(resp),
    ensures
        response_of(response_value(resp, report).0) == resp,
        response_value(resp, report).1 == report,
{
    lemma_google_words();
    lemma_parts_round_trip(resp.content, "content"@, report);
    let typed = typed_response(resp);
    let f = response_fields();
    assert(f[0] == "candidates"@ && f[1] == "usageMetadata"@ && f[2] == "modelVersion"@ && f[3]
        == "model"@);
    assert forall|k: Seq<char>| #[trigger] typed.dom().contains(k) implies f.contains(k) by {}
    lemma_no_dot();
    lemma_extra_comes_back("google"@, resp.extra, f, typed);
    let body = typed.union_prefer_right(stripped("google"@, resp.extra));
    let v = JsonV::Object(body);
    assert(response_value(resp, report) == (v, report));
    let got = response_of(v);
    assert(v.get("modelVersion"@) == Some(JsonV::Str(resp.model)));
    assert(got.content == resp.content);
    if let Some(reason) = resp.stop_reason {
        law_stop_reason_round_trip(reason);
    }
    assert(got.stop_reason == resp.stop_reason);
    if let Some(u) = resp.usage {
        assert(usage_of(usage_value(u)) == u);
    }
    assert(got.usage == resp.usage);
    assert(got.extra == resp.extra);
    assert(got =~= resp);
}

/// Text, whole calls and the end of a message survive being streamed and read: the
/// chunk of the event reads as the event, at the index that the reader gives.
pub proof fn law_stream_event_round_trip(
    event: EventV,
    st: RenderStateV,
    report: ReportV,
    reader: ParseStateV,
)
    requires
        match event {
            EventV::ContentBlockDelta { index, text, partial_json } => text is Some
                && partial_json is None && index == reader.text_index().0,
            EventV::ContentBlockStart { index, block: BlockV::ToolUse { id, name, input } } => id
                == name && late_input(BlockV::ToolUse { id, name, input }) is Some && index
                == reader.next_index,
            EventV::MessageDelta { stop_reason, usage } => (stop_reason is Some || usage is Some)
                && (stop_reason matches Some(reason) ==> !(reason is StopSequence) && !(
            reason is ToolUse) && (reason matches StopReasonV::Other(name) ==> stop_reason_of(
                name,
            ) is Other)),
            _ => false,
        },
    ensures
        ({
            let chunks = streamed(event, st, report).chunks;
            &&& chunks.len() == 1
            &&& chunks[0] is Data
            &&& event_of(chunks[0]->Data_0, reader).0 == Some(event)
        }),
{
    lemma_google_words();
    let v = streamed(event, st, report).chunks[0]->Data_0;
    match event {
        EventV::ContentBlockDelta { index, text, partial_json } => {
            assert(event_of(v, reader).0->Some_0 =~= event);
        },
        EventV::ContentBlockStart { index, block } => {
            assert(event_of(v, reader).0->Some_0 =~= event);
        },
        EventV::MessageDelta { stop_reason, usage } => {
            if let Some(reason) = stop_reason {
                law_stop_reason_round_trip(reason);
            }
            if let Some(u) = usage {
                assert(usage_of(usage_value(u)) == u);
            }
            assert(first_part(first_candidate(v)) is None);
            assert(event_of(v, reader).0->Some_0 =~= event);
        },
        _ => {},
    }
}

/// A call whose arguments come in fragments, whether it starts with null or with an
/// empty input, is written once, when its block stops, with the document that the
/// fragments make up together.
pub proof fn law_fragments_are_joined(
    index: u64,
    id: Seq<char>,
    name: Seq<char>,
    input: JsonV,
    first: Seq<char>,
    second: Seq<char>,
    st: RenderStateV,
    report: ReportV,
)
    requires
        input == JsonV::Null || input == JsonV::Object(Map::empty()),
    ensures
        ({
            let start = EventV::ContentBlockStart {
                index,
                block: BlockV::ToolUse { id, name, input },
            };
            let s1 = streamed(start, st, report);
            let s2 = streamed(
                EventV::ContentBlockDelta { index, text: None, partial_json: Some(first) },
                s1.st,
                s1.report,
            );
            let s3 = streamed(
                EventV::ContentBlockDelta { index, text: None, partial_json: Some(second) },
                s2.st,
                s2.report,
            );
            let s4 = streamed(EventV::ContentBlockStop { index }, s3.st, s3.report);
            let s5 = streamed(EventV::ContentBlockStop { index }, s4.st, s4.report);
            &&& s1.chunks.len() == 0 && s2.chunks.len() == 0 && s3.chunks.len() == 0
            &&& s4.chunks == seq![
                chunk_value(seq![call_part(name, args_value(first + second))], None, None),
            ]
            &&& s5.chunks.len() == 0
        }),
{
    let empty = Seq::<char>::empty();
    assert(empty + first == first);
}

/// A chunk that has both content and the end of the message loses neither: the
/// content comes first, and the end is queued behind it.
pub proof fn law_terminal_chunk_keeps_its_content(v: JsonV, reader: ParseStateV)
    requires
        crate::llm::google::content_event(first_candidate(v), reader).0 is Some,
        crate::llm::google::end_event(v) is Some,
    ensures
        event_of(v, reader).0 == crate::llm::google::content_event(first_candidate(v), reader).0,
        event_of(v, reader).1.pending == reader.pending.push(
            crate::llm::google::end_event(v)->Some_0,
        ),
{
}

} // verus!
