//! Which dialect an adapter speaks, and how indices and reports grow.

use vstd::prelude::*;

use crate::json::JsonV;
use crate::llm::adapter::{
    collected_extra, known_provider, Adapter, AnthropicAdapter, GoogleAdapter, OpenAiAdapter, ProviderAdapter,
    StreamOut,
};
use crate::llm::anthropic;
use crate::llm::canonical::{
    late_input, BlockV, DroppedV, EventV, ParseStateV, RenderStateV, ReportV, RequestV, ResponseV, Role,
};
use crate::llm::google;
use crate::llm::openai;
use crate::sse::chunks_text;

verus! {

/// The three adapters speak the dialect of their name.
pub proof fn law_adapters_speak_their_dialect(
    body: Seq<u8>,
    path: Seq<char>,
    data: Seq<char>,
    parse: ParseStateV,
    req: RequestV,
    resp: ResponseV,
    event: EventV,
    render: RenderStateV,
    report: ReportV,
)
    ensures
        ({
            let a = AnthropicAdapter;
            &&& a.name() == "anthropic"@
            &&& a.request_in(body, path) == anthropic::request_read(body)
            &&& a.response_in(body) == anthropic::response_read(body)
            &&& a.delta_in(data) == anthropic::delta_read(data)
            &&& a.event_in(data, parse) == (anthropic::event_read(data), parse)
            &&& a.request_out(req, report) == anthropic::request_value(req, report)
            &&& a.response_out(resp, report) == anthropic::response_value(resp, report)
            &&& a.event_out(event, render, report).text == anthropic::frames_text(
                anthropic::written(event, render).frames,
            )
            &&& a.event_out(event, render, report).st == anthropic::written(event, render).st
            &&& a.event_out(event, render, report).report == report
        }),
        ({
            let a = OpenAiAdapter;
            let s = openai::streamed(event, render, report);
            &&& a.name() == "openai"@
            &&& a.request_in(body, path) == openai::request_read(body)
            &&& a.response_in(body) == openai::response_read(body)
            &&& a.delta_in(data) == openai::delta_read(data)
            &&& a.event_in(data, parse) == openai::event_read(data, parse)
            &&& a.request_out(req, report) == openai::request_value(req, report)
            &&& a.response_out(resp, report) == openai::response_value(resp, report)
            &&& a.event_out(event, render, report) == (StreamOut {
                text: chunks_text(s.chunks),
                st: s.st,
                report: s.report,
            })
        }),
        ({
            let a = GoogleAdapter;
            let s = google::streamed(event, render, report);
            &&& a.name() == "google"@
            &&& a.request_in(body, path) == google::request_read(body, path)
            &&& a.response_in(body) == google::response_read(body)
            &&& a.delta_in(data) == google::delta_read(data)
            &&& a.event_in(data, parse) == google::event_read(data, parse)
            &&& a.request_out(req, report) == google::request_value(req, report)
            &&& a.response_out(resp, report) == google::response_value(resp, report)
            &&& a.event_out(event, render, report) == (StreamOut {
                text: chunks_text(s.chunks),
                st: s.st,
                report: s.report,
            })
        }),
{
}

/// Whether an adapter does all that another does.
pub open spec fn acts_as<A: Adapter, B: Adapter>(
    a: A,
    b: B,
    body: Seq<u8>,
    path: Seq<char>,
    data: Seq<char>,
    parse: ParseStateV,
    req: RequestV,
    resp: ResponseV,
    event: EventV,
    render: RenderStateV,
    report: ReportV,
) -> bool {
    &&& a.name() == b.name()
    &&& a.request_in(body, path) == b.request_in(body, path)
    &&& a.response_in(body) == b.response_in(body)
    &&& a.delta_in(data) == b.delta_in(data)
    &&& a.event_in(data, parse) == b.event_in(data, parse)
    &&& a.request_out(req, report) == b.request_out(req, report)
    &&& a.response_out(resp, report) == b.response_out(resp, report)
    &&& a.event_out(event, render, report) == b.event_out(event, render, report)
}

/// The adapter of a provider does what that provider's own does.
pub proof fn law_providers_keep_their_adapter(
    body: Seq<u8>,
    path: Seq<char>,
    data: Seq<char>,
    parse: ParseStateV,
    req: RequestV,
    resp: ResponseV,
    event: EventV,
    render: RenderStateV,
    report: ReportV,
)
    ensures
        acts_as(
            ProviderAdapter::Anthropic(AnthropicAdapter),
            AnthropicAdapter,
            body,
            path,
            data,
            parse,
            req,
            resp,
            event,
            render,
            report,
        ),
        acts_as(
            ProviderAdapter::OpenAi(OpenAiAdapter),
            OpenAiAdapter,
            body,
            path,
            data,
            parse,
            req,
            resp,
            event,
            render,
            report,
        ),
        acts_as(
            ProviderAdapter::Google(GoogleAdapter),
            GoogleAdapter,
            body,
            path,
            data,
            parse,
            req,
            resp,
            event,
            render,
            report,
        ),
{
}

/// There are three providers.
pub proof fn law_three_providers_are_known(name: Seq<char>)
    ensures
        known_provider(name) <==> name == "anthropic"@ || name == "openai"@ || name == "google"@,
{
}

/// A body that is no table has no extra fields.
pub proof fn law_only_tables_have_extra_fields(v: JsonV, known: Seq<Seq<char>>, provider: Seq<char>)
    requires
        !(v is Object),
    ensures
        collected_extra(v, known, provider) == Map::<Seq<char>, JsonV>::empty(),
{
}

/// Blocks are numbered as they come: the text block has one index for the whole stream,
/// each tool call's slot one of its own, and every new index is one more than the last
/// that was handed out, from nought.
pub proof fn law_blocks_are_numbered(st: ParseStateV, slot: u64)
    ensures
        ({
            let start = ParseStateV::start();
            &&& start.text_block is None && start.next_index == 0 && start.pending.len() == 0
            &&& start.tool_indices.dom() == Set::<u64>::empty()
        }),
        ({
            let (i, next) = st.text_index();
            &&& st.text_block matches Some(known) ==> i == known && next == st
            &&& st.text_block is None ==> {
                &&& i == st.next_index
                &&& next.text_block == Some(i)
                &&& i < u64::MAX ==> next.next_index == i + 1
                &&& next == (ParseStateV { text_block: Some(i), next_index: next.next_index, ..st })
            }
        }),
        ({
            let (i, is_new, next) = st.tool_index(slot);
            &&& is_new <==> !st.tool_indices.dom().contains(slot)
            &&& !is_new ==> i == st.tool_indices[slot] && next == st
            &&& is_new ==> {
                &&& i == st.next_index
                &&& next.tool_indices == st.tool_indices.insert(slot, i)
                &&& i < u64::MAX ==> next.next_index == i + 1
                &&& next.text_block == st.text_block && next.pending == st.pending
            }
        }),
        ({
            let (i, next) = st.fresh_index();
            &&& i == st.next_index
            &&& i < u64::MAX ==> next.next_index == i + 1
            &&& next == (ParseStateV { next_index: next.next_index, ..st })
        }),
{
}

/// Nothing has been written before the first event.
pub proof fn law_streams_start_afresh(st: RenderStateV)
    ensures
        ({
            let s = RenderStateV::start();
            &&& !s.message_started && !s.terminal_sent
            &&& s.model.len() == 0 && s.role is None && s.open_block is None && s.next_tool_slot == 0
            &&& s.started_blocks == Set::<u64>::empty()
            &&& s.tool_render.dom() == Set::<u64>::empty()
        }),
        st.role matches Some(role) ==> st.role_or_assistant() == role,
        st.role is None ==> st.role_or_assistant() == Role::Assistant,
{
}

/// A report grows by one entry or one remark at its end, and starts empty.
pub proof fn law_reports_grow(report: ReportV, path: Seq<char>, reason: Seq<char>)
    ensures
        ReportV::empty().dropped.len() == 0 && ReportV::empty().notes.len() == 0,
        report.dropping(path, reason).dropped == report.dropped.push(DroppedV { path, reason }),
        report.dropping(path, reason).notes == report.notes,
        report.noting(reason).notes == report.notes.push(reason),
        report.noting(reason).dropped == report.dropped,
{
}

/// A block's start brings an input whole exactly where it is a call's, and neither null
/// nor an empty table.
pub proof fn law_whole_inputs_are_told_apart(block: BlockV, input: JsonV)
    ensures
        late_input(block) == Some(input) <==> (block matches BlockV::ToolUse { input: i, .. } && i == input && i
            != JsonV::Null && i != JsonV::Object(Map::empty())),
{
}

} // verus!
