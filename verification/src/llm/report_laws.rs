//! What the translation reports promise: nothing that a dialect cannot carry is
//! lost in silence, and nothing leaves a report again.

use vstd::prelude::*;

use crate::json::JsonV;
use crate::llm::adapter::{emit_keys, emitted, law_foreign_extra_is_reported, split_tag};
use crate::llm::canonical::{BlockV, DroppedV, MessageV, ReportV, RequestV, ResponseV, Role, StopReasonV};
use crate::llm::{anthropic, google, openai};
use crate::text::{decimal, in_order};

verus! {

/// Whether a report begins with all that another holds.
pub open spec fn extends(after: ReportV, before: ReportV) -> bool {
    before.dropped.is_prefix_of(after.dropped) && before.notes.is_prefix_of(after.notes)
}

proof fn lemma_extends_twice(c: ReportV, b: ReportV, a: ReportV)
    requires
        extends(c, b),
        extends(b, a),
    ensures
        extends(c, a),
{
    assert forall|i: int| 0 <= i < a.dropped.len() implies a.dropped[i] == c.dropped[i] by {
        assert(b.dropped[i] == b.dropped.subrange(0, a.dropped.len() as int)[i]);
        assert(c.dropped[i] == c.dropped.subrange(0, b.dropped.len() as int)[i]);
        assert(a.dropped[i] == b.dropped[i]);
    }
    assert forall|i: int| 0 <= i < a.notes.len() implies a.notes[i] == c.notes[i] by {
        assert(b.notes[i] == b.notes.subrange(0, a.notes.len() as int)[i]);
        assert(c.notes[i] == c.notes.subrange(0, b.notes.len() as int)[i]);
        assert(a.notes[i] == b.notes[i]);
    }
    assert(a.dropped == c.dropped.subrange(0, a.dropped.len() as int));
    assert(a.notes == c.notes.subrange(0, a.notes.len() as int));
}

proof fn lemma_entry_extends(report: ReportV, path: Seq<char>, reason: Seq<char>, note: Seq<char>)
    ensures
        extends(report, report),
        extends(report.dropping(path, reason), report),
        extends(report.noting(note), report),
        report.dropping(path, reason).dropped.contains(DroppedV { path, reason }),
        report.noting(note).notes.contains(note),
{
    let more = report.dropping(path, reason);
    assert(report.dropped == more.dropped.subrange(0, report.dropped.len() as int));
    assert(report.notes == more.notes.subrange(0, report.notes.len() as int));
    assert(report.dropped == report.dropped.subrange(0, report.dropped.len() as int));
    assert(report.notes == report.noting(note).notes.subrange(0, report.notes.len() as int));
    assert(more.dropped[report.dropped.len() as int] == DroppedV { path, reason });
    assert(report.noting(note).notes[report.notes.len() as int] == note);
}

/// An entry stays in a report.
pub proof fn law_entries_stay(after: ReportV, before: ReportV, entry: DroppedV)
    requires
        extends(after, before),
        before.dropped.contains(entry),
    ensures
        after.dropped.contains(entry),
{
    let i = choose|i: int| 0 <= i < before.dropped.len() && before.dropped[i] == entry;
    assert(before.dropped[i] == after.dropped.subrange(0, before.dropped.len() as int)[i]);
    assert(after.dropped[i] == entry);
}

/// A remark stays in a report.
pub proof fn law_remarks_stay(after: ReportV, before: ReportV, note: Seq<char>)
    requires
        extends(after, before),
        before.notes.contains(note),
    ensures
        after.notes.contains(note),
{
    let i = choose|i: int| 0 <= i < before.notes.len() && before.notes[i] == note;
    assert(before.notes[i] == after.notes.subrange(0, before.notes.len() as int)[i]);
    assert(after.notes[i] == note);
}

proof fn lemma_keys_extend(
    target: Seq<char>,
    extra: Map<Seq<char>, JsonV>,
    keys: Seq<Seq<char>>,
    out: Map<Seq<char>, JsonV>,
    report: ReportV,
)
    ensures
        extends(emit_keys(target, extra, keys, out, report).1, report),
    decreases keys.len(),
{
    lemma_entry_extends(report, Seq::empty(), Seq::empty(), Seq::empty());
    if keys.len() > 0 {
        lemma_keys_extend(target, extra, keys.drop_last(), out, report);
        let before = emit_keys(target, extra, keys.drop_last(), out, report).1;
        let (src, key) = split_tag(keys.last());
        lemma_entry_extends(
            before,
            "extra."@ + key,
            src + "-specific field not representable in "@ + target,
            crate::llm::adapter::collision_note(key),
        );
        lemma_extends_twice(emit_keys(target, extra, keys, out, report).1, before, report);
    }
}

/// Writing extra fields takes nothing out of a report.
proof fn lemma_emitted_extends(
    target: Seq<char>,
    extra: Map<Seq<char>, JsonV>,
    out: Map<Seq<char>, JsonV>,
    report: ReportV,
)
    ensures
        extends(emitted(target, extra, out, report).1, report),
{
    lemma_keys_extend(target, extra, in_order(extra.dom()), out, report);
}

/// The entry on content other than text in a message of the system, which the
/// Anthropic dialect has no place for.
pub open spec fn anthropic_lost_content(index: nat) -> DroppedV {
    DroppedV {
        path: "messages["@ + decimal(index) + "].content"@,
        reason: "anthropic system prompt is plain text; non-text content in a system-role message has no representation there"@,
    }
}

proof fn lemma_anthropic_system(content: Seq<BlockV>, index: nat, report: ReportV)
    ensures
        extends(anthropic::system_drops(content, index, report), report),
        forall|k: int|
            0 <= k < content.len() && !(#[trigger] content[k] is Text) ==> anthropic::system_drops(
                content,
                index,
                report,
            ).dropped.contains(anthropic_lost_content(index)),
    decreases content.len(),
{
    lemma_entry_extends(report, Seq::empty(), Seq::empty(), Seq::empty());
    if content.len() > 0 {
        lemma_anthropic_system(content.drop_last(), index, report);
        let before = anthropic::system_drops(content.drop_last(), index, report);
        let after = anthropic::system_drops(content, index, report);
        let entry = anthropic_lost_content(index);
        lemma_entry_extends(before, entry.path, entry.reason, Seq::empty());
        lemma_extends_twice(after, before, report);
        assert forall|k: int| 0 <= k < content.len() && !(#[trigger] content[k] is Text)
            implies after.dropped.contains(entry) by {
            if k < content.len() - 1 {
                assert(content.drop_last()[k] == content[k]);
                law_entries_stay(after, before, entry);
            }
        }
    }
}

proof fn lemma_anthropic_messages(system: Option<Seq<char>>, messages: Seq<MessageV>, report: ReportV)
    ensures
        extends(anthropic::split_messages(system, messages, report).report, report),
        forall|i: int, k: int|
            0 <= i < messages.len() && messages[i].role == Role::System && 0 <= k
                < messages[i].content.len() && !(#[trigger] messages[i].content[k] is Text)
                ==> anthropic::split_messages(system, messages, report).report.dropped.contains(
                anthropic_lost_content(i as nat),
            ),
        forall|i: int|
            0 <= i < messages.len() && (#[trigger] messages[i]).role == Role::Tool
                ==> anthropic::split_messages(system, messages, report).report.notes.contains(
                anthropic::tool_role_note(i as nat),
            ),
    decreases messages.len(),
{
    lemma_entry_extends(report, Seq::empty(), Seq::empty(), Seq::empty());
    if messages.len() > 0 {
        lemma_anthropic_messages(system, messages.drop_last(), report);
        let before = anthropic::split_messages(system, messages.drop_last(), report).report;
        let after = anthropic::split_messages(system, messages, report).report;
        let last = (messages.len() - 1) as nat;
        lemma_anthropic_system(messages.last().content, last, before);
        lemma_entry_extends(before, Seq::empty(), Seq::empty(), anthropic::tool_role_note(last));
        lemma_extends_twice(after, before, report);
        assert forall|i: int, k: int|
            0 <= i < messages.len() && messages[i].role == Role::System && 0 <= k
                < messages[i].content.len() && !(#[trigger] messages[i].content[k] is Text)
            implies after.dropped.contains(anthropic_lost_content(i as nat)) by {
            if i < last {
                assert(messages.drop_last()[i].content[k] == messages[i].content[k]);
                law_entries_stay(after, before, anthropic_lost_content(i as nat));
            } else {
                assert(messages.last().content[k] == messages[i].content[k]);
            }
        }
        assert forall|i: int| 0 <= i < messages.len() && (#[trigger] messages[i]).role == Role::Tool
            implies after.notes.contains(anthropic::tool_role_note(i as nat)) by {
            if i < last {
                assert(messages.drop_last()[i] == messages[i]);
                law_remarks_stay(after, before, anthropic::tool_role_note(i as nat));
            }
        }
    }
}

/// The Anthropic dialect takes only text from messages of the system and has no
/// role for tools: where a request has other content or that role, the report says
/// so.
pub proof fn law_anthropic_losses_are_reported(req: RequestV, report: ReportV)
    ensures
        forall|i: int, k: int|
            0 <= i < req.messages.len() && req.messages[i].role == Role::System && 0 <= k
                < req.messages[i].content.len() && !(#[trigger] req.messages[i].content[k] is Text)
                ==> anthropic::request_value(req, report).1.dropped.contains(
                anthropic_lost_content(i as nat),
            ),
        forall|i: int|
            0 <= i < req.messages.len() && (#[trigger] req.messages[i]).role == Role::Tool
                ==> anthropic::request_value(req, report).1.notes.contains(
                anthropic::tool_role_note(i as nat),
            ),
{
    lemma_anthropic_messages(req.system, req.messages, report);
    let split = anthropic::split_messages(req.system, req.messages, report);
    let typed = anthropic::typed_request(req, anthropic::system_text(split.parts), split.messages);
    let after = anthropic::request_value(req, report).1;
    lemma_emitted_extends("anthropic"@, req.extra, typed, split.report);
    assert forall|i: int, k: int|
        0 <= i < req.messages.len() && req.messages[i].role == Role::System && 0 <= k
            < req.messages[i].content.len() && !(#[trigger] req.messages[i].content[k] is Text)
        implies after.dropped.contains(anthropic_lost_content(i as nat)) by {
        law_entries_stay(after, split.report, anthropic_lost_content(i as nat));
    }
    assert forall|i: int|
        0 <= i < req.messages.len() && (#[trigger] req.messages[i]).role == Role::Tool
        implies after.notes.contains(anthropic::tool_role_note(i as nat)) by {
        law_remarks_stay(after, split.report, anthropic::tool_role_note(i as nat));
    }
}

/// Writing in the Anthropic dialect takes nothing out of a report.
pub proof fn law_anthropic_report_only_grows(req: RequestV, resp: ResponseV, report: ReportV)
    ensures
        extends(anthropic::request_value(req, report).1, report),
        extends(anthropic::response_value(resp, report).1, report),
{
    lemma_anthropic_messages(req.system, req.messages, report);
    let split = anthropic::split_messages(req.system, req.messages, report);
    let typed = anthropic::typed_request(req, anthropic::system_text(split.parts), split.messages);
    lemma_emitted_extends("anthropic"@, req.extra, typed, split.report);
    lemma_extends_twice(anthropic::request_value(req, report).1, split.report, report);
    lemma_emitted_extends("anthropic"@, resp.extra, anthropic::typed_response(resp), report);
}

proof fn lemma_openai_errors(blocks: Seq<BlockV>, index: nat, report: ReportV)
    ensures
        extends(openai::error_drops(blocks, index, report), report),
        forall|k: int|
            0 <= k < blocks.len() && (#[trigger] blocks[k] matches BlockV::ToolResult {
                is_error: true,
                ..
            }) ==> openai::error_drops(blocks, index, report).dropped.contains(failed_result(index)),
    decreases blocks.len(),
{
    lemma_entry_extends(report, Seq::empty(), Seq::empty(), Seq::empty());
    if blocks.len() > 0 {
        lemma_openai_errors(blocks.drop_last(), index, report);
        let before = openai::error_drops(blocks.drop_last(), index, report);
        let after = openai::error_drops(blocks, index, report);
        lemma_entry_extends(before, failed_result(index).path, failed_result(index).reason, Seq::empty());
        lemma_extends_twice(after, before, report);
        assert forall|k: int|
            0 <= k < blocks.len() && (#[trigger] blocks[k] matches BlockV::ToolResult {
                is_error: true,
                ..
            }) implies after.dropped.contains(failed_result(index)) by {
            if k < blocks.len() - 1 {
                assert(blocks.drop_last()[k] == blocks[k]);
                law_entries_stay(after, before, failed_result(index));
            }
        }
    }
}

/// The entry on a failed tool result in a message, which the OpenAI dialect has no
/// mark for.
pub open spec fn failed_result(index: nat) -> DroppedV {
    DroppedV {
        path: "messages["@ + decimal(index) + "].content.tool_result.is_error"@,
        reason: "openai tool-role message has no is_error field"@,
    }
}

/// Whether a tool's message is left with nothing that answers a call.
pub open spec fn orphaned(m: MessageV) -> bool {
    &&& m.role == Role::Tool
    &&& openai::call_values(m.content).len() == 0
    &&& openai::visible(m.content).len() > 0 || openai::result_values(m.content).len() == 0
}

/// Whether a message makes calls without being the assistant's.
pub open spec fn misattributed(m: MessageV) -> bool {
    m.role != Role::Assistant && openai::call_values(m.content).len() > 0
}

/// The entry on a tool's message that answers no call, which the OpenAI dialect has
/// no place for.
pub open spec fn lost_message(index: nat) -> DroppedV {
    DroppedV {
        path: "messages["@ + decimal(index) + "]"@,
        reason: "openai tool-role message has no tool_call_id to pair with non-tool_result content; message dropped"@,
    }
}

proof fn lemma_openai_message(m: MessageV, index: nat, report: ReportV)
    ensures
        extends(openai::sent_message(m, index, report).report, openai::error_drops(m.content, index, report)),
        extends(openai::sent_message(m, index, report).report, report),
        orphaned(m) ==> openai::sent_message(m, index, report).report.dropped.contains(
            lost_message(index),
        ),
        misattributed(m) ==> openai::sent_message(m, index, report).report.notes.contains(
            openai::forced_role_note(index, m.role),
        ),
{
    let read = openai::error_drops(m.content, index, report);
    lemma_openai_errors(m.content, index, report);
    lemma_entry_extends(
        read,
        lost_message(index).path,
        lost_message(index).reason,
        openai::forced_role_note(index, m.role),
    );
    lemma_extends_twice(openai::sent_message(m, index, report).report, read, report);
}

proof fn lemma_openai_messages(system: Option<Seq<char>>, messages: Seq<MessageV>, report: ReportV)
    ensures
        extends(openai::sent_messages(system, messages, report).report, report),
        forall|i: int, k: int|
            0 <= i < messages.len() && 0 <= k < messages[i].content.len() && (
            #[trigger] messages[i].content[k] matches BlockV::ToolResult { is_error: true, .. })
                ==> openai::sent_messages(system, messages, report).report.dropped.contains(
                failed_result(i as nat),
            ),
        forall|i: int|
            0 <= i < messages.len() && orphaned(#[trigger] messages[i]) ==> openai::sent_messages(
                system,
                messages,
                report,
            ).report.dropped.contains(lost_message(i as nat)),
        forall|i: int|
            0 <= i < messages.len() && misattributed(#[trigger] messages[i]) ==> openai::sent_messages(
                system,
                messages,
                report,
            ).report.notes.contains(openai::forced_role_note(i as nat, messages[i].role)),
    decreases messages.len(),
{
    lemma_entry_extends(report, Seq::empty(), Seq::empty(), Seq::empty());
    if messages.len() > 0 {
        lemma_openai_messages(system, messages.drop_last(), report);
        let before = openai::sent_messages(system, messages.drop_last(), report).report;
        let after = openai::sent_messages(system, messages, report).report;
        let last = (messages.len() - 1) as nat;
        lemma_openai_message(messages.last(), last, before);
        lemma_openai_errors(messages.last().content, last, before);
        lemma_extends_twice(after, before, report);
        assert forall|i: int, k: int|
            0 <= i < messages.len() && 0 <= k < messages[i].content.len() && (
            #[trigger] messages[i].content[k] matches BlockV::ToolResult { is_error: true, .. })
            implies after.dropped.contains(failed_result(i as nat)) by {
            if i < last {
                assert(messages.drop_last()[i].content[k] == messages[i].content[k]);
                law_entries_stay(after, before, failed_result(i as nat));
            } else {
                assert(messages.last().content[k] == messages[i].content[k]);
                law_entries_stay(
                    after,
                    openai::error_drops(messages.last().content, last, before),
                    failed_result(last),
                );
            }
        }
        assert forall|i: int| 0 <= i < messages.len() && orphaned(#[trigger] messages[i])
            implies after.dropped.contains(lost_message(i as nat)) by {
            if i < last {
                assert(messages.drop_last()[i] == messages[i]);
                law_entries_stay(after, before, lost_message(i as nat));
            }
        }
        assert forall|i: int| 0 <= i < messages.len() && misattributed(#[trigger] messages[i])
            implies after.notes.contains(openai::forced_role_note(i as nat, messages[i].role)) by {
            if i < last {
                assert(messages.drop_last()[i] == messages[i]);
                law_remarks_stay(
                    after,
                    before,
                    openai::forced_role_note(i as nat, messages[i].role),
                );
            }
        }
    }
}

/// The entry on a tool result in a response, which the OpenAI dialect has no place
/// for.
pub open spec fn lost_result() -> DroppedV {
    DroppedV {
        path: "content"@,
        reason: "openai response message cannot carry a tool_result content block"@,
    }
}

proof fn lemma_openai_results(blocks: Seq<BlockV>, report: ReportV)
    ensures
        extends(openai::result_drops(blocks, report), report),
        forall|k: int|
            0 <= k < blocks.len() && #[trigger] blocks[k] is ToolResult ==> openai::result_drops(
                blocks,
                report,
            ).dropped.contains(lost_result()),
    decreases blocks.len(),
{
    lemma_entry_extends(report, Seq::empty(), Seq::empty(), Seq::empty());
    if blocks.len() > 0 {
        lemma_openai_results(blocks.drop_last(), report);
        let before = openai::result_drops(blocks.drop_last(), report);
        let after = openai::result_drops(blocks, report);
        lemma_entry_extends(before, lost_result().path, lost_result().reason, Seq::empty());
        lemma_extends_twice(after, before, report);
        assert forall|k: int| 0 <= k < blocks.len() && #[trigger] blocks[k] is ToolResult
            implies after.dropped.contains(lost_result()) by {
            if k < blocks.len() - 1 {
                assert(blocks.drop_last()[k] == blocks[k]);
                law_entries_stay(after, before, lost_result());
            }
        }
    }
}

/// Writing in the OpenAI dialect takes nothing out of a report.
pub proof fn law_openai_report_only_grows(req: RequestV, resp: ResponseV, report: ReportV)
    ensures
        extends(openai::request_value(req, report).1, report),
        extends(openai::response_value(resp, report).1, report),
{
    lemma_openai_messages(req.system, req.messages, report);
    let sent = openai::sent_messages(req.system, req.messages, report);
    let sampled = openai::sampling_report(req, sent.report);
    lemma_entry_extends(sent.report, "sampling.top_k"@, "openai has no top_k"@, Seq::empty());
    lemma_extends_twice(sampled, sent.report, report);
    lemma_emitted_extends("openai"@, req.extra, openai::typed_request(req, sent.values), sampled);
    lemma_extends_twice(openai::request_value(req, report).1, sampled, report);
    lemma_openai_results(resp.content, report);
    let dropped = openai::result_drops(resp.content, report);
    let noted = match resp.stop_reason {
        Some(reason) => openai::stop_reason_report(reason, dropped),
        None => dropped,
    };
    lemma_entry_extends(
        dropped,
        Seq::empty(),
        Seq::empty(),
        "stop_reason: StopSequence has no distinct OpenAI finish_reason, mapped to \"stop\""@,
    );
    lemma_extends_twice(noted, dropped, report);
    lemma_emitted_extends("openai"@, resp.extra, openai::typed_response(resp), noted);
    lemma_extends_twice(openai::response_value(resp, report).1, noted, report);
}

/// The OpenAI dialect has no `top_k`, no mark for a failed tool result, no tool's
/// message without a call that it answers, and calls only in messages of the
/// assistant: where a request has anything else, the report says so.
pub proof fn law_openai_losses_are_reported(req: RequestV, report: ReportV)
    ensures
        req.sampling.top_k is Some ==> openai::request_value(req, report).1.dropped.contains(
            DroppedV { path: "sampling.top_k"@, reason: "openai has no top_k"@ },
        ),
        forall|i: int, k: int|
            0 <= i < req.messages.len() && 0 <= k < req.messages[i].content.len() && (
            #[trigger] req.messages[i].content[k] matches BlockV::ToolResult { is_error: true, .. })
                ==> openai::request_value(req, report).1.dropped.contains(failed_result(i as nat)),
        forall|i: int|
            0 <= i < req.messages.len() && orphaned(#[trigger] req.messages[i])
                ==> openai::request_value(req, report).1.dropped.contains(lost_message(i as nat)),
        forall|i: int|
            0 <= i < req.messages.len() && misattributed(#[trigger] req.messages[i])
                ==> openai::request_value(req, report).1.notes.contains(
                openai::forced_role_note(i as nat, req.messages[i].role),
            ),
{
    lemma_openai_messages(req.system, req.messages, report);
    let sent = openai::sent_messages(req.system, req.messages, report);
    let sampled = openai::sampling_report(req, sent.report);
    let after = openai::request_value(req, report).1;
    lemma_entry_extends(sent.report, "sampling.top_k"@, "openai has no top_k"@, Seq::empty());
    lemma_emitted_extends("openai"@, req.extra, openai::typed_request(req, sent.values), sampled);
    if req.sampling.top_k is Some {
        law_entries_stay(
            after,
            sampled,
            DroppedV { path: "sampling.top_k"@, reason: "openai has no top_k"@ },
        );
    }
    assert forall|i: int, k: int|
        0 <= i < req.messages.len() && 0 <= k < req.messages[i].content.len() && (
        #[trigger] req.messages[i].content[k] matches BlockV::ToolResult { is_error: true, .. })
        implies after.dropped.contains(failed_result(i as nat)) by {
        law_entries_stay(sampled, sent.report, failed_result(i as nat));
        law_entries_stay(after, sampled, failed_result(i as nat));
    }
    assert forall|i: int| 0 <= i < req.messages.len() && orphaned(#[trigger] req.messages[i])
        implies after.dropped.contains(lost_message(i as nat)) by {
        law_entries_stay(sampled, sent.report, lost_message(i as nat));
        law_entries_stay(after, sampled, lost_message(i as nat));
    }
    assert forall|i: int| 0 <= i < req.messages.len() && misattributed(#[trigger] req.messages[i])
        implies after.notes.contains(openai::forced_role_note(i as nat, req.messages[i].role)) by {
        let note = openai::forced_role_note(i as nat, req.messages[i].role);
        law_remarks_stay(sampled, sent.report, note);
        law_remarks_stay(after, sampled, note);
    }
}

/// An OpenAI response carries no tool result and has no finish reason of its own for
/// a stop sequence: where a response has one, the report says so.
pub proof fn law_openai_response_losses_are_reported(resp: ResponseV, report: ReportV)
    ensures
        forall|k: int|
            0 <= k < resp.content.len() && #[trigger] resp.content[k] is ToolResult
                ==> openai::response_value(resp, report).1.dropped.contains(lost_result()),
        resp.stop_reason == Some(StopReasonV::StopSequence) ==> openai::response_value(
            resp,
            report,
        ).1.notes.contains(
            "stop_reason: StopSequence has no distinct OpenAI finish_reason, mapped to \"stop\""@,
        ),
{
    lemma_openai_results(resp.content, report);
    let dropped = openai::result_drops(resp.content, report);
    let noted = match resp.stop_reason {
        Some(reason) => openai::stop_reason_report(reason, dropped),
        None => dropped,
    };
    let note =
        "stop_reason: StopSequence has no distinct OpenAI finish_reason, mapped to \"stop\""@;
    lemma_entry_extends(dropped, Seq::empty(), Seq::empty(), note);
    let after = openai::response_value(resp, report).1;
    lemma_emitted_extends("openai"@, resp.extra, openai::typed_response(resp), noted);
    assert forall|k: int| 0 <= k < resp.content.len() && #[trigger] resp.content[k] is ToolResult
        implies after.dropped.contains(lost_result()) by {
        law_entries_stay(noted, dropped, lost_result());
        law_entries_stay(after, noted, lost_result());
    }
    if resp.stop_reason == Some(StopReasonV::StopSequence) {
        law_remarks_stay(after, noted, note);
    }
}

/// The entry on a tool call at a path whose id is not its name, which the Google
/// dialect has no place for.
pub open spec fn lost_id(path: Seq<char>) -> DroppedV {
    DroppedV {
        path: path + ".tool_use.id"@,
        reason: "google functionCall has no separate id field; only name is preserved"@,
    }
}

/// The entry on a failed tool result at a path, which the Google dialect has no mark
/// for.
pub open spec fn lost_failure(path: Seq<char>) -> DroppedV {
    DroppedV {
        path: path + ".tool_result.is_error"@,
        reason: "google functionResponse has no is_error field"@,
    }
}

/// What the Google dialect loses of a block at a path, if anything.
pub open spec fn google_loss(b: BlockV, path: Seq<char>) -> Option<DroppedV> {
    match b {
        BlockV::ToolUse { id, name, .. } => if id != name {
            Some(lost_id(path))
        } else {
            None
        },
        BlockV::ToolResult { is_error, .. } => if is_error {
            Some(lost_failure(path))
        } else {
            None
        },
        _ => None,
    }
}

proof fn lemma_google_part(b: BlockV, path: Seq<char>, report: ReportV)
    ensures
        extends(google::part_report(b, path, report), report),
        google_loss(b, path) matches Some(entry) ==> google::part_report(
            b,
            path,
            report,
        ).dropped.contains(entry),
{
    let note = path
        + ".tool_result.content: not a JSON object, wrapped as {\"result\": ...} for google functionResponse"@;
    lemma_entry_extends(report, lost_id(path).path, lost_id(path).reason, note);
    lemma_entry_extends(report, lost_failure(path).path, lost_failure(path).reason, note);
    let failed = report.dropping(lost_failure(path).path, lost_failure(path).reason);
    lemma_entry_extends(failed, Seq::empty(), Seq::empty(), note);
    lemma_extends_twice(failed.noting(note), failed, report);
    law_entries_stay(failed.noting(note), failed, lost_failure(path));
}

proof fn lemma_google_parts(blocks: Seq<BlockV>, path: Seq<char>, report: ReportV)
    ensures
        extends(google::parts_report(blocks, path, report), report),
        forall|k: int|
            0 <= k < blocks.len() ==> (google_loss(#[trigger] blocks[k], path) matches Some(entry)
                ==> google::parts_report(blocks, path, report).dropped.contains(entry)),
    decreases blocks.len(),
{
    lemma_entry_extends(report, Seq::empty(), Seq::empty(), Seq::empty());
    if blocks.len() > 0 {
        lemma_google_parts(blocks.drop_last(), path, report);
        let before = google::parts_report(blocks.drop_last(), path, report);
        let after = google::parts_report(blocks, path, report);
        lemma_google_part(blocks.last(), path, before);
        lemma_extends_twice(after, before, report);
        assert forall|k: int| 0 <= k < blocks.len() implies (google_loss(
            #[trigger] blocks[k],
            path,
        ) matches Some(entry) ==> after.dropped.contains(entry)) by {
            if k < blocks.len() - 1 {
                assert(blocks.drop_last()[k] == blocks[k]);
                if let Some(entry) = google_loss(blocks[k], path) {
                    law_entries_stay(after, before, entry);
                }
            }
        }
    }
}

/// The entry on content other than text in a message of the system, which the
/// Google dialect has no place for.
pub open spec fn google_lost_content(index: nat) -> DroppedV {
    DroppedV {
        path: google::content_path(index),
        reason: "google systemInstruction is text-only; non-text content in a system-role message has no representation there"@,
    }
}

proof fn lemma_google_system(content: Seq<BlockV>, index: nat, report: ReportV)
    ensures
        extends(google::system_drops(content, index, report), report),
        forall|k: int|
            0 <= k < content.len() && !(#[trigger] content[k] is Text) ==> google::system_drops(
                content,
                index,
                report,
            ).dropped.contains(google_lost_content(index)),
    decreases content.len(),
{
    lemma_entry_extends(report, Seq::empty(), Seq::empty(), Seq::empty());
    if content.len() > 0 {
        lemma_google_system(content.drop_last(), index, report);
        let before = google::system_drops(content.drop_last(), index, report);
        let after = google::system_drops(content, index, report);
        let entry = google_lost_content(index);
        lemma_entry_extends(before, entry.path, entry.reason, Seq::empty());
        lemma_extends_twice(after, before, report);
        assert forall|k: int| 0 <= k < content.len() && !(#[trigger] content[k] is Text)
            implies after.dropped.contains(entry) by {
            if k < content.len() - 1 {
                assert(content.drop_last()[k] == content[k]);
                law_entries_stay(after, before, entry);
            }
        }
    }
}

proof fn lemma_google_gathered(system: Option<Seq<char>>, messages: Seq<MessageV>, report: ReportV)
    ensures
        extends(google::system_parts(system, messages, report).report, report),
        forall|i: int, k: int|
            0 <= i < messages.len() && messages[i].role == Role::System && 0 <= k
                < messages[i].content.len() && !(#[trigger] messages[i].content[k] is Text)
                ==> google::system_parts(system, messages, report).report.dropped.contains(
                google_lost_content(i as nat),
            ),
    decreases messages.len(),
{
    lemma_entry_extends(report, Seq::empty(), Seq::empty(), Seq::empty());
    if messages.len() > 0 {
        lemma_google_gathered(system, messages.drop_last(), report);
        let before = google::system_parts(system, messages.drop_last(), report).report;
        let after = google::system_parts(system, messages, report).report;
        let last = (messages.len() - 1) as nat;
        lemma_entry_extends(before, Seq::empty(), Seq::empty(), Seq::empty());
        lemma_google_system(messages.last().content, last, before);
        lemma_extends_twice(after, before, report);
        assert forall|i: int, k: int|
            0 <= i < messages.len() && messages[i].role == Role::System && 0 <= k
                < messages[i].content.len() && !(#[trigger] messages[i].content[k] is Text)
            implies after.dropped.contains(google_lost_content(i as nat)) by {
            if i < last {
                assert(messages.drop_last()[i].content[k] == messages[i].content[k]);
                law_entries_stay(after, before, google_lost_content(i as nat));
            } else {
                assert(messages.last().content[k] == messages[i].content[k]);
            }
        }
    }
}

proof fn lemma_google_messages(messages: Seq<MessageV>, report: ReportV)
    ensures
        extends(google::sent_messages(messages, report).report, report),
        forall|i: int, k: int|
            0 <= i < messages.len() && messages[i].role != Role::System && 0 <= k < messages[i].content.len()
                ==> (google_loss(#[trigger] messages[i].content[k], google::content_path(i as nat)) matches Some(
                entry,
            ) ==> google::sent_messages(messages, report).report.dropped.contains(entry)),
    decreases messages.len(),
{
    lemma_entry_extends(report, Seq::empty(), Seq::empty(), Seq::empty());
    if messages.len() > 0 {
        lemma_google_messages(messages.drop_last(), report);
        let before = google::sent_messages(messages.drop_last(), report).report;
        let after = google::sent_messages(messages, report).report;
        let last = (messages.len() - 1) as nat;
        lemma_google_parts(messages.last().content, google::content_path(last), before);
        lemma_extends_twice(after, before, report);
        assert forall|i: int, k: int|
            0 <= i < messages.len() && messages[i].role != Role::System && 0 <= k < messages[i].content.len()
            implies (google_loss(
            #[trigger] messages[i].content[k],
            google::content_path(i as nat),
        ) matches Some(entry) ==> after.dropped.contains(entry)) by {
            if i < last {
                assert(messages.drop_last()[i].content[k] == messages[i].content[k]);
                if let Some(entry) = google_loss(messages[i].content[k], google::content_path(i as nat)) {
                    law_entries_stay(after, before, entry);
                }
            } else {
                assert(messages.last().content[k] == messages[i].content[k]);
            }
        }
    }
}

/// The entry on a request's tool choice.
pub open spec fn lost_choice() -> DroppedV {
    DroppedV {
        path: "tool_choice"@,
        reason: "google adapter does not model tool_choice/toolConfig yet"@,
    }
}

/// The entry on a request's wish for a stream.
pub open spec fn lost_stream() -> DroppedV {
    DroppedV {
        path: "stream"@,
        reason: "google signals streaming via URL path segment, not body; render_request has no ctx to select streamGenerateContent"@,
    }
}

/// The Google dialect has no tool choice, no switch for streams, no ids of tool
/// calls, no mark for a failed tool result and nothing but text from the system:
/// where a request has one, the report says so.
pub proof fn law_google_losses_are_reported(req: RequestV, report: ReportV)
    ensures
        req.tool_choice is Some ==> google::request_value(req, report).1.dropped.contains(lost_choice()),
        req.stream ==> google::request_value(req, report).1.dropped.contains(lost_stream()),
        forall|i: int, k: int|
            0 <= i < req.messages.len() && req.messages[i].role != Role::System && 0 <= k
                < req.messages[i].content.len() ==> (google_loss(
                #[trigger] req.messages[i].content[k],
                google::content_path(i as nat),
            ) matches Some(entry) ==> google::request_value(req, report).1.dropped.contains(entry)),
        forall|i: int, k: int|
            0 <= i < req.messages.len() && req.messages[i].role == Role::System && 0 <= k
                < req.messages[i].content.len() && !(#[trigger] req.messages[i].content[k] is Text)
                ==> google::request_value(req, report).1.dropped.contains(google_lost_content(i as nat)),
{
    let gathered = google::system_parts(req.system, req.messages, report);
    lemma_google_gathered(req.system, req.messages, report);
    let sent = google::sent_messages(req.messages, gathered.report);
    lemma_google_messages(req.messages, gathered.report);
    let fields = google::field_report(req, sent.report);
    let after = google::request_value(req, report).1;
    lemma_google_request(req, report);
    let chosen = sent.report.dropping(lost_choice().path, lost_choice().reason);
    lemma_entry_extends(sent.report, lost_choice().path, lost_choice().reason, Seq::empty());
    lemma_entry_extends(sent.report, lost_stream().path, lost_stream().reason, Seq::empty());
    lemma_entry_extends(chosen, lost_stream().path, lost_stream().reason, Seq::empty());
    if req.tool_choice is Some {
        assert(fields.dropped.contains(lost_choice())) by {
            if req.stream {
                law_entries_stay(fields, chosen, lost_choice());
            }
        }
        law_entries_stay(after, fields, lost_choice());
    }
    if req.stream {
        law_entries_stay(after, fields, lost_stream());
    }
    assert forall|i: int, k: int|
        0 <= i < req.messages.len() && req.messages[i].role != Role::System && 0 <= k
            < req.messages[i].content.len() implies (google_loss(
        #[trigger] req.messages[i].content[k],
        google::content_path(i as nat),
    ) matches Some(entry) ==> after.dropped.contains(entry)) by {
        if let Some(entry) = google_loss(req.messages[i].content[k], google::content_path(i as nat)) {
            law_entries_stay(after, sent.report, entry);
        }
    }
    assert forall|i: int, k: int|
        0 <= i < req.messages.len() && req.messages[i].role == Role::System && 0 <= k
            < req.messages[i].content.len() && !(#[trigger] req.messages[i].content[k] is Text)
        implies after.dropped.contains(google_lost_content(i as nat)) by {
        law_entries_stay(sent.report, gathered.report, google_lost_content(i as nat));
        law_entries_stay(after, sent.report, google_lost_content(i as nat));
    }
}

proof fn lemma_google_request(req: RequestV, report: ReportV)
    ensures
        ({
            let gathered = google::system_parts(req.system, req.messages, report);
            let sent = google::sent_messages(req.messages, gathered.report);
            let fields = google::field_report(req, sent.report);
            let after = google::request_value(req, report).1;
            &&& extends(sent.report, report)
            &&& extends(fields, sent.report)
            &&& extends(after, fields)
            &&& extends(after, sent.report)
            &&& extends(after, report)
        }),
{
    let gathered = google::system_parts(req.system, req.messages, report);
    lemma_google_gathered(req.system, req.messages, report);
    let sent = google::sent_messages(req.messages, gathered.report);
    lemma_google_messages(req.messages, gathered.report);
    lemma_extends_twice(sent.report, gathered.report, report);
    let fields = google::field_report(req, sent.report);
    lemma_entry_extends(sent.report, lost_choice().path, lost_choice().reason, Seq::empty());
    lemma_entry_extends(sent.report, lost_stream().path, lost_stream().reason, Seq::empty());
    let chosen = sent.report.dropping(lost_choice().path, lost_choice().reason);
    lemma_entry_extends(chosen, lost_stream().path, lost_stream().reason, Seq::empty());
    lemma_extends_twice(
        chosen.dropping(lost_stream().path, lost_stream().reason),
        chosen,
        sent.report,
    );
    let typed = google::typed_request(req, google::opt_instruction(gathered.parts), sent.values);
    let after = google::request_value(req, report).1;
    lemma_emitted_extends("google"@, req.extra, typed, fields);
    lemma_extends_twice(after, fields, sent.report);
    lemma_extends_twice(after, sent.report, report);
}

proof fn lemma_google_finish(reason: Option<StopReasonV>, report: ReportV)
    ensures
        extends(google::opt_finish_report(reason, report), report),
        reason == Some(StopReasonV::ToolUse) ==> google::opt_finish_report(
            reason,
            report,
        ).notes.contains(
            "stop_reason: ToolUse has no distinct google finishReason, mapped to \"STOP\""@,
        ),
        reason == Some(StopReasonV::StopSequence) ==> google::opt_finish_report(
            reason,
            report,
        ).notes.contains(
            "stop_reason: StopSequence has no distinct google finishReason, mapped to \"STOP\""@,
        ),
{
    lemma_entry_extends(
        report,
        Seq::empty(),
        Seq::empty(),
        "stop_reason: ToolUse has no distinct google finishReason, mapped to \"STOP\""@,
    );
    lemma_entry_extends(
        report,
        Seq::empty(),
        Seq::empty(),
        "stop_reason: StopSequence has no distinct google finishReason, mapped to \"STOP\""@,
    );
}

/// Writing in the Google dialect takes nothing out of a report.
pub proof fn law_google_report_only_grows(req: RequestV, resp: ResponseV, report: ReportV)
    ensures
        extends(google::request_value(req, report).1, report),
        extends(google::response_value(resp, report).1, report),
{
    lemma_google_request(req, report);
    lemma_google_parts(resp.content, "content"@, report);
    let read = google::parts_report(resp.content, "content"@, report);
    let noted = google::opt_finish_report(resp.stop_reason, read);
    lemma_google_finish(resp.stop_reason, read);
    lemma_extends_twice(noted, read, report);
    lemma_emitted_extends("google"@, resp.extra, google::typed_response(resp), noted);
    lemma_extends_twice(google::response_value(resp, report).1, noted, report);
}

/// A Google response has no ids of tool calls, no mark for a failed tool result and
/// no finish reason of its own for tool calls and stop sequences: where a response
/// has one, the report says so.
pub proof fn law_google_response_losses_are_reported(resp: ResponseV, report: ReportV)
    ensures
        forall|k: int|
            0 <= k < resp.content.len() ==> (google_loss(#[trigger] resp.content[k], "content"@) matches Some(
                entry,
            ) ==> google::response_value(resp, report).1.dropped.contains(entry)),
        resp.stop_reason == Some(StopReasonV::ToolUse) ==> google::response_value(
            resp,
            report,
        ).1.notes.contains(
            "stop_reason: ToolUse has no distinct google finishReason, mapped to \"STOP\""@,
        ),
        resp.stop_reason == Some(StopReasonV::StopSequence) ==> google::response_value(
            resp,
            report,
        ).1.notes.contains(
            "stop_reason: StopSequence has no distinct google finishReason, mapped to \"STOP\""@,
        ),
{
    lemma_google_parts(resp.content, "content"@, report);
    let read = google::parts_report(resp.content, "content"@, report);
    let noted = google::opt_finish_report(resp.stop_reason, read);
    let after = google::response_value(resp, report).1;
    lemma_google_finish(resp.stop_reason, read);
    lemma_emitted_extends("google"@, resp.extra, google::typed_response(resp), noted);
    assert forall|k: int| 0 <= k < resp.content.len() implies (google_loss(
        #[trigger] resp.content[k],
        "content"@,
    ) matches Some(entry) ==> after.dropped.contains(entry)) by {
        if let Some(entry) = google_loss(resp.content[k], "content"@) {
            law_entries_stay(noted, read, entry);
            law_entries_stay(after, noted, entry);
        }
    }
    if resp.stop_reason == Some(StopReasonV::ToolUse) {
        law_remarks_stay(
            after,
            noted,
            "stop_reason: ToolUse has no distinct google finishReason, mapped to \"STOP\""@,
        );
    }
    if resp.stop_reason == Some(StopReasonV::StopSequence) {
        law_remarks_stay(
            after,
            noted,
            "stop_reason: StopSequence has no distinct google finishReason, mapped to \"STOP\""@,
        );
    }
}

/// The entry on a field of another dialect.
pub open spec fn foreign_field(key: Seq<char>, target: Seq<char>) -> DroppedV {
    DroppedV {
        path: "extra."@ + split_tag(key).1,
        reason: split_tag(key).0 + "-specific field not representable in "@ + target,
    }
}

/// A field of a request that belongs to another dialect is reported, whichever
/// dialect the request goes out in.
pub proof fn law_foreign_fields_of_a_request_are_reported(req: RequestV, report: ReportV, key: Seq<char>)
    requires
        req.extra.dom().finite(),
        req.extra.dom().contains(key),
    ensures
        split_tag(key).0 != "anthropic"@ ==> anthropic::request_value(req, report).1.dropped.contains(
            foreign_field(key, "anthropic"@),
        ),
        split_tag(key).0 != "openai"@ ==> openai::request_value(req, report).1.dropped.contains(
            foreign_field(key, "openai"@),
        ),
        split_tag(key).0 != "google"@ ==> google::request_value(req, report).1.dropped.contains(
            foreign_field(key, "google"@),
        ),
{
    if split_tag(key).0 != "anthropic"@ {
        let split = anthropic::split_messages(req.system, req.messages, report);
        let typed = anthropic::typed_request(req, anthropic::system_text(split.parts), split.messages);
        law_foreign_extra_is_reported("anthropic"@, req.extra, typed, split.report, key);
    }
    if split_tag(key).0 != "openai"@ {
        let sent = openai::sent_messages(req.system, req.messages, report);
        law_foreign_extra_is_reported(
            "openai"@,
            req.extra,
            openai::typed_request(req, sent.values),
            openai::sampling_report(req, sent.report),
            key,
        );
    }
    if split_tag(key).0 != "google"@ {
        let gathered = google::system_parts(req.system, req.messages, report);
        let sent = google::sent_messages(req.messages, gathered.report);
        let typed = google::typed_request(req, google::opt_instruction(gathered.parts), sent.values);
        law_foreign_extra_is_reported(
            "google"@,
            req.extra,
            typed,
            google::field_report(req, sent.report),
            key,
        );
    }
}

/// A field of a response that belongs to another dialect is reported, whichever
/// dialect the response goes out in.
pub proof fn law_foreign_fields_of_a_response_are_reported(
    resp: ResponseV,
    report: ReportV,
    key: Seq<char>,
)
    requires
        resp.extra.dom().finite(),
        resp.extra.dom().contains(key),
    ensures
        split_tag(key).0 != "anthropic"@ ==> anthropic::response_value(resp, report).1.dropped.contains(
            foreign_field(key, "anthropic"@),
        ),
        split_tag(key).0 != "openai"@ ==> openai::response_value(resp, report).1.dropped.contains(
            foreign_field(key, "openai"@),
        ),
        split_tag(key).0 != "google"@ ==> google::response_value(resp, report).1.dropped.contains(
            foreign_field(key, "google"@),
        ),
{
    if split_tag(key).0 != "anthropic"@ {
        law_foreign_extra_is_reported(
            "anthropic"@,
            resp.extra,
            anthropic::typed_response(resp),
            report,
            key,
        );
    }
    if split_tag(key).0 != "openai"@ {
        let dropped = openai::result_drops(resp.content, report);
        let noted = match resp.stop_reason {
            Some(reason) => openai::stop_reason_report(reason, dropped),
            None => dropped,
        };
        law_foreign_extra_is_reported("openai"@, resp.extra, openai::typed_response(resp), noted, key);
    }
    if split_tag(key).0 != "google"@ {
        let read = google::parts_report(resp.content, "content"@, report);
        law_foreign_extra_is_reported(
            "google"@,
            resp.extra,
            google::typed_response(resp),
            google::opt_finish_report(resp.stop_reason, read),
            key,
        );
    }
}

} // verus!
