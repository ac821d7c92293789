//! What is read from a body and a stream in Google's dialect.

use vstd::prelude::*;
use vstd::utf8::encode_utf8;

use crate::json::{json_read, json_text, string_items, JsonV};
use crate::llm::adapter::{collected_extra, AdapterErrorV};
use crate::llm::canonical::{BlockV, EventV, ParseStateV, RequestV, ResponseV, Role, StopReasonV, ToolV, Usage};
use crate::llm::delta::DeltaKind;
use crate::llm::google::{
    blocks_of, declared_tool, declared_tools, delta_of, delta_read, event_of, event_read, flat_parts, message_of,
    one_part, part_texts, parts_of, path_model, request_of, request_read, response_of, response_read, role_of,
    stop_reason_of, tools_of,
};
use crate::llm::openai_read_laws::{
    items_or_none, law_texts_are_picked, some_count, some_double, some_text, text_or_none,
};
use crate::llm::words::lemma_google_words;
use crate::text::{joined, lemma_split_first, trimmed};
use crate::text_laws::{law_splitting_at_a_part_finds_the_first, law_splitting_loses_nothing};

verus! {

/// A member's member.
pub open spec fn inside(v: JsonV, outer: Seq<char>, inner: Seq<char>) -> Option<JsonV> {
    match v.get(outer) {
        Some(m) => m.get(inner),
        None => None,
    }
}

/// A part is read by what it holds: its text before all else, then inline data, then
/// a call, whose name is its id too, then an answer, whose document is its text; a
/// part with none of them gives nothing.
pub proof fn law_parts_are_read(v: JsonV)
    ensures
        v.get("text"@) matches Some(JsonV::Str(text)) ==> one_part(v) == Some(BlockV::Text { text }),
        !(v.get("text"@) matches Some(JsonV::Str(_))) ==> match v.get("inlineData"@) {
            Some(d) => one_part(v) == Some(
                BlockV::Image {
                    media_type: text_or_none(d.get("mimeType"@)),
                    data: text_or_none(d.get("data"@)),
                },
            ),
            None => match v.get("functionCall"@) {
                Some(call) => one_part(v) matches Some(BlockV::ToolUse { id, name, input }) && {
                    &&& id == text_or_none(call.get("name"@))
                    &&& name == text_or_none(call.get("name"@))
                    &&& match call.get("args"@) {
                        Some(args) => input == args,
                        None => input is Null,
                    }
                },
                None => match v.get("functionResponse"@) {
                    Some(answer) => one_part(v) matches Some(BlockV::ToolResult { id, content, is_error }) && {
                        &&& id == text_or_none(answer.get("name"@))
                        &&& match answer.get("response"@) {
                            Some(r) => content == json_text(r),
                            None => content.len() == 0,
                        }
                        &&& !is_error
                    },
                    None => one_part(v) is None,
                },
            },
        },
{
}

proof fn lemma_parts(items: Seq<JsonV>)
    ensures
        parts_of(items) == items.filter_map(|v: JsonV| one_part(v)),
        part_texts(items) == items.filter_map(|v: JsonV| some_text(v.get("text"@))),
    decreases items.len(),
{
    if items.len() > 0 {
        lemma_parts(items.drop_last());
    }
}

/// The blocks that a member's list of parts gives, in order.
pub open spec fn blocks_in(v: Option<JsonV>) -> Seq<BlockV> {
    items_or_none(v).filter_map(|p: JsonV| one_part(p))
}

/// A role is read by its name; an unknown name is the user's.
pub proof fn law_roles_are_read(name: Seq<char>)
    ensures
        name == "model"@ ==> role_of(name) is Assistant,
        name == "function"@ ==> role_of(name) is Tool,
        name != "model"@ && name != "function"@ ==> role_of(name) is User,
{
    lemma_google_words();
}

/// A content is read as a message: its role, the user's where it has none, and its
/// parts in order.
pub proof fn law_messages_are_read(c: JsonV)
    ensures
        message_of(c).role == match c.get("role"@) {
            Some(JsonV::Str(name)) => role_of(name),
            _ => Role::User,
        },
        message_of(c).content == blocks_in(c.get("parts"@)),
{
    lemma_parts(items_or_none(c.get("parts"@)));
}

/// A finish reason is read by its name; an unknown name is kept.
pub proof fn law_stop_reasons_are_read(name: Seq<char>)
    ensures
        name == "STOP"@ ==> stop_reason_of(name) is EndTurn,
        name == "MAX_TOKENS"@ ==> stop_reason_of(name) is MaxTokens,
        name != "STOP"@ && name != "MAX_TOKENS"@ ==> stop_reason_of(name) == StopReasonV::Other(name),
{
    lemma_google_words();
}

/// The model in a path is what stands behind the first `models/`, up to a colon, if
/// it is anything.
pub proof fn law_models_stand_in_the_path(
    path: Seq<char>,
    a: Seq<char>,
    model: Seq<char>,
    tail: Seq<char>,
)
    requires
        !model.contains(':'),
        forall|x: Seq<char>, y: Seq<char>| path == #[trigger] (x + "models/"@ + y) ==> a.len() <= x.len(),
    ensures
        path == a + "models/"@ + model || path == a + "models/"@ + (model.push(':') + tail) ==> path_model(path)
            == if model.len() == 0 {
            None
        } else {
            Some(model)
        },
{
    let rest = if path == a + "models/"@ + model {
        model
    } else {
        model.push(':') + tail
    };
    if path == a + "models/"@ + rest {
        law_splitting_at_a_part_finds_the_first(path, "models/"@, a, rest);
        let (p, q) = crate::text::split_at_part(path, "models/"@)->Some_0;
        assert(path == p + "models/"@ + q);
        assert(p.len() == a.len());
        assert(q == path.skip((a.len() + "models/"@.len()) as int));
        assert(rest == path.skip((a.len() + "models/"@.len()) as int));
        law_splitting_loses_nothing(rest, ':');
        lemma_split_first(model, ':', tail);
        assert(model + seq![':'] + tail == model.push(':') + tail);
    }
}

/// A path without `models/` names no model.
pub proof fn law_other_paths_name_no_model(path: Seq<char>)
    requires
        forall|x: Seq<char>, y: Seq<char>| path != #[trigger] (x + "models/"@ + y),
    ensures
        path_model(path) is None,
{
    law_splitting_at_a_part_finds_the_first(path, "models/"@, Seq::empty(), Seq::empty());
}

/// The tools of a list of declarations.
pub open spec fn declared_in(v: JsonV) -> Seq<ToolV> {
    items_or_none(v.get("functionDeclarations"@)).filter_map(|d: JsonV| declared_tool(d))
}

proof fn lemma_declared(items: Seq<JsonV>)
    ensures
        declared_tools(items) == items.filter_map(|d: JsonV| declared_tool(d)),
    decreases items.len(),
{
    if items.len() > 0 {
        lemma_declared(items.drop_last());
    }
}

/// The tools of a request are read list by list, in order; a declaration is read
/// wherever it has a name.
pub proof fn law_tools_are_read(items: Seq<JsonV>, last: JsonV, d: JsonV)
    ensures
        tools_of(Seq::empty()).len() == 0,
        tools_of(items.push(last)) == tools_of(items) + declared_in(last),
        match d.get("name"@) {
            Some(JsonV::Str(name)) => declared_tool(d) matches Some(t) && {
                &&& t.name == name
                &&& t.description == some_text(d.get("description"@))
                &&& match d.get("parameters"@) {
                    Some(schema) => t.input_schema == schema,
                    None => t.input_schema is Null,
                }
            },
            _ => declared_tool(d) is None,
        },
{
    assert(items.push(last).drop_last() == items);
    lemma_declared(items_or_none(last.get("functionDeclarations"@)));
}

/// A request is read from any document; every field of it comes from the member of
/// its name, the model from the path where that names one.
pub proof fn law_requests_are_read(v: JsonV, path: Seq<char>)
    ensures
        ({
            let req = request_of(v, path);
            let items = items_or_none(v.get("contents"@));
            &&& req.model == match path_model(path) {
                Some(model) => model,
                None => text_or_none(v.get("model"@)),
            }
            &&& req.messages.len() == items.len()
            &&& forall|i: int| 0 <= i < items.len() ==> req.messages[i] == message_of(#[trigger] items[i])
            &&& match inside(v, "systemInstruction"@, "parts"@) {
                Some(JsonV::Array(parts)) => req.system == Some(
                    joined(parts.filter_map(|p: JsonV| some_text(p.get("text"@))), "\n"@),
                ),
                Some(_) => req.system == Some(Seq::<char>::empty()),
                None => req.system is None,
            }
            &&& req.tools == tools_of(items_or_none(v.get("tools"@)))
            &&& req.tool_choice is None
            &&& req.sampling.temperature == some_double(inside(v, "generationConfig"@, "temperature"@))
            &&& req.sampling.top_p == some_double(inside(v, "generationConfig"@, "topP"@))
            &&& req.sampling.top_k == some_count(inside(v, "generationConfig"@, "topK"@))
            &&& req.sampling.max_tokens == some_count(inside(v, "generationConfig"@, "maxOutputTokens"@))
            &&& req.sampling.stop == items_or_none(inside(v, "generationConfig"@, "stopSequences"@)).filter_map(
                |x: JsonV| some_text(Some(x)),
            )
            &&& !req.stream
            &&& req.extra == collected_extra(
                v,
                seq!["model"@, "contents"@, "systemInstruction"@, "tools"@, "generationConfig"@],
                "google"@,
            )
        }),
{
    lemma_parts(items_or_none(inside(v, "systemInstruction"@, "parts"@)));
    law_texts_are_picked(items_or_none(inside(v, "generationConfig"@, "stopSequences"@)));
    assert(tools_of(Seq::empty()) == Seq::<ToolV>::empty());
    assert(string_items(Seq::empty()) == Seq::<Seq<char>>::empty());
}

/// The first candidate of a body, null where there is none.
pub open spec fn candidate_in(v: JsonV) -> JsonV {
    match v.get("candidates"@) {
        Some(JsonV::Array(items)) => if items.len() > 0 {
            items[0]
        } else {
            JsonV::Null
        },
        _ => JsonV::Null,
    }
}

/// A response is read from its first candidate: its parts, its finish reason, and the
/// token counts of the body.
pub proof fn law_responses_are_read(v: JsonV)
    ensures
        ({
            let r = response_of(v);
            let candidate = candidate_in(v);
            &&& r.model == match v.get("modelVersion"@) {
                Some(JsonV::Str(model)) => model,
                _ => text_or_none(v.get("model"@)),
            }
            &&& r.content == blocks_in(inside(candidate, "content"@, "parts"@))
            &&& match candidate.get("finishReason"@) {
                Some(JsonV::Str(name)) => r.stop_reason == Some(stop_reason_of(name)),
                _ => r.stop_reason is None,
            }
            &&& match v.get("usageMetadata"@) {
                Some(u) => r.usage == Some(
                    Usage {
                        input_tokens: some_count(u.get("promptTokenCount"@)),
                        output_tokens: some_count(u.get("candidatesTokenCount"@)),
                    },
                ),
                None => r.usage is None,
            }
            &&& r.extra == collected_extra(
                v,
                seq!["candidates"@, "usageMetadata"@, "modelVersion"@, "model"@],
                "google"@,
            )
        }),
{
    lemma_parts(items_or_none(inside(candidate_in(v), "content"@, "parts"@)));
}

/// A body that is no JSON is refused with the reader's words, whether it is a
/// request's or a response's; one that is reads by its value.
pub proof fn law_bodies_are_read(body: Seq<u8>, path: Seq<char>)
    ensures
        match json_read(body) {
            Ok(v) => request_read(body, path) == Ok::<RequestV, AdapterErrorV>(request_of(v, path)) && response_read(
                body,
            ) == Ok::<ResponseV, AdapterErrorV>(response_of(v)),
            Err(why) => {
                let refused = AdapterErrorV::Malformed("invalid JSON: "@ + why);
                request_read(body, path) == Err::<RequestV, AdapterErrorV>(refused) && response_read(body) == Err::<
                    ResponseV,
                    AdapterErrorV,
                >(refused)
            },
        },
{
}

/// The first part of the first candidate of a chunk.
pub open spec fn part_in(v: JsonV) -> Option<JsonV> {
    match inside(candidate_in(v), "content"@, "parts"@) {
        Some(JsonV::Array(parts)) => if parts.len() > 0 {
            Some(parts[0])
        } else {
            None
        },
        _ => None,
    }
}

/// The text of the first part of a chunk.
pub open spec fn chunk_text(v: JsonV) -> Option<Seq<char>> {
    match part_in(v) {
        Some(part) => some_text(part.get("text"@)),
        None => None,
    }
}

/// A chunk gives one fragment: token counts before all else, then a finish reason,
/// then the text of the first part; a chunk with none of them gives nothing.
pub proof fn law_fragments_are_read(v: JsonV)
    ensures
        ({
            let d = delta_of(v);
            match v.get("usageMetadata"@) {
                Some(u) => d matches Some(d) && d.kind == DeltaKind::Usage && (d.usage matches Some(n)
                    && n.input_tokens == some_count(u.get("promptTokenCount"@)) && n.output_tokens == some_count(
                    u.get("candidatesTokenCount"@),
                )) && d.text is None && d.tool_call is None && d.finish is None,
                None => match some_text(candidate_in(v).get("finishReason"@)) {
                    Some(reason) => d matches Some(d) && d.kind == DeltaKind::Finish && (d.finish matches Some(f)
                        && f.reason == Some(reason)) && d.text is None && d.tool_call is None && d.usage is None,
                    None => match chunk_text(v) {
                        Some(text) => d matches Some(d) && d.kind == DeltaKind::Text && d.text == Some(text)
                            && d.tool_call is None && d.usage is None && d.finish is None,
                        None => d is None,
                    },
                },
            }
        }),
{
}

/// A chunk's data is read as it stands; what is no JSON gives no fragment.
pub proof fn law_fragment_data_is_read(data: Seq<char>)
    ensures
        match json_read(encode_utf8(data)) {
            Ok(v) => delta_read(data) == delta_of(v),
            Err(_) => delta_read(data) is None,
        },
{
}

/// The event that a chunk's content gives.
pub open spec fn gives_content(v: JsonV) -> bool {
    chunk_text(v) is Some || (part_in(v) matches Some(part) && part.get("functionCall"@) is Some)
}

/// Whether an event is the end that a chunk tells of: its finish reason and its token
/// counts, both at once.
pub open spec fn is_end(e: EventV, v: JsonV) -> bool {
    e matches EventV::MessageDelta { stop_reason, usage } && {
        &&& stop_reason == match some_text(candidate_in(v).get("finishReason"@)) {
            Some(name) => Some(stop_reason_of(name)),
            None => None,
        }
        &&& match v.get("usageMetadata"@) {
            Some(u) => usage == Some(
                Usage {
                    input_tokens: some_count(u.get("promptTokenCount"@)),
                    output_tokens: some_count(u.get("candidatesTokenCount"@)),
                },
            ),
            None => usage is None,
        }
    }
}

/// A chunk gives its content as an event, text at the text block's index, a call whole
/// at a new one; where it tells of the end too, that event waits its turn behind the
/// content, and comes at once where there is no content.
pub proof fn law_events_are_read(v: JsonV, st: ParseStateV)
    ensures
        ({
            let (e, next) = event_of(v, st);
            let ends = v.get("usageMetadata"@) is Some || some_text(candidate_in(v).get("finishReason"@)) is Some;
            let after = match chunk_text(v) {
                Some(_) => st.text_index().1,
                None => if gives_content(v) {
                    st.fresh_index().1
                } else {
                    st
                },
            };
            &&& chunk_text(v) matches Some(text) ==> e == Some(
                EventV::ContentBlockDelta { index: st.text_index().0, text: Some(text), partial_json: None },
            )
            &&& chunk_text(v) is None && gives_content(v) ==> (e matches Some(
                EventV::ContentBlockStart { index, block: BlockV::ToolUse { id, name, input } },
            ) && {
                let call = part_in(v)->Some_0.get("functionCall"@)->Some_0;
                &&& index == st.fresh_index().0
                &&& id == text_or_none(call.get("name"@))
                &&& name == text_or_none(call.get("name"@))
                &&& match call.get("args"@) {
                    Some(args) => input == args,
                    None => input is Null,
                }
            })
            &&& !gives_content(v) && ends ==> (e matches Some(end) && is_end(end, v))
            &&& !gives_content(v) && !ends ==> e is None
            &&& gives_content(v) && ends ==> {
                &&& next.pending.len() == after.pending.len() + 1
                &&& next.pending.drop_last() == after.pending
                &&& is_end(next.pending.last(), v)
                &&& next == (ParseStateV { pending: next.pending, ..after })
            }
            &&& !(gives_content(v) && ends) ==> next == after
        }),
{
    let (e, next) = event_of(v, st);
    if next.pending.len() > 0 {
        assert(next.pending.drop_last().push(next.pending.last()) == next.pending);
    }
    let end = crate::llm::google::end_event(v);
    assert(st.pending.push(end->Some_0).drop_last() == st.pending);
}

/// A chunk's data is read without the blanks around it: nothing and what is no JSON
/// give no event.
pub proof fn law_event_data_is_read(data: Seq<char>, st: ParseStateV)
    ensures
        trimmed(data).len() == 0 ==> event_read(data, st) == (None::<EventV>, st),
        trimmed(data).len() > 0 ==> match json_read(encode_utf8(trimmed(data))) {
            Ok(v) => event_read(data, st) == event_of(v, st),
            Err(_) => event_read(data, st) == (None::<EventV>, st),
        },
{
}

/// The plain text of an instruction: the texts of its parts, in order, with a line
/// break between neighbours.
pub proof fn law_instructions_are_flattened(parts: JsonV)
    ensures
        flat_parts(parts) == match parts {
            JsonV::Array(items) => joined(items.filter_map(|p: JsonV| some_text(p.get("text"@))), "\n"@),
            _ => Seq::empty(),
        },
        blocks_of(parts) == blocks_in(Some(parts)),
{
    lemma_parts(items_or_none(Some(parts)));
}

} // verus!
