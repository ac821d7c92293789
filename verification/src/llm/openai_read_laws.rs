//! What is read from a body and a stream in OpenAI's dialect.

use vstd::prelude::*;
use vstd::utf8::encode_utf8;

use crate::json::{double_of, json_read, string_items, Double, JsonV, Num};
use crate::llm::adapter::{collected_extra, AdapterErrorV};
use crate::llm::anthropic::{flat_text, text_parts};
use crate::llm::canonical::{BlockV, EventV, MessageV, ParseStateV, RequestV, Role, StopReasonV, ToolChoiceV, ToolV, Usage};
use crate::llm::delta::{DeltaKind, DeltaV};
use crate::llm::openai::{
    call_block, calls_of, delta_of, delta_read, event_of, event_read, image_of, message_blocks, messages_of, one_part,
    parts_of, request_of, request_read, request_tools, response_of, response_read, stop_reason_of, system_parts,
    tool_choice_of, tools_of,
};
use crate::llm::words::lemma_openai_words;
use crate::text::{joined, trimmed};
use crate::text_laws::{law_prefixes_come_off, law_splitting_loses_nothing};

verus! {

/// The text of a member, empty where it is none.
pub open spec fn text_or_none(v: Option<JsonV>) -> Seq<char> {
    match v {
        Some(JsonV::Str(s)) => s,
        _ => Seq::empty(),
    }
}

/// The text of a member that is one.
pub open spec fn some_text(v: Option<JsonV>) -> Option<Seq<char>> {
    match v {
        Some(JsonV::Str(s)) => Some(s),
        _ => None,
    }
}

/// The count of a member that is one.
pub open spec fn some_count(v: Option<JsonV>) -> Option<u64> {
    match v {
        Some(JsonV::Number(Num::PosInt(n))) => Some(n),
        _ => None,
    }
}

/// The number of a member that is one.
pub open spec fn some_double(v: Option<JsonV>) -> Option<Double> {
    match v {
        Some(JsonV::Number(n)) => Some(Double { bits: double_of(n) }),
        _ => None,
    }
}

/// The items of a member that is an array, none where it is not.
pub open spec fn items_or_none(v: Option<JsonV>) -> Seq<JsonV> {
    match v {
        Some(JsonV::Array(items)) => items,
        _ => Seq::empty(),
    }
}

/// The text of a text part.
pub open spec fn part_text(v: JsonV) -> Option<Seq<char>> {
    if v.get("type"@) == Some(JsonV::Str("text"@)) {
        some_text(v.get("text"@))
    } else {
        None
    }
}

/// A content value as plain text: a string's own text, or the texts of an array's
/// text parts, in order, with a line break between neighbours.
pub proof fn law_content_values_are_flattened(content: JsonV)
    ensures
        content matches JsonV::Str(s) ==> flat_text(content) == s,
        content matches JsonV::Array(items) ==> flat_text(content) == joined(
            items.filter_map(|v: JsonV| part_text(v)),
            "\n"@,
        ),
        !(content is Str) && !(content is Array) ==> flat_text(content) == Seq::<char>::empty(),
{
    if let JsonV::Array(items) = content {
        lemma_text_parts(items);
    }
}

proof fn lemma_text_parts(items: Seq<JsonV>)
    ensures
        text_parts(items) == items.filter_map(|v: JsonV| part_text(v)),
    decreases items.len(),
{
    if items.len() > 0 {
        lemma_text_parts(items.drop_last());
    }
}

/// A data URL gives the media type before its first semicolon and the data behind
/// its first comma; any other URL is the data itself, without a type.
pub proof fn law_image_urls_are_read(url: Seq<char>, meta: Seq<char>, data: Seq<char>)
    ensures
        url == "data:"@ + meta.push(',') + data && !meta.contains(',') ==> image_of(url).1 == data && (!meta.contains(
            ';',
        ) ==> image_of(url).0 == meta) && (forall|kind: Seq<char>, rest: Seq<char>|
            meta == #[trigger] (kind.push(';') + rest) && !kind.contains(';') ==> image_of(url).0 == kind),
        (forall|rest: Seq<char>| url == #[trigger] ("data:"@ + rest) ==> !rest.contains(',')) ==> image_of(url) == (
            Seq::<char>::empty(),
            url,
        ),
{
    let whole = meta.push(',') + data;
    law_prefixes_come_off(url, "data:"@, whole);
    if url == "data:"@ + meta.push(',') + data && !meta.contains(',') {
        assert(url == "data:"@ + whole);
        crate::text::lemma_split_first(meta, ',', data);
        assert(meta + seq![','] + data == whole);
        law_splitting_loses_nothing(meta, ';');
        assert forall|kind: Seq<char>, rest: Seq<char>|
            meta == #[trigger] (kind.push(';') + rest) && !kind.contains(';') implies image_of(url).0 == kind by {
            crate::text::lemma_split_first(kind, ';', rest);
            assert(kind + seq![';'] + rest == kind.push(';') + rest);
        }
    }
    if forall|rest: Seq<char>| url == #[trigger] ("data:"@ + rest) ==> !rest.contains(',') {
        if let Some(rest) = crate::text::rest_after(url, "data:"@) {
            law_prefixes_come_off(url, "data:"@, rest);
            assert(url == "data:"@ + rest);
            law_splitting_loses_nothing(rest, ',');
        }
    }
}

/// A content part is read by its type: a text part gives its text, an image part
/// what its URL gives, any other part nothing.
pub proof fn law_parts_are_read(v: JsonV)
    ensures
        v.get("type"@) == Some(JsonV::Str("text"@)) ==> one_part(v) == Some(
            BlockV::Text { text: text_or_none(v.get("text"@)) },
        ),
        v.get("type"@) == Some(JsonV::Str("image_url"@)) ==> match v.get("image_url"@) {
            Some(image) => match image.get("url"@) {
                Some(JsonV::Str(url)) => one_part(v) == Some(
                    BlockV::Image { media_type: image_of(url).0, data: image_of(url).1 },
                ),
                _ => one_part(v) is None,
            },
            None => one_part(v) is None,
        },
        v.get("type"@) != Some(JsonV::Str("text"@)) && v.get("type"@) != Some(JsonV::Str("image_url"@))
            ==> one_part(v) is None,
{
    lemma_openai_words();
}

/// A tool call is read by its function: its id and the function's name, empty where
/// they are no text, and the document in the function's arguments, null where there
/// is none.
pub proof fn law_calls_are_read(v: JsonV)
    ensures
        v.get("function"@) is None ==> call_block(v) is None,
        v.get("function"@) matches Some(f) ==> (call_block(v) matches Some(BlockV::ToolUse { id, name, input }) && {
            &&& id == text_or_none(v.get("id"@))
            &&& name == text_or_none(f.get("name"@))
            &&& match f.get("arguments"@) {
                Some(JsonV::Str(text)) => match json_read(encode_utf8(text)) {
                    Ok(document) => input == document,
                    Err(_) => input is Null,
                },
                _ => input is Null,
            }
        }),
{
}

proof fn lemma_items(items: Seq<JsonV>)
    ensures
        parts_of(items) == items.filter_map(|v: JsonV| one_part(v)),
        calls_of(items) == items.filter_map(|v: JsonV| call_block(v)),
    decreases items.len(),
{
    if items.len() > 0 {
        lemma_items(items.drop_last());
    }
}

/// The blocks that a message's content and tool calls give, in order: the content
/// first, then the calls.
pub open spec fn blocks_in(m: JsonV) -> Seq<BlockV> {
    (match m.get("content"@) {
        Some(JsonV::Str(s)) => seq![BlockV::Text { text: s }],
        Some(JsonV::Array(items)) => items.filter_map(|v: JsonV| one_part(v)),
        _ => Seq::empty(),
    }) + items_or_none(m.get("tool_calls"@)).filter_map(|v: JsonV| call_block(v))
}

/// What a message holds: that of the tool role, or of the older function role, is the
/// answer to the call that it names; any other has its content and its tool calls.
pub proof fn law_message_content_is_read(role: Seq<char>, m: JsonV)
    ensures
        role == "tool"@ || role == "function"@ ==> message_blocks(role, m).len() == 1 && (message_blocks(
            role,
            m,
        )[0] matches BlockV::ToolResult { id, content, is_error } && {
            &&& id == match m.get("tool_call_id"@) {
                Some(JsonV::Str(s)) => s,
                _ => text_or_none(m.get("name"@)),
            }
            &&& content == match m.get("content"@) {
                Some(c) => flat_text(c),
                None => Seq::empty(),
            }
            &&& !is_error
        }),
        role != "tool"@ && role != "function"@ ==> message_blocks(role, m) == blocks_in(m),
{
    lemma_openai_words();
    if let Some(JsonV::Array(items)) = m.get("content"@) {
        lemma_items(items);
    }
    lemma_items(items_or_none(m.get("tool_calls"@)));
    assert(items_or_none(None) == Seq::<JsonV>::empty());
    if role != "tool"@ && role != "function"@ {
        assert(message_blocks(role, m) =~= blocks_in(m));
    }
}

/// The messages of a request are read in order. One of the system role adds its text
/// to the system prompt; any other becomes a message of its role, that of an unknown
/// name the user's.
pub proof fn law_messages_are_read_in_order(items: Seq<JsonV>, m: JsonV)
    ensures
        messages_of(Seq::empty()).len() == 0 && system_parts(Seq::empty()).len() == 0,
        m.get("role"@) == Some(JsonV::Str("system"@)) ==> {
            &&& messages_of(items.push(m)) == messages_of(items)
            &&& system_parts(items.push(m)) == system_parts(items).push(
                match m.get("content"@) {
                    Some(c) => flat_text(c),
                    None => Seq::empty(),
                },
            )
        },
        m.get("role"@) != Some(JsonV::Str("system"@)) ==> {
            let role = text_or_none(m.get("role"@));
            &&& system_parts(items.push(m)) == system_parts(items)
            &&& messages_of(items.push(m)) == messages_of(items).push(
                MessageV {
                    role: if role == "assistant"@ {
                        Role::Assistant
                    } else if role == "tool"@ || role == "function"@ {
                        Role::Tool
                    } else {
                        Role::User
                    },
                    content: message_blocks(role, m),
                },
            )
        },
{
    lemma_openai_words();
    assert(items.push(m).drop_last() == items);
}

/// A stop reason is read by its name; an unknown name is kept.
pub proof fn law_stop_reasons_are_read(name: Seq<char>)
    ensures
        name == "stop"@ ==> stop_reason_of(name) is EndTurn,
        name == "length"@ ==> stop_reason_of(name) is MaxTokens,
        name == "tool_calls"@ || name == "function_call"@ ==> stop_reason_of(name) is ToolUse,
        name != "stop"@ && name != "length"@ && name != "tool_calls"@ && name != "function_call"@ ==> stop_reason_of(
            name,
        ) == StopReasonV::Other(name),
{
    lemma_openai_words();
}

/// A tool choice is read: one of three words, or a function's name.
pub proof fn law_tool_choices_are_read(v: JsonV)
    ensures
        v == JsonV::Str("auto"@) ==> tool_choice_of(v) == Some(ToolChoiceV::Auto),
        v == JsonV::Str("none"@) ==> tool_choice_of(v) == Some(ToolChoiceV::Never),
        v == JsonV::Str("required"@) ==> tool_choice_of(v) == Some(ToolChoiceV::Any),
        v matches JsonV::Str(s) ==> s != "auto"@ && s != "none"@ && s != "required"@ ==> tool_choice_of(v) is None,
        !(v is Str) ==> match v.get("function"@) {
            Some(f) => match f.get("name"@) {
                Some(JsonV::Str(name)) => tool_choice_of(v) == Some(ToolChoiceV::Tool(name)),
                _ => tool_choice_of(v) is None,
            },
            None => tool_choice_of(v) is None,
        },
{
    lemma_openai_words();
}

/// The tool that a function's definition gives: it must have a name.
pub open spec fn tool_in_function(f: JsonV) -> Option<ToolV> {
    match f.get("name"@) {
        Some(JsonV::Str(name)) => Some(
            ToolV {
                name,
                description: some_text(f.get("description"@)),
                input_schema: match f.get("parameters"@) {
                    Some(schema) => schema,
                    None => JsonV::Null,
                },
            },
        ),
        _ => None,
    }
}

/// The tool that an entry of the tools gives.
pub open spec fn tool_in_entry(v: JsonV) -> Option<ToolV> {
    match v.get("function"@) {
        Some(f) => tool_in_function(f),
        None => None,
    }
}

/// The tools of a request are read in order: from its tools, or, where it has no such
/// list, from the older list of functions.
pub proof fn law_tools_are_read(v: JsonV)
    ensures
        request_tools(v) == match v.get("tools"@) {
            Some(JsonV::Array(items)) => items.filter_map(|e: JsonV| tool_in_entry(e)),
            _ => items_or_none(v.get("functions"@)).filter_map(|f: JsonV| tool_in_function(f)),
        },
{
    lemma_tools(items_or_none(v.get("tools"@)));
    lemma_tools(items_or_none(v.get("functions"@)));
}

proof fn lemma_tools(items: Seq<JsonV>)
    ensures
        tools_of(items, true) == items.filter_map(|e: JsonV| tool_in_entry(e)),
        tools_of(items, false) == items.filter_map(|f: JsonV| tool_in_function(f)),
    decreases items.len(),
{
    if items.len() > 0 {
        lemma_tools(items.drop_last());
    }
}

/// The texts among some values.
pub proof fn law_texts_are_picked(items: Seq<JsonV>)
    ensures
        string_items(items) == items.filter_map(|v: JsonV| some_text(Some(v))),
    decreases items.len(),
{
    if items.len() > 0 {
        law_texts_are_picked(items.drop_last());
    }
}

/// A request is read wherever it names a model, and only there; every field of it
/// comes from the member of its name.
pub proof fn law_requests_are_read(v: JsonV)
    ensures
        request_of(v) is Ok <==> v.get("model"@) matches Some(JsonV::Str(_)),
        request_of(v) matches Err(e) ==> e == AdapterErrorV::Malformed("missing required field 'model'"@),
        request_of(v) matches Ok(req) ==> {
            let items = items_or_none(v.get("messages"@));
            &&& v.get("model"@) == Some(JsonV::Str(req.model))
            &&& req.messages == messages_of(items)
            &&& req.system == if system_parts(items).len() == 0 {
                None
            } else {
                Some(joined(system_parts(items), "\n"@))
            }
            &&& req.tools == request_tools(v)
            &&& req.tool_choice == match v.get("tool_choice"@) {
                Some(c) => tool_choice_of(c),
                None => None,
            }
            &&& req.sampling.temperature == some_double(v.get("temperature"@))
            &&& req.sampling.top_p == some_double(v.get("top_p"@))
            &&& req.sampling.top_k is None
            &&& req.sampling.max_tokens == match some_count(v.get("max_tokens"@)) {
                Some(n) => Some(n),
                None => some_count(v.get("max_completion_tokens"@)),
            }
            &&& req.sampling.stop == match v.get("stop"@) {
                Some(JsonV::Str(s)) => seq![s],
                Some(JsonV::Array(stops)) => stops.filter_map(|x: JsonV| some_text(Some(x))),
                _ => Seq::empty(),
            }
            &&& req.stream == (v.get("stream"@) == Some(JsonV::Bool(true)))
            &&& req.extra == collected_extra(
                v,
                seq![
                    "model"@,
                    "messages"@,
                    "tools"@,
                    "functions"@,
                    "tool_choice"@,
                    "max_tokens"@,
                    "max_completion_tokens"@,
                    "temperature"@,
                    "top_p"@,
                    "stop"@,
                    "stream"@,
                ],
                "openai"@,
            )
        },
{
    if let Some(JsonV::Array(stops)) = v.get("stop"@) {
        law_texts_are_picked(stops);
    }
}

/// A body that is no JSON is refused with the reader's words, whether it is a
/// request's or a response's; one that is reads by its value.
pub proof fn law_bodies_are_read(body: Seq<u8>)
    ensures
        match json_read(body) {
            Ok(v) => request_read(body) == request_of(v) && response_read(body) == Ok::<
                crate::llm::canonical::ResponseV,
                AdapterErrorV,
            >(response_of(v)),
            Err(why) => {
                let refused = AdapterErrorV::Malformed("invalid JSON: "@ + why);
                request_read(body) == Err::<RequestV, AdapterErrorV>(refused) && response_read(body) == Err::<
                    crate::llm::canonical::ResponseV,
                    AdapterErrorV,
                >(refused)
            },
        },
{
}

/// The first choice of a body, null where there is none.
pub open spec fn choice_in(v: JsonV) -> JsonV {
    match v.get("choices"@) {
        Some(JsonV::Array(items)) => if items.len() > 0 {
            items[0]
        } else {
            JsonV::Null
        },
        _ => JsonV::Null,
    }
}

/// A response is read from its first choice: its message's content and tool calls,
/// its finish reason, and the token counts of the body.
pub proof fn law_responses_are_read(v: JsonV)
    ensures
        ({
            let r = response_of(v);
            let choice = choice_in(v);
            &&& r.model == text_or_none(v.get("model"@))
            &&& r.content == match choice.get("message"@) {
                Some(m) => blocks_in(m),
                None => Seq::empty(),
            }
            &&& r.stop_reason == match choice.get("finish_reason"@) {
                Some(JsonV::Str(name)) => Some(stop_reason_of(name)),
                _ => None,
            }
            &&& r.usage == match v.get("usage"@) {
                Some(u) => Some(
                    Usage {
                        input_tokens: some_count(u.get("prompt_tokens"@)),
                        output_tokens: some_count(u.get("completion_tokens"@)),
                    },
                ),
                None => None,
            }
            &&& r.extra == collected_extra(v, seq!["model"@, "choices"@, "usage"@], "openai"@)
        }),
{
    lemma_openai_words();
    if let Some(m) = choice_in(v).get("message"@) {
        law_message_content_is_read("assistant"@, m);
    }
}

/// The token counts of a chunk, unless they are null.
pub open spec fn counts_in(v: JsonV) -> Option<JsonV> {
    match v.get("usage"@) {
        Some(JsonV::Null) => None,
        other => other,
    }
}

/// The first tool call of a chunk's delta.
pub open spec fn call_in(delta: JsonV) -> Option<JsonV> {
    match delta.get("tool_calls"@) {
        Some(JsonV::Array(calls)) => if calls.len() > 0 {
            Some(calls[0])
        } else {
            None
        },
        _ => None,
    }
}

/// A text of a call's function.
pub open spec fn in_function(call: JsonV, key: Seq<char>) -> Option<Seq<char>> {
    match call.get("function"@) {
        Some(f) => some_text(f.get(key)),
        None => None,
    }
}

/// A chunk gives one fragment: token counts before all else, then a finish reason,
/// then text, then the first tool call, whether or not that has an id or a name; a
/// chunk with none of them gives nothing.
pub proof fn law_fragments_are_read(v: JsonV)
    ensures
        ({
            let choice = choice_in(v);
            let d = delta_of(v);
            match counts_in(v) {
                Some(u) => d matches Some(d) && d.kind == DeltaKind::Usage && (d.usage matches Some(n)
                    && n.input_tokens == some_count(u.get("prompt_tokens"@)) && n.output_tokens == some_count(
                    u.get("completion_tokens"@),
                )) && d.text is None && d.tool_call is None && d.finish is None,
                None => match some_text(choice.get("finish_reason"@)) {
                    Some(reason) => d matches Some(d) && d.kind == DeltaKind::Finish && (d.finish matches Some(f)
                        && f.reason == Some(reason)) && d.text is None && d.tool_call is None && d.usage is None,
                    None => match choice.get("delta"@) {
                        None => d is None,
                        Some(delta) => match some_text(delta.get("content"@)) {
                            Some(text) => d matches Some(d) && d.kind == DeltaKind::Text && d.text == Some(text)
                                && d.tool_call is None && d.usage is None && d.finish is None,
                            None => match call_in(delta) {
                                None => d is None,
                                Some(call) => d matches Some(d) && d.kind == DeltaKind::ToolCall && (d.tool_call
                                    matches Some(c) && c.id == some_text(call.get("id"@)) && c.name == in_function(
                                    call,
                                    "name"@,
                                ) && c.arguments_fragment == in_function(call, "arguments"@)) && d.text is None
                                    && d.usage is None && d.finish is None,
                            },
                        },
                    },
                },
            }
        }),
{
}

/// An event's data is read as it stands; the terminal, blanks around it or not, and
/// what is no JSON give no fragment.
pub proof fn law_fragment_data_is_read(data: Seq<char>)
    ensures
        trimmed(data) == "[DONE]"@ ==> delta_read(data) is None,
        trimmed(data) != "[DONE]"@ ==> match json_read(encode_utf8(data)) {
            Ok(v) => delta_read(data) == delta_of(v),
            Err(_) => delta_read(data) is None,
        },
{
}

/// The argument text of some deltas, put together in order.
pub open spec fn gathered(deltas: Seq<Option<DeltaV>>) -> Seq<char>
    decreases deltas.len(),
{
    if deltas.len() == 0 {
        Seq::empty()
    } else {
        gathered(deltas.drop_last()) + match deltas.last() {
            Some(d) => match d.tool_call {
                Some(c) => match c.arguments_fragment {
                    Some(text) => text,
                    None => Seq::empty(),
                },
                None => Seq::empty(),
            },
            None => Seq::empty(),
        }
    }
}

/// Some texts, put together in order.
pub open spec fn concatenated(texts: Seq<Seq<char>>) -> Seq<char>
    decreases texts.len(),
{
    if texts.len() == 0 {
        Seq::empty()
    } else {
        concatenated(texts.drop_last()) + texts.last()
    }
}

/// The fragments of a streamed tool call put together are its arguments: whatever
/// chunks carry them, with an id or without, no part is lost.
pub proof fn law_streamed_arguments_are_whole(chunks: Seq<JsonV>, parts: Seq<Seq<char>>)
    requires
        chunks.len() == parts.len(),
        forall|i: int|
            #![trigger chunks[i]]
            0 <= i < chunks.len() ==> {
                &&& counts_in(chunks[i]) is None
                &&& some_text(choice_in(chunks[i]).get("finish_reason"@)) is None
                &&& choice_in(chunks[i]).get("delta"@) matches Some(delta) && some_text(delta.get("content"@)) is None
                    && (call_in(delta) matches Some(call) && in_function(call, "arguments"@) == Some(parts[i]))
            },
    ensures
        gathered(chunks.map_values(|v: JsonV| delta_of(v))) == concatenated(parts),
    decreases chunks.len(),
{
    let deltas = chunks.map_values(|v: JsonV| delta_of(v));
    if chunks.len() > 0 {
        let n = chunks.len() - 1;
        assert forall|i: int| #![trigger chunks.drop_last()[i]] 0 <= i < n implies chunks.drop_last()[i] == chunks[i] by {}
        law_streamed_arguments_are_whole(chunks.drop_last(), parts.drop_last());
        assert(deltas.drop_last() == chunks.drop_last().map_values(|v: JsonV| delta_of(v)));
        law_fragments_are_read(chunks[n]);
        assert(deltas.last() == delta_of(chunks[n]));
    }
}

/// A chunk gives one canonical event, in the same order of precedence: token counts,
/// a finish reason, text at the text block's index, and a tool call at its slot's
/// index, which opens a block the first time and adds to its arguments after that.
pub proof fn law_events_are_read(v: JsonV, st: ParseStateV)
    ensures
        ({
            let choice = choice_in(v);
            let (e, next) = event_of(v, st);
            match counts_in(v) {
                Some(u) => next == st && (e matches Some(EventV::MessageDelta { stop_reason, usage }) && stop_reason is None && (usage
                    matches Some(n) && n.input_tokens == some_count(u.get("prompt_tokens"@)) && n.output_tokens
                    == some_count(u.get("completion_tokens"@)))),
                None => match some_text(choice.get("finish_reason"@)) {
                    Some(reason) => next == st && e == Some(
                        EventV::MessageDelta { stop_reason: Some(stop_reason_of(reason)), usage: None },
                    ),
                    None => match choice.get("delta"@) {
                        None => e is None && next == st,
                        Some(delta) => match some_text(delta.get("content"@)) {
                            Some(text) => next == st.text_index().1 && e == Some(
                                EventV::ContentBlockDelta {
                                    index: st.text_index().0,
                                    text: Some(text),
                                    partial_json: None,
                                },
                            ),
                            None => match call_in(delta) {
                                None => e is None && next == st,
                                Some(call) => {
                                    let slot = match some_count(call.get("index"@)) {
                                        Some(i) => i,
                                        None => 0,
                                    };
                                    let (index, is_new, after) = st.tool_index(slot);
                                    &&& next == after
                                    &&& is_new ==> e == Some(
                                        EventV::ContentBlockStart {
                                            index,
                                            block: BlockV::ToolUse {
                                                id: text_or_none(call.get("id"@)),
                                                name: match in_function(call, "name"@) {
                                                    Some(s) => s,
                                                    None => Seq::empty(),
                                                },
                                                input: JsonV::Null,
                                            },
                                        },
                                    )
                                    &&& !is_new ==> e == Some(
                                        EventV::ContentBlockDelta {
                                            index,
                                            text: None,
                                            partial_json: Some(
                                                match in_function(call, "arguments"@) {
                                                    Some(s) => s,
                                                    None => Seq::empty(),
                                                },
                                            ),
                                        },
                                    )
                                },
                            },
                        },
                    },
                },
            }
        }),
{
}

/// An event's data is read without the blanks around it: nothing and what is no JSON
/// give no event, the terminal ends the message, a chunk gives what it holds.
pub proof fn law_event_data_is_read(data: Seq<char>, st: ParseStateV)
    ensures
        trimmed(data).len() == 0 ==> event_read(data, st) == (None::<EventV>, st),
        trimmed(data) == "[DONE]"@ ==> event_read(data, st) == (Some(EventV::MessageStop), st),
        trimmed(data).len() > 0 && trimmed(data) != "[DONE]"@ ==> match json_read(encode_utf8(trimmed(data))) {
            Ok(v) => event_read(data, st) == event_of(v, st),
            Err(_) => event_read(data, st) == (None::<EventV>, st),
        },
{
    reveal_strlit("[DONE]");
}

} // verus!
