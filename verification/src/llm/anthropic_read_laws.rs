//! What is read from a body and a stream in Anthropic's dialect.

use vstd::prelude::*;
use vstd::utf8::encode_utf8;

use crate::json::{json_read, string_items, JsonV};
use crate::llm::adapter::{collected_extra, AdapterErrorV};
use crate::llm::anthropic::{
    blocks_of, content_of, delta_of, delta_read, event_of, event_read, flat_text, message_of, one_block, request_of,
    request_read, response_of, response_read, role_of, stop_reason_of, tool_choice_of, tool_of, tools_of,
};
use crate::llm::canonical::{BlockV, EventV, RequestV, ResponseV, Role, StopReasonV, ToolChoiceV, ToolV, Usage};
use crate::llm::delta::DeltaKind;
use crate::llm::openai_read_laws::{
    items_or_none, law_texts_are_picked, some_count, some_double, some_text, text_or_none,
};
use crate::llm::words::lemma_anthropic_words;
use crate::text::trimmed;

verus! {

/// Whether a value's type is a word.
pub open spec fn is_of_type(v: JsonV, word: Seq<char>) -> bool {
    v.get("type"@) == Some(JsonV::Str(word))
}

/// A content block is read by its type, each field from the member of its name; a
/// block of another type, and an image without a source, give nothing.
pub proof fn law_blocks_are_read(v: JsonV)
    ensures
        is_of_type(v, "text"@) ==> one_block(v) == Some(BlockV::Text { text: text_or_none(v.get("text"@)) }),
        is_of_type(v, "image"@) ==> match v.get("source"@) {
            Some(source) => one_block(v) == Some(
                BlockV::Image {
                    media_type: text_or_none(source.get("media_type"@)),
                    data: text_or_none(source.get("data"@)),
                },
            ),
            None => one_block(v) is None,
        },
        is_of_type(v, "tool_use"@) ==> (one_block(v) matches Some(BlockV::ToolUse { id, name, input }) && {
            &&& id == text_or_none(v.get("id"@))
            &&& name == text_or_none(v.get("name"@))
            &&& match v.get("input"@) {
                Some(given) => input == given,
                None => input is Null,
            }
        }),
        is_of_type(v, "tool_result"@) ==> (one_block(v) matches Some(
            BlockV::ToolResult { id, content, is_error },
        ) && {
            &&& id == text_or_none(v.get("tool_use_id"@))
            &&& match v.get("content"@) {
                Some(c) => content == flat_text(c),
                None => content.len() == 0,
            }
            &&& is_error <==> v.get("is_error"@) == Some(JsonV::Bool(true))
        }),
        !is_of_type(v, "text"@) && !is_of_type(v, "image"@) && !is_of_type(v, "tool_use"@) && !is_of_type(
            v,
            "tool_result"@,
        ) ==> one_block(v) is None,
{
    lemma_anthropic_words();
}

proof fn lemma_blocks(items: Seq<JsonV>)
    ensures
        blocks_of(items) == items.filter_map(|v: JsonV| one_block(v)),
    decreases items.len(),
{
    if items.len() > 0 {
        lemma_blocks(items.drop_last());
    }
}

/// Content is read: a string as one text, an array block by block, in order; anything
/// else holds nothing.
pub proof fn law_content_is_read(v: JsonV)
    ensures
        v matches JsonV::Str(s) ==> content_of(v) == seq![BlockV::Text { text: s }],
        v matches JsonV::Array(items) ==> content_of(v) == items.filter_map(|b: JsonV| one_block(b)),
        !(v is Str) && !(v is Array) ==> content_of(v).len() == 0,
{
    if let JsonV::Array(items) = v {
        lemma_blocks(items);
    }
}

/// The content of a member, none where the member is absent.
pub open spec fn content_in(v: Option<JsonV>) -> Seq<BlockV> {
    match v {
        Some(c) => content_of(c),
        None => Seq::empty(),
    }
}

/// A role is read by its name; an unknown name is the user's.
pub proof fn law_roles_are_read(name: Seq<char>)
    ensures
        name == "assistant"@ ==> role_of(name) is Assistant,
        name == "system"@ ==> role_of(name) is System,
        name == "tool"@ ==> role_of(name) is Tool,
        name != "assistant"@ && name != "system"@ && name != "tool"@ ==> role_of(name) is User,
{
    lemma_anthropic_words();
}

/// A message is read: its role, the user's where it has none, and its content.
pub proof fn law_messages_are_read(m: JsonV)
    ensures
        message_of(m).role == match m.get("role"@) {
            Some(JsonV::Str(name)) => role_of(name),
            _ => Role::User,
        },
        message_of(m).content == content_in(m.get("content"@)),
{
}

/// A stop reason is read by its name; an unknown name is kept.
pub proof fn law_stop_reasons_are_read(name: Seq<char>)
    ensures
        name == "end_turn"@ ==> stop_reason_of(name) is EndTurn,
        name == "max_tokens"@ ==> stop_reason_of(name) is MaxTokens,
        name == "tool_use"@ ==> stop_reason_of(name) is ToolUse,
        name == "stop_sequence"@ ==> stop_reason_of(name) is StopSequence,
        name != "end_turn"@ && name != "max_tokens"@ && name != "tool_use"@ && name != "stop_sequence"@
            ==> stop_reason_of(name) == StopReasonV::Other(name),
{
    lemma_anthropic_words();
}

/// A tool choice is read by its type; that of a tool must name it.
pub proof fn law_tool_choices_are_read(v: JsonV)
    ensures
        is_of_type(v, "auto"@) ==> tool_choice_of(v) == Some(ToolChoiceV::Auto),
        is_of_type(v, "any"@) ==> tool_choice_of(v) == Some(ToolChoiceV::Any),
        is_of_type(v, "none"@) ==> tool_choice_of(v) == Some(ToolChoiceV::Never),
        is_of_type(v, "tool"@) ==> match v.get("name"@) {
            Some(JsonV::Str(name)) => tool_choice_of(v) == Some(ToolChoiceV::Tool(name)),
            _ => tool_choice_of(v) is None,
        },
        !is_of_type(v, "auto"@) && !is_of_type(v, "any"@) && !is_of_type(v, "none"@) && !is_of_type(v, "tool"@)
            ==> tool_choice_of(v) is None,
{
    lemma_anthropic_words();
}

/// A tool is read wherever it has a name.
pub proof fn law_tools_are_read(items: Seq<JsonV>, v: JsonV)
    ensures
        tools_of(items) == items.filter_map(|t: JsonV| tool_of(t)),
        match v.get("name"@) {
            Some(JsonV::Str(name)) => tool_of(v) matches Some(t) && {
                &&& t.name == name
                &&& t.description == some_text(v.get("description"@))
                &&& match v.get("input_schema"@) {
                    Some(schema) => t.input_schema == schema,
                    None => t.input_schema is Null,
                }
            },
            _ => tool_of(v) is None,
        },
    decreases items.len(),
{
    if items.len() > 0 {
        law_tools_are_read(items.drop_last(), v);
    }
}

/// A request is read wherever it names a model, and only there; every field of it
/// comes from the member of its name.
pub proof fn law_requests_are_read(v: JsonV)
    ensures
        request_of(v) is Ok <==> v.get("model"@) matches Some(JsonV::Str(_)),
        request_of(v) matches Err(e) ==> e == AdapterErrorV::Malformed("missing required field 'model'"@),
        request_of(v) matches Ok(req) ==> {
            let items = items_or_none(v.get("messages"@));
            &&& v.get("model"@) == Some(JsonV::Str(req.model))
            &&& req.messages.len() == items.len()
            &&& forall|i: int| 0 <= i < items.len() ==> req.messages[i] == message_of(#[trigger] items[i])
            &&& match v.get("system"@) {
                Some(c) => req.system == Some(flat_text(c)),
                None => req.system is None,
            }
            &&& req.tools == tools_of(items_or_none(v.get("tools"@)))
            &&& match v.get("tool_choice"@) {
                Some(c) => req.tool_choice == tool_choice_of(c),
                None => req.tool_choice is None,
            }
            &&& req.sampling.temperature == some_double(v.get("temperature"@))
            &&& req.sampling.top_p == some_double(v.get("top_p"@))
            &&& req.sampling.top_k == some_count(v.get("top_k"@))
            &&& req.sampling.max_tokens == some_count(v.get("max_tokens"@))
            &&& req.sampling.stop == items_or_none(v.get("stop_sequences"@)).filter_map(
                |x: JsonV| some_text(Some(x)),
            )
            &&& req.stream <==> v.get("stream"@) == Some(JsonV::Bool(true))
            &&& req.extra == collected_extra(
                v,
                seq![
                    "model"@,
                    "messages"@,
                    "system"@,
                    "tools"@,
                    "tool_choice"@,
                    "max_tokens"@,
                    "temperature"@,
                    "top_p"@,
                    "top_k"@,
                    "stop_sequences"@,
                    "stream"@,
                ],
                "anthropic"@,
            )
        },
{
    law_texts_are_picked(items_or_none(v.get("stop_sequences"@)));
    assert(tools_of(Seq::empty()) == Seq::<ToolV>::empty());
    assert(string_items(Seq::empty()) == Seq::<Seq<char>>::empty());
}

/// A response is read: every field from the member of its name.
pub proof fn law_responses_are_read(v: JsonV)
    ensures
        ({
            let r = response_of(v);
            &&& r.model == text_or_none(v.get("model"@))
            &&& r.content == content_in(v.get("content"@))
            &&& match v.get("stop_reason"@) {
                Some(JsonV::Str(name)) => r.stop_reason == Some(stop_reason_of(name)),
                _ => r.stop_reason is None,
            }
            &&& match v.get("usage"@) {
                Some(u) => r.usage == Some(
                    Usage {
                        input_tokens: some_count(u.get("input_tokens"@)),
                        output_tokens: some_count(u.get("output_tokens"@)),
                    },
                ),
                None => r.usage is None,
            }
            &&& r.extra == collected_extra(
                v,
                seq!["model"@, "content"@, "stop_reason"@, "usage"@],
                "anthropic"@,
            )
        }),
{
}

/// A body that is no JSON is refused with the reader's words, whether it is a
/// request's or a response's; one that is reads by its value.
pub proof fn law_bodies_are_read(body: Seq<u8>)
    ensures
        match json_read(body) {
            Ok(v) => request_read(body) == request_of(v) && response_read(body) == Ok::<ResponseV, AdapterErrorV>(
                response_of(v),
            ),
            Err(why) => {
                let refused = AdapterErrorV::Malformed("invalid JSON: "@ + why);
                request_read(body) == Err::<RequestV, AdapterErrorV>(refused) && response_read(body) == Err::<
                    ResponseV,
                    AdapterErrorV,
                >(refused)
            },
        },
{
}

/// A text of a member's member.
pub open spec fn text_inside(v: JsonV, outer: Seq<char>, inner: Seq<char>) -> Option<Seq<char>> {
    match v.get(outer) {
        Some(m) => some_text(m.get(inner)),
        None => None,
    }
}

/// A frame gives one fragment, by its type: a piece of text, a piece of a call's
/// arguments, token counts, or the end; any other frame gives nothing.
pub proof fn law_fragments_are_read(v: JsonV)
    ensures
        ({
            let d = delta_of(v);
            let what = text_inside(v, "delta"@, "type"@);
            if is_of_type(v, "content_block_delta"@) {
                if what == Some("text_delta"@) {
                    match text_inside(v, "delta"@, "text"@) {
                        Some(text) => d matches Some(d) && d.kind == DeltaKind::Text && d.text == Some(text)
                            && d.tool_call is None && d.usage is None && d.finish is None,
                        None => d is None,
                    }
                } else if what == Some("input_json_delta"@) {
                    d matches Some(d) && d.kind == DeltaKind::ToolCall && (d.tool_call matches Some(c) && c.id is None
                        && c.name is None && c.arguments_fragment == text_inside(v, "delta"@, "partial_json"@))
                        && d.text is None && d.usage is None && d.finish is None
                } else {
                    d is None
                }
            } else if is_of_type(v, "message_delta"@) {
                match v.get("usage"@) {
                    Some(u) => d matches Some(d) && d.kind == DeltaKind::Usage && (d.usage matches Some(n)
                        && n.input_tokens == some_count(u.get("input_tokens"@)) && n.output_tokens == some_count(
                        u.get("output_tokens"@),
                    )) && d.text is None && d.tool_call is None && d.finish is None,
                    None => d is None,
                }
            } else if is_of_type(v, "message_stop"@) {
                d matches Some(d) && d.kind == DeltaKind::Finish && (d.finish matches Some(f) && f.reason is None)
                    && d.text is None && d.tool_call is None && d.usage is None
            } else {
                d is None
            }
        }),
{
    lemma_anthropic_words();
}

/// A frame's data is read as it stands; what is no JSON gives no fragment.
pub proof fn law_fragment_data_is_read(data: Seq<char>)
    ensures
        match json_read(encode_utf8(data)) {
            Ok(v) => delta_read(data) == delta_of(v),
            Err(_) => delta_read(data) is None,
        },
{
}

/// The index that a frame gives, the first where it gives none.
pub open spec fn index_in(v: JsonV) -> u64 {
    match some_count(v.get("index"@)) {
        Some(i) => i,
        None => 0,
    }
}

/// A frame gives the canonical event of its type, each field from the member of its
/// name; one of another type gives none.
pub proof fn law_events_are_read(v: JsonV)
    ensures
        ({
            let e = event_of(v);
            if is_of_type(v, "message_start"@) {
                e matches Some(EventV::MessageStart { model, role }) && {
                    &&& model == match text_inside(v, "message"@, "model"@) {
                        Some(s) => s,
                        None => Seq::empty(),
                    }
                    &&& role == match text_inside(v, "message"@, "role"@) {
                        Some(name) => role_of(name),
                        None => Role::Assistant,
                    }
                }
            } else if is_of_type(v, "content_block_start"@) {
                e matches Some(EventV::ContentBlockStart { index, block }) && {
                    let given = match v.get("content_block"@) {
                        Some(b) => one_block(b),
                        None => None,
                    };
                    &&& index == index_in(v)
                    &&& given matches Some(b) ==> block == b
                    &&& given is None ==> (block matches BlockV::Text { text } && text.len() == 0)
                }
            } else if is_of_type(v, "content_block_delta"@) {
                let what = text_inside(v, "delta"@, "type"@);
                if what == Some("text_delta"@) {
                    e matches Some(EventV::ContentBlockDelta { index, text, partial_json }) && {
                        &&& index == index_in(v)
                        &&& text == Some(
                            match text_inside(v, "delta"@, "text"@) {
                                Some(s) => s,
                                None => Seq::empty(),
                            },
                        )
                        &&& partial_json is None
                    }
                } else if what == Some("input_json_delta"@) {
                    e matches Some(EventV::ContentBlockDelta { index, text, partial_json }) && {
                        &&& index == index_in(v)
                        &&& partial_json == Some(
                            match text_inside(v, "delta"@, "partial_json"@) {
                                Some(s) => s,
                                None => Seq::empty(),
                            },
                        )
                        &&& text is None
                    }
                } else {
                    e is None
                }
            } else if is_of_type(v, "content_block_stop"@) {
                e == Some(EventV::ContentBlockStop { index: index_in(v) })
            } else if is_of_type(v, "message_delta"@) {
                e matches Some(EventV::MessageDelta { stop_reason, usage }) && {
                    &&& stop_reason == match text_inside(v, "delta"@, "stop_reason"@) {
                        Some(name) => Some(stop_reason_of(name)),
                        None => None,
                    }
                    &&& match v.get("usage"@) {
                        Some(u) => usage == Some(
                            Usage {
                                input_tokens: some_count(u.get("input_tokens"@)),
                                output_tokens: some_count(u.get("output_tokens"@)),
                            },
                        ),
                        None => usage is None,
                    }
                }
            } else if is_of_type(v, "message_stop"@) {
                e == Some(EventV::MessageStop)
            } else {
                e is None
            }
        }),
{
    lemma_anthropic_words();
}

/// A frame's data is read without the blanks around it: nothing and what is no JSON
/// give no event.
pub proof fn law_event_data_is_read(data: Seq<char>)
    ensures
        trimmed(data).len() == 0 ==> event_read(data) is None,
        trimmed(data).len() > 0 ==> match json_read(encode_utf8(trimmed(data))) {
            Ok(v) => event_read(data) == event_of(v),
            Err(_) => event_read(data) is None,
        },
{
}

} // verus!
