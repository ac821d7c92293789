//! What the records of the gateway spell out, and how they are spelled.

use vstd::prelude::*;

use crate::envelope::{envelope_in, EnvelopeV};
use crate::http_msg::{msg_in, HttpMsgV};
use crate::json::{double_of, double_value, string_items, Double, JsonV, Num};
use crate::json_laws::has_only;
use crate::llm::canonical::{
    BlockV, DroppedV, EventV, MessageV, ReportV, RequestV, ResponseV, Role, SamplingV, StopReasonV, ToolChoiceV,
    ToolV, Usage,
};
use crate::llm::delta::{DeltaKind, DeltaV, FinishV, ToolCallDeltaV};
use crate::llm::form::{
    block_form, block_in, block_list, call_form, call_in, choice_form, choice_in, counts_in, ctx_in, delta_form,
    delta_in, dropped_form, dropped_in, dropped_list, event_form, event_in, finish_form, finish_in, kind_form, kind_in,
    message_form, message_in, message_list, reason_form, reason_in, report_form, report_in, request_form, request_in,
    response_form, response_in, role_form, role_in, sampling_form, sampling_in, tool_form, tool_in, tool_list,
    usage_form, usage_in,
};
use crate::llm::words::{lemma_canonical_words, lemma_envelope_words};
use crate::llm::{llm_in, plain_message_in, plain_tool_in, LlmV, PlainMessageV};
use crate::loopback::token::{claims_in, ChainTokenV};
use crate::registry::{facts_in, FactsV};
use crate::shape::seated;

verus! {

/// Whether a member says a text, or is absent or null where there is none.
pub open spec fn may_say(given: Option<JsonV>, text: Option<Seq<char>>) -> bool {
    match text {
        Some(s) => given == Some(JsonV::Str(s)),
        None => given is None || given == Some(JsonV::Null),
    }
}

/// Whether a member is a count, or is absent or null where there is none.
pub open spec fn may_count(given: Option<JsonV>, n: Option<u64>) -> bool {
    match n {
        Some(n) => given == Some(JsonV::Number(Num::PosInt(n))),
        None => given is None || given == Some(JsonV::Null),
    }
}

/// Whether a member is a number, or is absent or null where there is none.
pub open spec fn may_measure(given: Option<JsonV>, d: Option<Double>) -> bool {
    match d {
        Some(d) => given matches Some(JsonV::Number(n)) && d.bits == double_of(n),
        None => given is None || given == Some(JsonV::Null),
    }
}

/// Whether a member lists some texts, in order.
pub open spec fn lists(given: Option<JsonV>, texts: Seq<Seq<char>>) -> bool {
    given matches Some(JsonV::Array(items)) && items.len() == texts.len() && forall|i: int|
        0 <= i < items.len() ==> #[trigger] items[i] == JsonV::Str(texts[i])
}

/// Whether a member lists some things that are read one by one, in order.
pub open spec fn lists_each<T>(given: Option<JsonV>, list: Seq<T>, read: spec_fn(JsonV) -> Option<T>) -> bool {
    given matches Some(JsonV::Array(items)) && items.len() == list.len() && forall|i: int|
        0 <= i < items.len() ==> read(#[trigger] items[i]) == Some(list[i])
}

/// Whether a member is read as a thing.
pub open spec fn is_read<T>(given: Option<JsonV>, x: T, read: spec_fn(JsonV) -> Option<T>) -> bool {
    given matches Some(v) && read(v) == Some(x)
}

/// Whether a member is read as a thing, or is absent or null where there is none.
pub open spec fn may_be_read<T>(given: Option<JsonV>, x: Option<T>, read: spec_fn(JsonV) -> Option<T>) -> bool {
    match x {
        Some(x) => given matches Some(v) && !(v is Null) && read(v) == Some(x),
        None => given is None || given == Some(JsonV::Null),
    }
}

/// Whether a member holds other members, none where it is absent.
pub open spec fn holds_others(given: Option<JsonV>, m: Map<Seq<char>, JsonV>) -> bool {
    match given {
        None => m == Map::<Seq<char>, JsonV>::empty(),
        Some(v) => v == JsonV::Object(m),
    }
}

/// Whether a member holds headers, each a text.
pub open spec fn holds_headers(given: Option<JsonV>, headers: Map<Seq<char>, Seq<char>>) -> bool {
    given matches Some(JsonV::Object(m)) && m.dom() == headers.dom() && forall|k: Seq<char>| #[trigger]
        m.dom().contains(k) ==> m[k] == JsonV::Str(headers[k])
}

proof fn lemma_texts(items: Seq<JsonV>, texts: Seq<Seq<char>>)
    ensures
        (crate::json::all_texts(items) && string_items(items) == texts) <==> lists(Some(JsonV::Array(items)), texts),
    decreases items.len(),
{
    if items.len() > 0 {
        let before = items.drop_last();
        if texts.len() > 0 {
            lemma_texts(before, texts.drop_last());
        }
        lemma_texts(before, string_items(before));
        assert(items[items.len() - 1] == items.last());
        assert forall|i: int|
            #![trigger before[i]]
            #![trigger items[i]]
            0 <= i < before.len() implies before[i] == items[i] by {}
        if crate::json::all_texts(items) && string_items(items) == texts {
            assert(crate::json::all_texts(before)) by {
                assert forall|i: int| 0 <= i < before.len() implies (#[trigger] before[i]) is Str by {
                    assert(items[i] is Str);
                }
            }
            assert(items.last() is Str);
            assert(texts.drop_last() == string_items(before));
            assert forall|i: int| 0 <= i < items.len() implies #[trigger] items[i] == JsonV::Str(texts[i]) by {
                if i < before.len() {
                    assert(before[i] == JsonV::Str(texts.drop_last()[i]));
                }
            }
        }
        if lists(Some(JsonV::Array(items)), texts) {
            assert(lists(Some(JsonV::Array(before)), texts.drop_last())) by {
                assert forall|i: int| 0 <= i < before.len() implies #[trigger] before[i] == JsonV::Str(
                    texts.drop_last()[i],
                ) by {
                    assert(items[i] == JsonV::Str(texts[i]));
                }
            }
            assert(string_items(items) == texts.drop_last().push(texts.last()));
            assert(texts.drop_last().push(texts.last()) == texts);
            assert forall|i: int| 0 <= i < items.len() implies (#[trigger] items[i]) is Str by {}
        }
    } else {
        assert(texts.len() == 0 ==> texts == string_items(items));
    }
}

proof fn lemma_block_list(items: Seq<JsonV>, list: Seq<BlockV>)
    ensures
        block_list(items) == Some(list) <==> lists_each(Some(JsonV::Array(items)), list, |v: JsonV| block_in(v, false)),
    decreases items.len(),
{
    let f = |v: JsonV| block_in(v, false);
    if items.len() > 0 {
        let before = items.drop_last();
        assert(items[items.len() - 1] == items.last());
        assert forall|i: int|
            #![trigger before[i]]
            #![trigger items[i]]
            0 <= i < before.len() implies before[i] == items[i] by {}
        if block_list(items) == Some(list) {
            let less = block_list(before)->Some_0;
            lemma_block_list(before, less);
            assert(list.drop_last() == less);
            assert forall|i: int| 0 <= i < items.len() implies f(#[trigger] items[i]) == Some(list[i]) by {
                if i < before.len() {
                    assert(f(before[i]) == Some(less[i]));
                }
            }
        }
        if lists_each(Some(JsonV::Array(items)), list, f) {
            lemma_block_list(before, list.drop_last());
            assert(lists_each(Some(JsonV::Array(before)), list.drop_last(), f)) by {
                assert forall|i: int| 0 <= i < before.len() implies f(#[trigger] before[i]) == Some(
                    list.drop_last()[i],
                ) by {
                    assert(f(items[i]) == Some(list[i]));
                }
            }
            assert(f(items[items.len() - 1]) == Some(list[list.len() - 1]));
            assert(list.drop_last().push(list.last()) == list);
        }
    } else {
        if list.len() == 0 {
            assert(list == Seq::<BlockV>::empty());
        }
    }
}

proof fn lemma_message_list(items: Seq<JsonV>, list: Seq<MessageV>)
    ensures
        message_list(items) == Some(list) <==> lists_each(Some(JsonV::Array(items)), list, |v: JsonV| message_in(v)),
    decreases items.len(),
{
    let f = |v: JsonV| message_in(v);
    if items.len() > 0 {
        let before = items.drop_last();
        assert(items[items.len() - 1] == items.last());
        assert forall|i: int|
            #![trigger before[i]]
            #![trigger items[i]]
            0 <= i < before.len() implies before[i] == items[i] by {}
        if message_list(items) == Some(list) {
            let less = message_list(before)->Some_0;
            lemma_message_list(before, less);
            assert(list.drop_last() == less);
            assert forall|i: int| 0 <= i < items.len() implies f(#[trigger] items[i]) == Some(list[i]) by {
                if i < before.len() {
                    assert(f(before[i]) == Some(less[i]));
                }
            }
        }
        if lists_each(Some(JsonV::Array(items)), list, f) {
            lemma_message_list(before, list.drop_last());
            assert(lists_each(Some(JsonV::Array(before)), list.drop_last(), f)) by {
                assert forall|i: int| 0 <= i < before.len() implies f(#[trigger] before[i]) == Some(
                    list.drop_last()[i],
                ) by {
                    assert(f(items[i]) == Some(list[i]));
                }
            }
            assert(f(items[items.len() - 1]) == Some(list[list.len() - 1]));
            assert(list.drop_last().push(list.last()) == list);
        }
    } else {
        if list.len() == 0 {
            assert(list == Seq::<MessageV>::empty());
        }
    }
}

proof fn lemma_tool_list(items: Seq<JsonV>, list: Seq<ToolV>)
    ensures
        tool_list(items) == Some(list) <==> lists_each(Some(JsonV::Array(items)), list, |v: JsonV| tool_in(v)),
    decreases items.len(),
{
    let f = |v: JsonV| tool_in(v);
    if items.len() > 0 {
        let before = items.drop_last();
        assert(items[items.len() - 1] == items.last());
        assert forall|i: int|
            #![trigger before[i]]
            #![trigger items[i]]
            0 <= i < before.len() implies before[i] == items[i] by {}
        if tool_list(items) == Some(list) {
            let less = tool_list(before)->Some_0;
            lemma_tool_list(before, less);
            assert(list.drop_last() == less);
            assert forall|i: int| 0 <= i < items.len() implies f(#[trigger] items[i]) == Some(list[i]) by {
                if i < before.len() {
                    assert(f(before[i]) == Some(less[i]));
                }
            }
        }
        if lists_each(Some(JsonV::Array(items)), list, f) {
            lemma_tool_list(before, list.drop_last());
            assert(lists_each(Some(JsonV::Array(before)), list.drop_last(), f)) by {
                assert forall|i: int| 0 <= i < before.len() implies f(#[trigger] before[i]) == Some(
                    list.drop_last()[i],
                ) by {
                    assert(f(items[i]) == Some(list[i]));
                }
            }
            assert(f(items[items.len() - 1]) == Some(list[list.len() - 1]));
            assert(list.drop_last().push(list.last()) == list);
        }
    } else {
        if list.len() == 0 {
            assert(list == Seq::<ToolV>::empty());
        }
    }
}

proof fn lemma_dropped_list(items: Seq<JsonV>, list: Seq<DroppedV>)
    ensures
        dropped_list(items) == Some(list) <==> lists_each(Some(JsonV::Array(items)), list, |v: JsonV| dropped_in(v)),
    decreases items.len(),
{
    let f = |v: JsonV| dropped_in(v);
    if items.len() > 0 {
        let before = items.drop_last();
        assert(items[items.len() - 1] == items.last());
        assert forall|i: int|
            #![trigger before[i]]
            #![trigger items[i]]
            0 <= i < before.len() implies before[i] == items[i] by {}
        if dropped_list(items) == Some(list) {
            let less = dropped_list(before)->Some_0;
            lemma_dropped_list(before, less);
            assert(list.drop_last() == less);
            assert forall|i: int| 0 <= i < items.len() implies f(#[trigger] items[i]) == Some(list[i]) by {
                if i < before.len() {
                    assert(f(before[i]) == Some(less[i]));
                }
            }
        }
        if lists_each(Some(JsonV::Array(items)), list, f) {
            lemma_dropped_list(before, list.drop_last());
            assert(lists_each(Some(JsonV::Array(before)), list.drop_last(), f)) by {
                assert forall|i: int| 0 <= i < before.len() implies f(#[trigger] before[i]) == Some(
                    list.drop_last()[i],
                ) by {
                    assert(f(items[i]) == Some(list[i]));
                }
            }
            assert(f(items[items.len() - 1]) == Some(list[list.len() - 1]));
            assert(list.drop_last().push(list.last()) == list);
        }
    } else {
        if list.len() == 0 {
            assert(list == Seq::<DroppedV>::empty());
        }
    }
}

proof fn lemma_plain_messages(items: Seq<JsonV>, list: Seq<PlainMessageV>)
    ensures
        crate::llm::message_list(items) == Some(list) <==> lists_each(Some(JsonV::Array(items)), list, |v: JsonV| plain_message_in(v)),
    decreases items.len(),
{
    let f = |v: JsonV| plain_message_in(v);
    if items.len() > 0 {
        let before = items.drop_last();
        assert(items[items.len() - 1] == items.last());
        assert forall|i: int|
            #![trigger before[i]]
            #![trigger items[i]]
            0 <= i < before.len() implies before[i] == items[i] by {}
        if crate::llm::message_list(items) == Some(list) {
            let less = crate::llm::message_list(before)->Some_0;
            lemma_plain_messages(before, less);
            assert(list.drop_last() == less);
            assert forall|i: int| 0 <= i < items.len() implies f(#[trigger] items[i]) == Some(list[i]) by {
                if i < before.len() {
                    assert(f(before[i]) == Some(less[i]));
                }
            }
        }
        if lists_each(Some(JsonV::Array(items)), list, f) {
            lemma_plain_messages(before, list.drop_last());
            assert(lists_each(Some(JsonV::Array(before)), list.drop_last(), f)) by {
                assert forall|i: int| 0 <= i < before.len() implies f(#[trigger] before[i]) == Some(
                    list.drop_last()[i],
                ) by {
                    assert(f(items[i]) == Some(list[i]));
                }
            }
            assert(f(items[items.len() - 1]) == Some(list[list.len() - 1]));
            assert(list.drop_last().push(list.last()) == list);
        }
    } else {
        if list.len() == 0 {
            assert(list == Seq::<PlainMessageV>::empty());
        }
    }
}

proof fn lemma_plain_tools(items: Seq<JsonV>, list: Seq<Seq<char>>)
    ensures
        crate::llm::tool_list(items) == Some(list) <==> lists_each(Some(JsonV::Array(items)), list, |v: JsonV| plain_tool_in(v)),
    decreases items.len(),
{
    let f = |v: JsonV| plain_tool_in(v);
    if items.len() > 0 {
        let before = items.drop_last();
        assert(items[items.len() - 1] == items.last());
        assert forall|i: int|
            #![trigger before[i]]
            #![trigger items[i]]
            0 <= i < before.len() implies before[i] == items[i] by {}
        if crate::llm::tool_list(items) == Some(list) {
            let less = crate::llm::tool_list(before)->Some_0;
            lemma_plain_tools(before, less);
            assert(list.drop_last() == less);
            assert forall|i: int| 0 <= i < items.len() implies f(#[trigger] items[i]) == Some(list[i]) by {
                if i < before.len() {
                    assert(f(before[i]) == Some(less[i]));
                }
            }
        }
        if lists_each(Some(JsonV::Array(items)), list, f) {
            lemma_plain_tools(before, list.drop_last());
            assert(lists_each(Some(JsonV::Array(before)), list.drop_last(), f)) by {
                assert forall|i: int| 0 <= i < before.len() implies f(#[trigger] before[i]) == Some(
                    list.drop_last()[i],
                ) by {
                    assert(f(items[i]) == Some(list[i]));
                }
            }
            assert(f(items[items.len() - 1]) == Some(list[list.len() - 1]));
            assert(list.drop_last().push(list.last()) == list);
        }
    } else {
        if list.len() == 0 {
            assert(list == Seq::<Seq<char>>::empty());
        }
    }
}

pub proof fn lemma_headers(m: Map<Seq<char>, JsonV>, headers: Map<Seq<char>, Seq<char>>)
    ensures
        crate::http_msg::read_headers(Some(JsonV::Object(m))) == Some(headers) <==> holds_headers(
            Some(JsonV::Object(m)),
            headers,
        ),
{
    let read = crate::http_msg::read_headers(Some(JsonV::Object(m)));
    if holds_headers(Some(JsonV::Object(m)), headers) {
        assert(crate::http_msg::all_strings(m));
        assert(read->Some_0 =~= headers);
    }
    if read == Some(headers) {
        assert(m.dom() =~= headers.dom());
    }
}

/// A message is spelled out by its role and its content.
pub proof fn law_message_records(v: JsonV, x: MessageV)
    ensures
        message_in(v) == Some(x) <==> {
            let t = seated(v, seq!["role"@, "content"@], 2);
            &&& is_read(t.get("role"@), x.role, |e: JsonV| role_in(e, false))
            &&& lists_each(t.get("content"@), x.content, |e: JsonV| block_in(e, false))
            &&& t is Object
        },
{
    crate::field_names::law_llm_form_names();
    let t = seated(v, seq!["role"@, "content"@], 2);
    if let Some(JsonV::Array(items)) = t.get("content"@) {
        lemma_block_list(items, x.content);
    }
}

/// A tool is spelled out by its name, its description and its schema.
pub proof fn law_tool_records(v: JsonV, x: ToolV)
    ensures
        tool_in(v) == Some(x) <==> {
            let t = seated(v, seq!["name"@, "description"@, "input_schema"@], 3);
            &&& t.get("name"@) == Some(JsonV::Str(x.name))
            &&& may_say(t.get("description"@), x.description)
            &&& t.get("input_schema"@) == Some(x.input_schema)
            &&& t is Object
        },
{
    crate::field_names::law_llm_form_names();
    let t = seated(v, seq!["name"@, "description"@, "input_schema"@], 3);
}

/// Sampling is spelled out field by field.
pub proof fn law_sampling_records(v: JsonV, x: SamplingV)
    ensures
        sampling_in(v) == Some(x) <==> {
            let t = seated(v, seq!["temperature"@, "top_p"@, "top_k"@, "max_tokens"@, "stop"@], 5);
            &&& may_measure(t.get("temperature"@), x.temperature)
            &&& may_measure(t.get("top_p"@), x.top_p)
            &&& may_count(t.get("top_k"@), x.top_k)
            &&& may_count(t.get("max_tokens"@), x.max_tokens)
            &&& lists(t.get("stop"@), x.stop)
            &&& t is Object
        },
{
    crate::field_names::law_llm_form_names();
    let t = seated(v, seq!["temperature"@, "top_p"@, "top_k"@, "max_tokens"@, "stop"@], 5);
    if let Some(JsonV::Array(items)) = t.get("stop"@) {
        lemma_texts(items, x.stop);
        lemma_texts(items, string_items(items));
    }
}

/// Token counts are spelled out one by one.
pub proof fn law_usage_records(v: JsonV, x: Usage)
    ensures
        usage_in(v) == Some(x) <==> {
            let t = seated(v, seq!["input_tokens"@, "output_tokens"@], 2);
            &&& may_count(t.get("input_tokens"@), x.input_tokens)
            &&& may_count(t.get("output_tokens"@), x.output_tokens)
            &&& t is Object
        },
{
    crate::field_names::law_llm_form_names();
    let t = seated(v, seq!["input_tokens"@, "output_tokens"@], 2);
}

/// The token counts of a fragment are spelled out one by one.
pub proof fn law_fragment_count_records(v: JsonV, x: crate::llm::delta::Usage)
    ensures
        counts_in(v) == Some(x) <==> {
            let t = seated(v, seq!["input_tokens"@, "output_tokens"@], 2);
            &&& may_count(t.get("input_tokens"@), x.input_tokens)
            &&& may_count(t.get("output_tokens"@), x.output_tokens)
            &&& t is Object
        },
{
    crate::field_names::law_llm_form_names();
    let t = seated(v, seq!["input_tokens"@, "output_tokens"@], 2);
}

/// A field that was dropped is spelled out by its path and the reason.
pub proof fn law_dropped_records(v: JsonV, x: DroppedV)
    ensures
        dropped_in(v) == Some(x) <==> {
            let t = seated(v, seq!["path"@, "reason"@], 2);
            &&& t.get("path"@) == Some(JsonV::Str(x.path))
            &&& t.get("reason"@) == Some(JsonV::Str(x.reason))
            &&& t is Object
        },
{
    crate::field_names::law_llm_form_names();
    let t = seated(v, seq!["path"@, "reason"@], 2);
}

/// A report is spelled out by what was dropped and the notes.
pub proof fn law_report_records(v: JsonV, x: ReportV)
    ensures
        report_in(v) == Some(x) <==> {
            let t = seated(v, seq!["dropped"@, "notes"@], 2);
            &&& lists_each(t.get("dropped"@), x.dropped, |e: JsonV| dropped_in(e))
            &&& lists(t.get("notes"@), x.notes)
            &&& t is Object
        },
{
    crate::field_names::law_llm_form_names();
    let t = seated(v, seq!["dropped"@, "notes"@], 2);
    if let Some(JsonV::Array(items)) = t.get("dropped"@) {
        lemma_dropped_list(items, x.dropped);
    }
    if let Some(JsonV::Array(items)) = t.get("notes"@) {
        lemma_texts(items, x.notes);
        lemma_texts(items, string_items(items));
    }
}

/// The context of a request is spelled out by its path and its method.
pub proof fn law_context_records(v: JsonV, path: Seq<char>, method: Seq<char>)
    ensures
        ctx_in(v) == Some((path, method)) <==> {
            let t = seated(v, seq!["path"@, "method"@], 2);
            &&& t.get("path"@) == Some(JsonV::Str(path))
            &&& t.get("method"@) == Some(JsonV::Str(method))
        },
{
    crate::field_names::law_llm_form_names();
    let t = seated(v, seq!["path"@, "method"@], 2);
}

/// A request is spelled out field by field; the system prompt, the choice of a tool and
/// the extra fields may be left out.
pub proof fn law_request_records(v: JsonV, x: RequestV)
    ensures
        request_in(v) == Some(x) <==> {
            let t = seated(v, seq!["model"@, "messages"@, "system"@, "tools"@, "tool_choice"@, "sampling"@, "stream"@, "extra"@], 7);
            &&& t.get("model"@) == Some(JsonV::Str(x.model))
            &&& lists_each(t.get("messages"@), x.messages, |e: JsonV| message_in(e))
            &&& may_say(t.get("system"@), x.system)
            &&& lists_each(t.get("tools"@), x.tools, |e: JsonV| tool_in(e))
            &&& may_be_read(t.get("tool_choice"@), x.tool_choice, |e: JsonV| choice_in(e))
            &&& is_read(t.get("sampling"@), x.sampling, |e: JsonV| sampling_in(e))
            &&& t.get("stream"@) == Some(JsonV::Bool(x.stream))
            &&& holds_others(t.get("extra"@), x.extra)
            &&& t is Object
        },
{
    crate::field_names::law_llm_form_names();
    let t = seated(v, seq!["model"@, "messages"@, "system"@, "tools"@, "tool_choice"@, "sampling"@, "stream"@, "extra"@], 7);
    if let Some(JsonV::Array(items)) = t.get("messages"@) {
        lemma_message_list(items, x.messages);
    }
    if let Some(JsonV::Array(items)) = t.get("tools"@) {
        lemma_tool_list(items, x.tools);
    }
}

/// A response is spelled out field by field; the stop reason, the token counts and the
/// extra fields may be left out.
pub proof fn law_response_records(v: JsonV, x: ResponseV)
    ensures
        response_in(v) == Some(x) <==> {
            let t = seated(v, seq!["model"@, "content"@, "stop_reason"@, "usage"@, "extra"@], 4);
            &&& t.get("model"@) == Some(JsonV::Str(x.model))
            &&& lists_each(t.get("content"@), x.content, |e: JsonV| block_in(e, false))
            &&& may_be_read(t.get("stop_reason"@), x.stop_reason, |e: JsonV| reason_in(e, false))
            &&& may_be_read(t.get("usage"@), x.usage, |e: JsonV| usage_in(e))
            &&& holds_others(t.get("extra"@), x.extra)
            &&& t is Object
        },
{
    crate::field_names::law_llm_form_names();
    let t = seated(v, seq!["model"@, "content"@, "stop_reason"@, "usage"@, "extra"@], 4);
    if let Some(JsonV::Array(items)) = t.get("content"@) {
        lemma_block_list(items, x.content);
    }
}

/// A piece of a call is spelled out field by field.
pub proof fn law_call_records(v: JsonV, x: ToolCallDeltaV)
    ensures
        call_in(v) == Some(x) <==> {
            let t = seated(v, seq!["id"@, "name"@, "arguments_fragment"@], 3);
            &&& may_say(t.get("id"@), x.id)
            &&& may_say(t.get("name"@), x.name)
            &&& may_say(t.get("arguments_fragment"@), x.arguments_fragment)
            &&& t is Object
        },
{
    crate::field_names::law_llm_form_names();
    let t = seated(v, seq!["id"@, "name"@, "arguments_fragment"@], 3);
}

/// An end is spelled out by its reason.
pub proof fn law_finish_records(v: JsonV, x: FinishV)
    ensures
        finish_in(v) == Some(x) <==> {
            let t = seated(v, seq!["reason"@], 1);
            &&& may_say(t.get("reason"@), x.reason)
            &&& t is Object
        },
{
    crate::field_names::law_llm_form_names();
    let t = seated(v, seq!["reason"@], 1);
}

/// A fragment is spelled out by its kind and what it holds.
pub proof fn law_fragment_records(v: JsonV, x: DeltaV)
    ensures
        delta_in(v) == Some(x) <==> {
            let t = seated(v, seq!["kind"@, "text"@, "tool_call"@, "usage"@, "finish"@], 5);
            &&& is_read(t.get("kind"@), x.kind, |e: JsonV| kind_in(e))
            &&& may_say(t.get("text"@), x.text)
            &&& may_be_read(t.get("tool_call"@), x.tool_call, |e: JsonV| call_in(e))
            &&& may_be_read(t.get("usage"@), x.usage, |e: JsonV| counts_in(e))
            &&& may_be_read(t.get("finish"@), x.finish, |e: JsonV| finish_in(e))
            &&& t is Object
        },
{
    crate::field_names::law_llm_form_names();
    let t = seated(v, seq!["kind"@, "text"@, "tool_call"@, "usage"@, "finish"@], 5);
}

/// A message of the plain view is spelled out by its role and its content.
pub proof fn law_plain_message_records(v: JsonV, x: PlainMessageV)
    ensures
        plain_message_in(v) == Some(x) <==> {
            let t = seated(v, seq!["role"@, "content"@], 2);
            &&& t.get("role"@) == Some(JsonV::Str(x.role))
            &&& t.get("content"@) == Some(JsonV::Str(x.content))
        },
{
    crate::field_names::law_llm_names();
    let t = seated(v, seq!["role"@, "content"@], 2);
}

/// A tool of the plain view is spelled out by its name.
pub proof fn law_plain_tool_records(v: JsonV, x: Seq<char>)
    ensures
        plain_tool_in(v) == Some(x) <==> {
            let t = seated(v, seq!["name"@], 1);
            &&& t.get("name"@) == Some(JsonV::Str(x))
        },
{
    crate::field_names::law_llm_names();
    let t = seated(v, seq!["name"@], 1);
}

/// The plain view is spelled out field by field.
pub proof fn law_plain_view_records(v: JsonV, x: LlmV)
    ensures
        llm_in(v) == Some(x) <==> {
            let t = seated(v, seq!["provider"@, "model"@, "messages"@, "tools"@, "max_tokens"@, "stream"@, "facts"@], 7);
            &&& t.get("provider"@) == Some(JsonV::Str(x.provider))
            &&& t.get("model"@) == Some(JsonV::Str(x.model))
            &&& lists_each(t.get("messages"@), x.messages, |e: JsonV| plain_message_in(e))
            &&& lists_each(t.get("tools"@), x.tools, |e: JsonV| plain_tool_in(e))
            &&& may_count(t.get("max_tokens"@), x.max_tokens)
            &&& t.get("stream"@) == Some(JsonV::Bool(x.stream))
            &&& may_be_read(t.get("facts"@), x.facts, |e: JsonV| facts_in(e))
        },
{
    crate::field_names::law_llm_names();
    let t = seated(v, seq!["provider"@, "model"@, "messages"@, "tools"@, "max_tokens"@, "stream"@, "facts"@], 7);
    if let Some(JsonV::Array(items)) = t.get("messages"@) {
        lemma_plain_messages(items, x.messages);
    }
    if let Some(JsonV::Array(items)) = t.get("tools"@) {
        lemma_plain_tools(items, x.tools);
    }
}

/// The facts of a model are spelled out field by field.
pub proof fn law_facts_records(v: JsonV, x: FactsV)
    ensures
        facts_in(v) == Some(x) <==> {
            let t = v;
            &&& t.get("id"@) == Some(JsonV::Str(x.id))
            &&& t.get("provider"@) == Some(JsonV::Str(x.provider))
            &&& may_count(t.get("context"@), x.context)
            &&& may_count(t.get("max_output"@), x.max_output)
            &&& may_measure(t.get("cost_input"@), x.cost_input)
            &&& may_measure(t.get("cost_output"@), x.cost_output)
            &&& lists(t.get("modalities"@), x.modalities)
            &&& t.get("tool_call"@) == Some(JsonV::Bool(x.tool_call))
            &&& may_say(t.get("status"@), x.status)
        },
{
    let t = v;
    if let Some(JsonV::Array(items)) = t.get("modalities"@) {
        lemma_texts(items, x.modalities);
        lemma_texts(items, string_items(items));
    }
}

/// A message of HTTP is spelled out by its method, its path, its headers and its body.
pub proof fn law_message_of_http_records(v: JsonV, x: HttpMsgV)
    ensures
        msg_in(v) == Some(x) <==> {
            let t = seated(v, seq!["method"@, "path"@, "headers"@, "body_b64"@], 4);
            &&& t.get("method"@) == Some(JsonV::Str(x.method))
            &&& t.get("path"@) == Some(JsonV::Str(x.path))
            &&& holds_headers(t.get("headers"@), x.headers)
            &&& t.get("body_b64"@) == Some(JsonV::Str(x.body_b64))
        },
{
    crate::field_names::law_http_msg_names();
    let t = seated(v, seq!["method"@, "path"@, "headers"@, "body_b64"@], 4);
    if let Some(JsonV::Object(m)) = t.get("headers"@) {
        lemma_headers(m, x.headers);
    }
}

/// An envelope is spelled out field by field; the name of the step, the response, the
/// chunk and the view may be left out.
pub proof fn law_envelope_records(v: JsonV, x: EnvelopeV)
    ensures
        envelope_in(v) == Some(x) <==> {
            let t = seated(v, seq!["envelope_version"@, "hook"@, "route_id"@, "correlation_id"@, "self"@, "request"@, "response"@, "chunk"@, "llm"@, "context"@], 10);
            &&& t.get("envelope_version"@) == Some(JsonV::Number(Num::PosInt(x.envelope_version as u64)))
            &&& t.get("hook"@) == Some(JsonV::Str(x.hook))
            &&& t.get("route_id"@) == Some(JsonV::Str(x.route_id))
            &&& t.get("correlation_id"@) == Some(JsonV::Str(x.correlation_id))
            &&& may_say(t.get("self"@), x.self_)
            &&& is_read(t.get("request"@), x.request, |e: JsonV| msg_in(e))
            &&& may_be_read(t.get("response"@), x.response, |e: JsonV| msg_in(e))
            &&& may_be_read(t.get("chunk"@), x.chunk, |e: JsonV| Some(e))
            &&& may_be_read(t.get("llm"@), x.llm, |e: JsonV| llm_in(e))
            &&& t.get("context"@) == Some(JsonV::Object(x.context))
        },
{
    crate::field_names::law_envelope_names();
    let t = seated(v, seq!["envelope_version"@, "hook"@, "route_id"@, "correlation_id"@, "self"@, "request"@, "response"@, "chunk"@, "llm"@, "context"@], 10);
}

/// The claims of a token are spelled out one by one.
pub proof fn law_claim_records(v: JsonV, x: ChainTokenV)
    ensures
        claims_in(v) == Some(x) <==> {
            let t = seated(v, seq!["cid"@, "route_id"@, "resume_index"@, "hop"@, "expires_at_unix"@], 5);
            &&& t.get("cid"@) == Some(JsonV::Str(x.cid))
            &&& t.get("route_id"@) == Some(JsonV::Str(x.route_id))
            &&& t.get("resume_index"@) == Some(JsonV::Number(Num::PosInt(x.resume_index as u64)))
            &&& t.get("hop"@) == Some(JsonV::Number(Num::PosInt(x.hop as u64)))
            &&& t.get("expires_at_unix"@) == Some(JsonV::Number(Num::PosInt(x.expires_at_unix)))
        },
{
    crate::field_names::law_loopback_token_names();
    let t = seated(v, seq!["cid"@, "route_id"@, "resume_index"@, "hop"@, "expires_at_unix"@], 5);
}

/// Whether a value spells a word: as a text, or as the one key of a table that holds
/// nothing, which may be an empty table where that is allowed.
pub open spec fn spells(v: JsonV, word: Seq<char>, deep: bool) -> bool {
    v == JsonV::Str(word) || (v matches JsonV::Object(m) && m.dom() == set![word] && (m[word] is Null || (deep
        && m[word] == JsonV::Object(Map::empty()))))
}

/// The tag of a value: the first item of a list, else the member of that name.
pub open spec fn tag_of(v: JsonV, key: Seq<char>) -> Option<JsonV> {
    match v {
        JsonV::Array(items) => if items.len() > 0 {
            Some(items[0])
        } else {
            None
        },
        _ => v.get(key),
    }
}

/// Whether a value has a tag: its name, or its place where that is allowed.
pub open spec fn has_tag(v: JsonV, key: Seq<char>, name: Seq<char>, place: u64, deep: bool) -> bool {
    tag_of(v, key) == Some(JsonV::Str(name)) || (deep && tag_of(v, key) == Some(JsonV::Number(Num::PosInt(place))))
}

/// A list is read as a record where it has as many items as are needed and no more
/// than there are fields, each item under the name of its place; anything else stays
/// as it is.
pub proof fn law_records_may_be_lists(v: JsonV, names: Seq<Seq<char>>, needed: nat, i: int)
    requires
        names.no_duplicates(),
        0 <= i < names.len(),
    ensures
        !(v is Array) ==> seated(v, names, needed) == v,
        v matches JsonV::Array(a) ==> {
            &&& a.len() < needed || a.len() > names.len() ==> seated(v, names, needed) == v
            &&& needed <= a.len() <= names.len() ==> {
                &&& seated(v, names, needed) is Object
                &&& seated(v, names, needed).get(names[i]) == if i < a.len() {
                    Some(a[i])
                } else {
                    None
                }
            }
        },
{
    if let JsonV::Array(a) = v {
        if needed <= a.len() <= names.len() {
            crate::shape::law_fields_are_seated_in_order(a, names, needed, i);
        }
    }
}

/// The words for the roles, the stop reasons, the tool choices and the kinds of
/// fragments; the two that carry a text are tables with that text.
pub proof fn law_words_are_spelled(v: JsonV, deep: bool, text: Seq<char>)
    ensures
        role_in(v, deep) == Some(Role::System) <==> spells(v, "system"@, deep),
        role_in(v, deep) == Some(Role::User) <==> spells(v, "user"@, deep),
        role_in(v, deep) == Some(Role::Assistant) <==> spells(v, "assistant"@, deep),
        role_in(v, deep) == Some(Role::Tool) <==> spells(v, "tool"@, deep),
        kind_in(v) == Some(DeltaKind::Text) <==> spells(v, "text"@, false),
        kind_in(v) == Some(DeltaKind::ToolCall) <==> spells(v, "tool_call"@, false),
        kind_in(v) == Some(DeltaKind::Usage) <==> spells(v, "usage"@, false),
        kind_in(v) == Some(DeltaKind::Finish) <==> spells(v, "finish"@, false),
        kind_in(v) == Some(DeltaKind::Other) <==> spells(v, "other"@, false),
        choice_in(v) == Some(ToolChoiceV::Auto) <==> spells(v, "auto"@, false),
        choice_in(v) == Some(ToolChoiceV::Any) <==> spells(v, "any"@, false),
        choice_in(v) == Some(ToolChoiceV::Never) <==> spells(v, "none"@, false),
        reason_in(v, deep) == Some(StopReasonV::EndTurn) <==> spells(v, "end_turn"@, deep),
        reason_in(v, deep) == Some(StopReasonV::MaxTokens) <==> spells(v, "max_tokens"@, deep),
        reason_in(v, deep) == Some(StopReasonV::ToolUse) <==> spells(v, "tool_use"@, deep),
        reason_in(v, deep) == Some(StopReasonV::StopSequence) <==> spells(v, "stop_sequence"@, deep),
        choice_in(v) == Some(ToolChoiceV::Tool(text)) <==> (v matches JsonV::Object(m) && m.dom() == set!["tool"@] && m["tool"@]
            == JsonV::Str(text)),
        reason_in(v, deep) == Some(StopReasonV::Other(text)) <==> (v matches JsonV::Object(m) && m.dom() == set![
            "other"@,
        ] && m["other"@] == JsonV::Str(text)),
{
    lemma_canonical_words();
    if let JsonV::Object(m) = v {
        assert(set!["system"@].contains("system"@));
        assert(set!["user"@].contains("user"@));
        assert(set!["assistant"@].contains("assistant"@));
        assert(set!["tool"@].contains("tool"@));
        assert(set!["text"@].contains("text"@));
        assert(set!["tool_call"@].contains("tool_call"@));
        assert(set!["usage"@].contains("usage"@));
        assert(set!["finish"@].contains("finish"@));
        assert(set!["other"@].contains("other"@));
        assert(set!["auto"@].contains("auto"@));
        assert(set!["any"@].contains("any"@));
        assert(set!["none"@].contains("none"@));
        assert(set!["end_turn"@].contains("end_turn"@));
        assert(set!["max_tokens"@].contains("max_tokens"@));
        assert(set!["tool_use"@].contains("tool_use"@));
        assert(set!["stop_sequence"@].contains("stop_sequence"@));
    }
}

/// A block is spelled out by its type and the fields of that type.
pub proof fn law_block_records(v: JsonV, deep: bool, x: BlockV)
    ensures
        block_in(v, deep) == Some(x) <==> match x {
            BlockV::Text { text } => has_tag(v, "type"@, "text"@, 0, deep) && seated(v, seq!["type"@, "text"@], 2).get(
                "text"@,
            ) == Some(JsonV::Str(text)),
            BlockV::ToolUse { id, name, input } => {
                let t = seated(v, seq!["type"@, "id"@, "name"@, "input"@], 4);
                &&& has_tag(v, "type"@, "tool_use"@, 1, deep)
                &&& t.get("id"@) == Some(JsonV::Str(id))
                &&& t.get("name"@) == Some(JsonV::Str(name))
                &&& t.get("input"@) == Some(input)
            },
            BlockV::ToolResult { id, content, is_error } => {
                let t = seated(v, seq!["type"@, "id"@, "content"@, "is_error"@], 4);
                &&& has_tag(v, "type"@, "tool_result"@, 2, deep)
                &&& t.get("id"@) == Some(JsonV::Str(id))
                &&& t.get("content"@) == Some(JsonV::Str(content))
                &&& t.get("is_error"@) == Some(JsonV::Bool(is_error))
            },
            BlockV::Image { media_type, data } => {
                let t = seated(v, seq!["type"@, "media_type"@, "data"@], 3);
                &&& has_tag(v, "type"@, "image"@, 3, deep)
                &&& t.get("media_type"@) == Some(JsonV::Str(media_type))
                &&& t.get("data"@) == Some(JsonV::Str(data))
            },
        },
{
    lemma_canonical_words();
    crate::field_names::law_llm_form_names();
}

/// An event is spelled out by its type and the fields of that type.
pub proof fn law_event_records(v: JsonV, x: EventV)
    ensures
        event_in(v) == Some(x) <==> match x {
            EventV::MessageStart { model, role } => {
                let t = seated(v, seq!["type"@, "model"@, "role"@], 3);
                &&& has_tag(v, "type"@, "message_start"@, 0, false)
                &&& t.get("model"@) == Some(JsonV::Str(model))
                &&& is_read(t.get("role"@), role, |e: JsonV| role_in(e, true))
            },
            EventV::ContentBlockStart { index, block } => {
                let t = seated(v, seq!["type"@, "index"@, "block"@], 3);
                &&& has_tag(v, "type"@, "content_block_start"@, 1, false)
                &&& t.get("index"@) == Some(JsonV::Number(Num::PosInt(index)))
                &&& is_read(t.get("block"@), block, |e: JsonV| block_in(e, true))
            },
            EventV::ContentBlockDelta { index, text, partial_json } => {
                let t = seated(v, seq!["type"@, "index"@, "text"@, "partial_json"@], 4);
                &&& has_tag(v, "type"@, "content_block_delta"@, 2, false)
                &&& t.get("index"@) == Some(JsonV::Number(Num::PosInt(index)))
                &&& may_say(t.get("text"@), text)
                &&& may_say(t.get("partial_json"@), partial_json)
            },
            EventV::ContentBlockStop { index } => {
                let t = seated(v, seq!["type"@, "index"@], 2);
                &&& has_tag(v, "type"@, "content_block_stop"@, 3, false)
                &&& t.get("index"@) == Some(JsonV::Number(Num::PosInt(index)))
            },
            EventV::MessageDelta { stop_reason, usage } => {
                let t = seated(v, seq!["type"@, "stop_reason"@, "usage"@], 3);
                &&& has_tag(v, "type"@, "message_delta"@, 4, false)
                &&& may_be_read(t.get("stop_reason"@), stop_reason, |e: JsonV| reason_in(e, true))
                &&& may_be_read(t.get("usage"@), usage, |e: JsonV| usage_in(e))
            },
            EventV::MessageStop => has_tag(v, "type"@, "message_stop"@, 5, false) && seated(v, seq!["type"@], 1) is Object,
        },
{
    lemma_canonical_words();
    crate::field_names::law_llm_form_names();
}

/// A message is written with its role and its blocks, in order.
pub proof fn law_messages_are_spelled(x: MessageV)
    ensures
        ({
            let f = message_form(x);
            &&& has_only(f, set!["role"@, "content"@])
            &&& f.get("role"@) == Some(role_form(x.role))
            &&& f.get("content"@) matches Some(JsonV::Array(items)) && items.len() == x.content.len() && forall|i: int|
                0 <= i < items.len() ==> #[trigger] items[i] == block_form(x.content[i])
        }),
{
    lemma_canonical_words();
}

/// A tool is written with all its fields, null for a description that is not there.
pub proof fn law_tools_are_spelled(x: ToolV)
    ensures
        ({
            let f = tool_form(x);
            &&& has_only(f, set!["name"@, "description"@, "input_schema"@])
            &&& f.get("name"@) == Some(JsonV::Str(x.name))
            &&& f.get("description"@) == Some(match x.description { Some(s) => JsonV::Str(s), None => JsonV::Null })
            &&& f.get("input_schema"@) == Some(x.input_schema)
        }),
{
    lemma_canonical_words();
}

/// Sampling is written with all its fields, null for each that is not set.
pub proof fn law_sampling_is_spelled(x: SamplingV)
    ensures
        ({
            let f = sampling_form(x);
            &&& has_only(f, set!["temperature"@, "top_p"@, "top_k"@, "max_tokens"@, "stop"@])
            &&& f.get("temperature"@) == Some(match x.temperature { Some(d) => double_value(d), None => JsonV::Null })
            &&& f.get("top_p"@) == Some(match x.top_p { Some(d) => double_value(d), None => JsonV::Null })
            &&& f.get("top_k"@) == Some(match x.top_k { Some(n) => JsonV::Number(Num::PosInt(n)), None => JsonV::Null })
            &&& f.get("max_tokens"@) == Some(match x.max_tokens { Some(n) => JsonV::Number(Num::PosInt(n)), None => JsonV::Null })
            &&& lists(f.get("stop"@), x.stop)
        }),
{
    lemma_canonical_words();
}

/// Token counts are written both, null for one that is not known.
pub proof fn law_usage_is_spelled(x: Usage)
    ensures
        ({
            let f = usage_form(x);
            &&& has_only(f, set!["input_tokens"@, "output_tokens"@])
            &&& f.get("input_tokens"@) == Some(match x.input_tokens { Some(n) => JsonV::Number(Num::PosInt(n)), None => JsonV::Null })
            &&& f.get("output_tokens"@) == Some(match x.output_tokens { Some(n) => JsonV::Number(Num::PosInt(n)), None => JsonV::Null })
        }),
{
    lemma_canonical_words();
}

/// A field that was dropped is written with its path and the reason.
pub proof fn law_dropped_fields_are_spelled(x: DroppedV)
    ensures
        ({
            let f = dropped_form(x);
            &&& has_only(f, set!["path"@, "reason"@])
            &&& f.get("path"@) == Some(JsonV::Str(x.path))
            &&& f.get("reason"@) == Some(JsonV::Str(x.reason))
        }),
{
    lemma_canonical_words();
}

/// A report is written with what was dropped and the notes, in order.
pub proof fn law_reports_are_spelled(x: ReportV)
    ensures
        ({
            let f = report_form(x);
            &&& has_only(f, set!["dropped"@, "notes"@])
            &&& f.get("dropped"@) matches Some(JsonV::Array(items)) && items.len() == x.dropped.len() && forall|i: int|
                0 <= i < items.len() ==> #[trigger] items[i] == dropped_form(x.dropped[i])
            &&& lists(f.get("notes"@), x.notes)
        }),
{
    lemma_canonical_words();
}

/// A request is written with all its fields, null for a tool choice that is not there;
/// a system prompt and extra fields that are not there are left out.
pub proof fn law_requests_are_spelled(x: RequestV)
    ensures
        ({
            let f = request_form(x);
            &&& has_only(f, set!["model"@, "tool_choice"@, "sampling"@, "stream"@, "messages"@, "tools"@, "system"@, "extra"@])
            &&& f.get("model"@) == Some(JsonV::Str(x.model))
            &&& f.get("tool_choice"@) == Some(match x.tool_choice { Some(y) => choice_form(y), None => JsonV::Null })
            &&& f.get("sampling"@) == Some(sampling_form(x.sampling))
            &&& f.get("stream"@) == Some(JsonV::Bool(x.stream))
            &&& f.get("messages"@) matches Some(JsonV::Array(items)) && items.len() == x.messages.len() && forall|i: int|
                0 <= i < items.len() ==> #[trigger] items[i] == message_form(x.messages[i])
            &&& f.get("tools"@) matches Some(JsonV::Array(items)) && items.len() == x.tools.len() && forall|i: int|
                0 <= i < items.len() ==> #[trigger] items[i] == tool_form(x.tools[i])
            &&& match x.system {
                Some(s) => f.get("system"@) == Some(JsonV::Str(s)),
                None => f.get("system"@) is None,
            }
            &&& x.extra == Map::<Seq<char>, JsonV>::empty() ==> f.get("extra"@) is None
            &&& x.extra != Map::<Seq<char>, JsonV>::empty() ==> f.get("extra"@) == Some(JsonV::Object(x.extra))
        }),
{
    lemma_canonical_words();
}

/// A response is written with all its fields, null for a stop reason or token counts
/// that are not there; extra fields that are not there are left out.
pub proof fn law_responses_are_spelled(x: ResponseV)
    ensures
        ({
            let f = response_form(x);
            &&& has_only(f, set!["model"@, "stop_reason"@, "usage"@, "content"@, "extra"@])
            &&& f.get("model"@) == Some(JsonV::Str(x.model))
            &&& f.get("stop_reason"@) == Some(match x.stop_reason { Some(y) => reason_form(y), None => JsonV::Null })
            &&& f.get("usage"@) == Some(match x.usage { Some(y) => usage_form(y), None => JsonV::Null })
            &&& f.get("content"@) matches Some(JsonV::Array(items)) && items.len() == x.content.len() && forall|i: int|
                0 <= i < items.len() ==> #[trigger] items[i] == block_form(x.content[i])
            &&& x.extra == Map::<Seq<char>, JsonV>::empty() ==> f.get("extra"@) is None
            &&& x.extra != Map::<Seq<char>, JsonV>::empty() ==> f.get("extra"@) == Some(JsonV::Object(x.extra))
        }),
{
    lemma_canonical_words();
}

/// A piece of a call is written with all its fields, null for each that is not there.
pub proof fn law_calls_are_spelled(x: ToolCallDeltaV)
    ensures
        ({
            let f = call_form(x);
            &&& has_only(f, set!["id"@, "name"@, "arguments_fragment"@])
            &&& f.get("id"@) == Some(match x.id { Some(s) => JsonV::Str(s), None => JsonV::Null })
            &&& f.get("name"@) == Some(match x.name { Some(s) => JsonV::Str(s), None => JsonV::Null })
            &&& f.get("arguments_fragment"@) == Some(match x.arguments_fragment { Some(s) => JsonV::Str(s), None => JsonV::Null })
        }),
{
    lemma_canonical_words();
}

/// An end is written with its reason, null where it has none.
pub proof fn law_ends_are_spelled(x: FinishV)
    ensures
        ({
            let f = finish_form(x);
            &&& has_only(f, set!["reason"@])
            &&& f.get("reason"@) == Some(match x.reason { Some(s) => JsonV::Str(s), None => JsonV::Null })
        }),
{
    lemma_canonical_words();
}

/// A fragment is written with all its fields, null for each that is not there.
pub proof fn law_fragments_are_spelled(x: DeltaV)
    ensures
        ({
            let f = delta_form(x);
            &&& has_only(f, set!["kind"@, "text"@, "tool_call"@, "finish"@, "usage"@])
            &&& f.get("kind"@) == Some(kind_form(x.kind))
            &&& f.get("text"@) == Some(match x.text { Some(s) => JsonV::Str(s), None => JsonV::Null })
            &&& f.get("tool_call"@) == Some(match x.tool_call { Some(y) => call_form(y), None => JsonV::Null })
            &&& f.get("finish"@) == Some(match x.finish { Some(y) => finish_form(y), None => JsonV::Null })
            &&& match x.usage {
                Some(u) => f.get("usage"@) == Some(
                    usage_form(Usage { input_tokens: u.input_tokens, output_tokens: u.output_tokens }),
                ),
                None => f.get("usage"@) == Some(JsonV::Null),
            }
        }),
{
    lemma_canonical_words();
}

/// The words for roles, kinds, tool choices and stop reasons are written plain; the two
/// that carry a text are written as a table of it.
pub proof fn law_words_are_written(role: Role, kind: DeltaKind, choice: ToolChoiceV, reason: StopReasonV)
    ensures
        role_form(role) == JsonV::Str(
            match role {
                Role::System => "system"@,
                Role::User => "user"@,
                Role::Assistant => "assistant"@,
                Role::Tool => "tool"@,
            },
        ),
        kind_form(kind) == JsonV::Str(
            match kind {
                DeltaKind::Text => "text"@,
                DeltaKind::ToolCall => "tool_call"@,
                DeltaKind::Usage => "usage"@,
                DeltaKind::Finish => "finish"@,
                DeltaKind::Other => "other"@,
            },
        ),
        match choice {
            ToolChoiceV::Auto => choice_form(choice) == JsonV::Str("auto"@),
            ToolChoiceV::Any => choice_form(choice) == JsonV::Str("any"@),
            ToolChoiceV::Never => choice_form(choice) == JsonV::Str("none"@),
            ToolChoiceV::Tool(name) => choice_form(choice).get("tool"@) == Some(JsonV::Str(name)),
        },
        match reason {
            StopReasonV::EndTurn => reason_form(reason) == JsonV::Str("end_turn"@),
            StopReasonV::MaxTokens => reason_form(reason) == JsonV::Str("max_tokens"@),
            StopReasonV::ToolUse => reason_form(reason) == JsonV::Str("tool_use"@),
            StopReasonV::StopSequence => reason_form(reason) == JsonV::Str("stop_sequence"@),
            StopReasonV::Other(text) => reason_form(reason).get("other"@) == Some(JsonV::Str(text)),
        },
{
}

/// A block is written with its type and the fields of that type.
pub proof fn law_blocks_are_spelled(x: BlockV)
    ensures
        ({
            let f = block_form(x);
            has_only(f, set!["type"@, "text"@, "id"@, "name"@, "input"@, "content"@, "is_error"@, "media_type"@, "data"@]) && (match x {
                BlockV::Text { text } => f.get("type"@) == Some(JsonV::Str("text"@)) && f.get("text"@) == Some(
                    JsonV::Str(text),
                ),
                BlockV::ToolUse { id, name, input } => f.get("type"@) == Some(JsonV::Str("tool_use"@)) && f.get("id"@)
                    == Some(JsonV::Str(id)) && f.get("name"@) == Some(JsonV::Str(name)) && f.get("input"@) == Some(input),
                BlockV::ToolResult { id, content, is_error } => f.get("type"@) == Some(JsonV::Str("tool_result"@))
                    && f.get("id"@) == Some(JsonV::Str(id)) && f.get("content"@) == Some(JsonV::Str(content)) && f.get(
                    "is_error"@,
                ) == Some(JsonV::Bool(is_error)),
                BlockV::Image { media_type, data } => f.get("type"@) == Some(JsonV::Str("image"@)) && f.get(
                    "media_type"@,
                ) == Some(JsonV::Str(media_type)) && f.get("data"@) == Some(JsonV::Str(data)),
            })
        }),
{
    lemma_canonical_words();
}

/// An event is written with its type and the fields of that type, null for each that
/// is not there.
pub proof fn law_events_are_spelled(x: EventV)
    ensures
        ({
            let f = event_form(x);
            has_only(f, set!["type"@, "model"@, "role"@, "index"@, "block"@, "text"@, "partial_json"@, "stop_reason"@, "usage"@]) && (match x {
                EventV::MessageStart { model, role } => f.get("type"@) == Some(JsonV::Str("message_start"@)) && f.get(
                    "model"@,
                ) == Some(JsonV::Str(model)) && f.get("role"@) == Some(role_form(role)),
                EventV::ContentBlockStart { index, block } => f.get("type"@) == Some(
                    JsonV::Str("content_block_start"@),
                ) && f.get("index"@) == Some(JsonV::Number(Num::PosInt(index))) && f.get("block"@) == Some(
                    block_form(block),
                ),
                EventV::ContentBlockDelta { index, text, partial_json } => {
                    &&& f.get("type"@) == Some(JsonV::Str("content_block_delta"@))
                    &&& f.get("index"@) == Some(JsonV::Number(Num::PosInt(index)))
                    &&& f.get("text"@) is Some && may_say(f.get("text"@), text)
                    &&& f.get("partial_json"@) is Some && may_say(f.get("partial_json"@), partial_json)
                },
                EventV::ContentBlockStop { index } => f.get("type"@) == Some(JsonV::Str("content_block_stop"@))
                    && f.get("index"@) == Some(JsonV::Number(Num::PosInt(index))),
                EventV::MessageDelta { stop_reason, usage } => {
                    &&& f.get("type"@) == Some(JsonV::Str("message_delta"@))
                    &&& f.get("stop_reason"@) == Some(
                        match stop_reason {
                            Some(y) => reason_form(y),
                            None => JsonV::Null,
                        },
                    )
                    &&& f.get("usage"@) == Some(
                        match usage {
                            Some(y) => usage_form(y),
                            None => JsonV::Null,
                        },
                    )
                },
                EventV::MessageStop => f.get("type"@) == Some(JsonV::Str("message_stop"@)),
            })
        }),
{
    lemma_canonical_words();
}

/// The plain view and its parts are written with all their fields, null for each that
/// is not there.
pub proof fn law_plain_views_are_spelled(l: LlmV, m: PlainMessageV, name: Seq<char>)
    ensures
        ({
            let f = crate::llm::llm_value(l);
            &&& has_only(f, set!["provider"@, "model"@, "messages"@, "tools"@, "max_tokens"@, "stream"@, "facts"@])
            &&& f.get("provider"@) == Some(JsonV::Str(l.provider))
            &&& f.get("model"@) == Some(JsonV::Str(l.model))
            &&& f.get("messages"@) matches Some(JsonV::Array(items)) && items.len() == l.messages.len() && forall|i: int|
                0 <= i < items.len() ==> #[trigger] items[i] == crate::llm::message_value(l.messages[i])
            &&& f.get("tools"@) matches Some(JsonV::Array(items)) && items.len() == l.tools.len() && forall|i: int|
                0 <= i < items.len() ==> #[trigger] items[i] == crate::llm::tool_value(l.tools[i])
            &&& f.get("max_tokens"@) is Some && may_count(f.get("max_tokens"@), l.max_tokens)
            &&& f.get("stream"@) == Some(JsonV::Bool(l.stream))
            &&& f.get("facts"@) == Some(
                match l.facts {
                    Some(x) => crate::registry::facts_value(x),
                    None => JsonV::Null,
                },
            )
            &&& crate::llm::message_value(m).get("role"@) == Some(JsonV::Str(m.role))
            &&& crate::llm::message_value(m).get("content"@) == Some(JsonV::Str(m.content))
            &&& crate::llm::tool_value(name).get("name"@) == Some(JsonV::Str(name))
        }),
{
    lemma_canonical_words();
    lemma_envelope_words();
}

/// The facts of a model are written with all their fields, null for each that is not
/// known.
pub proof fn law_facts_are_spelled(x: FactsV)
    ensures
        ({
            let f = crate::registry::facts_value(x);
            &&& has_only(f, set!["id"@, "provider"@, "context"@, "max_output"@, "cost_input"@, "cost_output"@, "modalities"@, "tool_call"@, "status"@])
            &&& f.get("id"@) == Some(JsonV::Str(x.id))
            &&& f.get("provider"@) == Some(JsonV::Str(x.provider))
            &&& f.get("context"@) is Some && may_count(f.get("context"@), x.context)
            &&& f.get("max_output"@) is Some && may_count(f.get("max_output"@), x.max_output)
            &&& f.get("cost_input"@) == Some(match x.cost_input { Some(d) => double_value(d), None => JsonV::Null })
            &&& f.get("cost_output"@) == Some(match x.cost_output { Some(d) => double_value(d), None => JsonV::Null })
            &&& lists(f.get("modalities"@), x.modalities)
            &&& f.get("tool_call"@) == Some(JsonV::Bool(x.tool_call))
            &&& f.get("status"@) is Some && may_say(f.get("status"@), x.status)
        }),
{
    lemma_canonical_words();
    lemma_envelope_words();
}

/// An envelope and the messages in it are written with all their fields, null for each
/// that is not there.
pub proof fn law_envelopes_are_spelled(e: EnvelopeV, m: HttpMsgV)
    ensures
        ({
            let f = crate::envelope::envelope_value(e);
            let g = crate::http_msg::msg_value(m);
            &&& has_only(g, set!["method"@, "path"@, "body_b64"@, "headers"@])
            &&& has_only(f, set!["envelope_version"@, "hook"@, "route_id"@, "correlation_id"@, "self"@, "request"@, "response"@, "chunk"@, "llm"@, "context"@])
            &&& f.get("envelope_version"@) == Some(JsonV::Number(Num::PosInt(e.envelope_version as u64)))
            &&& f.get("hook"@) == Some(JsonV::Str(e.hook))
            &&& f.get("route_id"@) == Some(JsonV::Str(e.route_id))
            &&& f.get("correlation_id"@) == Some(JsonV::Str(e.correlation_id))
            &&& f.get("self"@) is Some && may_say(f.get("self"@), e.self_)
            &&& f.get("request"@) == Some(crate::http_msg::msg_value(e.request))
            &&& f.get("response"@) == Some(
                match e.response {
                    Some(r) => crate::http_msg::msg_value(r),
                    None => JsonV::Null,
                },
            )
            &&& f.get("chunk"@) == Some(match e.chunk { Some(c) => c, None => JsonV::Null })
            &&& f.get("llm"@) == Some(match e.llm { Some(l) => crate::llm::llm_value(l), None => JsonV::Null })
            &&& f.get("context"@) == Some(JsonV::Object(e.context))
            &&& g.get("method"@) == Some(JsonV::Str(m.method))
            &&& g.get("path"@) == Some(JsonV::Str(m.path))
            &&& g.get("body_b64"@) == Some(JsonV::Str(m.body_b64))
            &&& holds_headers(g.get("headers"@), m.headers)
        }),
{
    lemma_canonical_words();
    lemma_envelope_words();
    let h = m.headers.map_values(|v: Seq<char>| JsonV::Str(v));
    assert(h.dom() =~= m.headers.dom());
}

/// The context of a request is written with its path and its method.
pub proof fn law_contexts_are_spelled(path: Seq<char>, method: Seq<char>)
    ensures
        crate::llm::form::ctx_form(path, method).get("path"@) == Some(JsonV::Str(path)),
        crate::llm::form::ctx_form(path, method).get("method"@) == Some(JsonV::Str(method)),
{
    reveal_strlit("path");
    reveal_strlit("method");
    assert("path"@.len() != "method"@.len());
}

} // verus!
