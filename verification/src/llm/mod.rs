//! The provider-neutral view of language-model traffic.

use vstd::prelude::*;

pub mod adapter;
pub mod adapter_laws;
pub mod anthropic;
pub mod anthropic_laws;
pub mod anthropic_read_laws;
pub mod anthropic_write_laws;
pub mod canonical;
pub mod delta;
pub mod extra_laws;
pub mod form;
pub mod google;
pub mod google_laws;
pub mod google_read_laws;
pub mod google_write_laws;
pub mod openai;
pub mod openai_laws;
pub mod openai_read_laws;
pub mod openai_write_laws;
pub mod report_laws;
pub mod tokenize;
pub mod view_laws;
pub mod words;

pub use crate::llm::canonical::{
    project_llm, CanonicalMessage, CanonicalRequest, CanonicalResponse, CanonicalStreamEvent, CanonicalTool,
    ContentBlock, DroppedField, RequestCtx, Role, Sampling, StopReason, StreamParseState, StreamRenderState,
    ToolChoice, TranslationReport, Usage as CanonicalUsage,
};

use crate::json::{opt_uint, or_null, seq_view, string, uint_or_null, Json, JsonMap, JsonV};
use crate::llm::form::{bool_in, can_stand, opt_uint_in, read_bool, read_opt_uint, read_text};
use crate::llm::words::lemma_envelope_words;
use crate::registry::{facts_in, facts_value, law_facts_survive, FactsV, ModelFacts, Registry};
use crate::shape::{pick, seat, seated};
use crate::text::{opt_view, strs, views};

verus! {

/// A message of the plain view.
#[derive(Clone, PartialEq, Debug)]
pub struct Message {
    pub role: String,
    pub content: String,
}

#[verifier::ext_equal]
pub struct PlainMessageV {
    pub role: Seq<char>,
    pub content: Seq<char>,
}

impl View for Message {
    type V = PlainMessageV;

    open spec fn view(&self) -> PlainMessageV {
        PlainMessageV { role: self.role@, content: self.content@ }
    }
}

/// A tool of the plain view.
#[derive(Clone, PartialEq, Debug)]
pub struct Tool {
    pub name: String,
}

impl View for Tool {
    type V = Seq<char>;

    open spec fn view(&self) -> Seq<char> {
        self.name@
    }
}

/// The plain view of a request: content as text, tools by name.
#[derive(Clone, PartialEq, Debug)]
pub struct Llm {
    pub provider: String,
    pub model: String,
    pub messages: Vec<Message>,
    pub tools: Vec<Tool>,
    pub max_tokens: Option<u64>,
    pub stream: bool,
    pub facts: Option<ModelFacts>,
}

#[verifier::ext_equal]
pub struct LlmV {
    pub provider: Seq<char>,
    pub model: Seq<char>,
    pub messages: Seq<PlainMessageV>,
    pub tools: Seq<Seq<char>>,
    pub max_tokens: Option<u64>,
    pub stream: bool,
    pub facts: Option<FactsV>,
}

impl View for Llm {
    type V = LlmV;

    open spec fn view(&self) -> LlmV {
        LlmV {
            provider: self.provider@,
            model: self.model@,
            messages: views(self.messages@),
            tools: views(self.tools@),
            max_tokens: self.max_tokens,
            stream: self.stream,
            facts: opt_view(self.facts),
        }
    }
}

/// A copy of what the registry knows of a model.
pub fn resolve_facts(reg: &Registry, provider: &str, model: &str) -> (r: Option<ModelFacts>)
    ensures
        opt_view(r) == reg@.find(provider@, model@),
{
    match reg.get(provider, model) {
        Some(facts) => Some(facts.dup()),
        None => None,
    }
}

/// The value of a message.
pub open spec fn message_value(m: PlainMessageV) -> JsonV {
    JsonV::Object(
        Map::<Seq<char>, JsonV>::empty().insert("role"@, JsonV::Str(m.role)).insert(
            "content"@,
            JsonV::Str(m.content),
        ),
    )
}

/// The value of a tool.
pub open spec fn tool_value(name: Seq<char>) -> JsonV {
    JsonV::Object(Map::<Seq<char>, JsonV>::empty().insert("name"@, JsonV::Str(name)))
}

/// The value of the plain view.
pub open spec fn llm_value(l: LlmV) -> JsonV {
    JsonV::Object(
        Map::<Seq<char>, JsonV>::empty().insert("provider"@, JsonV::Str(l.provider)).insert(
            "model"@,
            JsonV::Str(l.model),
        ).insert(
            "messages"@,
            JsonV::Array(l.messages.map_values(|m: PlainMessageV| message_value(m))),
        ).insert("tools"@, JsonV::Array(l.tools.map_values(|t: Seq<char>| tool_value(t)))).insert(
            "max_tokens"@,
            or_null(opt_uint(l.max_tokens)),
        ).insert("stream"@, JsonV::Bool(l.stream)).insert(
            "facts"@,
            match l.facts {
                Some(f) => facts_value(f),
                None => JsonV::Null,
            },
        ),
    )
}

impl Llm {
    /// A copy of the view.
    pub fn dup(&self) -> (r: Llm)
        ensures
            r@ == self@,
    {
        let mut messages: Vec<Message> = Vec::new();
        let mut i: usize = 0;
        while i < self.messages.len()
            invariant
                i <= self.messages.len(),
                messages@.len() == i,
                forall|k: int| 0 <= k < i ==> (#[trigger] messages@[k])@ == self.messages@[k]@,
            decreases self.messages.len() - i,
        {
            let m = &self.messages[i];
            messages.push(Message { role: m.role.clone(), content: m.content.clone() });
            i += 1;
        }
        assert(views(messages@) == views(self.messages@));
        let mut tools: Vec<Tool> = Vec::new();
        let mut j: usize = 0;
        while j < self.tools.len()
            invariant
                j <= self.tools.len(),
                tools@.len() == j,
                forall|k: int| 0 <= k < j ==> (#[trigger] tools@[k])@ == self.tools@[k]@,
            decreases self.tools.len() - j,
        {
            tools.push(Tool { name: self.tools[j].name.clone() });
            j += 1;
        }
        assert(views(tools@) == views(self.tools@));
        let facts = match &self.facts {
            Some(f) => Some(f.dup()),
            None => None,
        };
        Llm {
            provider: self.provider.clone(),
            model: self.model.clone(),
            messages,
            tools,
            max_tokens: self.max_tokens,
            stream: self.stream,
            facts,
        }
    }

    /// The view as a JSON value.
    pub fn to_json(&self) -> (r: Json)
        ensures
            r@ == llm_value(self@),
    {
        let mut messages: Vec<Json> = Vec::new();
        let mut i: usize = 0;
        while i < self.messages.len()
            invariant
                i <= self.messages.len(),
                messages@.len() == i,
                forall|k: int|
                    0 <= k < i ==> (#[trigger] messages@[k])@ == message_value(self.messages@[k]@),
            decreases self.messages.len() - i,
        {
            messages.push(self.messages[i].to_json());
            i += 1;
        }
        assert(seq_view(messages@) == self@.messages.map_values(|m: PlainMessageV| message_value(m)));
        let mut tools: Vec<Json> = Vec::new();
        let mut j: usize = 0;
        while j < self.tools.len()
            invariant
                j <= self.tools.len(),
                tools@.len() == j,
                forall|k: int| 0 <= k < j ==> (#[trigger] tools@[k])@ == tool_value(self.tools@[k]@),
            decreases self.tools.len() - j,
        {
            tools.push(self.tools[j].to_json());
            j += 1;
        }
        assert(seq_view(tools@) == self@.tools.map_values(|t: Seq<char>| tool_value(t)));
        let facts = match &self.facts {
            Some(f) => f.to_json(),
            None => Json::Null,
        };
        Json::Object(
            JsonMap::new().set("provider", string(self.provider.as_str())).set(
                "model",
                string(self.model.as_str()),
            ).set("messages", Json::Array(messages)).set("tools", Json::Array(tools)).set(
                "max_tokens",
                uint_or_null(self.max_tokens),
            ).set("stream", Json::Bool(self.stream)).set("facts", facts),
        )
    }

    /// Reads it from a value.
    pub fn from_json(v: &Json) -> (r: Option<Llm>)
        ensures
            opt_view(r) == llm_in(v@),
    {
        let seats = seat(v, &LLM_FIELDS, 7);
        let v = pick(&seats, v);
        match (
            read_text(v, "provider"),
            read_text(v, "model"),
            read_message_list(v, "messages"),
            read_tool_list(v, "tools"),
            read_opt_uint(v, "max_tokens"),
            read_bool(v, "stream"),
            read_opt_facts(v),
        ) {
            (
                Some(provider),
                Some(model),
                Some(messages),
                Some(tools),
                Some(max_tokens),
                Some(stream),
                Some(facts),
            ) => Some(Llm { provider, model, messages, tools, max_tokens, stream, facts }),
            _ => None,
        }
    }
}

/// The fields of a message of the plain view, in order.
pub const PLAIN_MESSAGE_FIELDS: [&'static str; 2] = ["role", "content"];

/// The message of the plain view that a value spells out.
pub open spec fn plain_message_in(v: JsonV) -> Option<PlainMessageV> {
    let v = seated(v, strs(PLAIN_MESSAGE_FIELDS@), 2);
    match (v.text_at("role"@), v.text_at("content"@)) {
        (Some(role), Some(content)) => Some(PlainMessageV { role, content }),
        _ => None,
    }
}

impl Message {
    /// The value.
    pub fn to_json(&self) -> (r: Json)
        ensures
            r@ == message_value(self@),
    {
        Json::Object(
            JsonMap::new().set("role", string(self.role.as_str())).set(
                "content",
                string(self.content.as_str()),
            ),
        )
    }

    /// Reads it from a value.
    pub fn from_json(v: &Json) -> (r: Option<Message>)
        ensures
            opt_view(r) == plain_message_in(v@),
    {
        let seats = seat(v, &PLAIN_MESSAGE_FIELDS, 2);
        let v = pick(&seats, v);
        match (read_text(v, "role"), read_text(v, "content")) {
            (Some(role), Some(content)) => Some(Message { role, content }),
            _ => None,
        }
    }
}

/// A message of the plain view survives being written and read.
pub proof fn law_plain_message_survives(m: PlainMessageV)
    ensures
        plain_message_in(message_value(m)) == Some(m),
{
    lemma_envelope_words();
}

/// The fields of a tool of the plain view, in order.
pub const PLAIN_TOOL_FIELDS: [&'static str; 1] = ["name"];

/// The tool of the plain view that a value spells out.
pub open spec fn plain_tool_in(v: JsonV) -> Option<Seq<char>> {
    seated(v, strs(PLAIN_TOOL_FIELDS@), 1).text_at("name"@)
}

impl Tool {
    /// The value.
    pub fn to_json(&self) -> (r: Json)
        ensures
            r@ == tool_value(self@),
    {
        Json::Object(JsonMap::new().set("name", string(self.name.as_str())))
    }

    /// Reads it from a value.
    pub fn from_json(v: &Json) -> (r: Option<Tool>)
        ensures
            opt_view(r) == plain_tool_in(v@),
    {
        let seats = seat(v, &PLAIN_TOOL_FIELDS, 1);
        match read_text(pick(&seats, v), "name") {
            Some(name) => Some(Tool { name }),
            None => None,
        }
    }
}

/// A tool of the plain view survives being written and read.
pub proof fn law_plain_tool_survives(name: Seq<char>)
    ensures
        plain_tool_in(tool_value(name)) == Some(name),
{
}

/// The list that values spell out, each as a message.
pub open spec fn message_list(items: Seq<JsonV>) -> Option<Seq<PlainMessageV>>
    decreases items.len(),
{
    if items.len() == 0 {
        Some(Seq::empty())
    } else {
        match (message_list(items.drop_last()), plain_message_in(items.last())) {
            (Some(before), Some(x)) => Some(before.push(x)),
            _ => None,
        }
    }
}

/// A member that is such a list.
pub open spec fn message_list_at(v: JsonV, key: Seq<char>) -> Option<Seq<PlainMessageV>> {
    match v.items_at(key) {
        Some(items) => message_list(items),
        None => None,
    }
}

proof fn lemma_message_unread(items: Seq<JsonV>, i: int)
    requires
        0 <= i < items.len(),
        plain_message_in(items[i]) is None,
    ensures
        message_list(items) is None,
    decreases items.len(),
{
    if i < items.len() - 1 {
        assert(items.drop_last()[i] == items[i]);
        lemma_message_unread(items.drop_last(), i);
    }
}

/// The views of a list that was read.
pub open spec fn message_list_view(r: Option<Vec<Message>>) -> Option<Seq<PlainMessageV>> {
    match r {
        Some(l) => Some(views(l@)),
        None => None,
    }
}

fn read_message_list(v: &Json, key: &str) -> (r: Option<Vec<Message>>)
    ensures
        message_list_view(r) == message_list_at(v@, key@),
{
    match v.get(key) {
        Some(Json::Array(items)) => {
            let ghost all = seq_view(items@);
            let mut out: Vec<Message> = Vec::new();
            assert(views(out@) == Seq::<PlainMessageV>::empty());
            let mut i: usize = 0;
            while i < items.len()
                invariant
                    i <= items.len(),
                    all == seq_view(items@),
                    v@.get(key@) == Some(JsonV::Array(all)),
                    message_list(all.take(i as int)) == Some(views(out@)),
                decreases items.len() - i,
            {
                let ghost before = views(out@);
                assert(all.take(i + 1).drop_last() == all.take(i as int));
                assert(all.take(i + 1).last() == items@[i as int]@);
                match Message::from_json(&items[i]) {
                    Some(x) => {
                        let ghost x_v = x@;
                        out.push(x);
                        assert(views(out@) == before.push(x_v));
                    },
                    None => {
                        proof {
                            lemma_message_unread(all, i as int);
                        }
                        return None;
                    },
                }
                i += 1;
            }
            assert(all.take(i as int) == all);
            Some(out)
        },
        _ => None,
    }
}

proof fn lemma_message_list_survives(l: Seq<PlainMessageV>)
    ensures
        message_list(l.map_values(|x: PlainMessageV| message_value(x))) == Some(l),
    decreases l.len(),
{
    let items = l.map_values(|x: PlainMessageV| message_value(x));
    if l.len() > 0 {
        lemma_message_list_survives(l.drop_last());
        law_plain_message_survives(l.last());
        assert(items.drop_last() == l.drop_last().map_values(|x: PlainMessageV| message_value(x)));
        assert(items.last() == message_value(l.last()));
        assert(l == l.drop_last().push(l.last()));
    }
}

/// The list that values spell out, each as a tool.
pub open spec fn tool_list(items: Seq<JsonV>) -> Option<Seq<Seq<char>>>
    decreases items.len(),
{
    if items.len() == 0 {
        Some(Seq::empty())
    } else {
        match (tool_list(items.drop_last()), plain_tool_in(items.last())) {
            (Some(before), Some(x)) => Some(before.push(x)),
            _ => None,
        }
    }
}

/// A member that is such a list.
pub open spec fn tool_list_at(v: JsonV, key: Seq<char>) -> Option<Seq<Seq<char>>> {
    match v.items_at(key) {
        Some(items) => tool_list(items),
        None => None,
    }
}

proof fn lemma_tool_unread(items: Seq<JsonV>, i: int)
    requires
        0 <= i < items.len(),
        plain_tool_in(items[i]) is None,
    ensures
        tool_list(items) is None,
    decreases items.len(),
{
    if i < items.len() - 1 {
        assert(items.drop_last()[i] == items[i]);
        lemma_tool_unread(items.drop_last(), i);
    }
}

/// The views of a list that was read.
pub open spec fn tool_list_view(r: Option<Vec<Tool>>) -> Option<Seq<Seq<char>>> {
    match r {
        Some(l) => Some(views(l@)),
        None => None,
    }
}

fn read_tool_list(v: &Json, key: &str) -> (r: Option<Vec<Tool>>)
    ensures
        tool_list_view(r) == tool_list_at(v@, key@),
{
    match v.get(key) {
        Some(Json::Array(items)) => {
            let ghost all = seq_view(items@);
            let mut out: Vec<Tool> = Vec::new();
            assert(views(out@) == Seq::<Seq<char>>::empty());
            let mut i: usize = 0;
            while i < items.len()
                invariant
                    i <= items.len(),
                    all == seq_view(items@),
                    v@.get(key@) == Some(JsonV::Array(all)),
                    tool_list(all.take(i as int)) == Some(views(out@)),
                decreases items.len() - i,
            {
                let ghost before = views(out@);
                assert(all.take(i + 1).drop_last() == all.take(i as int));
                assert(all.take(i + 1).last() == items@[i as int]@);
                match Tool::from_json(&items[i]) {
                    Some(x) => {
                        let ghost x_v = x@;
                        out.push(x);
                        assert(views(out@) == before.push(x_v));
                    },
                    None => {
                        proof {
                            lemma_tool_unread(all, i as int);
                        }
                        return None;
                    },
                }
                i += 1;
            }
            assert(all.take(i as int) == all);
            Some(out)
        },
        _ => None,
    }
}

proof fn lemma_tool_list_survives(l: Seq<Seq<char>>)
    ensures
        tool_list(l.map_values(|x: Seq<char>| tool_value(x))) == Some(l),
    decreases l.len(),
{
    let items = l.map_values(|x: Seq<char>| tool_value(x));
    if l.len() > 0 {
        lemma_tool_list_survives(l.drop_last());
        law_plain_tool_survives(l.last());
        assert(items.drop_last() == l.drop_last().map_values(|x: Seq<char>| tool_value(x)));
        assert(items.last() == tool_value(l.last()));
        assert(l == l.drop_last().push(l.last()));
    }
}

/// The facts in the plain view, which may be absent or null.
pub open spec fn opt_facts_at(v: JsonV) -> Option<Option<FactsV>> {
    match v.get("facts"@) {
        None => Some(None),
        Some(JsonV::Null) => Some(None),
        Some(x) => match facts_in(x) {
            Some(f) => Some(Some(f)),
            None => None,
        },
    }
}

/// The view of facts that were read.
pub open spec fn opt_facts_view(r: Option<Option<ModelFacts>>) -> Option<Option<FactsV>> {
    match r {
        Some(f) => Some(opt_view(f)),
        None => None,
    }
}

fn read_opt_facts(v: &Json) -> (r: Option<Option<ModelFacts>>)
    ensures
        opt_facts_view(r) == opt_facts_at(v@),
{
    match v.get("facts") {
        None => Some(None),
        Some(Json::Null) => Some(None),
        Some(x) => match ModelFacts::from_json(x) {
            Some(f) => Some(Some(f)),
            None => None,
        },
    }
}

/// The fields of the plain view, in order.
pub const LLM_FIELDS: [&'static str; 7] = [
    "provider",
    "model",
    "messages",
    "tools",
    "max_tokens",
    "stream",
    "facts",
];

/// The plain view that a value spells out.
pub open spec fn llm_in(v: JsonV) -> Option<LlmV> {
    let v = seated(v, strs(LLM_FIELDS@), 7);
    match (
        v.text_at("provider"@),
        v.text_at("model"@),
        message_list_at(v, "messages"@),
        tool_list_at(v, "tools"@),
        opt_uint_in(v, "max_tokens"@),
        bool_in(v, "stream"@),
        opt_facts_at(v),
    ) {
        (
            Some(provider),
            Some(model),
            Some(messages),
            Some(tools),
            Some(max_tokens),
            Some(stream),
            Some(facts),
        ) => Some(LlmV { provider, model, messages, tools, max_tokens, stream, facts }),
        _ => None,
    }
}

/// Whether JSON text can carry the numbers of a plain view.
pub open spec fn llm_can_stand(l: LlmV) -> bool {
    l.facts matches Some(f) ==> can_stand(f.cost_input) && can_stand(f.cost_output)
}

/// The plain view survives being written and read.
pub proof fn law_llm_survives(l: LlmV)
    requires
        llm_can_stand(l),
    ensures
        llm_in(llm_value(l)) == Some(l),
{
    lemma_envelope_words();
    lemma_message_list_survives(l.messages);
    lemma_tool_list_survives(l.tools);
    assert(l.messages.map_values(|m: PlainMessageV| message_value(m)) == l.messages.map_values(
        |x: PlainMessageV| message_value(x),
    ));
    assert(l.tools.map_values(|t: Seq<char>| tool_value(t)) == l.tools.map_values(
        |x: Seq<char>| tool_value(x),
    ));
    if let Some(f) = l.facts {
        law_facts_survive(f);
    }
    assert(llm_in(llm_value(l)) =~= Some(l));
}

} // verus!
