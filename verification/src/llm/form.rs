//! The JSON form of the canonical types.

use vstd::prelude::*;

use crate::json::{
    all_texts, finite_bits, lemma_strings_come_back, opt_double, opt_str, opt_uint, or_null,
    put_opt, seq_view, str_values, string, string_array, string_items, string_or_null, texts_in, uint,
    uint_or_null, double_or_null, double_of, Double, Json, JsonMap, JsonV, Num,
};
use crate::llm::canonical::{
    BlockV, CanonicalMessage, CanonicalRequest, CanonicalResponse, CanonicalStreamEvent, CanonicalTool,
    ContentBlock, DroppedField, DroppedV, EventV, MessageV, ReportV, RequestCtx, RequestV, ResponseV, Role,
    Sampling, SamplingV, StopReason, StopReasonV, ToolChoice, ToolChoiceV, ToolV, TranslationReport, Usage,
};
use crate::llm::delta::{Delta, DeltaKind, DeltaV, Finish, FinishV, ToolCallDelta, ToolCallDeltaV};
use crate::llm::words::lemma_canonical_words;
use crate::shape::{find_tag, gives_word, is_tag, is_word, only_member, pick, picks, seat, seated, tag_in};
use crate::text::{opt_view, strs, texts, views};

verus! {

/// The fields of a `text` block, in order.
pub const TEXT_BLOCK: [&'static str; 2] = ["type", "text"];

/// The fields of a `tool_use` block, in order.
pub const TOOL_USE_BLOCK: [&'static str; 4] = ["type", "id", "name", "input"];

/// The fields of a `tool_result` block, in order.
pub const TOOL_RESULT_BLOCK: [&'static str; 4] = ["type", "id", "content", "is_error"];

/// The fields of a `image` block, in order.
pub const IMAGE_BLOCK: [&'static str; 3] = ["type", "media_type", "data"];

/// The fields of a `message_start` event, in order.
pub const MESSAGE_START_FIELDS: [&'static str; 3] = ["type", "model", "role"];

/// The fields of a `content_block_start` event, in order.
pub const CONTENT_BLOCK_START_FIELDS: [&'static str; 3] = ["type", "index", "block"];

/// The fields of a `content_block_delta` event, in order.
pub const CONTENT_BLOCK_DELTA_FIELDS: [&'static str; 4] = ["type", "index", "text", "partial_json"];

/// The fields of a `content_block_stop` event, in order.
pub const CONTENT_BLOCK_STOP_FIELDS: [&'static str; 2] = ["type", "index"];

/// The fields of a `message_delta` event, in order.
pub const MESSAGE_DELTA_FIELDS: [&'static str; 3] = ["type", "stop_reason", "usage"];

/// The fields of a `message_stop` event, in order.
pub const MESSAGE_STOP_FIELDS: [&'static str; 1] = ["type"];

/// The fields of a message, in order.
pub const MESSAGE_FIELDS: [&'static str; 2] = ["role", "content"];

/// The fields of a tool, in order.
pub const TOOL_FIELDS: [&'static str; 3] = ["name", "description", "input_schema"];

/// The fields of a choice of sampling, in order.
pub const SAMPLING_FIELDS: [&'static str; 5] = [
    "temperature",
    "top_p",
    "top_k",
    "max_tokens",
    "stop",
];

/// The fields of a count of tokens, in order.
pub const USAGE_FIELDS: [&'static str; 2] = ["input_tokens", "output_tokens"];

/// The fields of a dropped field, in order.
pub const DROPPED_FIELDS: [&'static str; 2] = ["path", "reason"];

/// The fields of a report, in order.
pub const REPORT_FIELDS: [&'static str; 2] = ["dropped", "notes"];

/// The fields of a request, in order.
pub const REQUEST_FIELDS: [&'static str; 8] = [
    "model",
    "messages",
    "system",
    "tools",
    "tool_choice",
    "sampling",
    "stream",
    "extra",
];

/// The fields of a response, in order.
pub const RESPONSE_FIELDS: [&'static str; 5] = [
    "model",
    "content",
    "stop_reason",
    "usage",
    "extra",
];

/// The fields of a fragment of a tool call, in order.
pub const CALL_FIELDS: [&'static str; 3] = ["id", "name", "arguments_fragment"];

/// The fields of an end of a stream, in order.
pub const FINISH_FIELDS: [&'static str; 1] = ["reason"];

/// The fields of a fragment, in order.
pub const DELTA_FIELDS: [&'static str; 5] = ["kind", "text", "tool_call", "usage", "finish"];

/// The fields of a place where a request came in, in order.
pub const CTX_FIELDS: [&'static str; 2] = ["path", "method"];

/// A text that may be absent or null.
pub open spec fn opt_text_in(v: JsonV, key: Seq<char>) -> Option<Option<Seq<char>>> {
    match v.get(key) {
        None => Some(None),
        Some(JsonV::Null) => Some(None),
        Some(JsonV::Str(s)) => Some(Some(s)),
        Some(_) => None,
    }
}

/// The view of a text that may be absent.
pub open spec fn opt_opt_view(r: Option<Option<String>>) -> Option<Option<Seq<char>>> {
    match r {
        Some(s) => Some(opt_view(s)),
        None => None,
    }
}

pub(crate) fn read_opt_text(v: &Json, key: &str) -> (r: Option<Option<String>>)
    ensures
        opt_opt_view(r) == opt_text_in(v@, key@),
{
    match v.get(key) {
        None => Some(None),
        Some(Json::Null) => Some(None),
        Some(Json::Str(s)) => Some(Some(s.clone())),
        Some(_) => None,
    }
}

/// A count that may be absent or null.
pub open spec fn opt_uint_in(v: JsonV, key: Seq<char>) -> Option<Option<u64>> {
    match v.get(key) {
        None => Some(None),
        Some(JsonV::Null) => Some(None),
        Some(x) => match x.uint() {
            Some(n) => Some(Some(n)),
            None => None,
        },
    }
}

pub(crate) fn read_opt_uint(v: &Json, key: &str) -> (r: Option<Option<u64>>)
    ensures
        r == opt_uint_in(v@, key@),
{
    match v.get(key) {
        None => Some(None),
        Some(Json::Null) => Some(None),
        Some(x) => match x.as_u64() {
            Some(n) => Some(Some(n)),
            None => None,
        },
    }
}

/// A number that may be absent or null.
pub open spec fn opt_double_in(v: JsonV, key: Seq<char>) -> Option<Option<Double>> {
    match v.get(key) {
        None => Some(None),
        Some(JsonV::Null) => Some(None),
        Some(JsonV::Number(n)) => Some(Some(Double { bits: double_of(n) })),
        Some(_) => None,
    }
}

pub(crate) fn read_opt_double(v: &Json, key: &str) -> (r: Option<Option<Double>>)
    ensures
        r == opt_double_in(v@, key@),
{
    match v.get(key) {
        None => Some(None),
        Some(Json::Null) => Some(None),
        Some(Json::Number(n)) => Some(Some(Double { bits: n.as_double() })),
        Some(_) => None,
    }
}

/// A switch.
pub open spec fn bool_in(v: JsonV, key: Seq<char>) -> Option<bool> {
    match v.get(key) {
        Some(x) => x.boolean(),
        None => None,
    }
}

pub(crate) fn read_bool(v: &Json, key: &str) -> (r: Option<bool>)
    ensures
        r == bool_in(v@, key@),
{
    match v.get(key) {
        Some(x) => x.as_bool(),
        None => None,
    }
}

pub(crate) fn read_text(v: &Json, key: &str) -> (r: Option<String>)
    ensures
        opt_view(r) == v@.text_at(key@),
{
    match v.str_at(key) {
        Some(s) => Some(s.clone()),
        None => None,
    }
}

fn read_json(v: &Json, key: &str) -> (r: Option<Json>)
    ensures
        opt_view(r) == v@.get(key@),
{
    match v.get(key) {
        Some(x) => Some(x.dup()),
        None => None,
    }
}

/// A list of texts.
pub open spec fn texts_at(v: JsonV, key: Seq<char>) -> Option<Seq<Seq<char>>> {
    match v.get(key) {
        Some(JsonV::Array(items)) => if all_texts(items) {
            Some(string_items(items))
        } else {
            None
        },
        _ => None,
    }
}

/// The views of texts that may be absent.
pub open spec fn opt_texts(r: Option<Vec<String>>) -> Option<Seq<Seq<char>>> {
    match r {
        Some(l) => Some(views(l@)),
        None => None,
    }
}

pub(crate) fn read_texts(v: &Json, key: &str) -> (r: Option<Vec<String>>)
    ensures
        opt_texts(r) == texts_at(v@, key@),
{
    match v.get(key) {
        Some(Json::Array(items)) => {
            let found = texts_in(items);
            if let Some(l) = &found {
                assert(views(l@) == texts(l@));
            }
            found
        },
        _ => None,
    }
}

/// Extra fields: none where they are left out.
pub open spec fn extra_in(v: JsonV, key: Seq<char>) -> Option<Map<Seq<char>, JsonV>> {
    match v.get(key) {
        None => Some(Map::empty()),
        Some(JsonV::Object(m)) => Some(m),
        Some(_) => None,
    }
}

fn read_extra(v: &Json, key: &str) -> (r: Option<JsonMap>)
    ensures
        opt_view(r) == extra_in(v@, key@),
{
    match v.get(key) {
        None => Some(JsonMap::new()),
        Some(Json::Object(m)) => Some(m.dup()),
        Some(_) => None,
    }
}

/// Extra fields, left out where there are none.
pub open spec fn extra_value(m: Map<Seq<char>, JsonV>) -> Option<JsonV> {
    if m == Map::<Seq<char>, JsonV>::empty() {
        None
    } else {
        Some(JsonV::Object(m))
    }
}

/// The value of a role.
pub open spec fn role_form(x: Role) -> JsonV {
    match x {
        Role::System => JsonV::Str("system"@),
        Role::User => JsonV::Str("user"@),
        Role::Assistant => JsonV::Str("assistant"@),
        Role::Tool => JsonV::Str("tool"@),
    }
}

/// A role that a value spells out.
pub open spec fn role_in(v: JsonV, deep: bool) -> Option<Role> {
    if is_word(v, "system"@, deep) {
        Some(Role::System)
    } else if is_word(v, "user"@, deep) {
        Some(Role::User)
    } else if is_word(v, "assistant"@, deep) {
        Some(Role::Assistant)
    } else if is_word(v, "tool"@, deep) {
        Some(Role::Tool)
    } else {
        None
    }
}

impl Role {
    /// The value.
    pub fn to_json(&self) -> (r: Json)
        ensures
            r@ == role_form(*self),
    {
        match self {
            Role::System => string("system"),
            Role::User => string("user"),
            Role::Assistant => string("assistant"),
            Role::Tool => string("tool"),
        }
    }

    /// Reads it from a value.
    pub fn from_json(v: &Json) -> (r: Option<Role>)
        ensures
            r == role_in(v@, false),
    {
        Role::read(v, false)
    }

    /// Reads it from a value, which may be part of a tagged one.
    fn read(v: &Json, deep: bool) -> (r: Option<Role>)
        ensures
            r == role_in(v@, deep),
    {
        if gives_word(v, "system", deep) {
            Some(Role::System)
        } else if gives_word(v, "user", deep) {
            Some(Role::User)
        } else if gives_word(v, "assistant", deep) {
            Some(Role::Assistant)
        } else if gives_word(v, "tool", deep) {
            Some(Role::Tool)
        } else {
            None
        }
    }
}

/// A role survives being written and read.
pub proof fn law_role_survives(x: Role, deep: bool)
    ensures
        role_in(role_form(x), deep) == Some(x),
{
    lemma_canonical_words();
}

/// A member that is one.
pub open spec fn role_at(v: JsonV, key: Seq<char>, deep: bool) -> Option<Role> {
    match v.get(key) {
        Some(x) => role_in(x, deep),
        None => None,
    }
}

fn read_role(v: &Json, key: &str, deep: bool) -> (r: Option<Role>)
    ensures
        r == role_at(v@, key@, deep),
{
    match v.get(key) {
        Some(x) => Role::read(x, deep),
        None => None,
    }
}

/// The value of a block.
pub open spec fn block_form(x: BlockV) -> JsonV {
    match x {
        BlockV::Text { text } => JsonV::Object(
            map![
                "type"@ => JsonV::Str("text"@),
                "text"@ => JsonV::Str(text),
            ],
        ),
        BlockV::ToolUse { id, name, input } => JsonV::Object(
            map![
                "type"@ => JsonV::Str("tool_use"@),
                "id"@ => JsonV::Str(id),
                "name"@ => JsonV::Str(name),
                "input"@ => input,
            ],
        ),
        BlockV::ToolResult { id, content, is_error } => JsonV::Object(
            map![
                "type"@ => JsonV::Str("tool_result"@),
                "id"@ => JsonV::Str(id),
                "content"@ => JsonV::Str(content),
                "is_error"@ => JsonV::Bool(is_error),
            ],
        ),
        BlockV::Image { media_type, data } => JsonV::Object(
            map![
                "type"@ => JsonV::Str("image"@),
                "media_type"@ => JsonV::Str(media_type),
                "data"@ => JsonV::Str(data),
            ],
        ),
    }
}

/// A block that a value spells out.
pub open spec fn block_in(v: JsonV, deep: bool) -> Option<BlockV> {
    match tag_in(v, "type"@) {
        None => None,
        Some(tag) => if is_tag(tag, "text"@, 0, deep) {
            let v = seated(v, strs(TEXT_BLOCK@), 2);
            match v.text_at("text"@) {
                Some(text) => Some(BlockV::Text { text }),
                None => None,
            }
        } else if is_tag(tag, "tool_use"@, 1, deep) {
            let v = seated(v, strs(TOOL_USE_BLOCK@), 4);
            match (v.text_at("id"@), v.text_at("name"@), v.get("input"@)) {
                (Some(id), Some(name), Some(input)) => Some(BlockV::ToolUse { id, name, input }),
                _ => None,
            }
        } else if is_tag(tag, "tool_result"@, 2, deep) {
            let v = seated(v, strs(TOOL_RESULT_BLOCK@), 4);
            match (v.text_at("id"@), v.text_at("content"@), bool_in(v, "is_error"@)) {
                (Some(id), Some(content), Some(is_error)) => Some(BlockV::ToolResult { id, content, is_error }),
                _ => None,
            }
        } else if is_tag(tag, "image"@, 3, deep) {
            let v = seated(v, strs(IMAGE_BLOCK@), 3);
            match (v.text_at("media_type"@), v.text_at("data"@)) {
                (Some(media_type), Some(data)) => Some(BlockV::Image { media_type, data }),
                _ => None,
            }
        } else {
            None
        },
    }
}

impl ContentBlock {
    /// The value.
    pub fn to_json(&self) -> (r: Json)
        ensures
            r@ == block_form(self@),
    {
        match self {
            ContentBlock::Text { text } => Json::Object(
                JsonMap::new().set("type", string("text")).set(
                    "text",
                    string(text.as_str()),
                ),
            ),
            ContentBlock::ToolUse { id, name, input } => Json::Object(
                JsonMap::new().set("type", string("tool_use")).set(
                    "id",
                    string(id.as_str()),
                ).set(
                    "name",
                    string(name.as_str()),
                ).set(
                    "input",
                    input.dup(),
                ),
            ),
            ContentBlock::ToolResult { id, content, is_error } => Json::Object(
                JsonMap::new().set("type", string("tool_result")).set(
                    "id",
                    string(id.as_str()),
                ).set(
                    "content",
                    string(content.as_str()),
                ).set(
                    "is_error",
                    Json::Bool(*is_error),
                ),
            ),
            ContentBlock::Image { media_type, data } => Json::Object(
                JsonMap::new().set("type", string("image")).set(
                    "media_type",
                    string(media_type.as_str()),
                ).set(
                    "data",
                    string(data.as_str()),
                ),
            ),
        }
    }

    /// Reads it from a value.
    pub fn from_json(v: &Json) -> (r: Option<ContentBlock>)
        ensures
            opt_view(r) == block_in(v@, false),
    {
        ContentBlock::read(v, false)
    }

    /// Reads it from a value, which may be part of a tagged one.
    fn read(v: &Json, deep: bool) -> (r: Option<ContentBlock>)
        ensures
            opt_view(r) == block_in(v@, deep),
    {
        let tag = match find_tag(v, "type") {
            Some(tag) => tag,
            None => {
                return None;
            },
        };
        if picks(tag, "text", 0, deep) {
            let seats = seat(v, &TEXT_BLOCK, 2);
            let v = pick(&seats, v);
            match read_text(v, "text") {
                Some(text) => Some(ContentBlock::Text { text }),
                None => None,
            }
        } else if picks(tag, "tool_use", 1, deep) {
            let seats = seat(v, &TOOL_USE_BLOCK, 4);
            let v = pick(&seats, v);
            match (read_text(v, "id"), read_text(v, "name"), read_json(v, "input")) {
                (Some(id), Some(name), Some(input)) => Some(ContentBlock::ToolUse { id, name, input }),
                _ => None,
            }
        } else if picks(tag, "tool_result", 2, deep) {
            let seats = seat(v, &TOOL_RESULT_BLOCK, 4);
            let v = pick(&seats, v);
            match (read_text(v, "id"), read_text(v, "content"), read_bool(v, "is_error")) {
                (Some(id), Some(content), Some(is_error)) => Some(ContentBlock::ToolResult { id, content, is_error }),
                _ => None,
            }
        } else if picks(tag, "image", 3, deep) {
            let seats = seat(v, &IMAGE_BLOCK, 3);
            let v = pick(&seats, v);
            match (read_text(v, "media_type"), read_text(v, "data")) {
                (Some(media_type), Some(data)) => Some(ContentBlock::Image { media_type, data }),
                _ => None,
            }
        } else {
            None
        }
    }
}

/// A block survives being written and read.
pub proof fn law_block_survives(x: BlockV, deep: bool)
    ensures
        block_in(block_form(x), deep) == Some(x),
{
    lemma_canonical_words();
    assert(block_in(block_form(x), deep) =~= Some(x));
}

/// A member that is one.
pub open spec fn block_at(v: JsonV, key: Seq<char>) -> Option<BlockV> {
    match v.get(key) {
        Some(x) => block_in(x, true),
        None => None,
    }
}

fn read_block(v: &Json, key: &str) -> (r: Option<ContentBlock>)
    ensures
        opt_view(r) == block_at(v@, key@),
{
    match v.get(key) {
        Some(x) => ContentBlock::read(x, true),
        None => None,
    }
}

/// The values of a list.
pub open spec fn block_forms(l: Seq<BlockV>) -> Seq<JsonV> {
    l.map_values(|x: BlockV| block_form(x))
}

/// The list that values spell out.
pub open spec fn block_list(items: Seq<JsonV>) -> Option<Seq<BlockV>>
    decreases items.len(),
{
    if items.len() == 0 {
        Some(Seq::empty())
    } else {
        match (block_list(items.drop_last()), block_in(items.last(), false)) {
            (Some(before), Some(x)) => Some(before.push(x)),
            _ => None,
        }
    }
}

/// A member that is a list.
pub open spec fn block_list_at(v: JsonV, key: Seq<char>) -> Option<Seq<BlockV>> {
    match v.get(key) {
        Some(JsonV::Array(items)) => block_list(items),
        _ => None,
    }
}

fn write_block_list(l: &Vec<ContentBlock>) -> (r: Json)
    ensures
        r@ == JsonV::Array(block_forms(views(l@))),
{
    let mut out: Vec<Json> = Vec::new();
    let mut i: usize = 0;
    while i < l.len()
        invariant
            i <= l.len(),
            out@.len() == i,
            forall|k: int| 0 <= k < i ==> (#[trigger] out@[k])@ == block_form(l@[k]@),
        decreases l.len() - i,
    {
        out.push(l[i].to_json());
        i += 1;
    }
    assert(seq_view(out@) == block_forms(views(l@)));
    Json::Array(out)
}

proof fn lemma_block_unread(items: Seq<JsonV>, i: int)
    requires
        0 <= i < items.len(),
        block_in(items[i], false) is None,
    ensures
        block_list(items) is None,
    decreases items.len(),
{
    if i < items.len() - 1 {
        assert(items.drop_last()[i] == items[i]);
        lemma_block_unread(items.drop_last(), i);
    }
}

/// The views of a list that was read.
pub open spec fn block_list_view(r: Option<Vec<ContentBlock>>) -> Option<Seq<BlockV>> {
    match r {
        Some(l) => Some(views(l@)),
        None => None,
    }
}

fn read_block_list(v: &Json, key: &str) -> (r: Option<Vec<ContentBlock>>)
    ensures
        block_list_view(r) == block_list_at(v@, key@),
{
    match v.get(key) {
        Some(Json::Array(items)) => {
            let ghost all = seq_view(items@);
            let mut out: Vec<ContentBlock> = Vec::new();
            assert(views(out@) == Seq::<BlockV>::empty());
            let mut i: usize = 0;
            while i < items.len()
                invariant
                    i <= items.len(),
                    all == seq_view(items@),
                    v@.get(key@) == Some(JsonV::Array(all)),
                    block_list(all.take(i as int)) == Some(views(out@)),
                decreases items.len() - i,
            {
                let ghost before = views(out@);
                assert(all.take(i + 1).drop_last() == all.take(i as int));
                assert(all.take(i + 1).last() == items@[i as int]@);
                match ContentBlock::from_json(&items[i]) {
                    Some(x) => {
                        let ghost x_v = x@;
                        out.push(x);
                        assert(views(out@) == before.push(x_v));
                    },
                    None => {
                        proof {
                            lemma_block_unread(all, i as int);
                        }
                        return None;
                    },
                }
                i += 1;
            }
            assert(all.take(i as int) == all);
            Some(out)
        },
        _ => None,
    }
}

proof fn lemma_block_list_survives(l: Seq<BlockV>)
    ensures
        block_list(block_forms(l)) == Some(l),
    decreases l.len(),
{
    if l.len() > 0 {
        lemma_block_list_survives(l.drop_last());
        law_block_survives(l.last(), false);
        assert(block_forms(l).drop_last() == block_forms(l.drop_last()));
        assert(block_forms(l).last() == block_form(l.last()));
        assert(l == l.drop_last().push(l.last()));
    }
}

/// The value of a message.
pub open spec fn message_form(x: MessageV) -> JsonV {
    JsonV::Object(
        map![
            "role"@ => role_form(x.role),
            "content"@ => JsonV::Array(block_forms(x.content)),
        ],
    )
}

/// A message that a value spells out.
pub open spec fn message_in(v: JsonV) -> Option<MessageV> {
    let v = seated(v, strs(MESSAGE_FIELDS@), 2);
    if v is Object {
        match (role_at(v, "role"@, false), block_list_at(v, "content"@)) {
            (Some(role), Some(content)) => Some(MessageV { role, content }),
            _ => None,
        }
    } else {
        None
    }
}

impl CanonicalMessage {
    /// The value.
    pub fn to_json(&self) -> (r: Json)
        ensures
            r@ == message_form(self@),
    {
        let mut m = JsonMap::new();
        m = m.set("role", self.role.to_json());
        m = m.set("content", write_block_list(&self.content));
        Json::Object(m)
    }

    /// Reads it from a value.
    pub fn from_json(v: &Json) -> (r: Option<CanonicalMessage>)
        ensures
            opt_view(r) == message_in(v@),
    {
        let seats = seat(v, &MESSAGE_FIELDS, 2);
        let v = pick(&seats, v);
        if v.as_object().is_none() {
            return None;
        }
        match (read_role(v, "role", false), read_block_list(v, "content")) {
            (Some(role), Some(content)) => Some(CanonicalMessage { role, content }),
            _ => None,
        }
    }
}

/// A message survives being written and read.
pub proof fn law_message_survives(x: MessageV)
    ensures
        message_in(message_form(x)) == Some(x),
{
    lemma_canonical_words();
    law_role_survives(x.role, false);
    lemma_block_list_survives(x.content);
    assert(message_in(message_form(x)) =~= Some(x));
}

/// The values of a list.
pub open spec fn message_forms(l: Seq<MessageV>) -> Seq<JsonV> {
    l.map_values(|x: MessageV| message_form(x))
}

/// The list that values spell out.
pub open spec fn message_list(items: Seq<JsonV>) -> Option<Seq<MessageV>>
    decreases items.len(),
{
    if items.len() == 0 {
        Some(Seq::empty())
    } else {
        match (message_list(items.drop_last()), message_in(items.last())) {
            (Some(before), Some(x)) => Some(before.push(x)),
            _ => None,
        }
    }
}

/// A member that is a list.
pub open spec fn message_list_at(v: JsonV, key: Seq<char>) -> Option<Seq<MessageV>> {
    match v.get(key) {
        Some(JsonV::Array(items)) => message_list(items),
        _ => None,
    }
}

fn write_message_list(l: &Vec<CanonicalMessage>) -> (r: Json)
    ensures
        r@ == JsonV::Array(message_forms(views(l@))),
{
    let mut out: Vec<Json> = Vec::new();
    let mut i: usize = 0;
    while i < l.len()
        invariant
            i <= l.len(),
            out@.len() == i,
            forall|k: int| 0 <= k < i ==> (#[trigger] out@[k])@ == message_form(l@[k]@),
        decreases l.len() - i,
    {
        out.push(l[i].to_json());
        i += 1;
    }
    assert(seq_view(out@) == message_forms(views(l@)));
    Json::Array(out)
}

proof fn lemma_message_unread(items: Seq<JsonV>, i: int)
    requires
        0 <= i < items.len(),
        message_in(items[i]) is None,
    ensures
        message_list(items) is None,
    decreases items.len(),
{
    if i < items.len() - 1 {
        assert(items.drop_last()[i] == items[i]);
        lemma_message_unread(items.drop_last(), i);
    }
}

/// The views of a list that was read.
pub open spec fn message_list_view(r: Option<Vec<CanonicalMessage>>) -> Option<Seq<MessageV>> {
    match r {
        Some(l) => Some(views(l@)),
        None => None,
    }
}

fn read_message_list(v: &Json, key: &str) -> (r: Option<Vec<CanonicalMessage>>)
    ensures
        message_list_view(r) == message_list_at(v@, key@),
{
    match v.get(key) {
        Some(Json::Array(items)) => {
            let ghost all = seq_view(items@);
            let mut out: Vec<CanonicalMessage> = Vec::new();
            assert(views(out@) == Seq::<MessageV>::empty());
            let mut i: usize = 0;
            while i < items.len()
                invariant
                    i <= items.len(),
                    all == seq_view(items@),
                    v@.get(key@) == Some(JsonV::Array(all)),
                    message_list(all.take(i as int)) == Some(views(out@)),
                decreases items.len() - i,
            {
                let ghost before = views(out@);
                assert(all.take(i + 1).drop_last() == all.take(i as int));
                assert(all.take(i + 1).last() == items@[i as int]@);
                match CanonicalMessage::from_json(&items[i]) {
                    Some(x) => {
                        let ghost x_v = x@;
                        out.push(x);
                        assert(views(out@) == before.push(x_v));
                    },
                    None => {
                        proof {
                            lemma_message_unread(all, i as int);
                        }
                        return None;
                    },
                }
                i += 1;
            }
            assert(all.take(i as int) == all);
            Some(out)
        },
        _ => None,
    }
}

proof fn lemma_message_list_survives(l: Seq<MessageV>)
    ensures
        message_list(message_forms(l)) == Some(l),
    decreases l.len(),
{
    if l.len() > 0 {
        lemma_message_list_survives(l.drop_last());
        law_message_survives(l.last());
        assert(message_forms(l).drop_last() == message_forms(l.drop_last()));
        assert(message_forms(l).last() == message_form(l.last()));
        assert(l == l.drop_last().push(l.last()));
    }
}

/// The value of a tool.
pub open spec fn tool_form(x: ToolV) -> JsonV {
    JsonV::Object(
        map![
            "name"@ => JsonV::Str(x.name),
            "description"@ => or_null(opt_str(x.description)),
            "input_schema"@ => x.input_schema,
        ],
    )
}

/// A tool that a value spells out.
pub open spec fn tool_in(v: JsonV) -> Option<ToolV> {
    let v = seated(v, strs(TOOL_FIELDS@), 3);
    if v is Object {
        match (
            v.text_at("name"@),
            opt_text_in(v, "description"@),
            v.get("input_schema"@),
        ) {
            (Some(name), Some(description), Some(input_schema)) => Some(ToolV { name, description, input_schema }),
            _ => None,
        }
    } else {
        None
    }
}

impl CanonicalTool {
    /// The value.
    pub fn to_json(&self) -> (r: Json)
        ensures
            r@ == tool_form(self@),
    {
        let mut m = JsonMap::new();
        m = m.set("name", string(self.name.as_str()));
        m = m.set("description", string_or_null(&self.description));
        m = m.set("input_schema", self.input_schema.dup());
        Json::Object(m)
    }

    /// Reads it from a value.
    pub fn from_json(v: &Json) -> (r: Option<CanonicalTool>)
        ensures
            opt_view(r) == tool_in(v@),
    {
        let seats = seat(v, &TOOL_FIELDS, 3);
        let v = pick(&seats, v);
        if v.as_object().is_none() {
            return None;
        }
        match (
            read_text(v, "name"),
            read_opt_text(v, "description"),
            read_json(v, "input_schema"),
        ) {
            (Some(name), Some(description), Some(input_schema)) => Some(CanonicalTool { name, description, input_schema }),
            _ => None,
        }
    }
}

/// A tool survives being written and read.
pub proof fn law_tool_survives(x: ToolV)
    ensures
        tool_in(tool_form(x)) == Some(x),
{
    lemma_canonical_words();
    assert(tool_in(tool_form(x)) =~= Some(x));
}

/// The values of a list.
pub open spec fn tool_forms(l: Seq<ToolV>) -> Seq<JsonV> {
    l.map_values(|x: ToolV| tool_form(x))
}

/// The list that values spell out.
pub open spec fn tool_list(items: Seq<JsonV>) -> Option<Seq<ToolV>>
    decreases items.len(),
{
    if items.len() == 0 {
        Some(Seq::empty())
    } else {
        match (tool_list(items.drop_last()), tool_in(items.last())) {
            (Some(before), Some(x)) => Some(before.push(x)),
            _ => None,
        }
    }
}

/// A member that is a list.
pub open spec fn tool_list_at(v: JsonV, key: Seq<char>) -> Option<Seq<ToolV>> {
    match v.get(key) {
        Some(JsonV::Array(items)) => tool_list(items),
        _ => None,
    }
}

fn write_tool_list(l: &Vec<CanonicalTool>) -> (r: Json)
    ensures
        r@ == JsonV::Array(tool_forms(views(l@))),
{
    let mut out: Vec<Json> = Vec::new();
    let mut i: usize = 0;
    while i < l.len()
        invariant
            i <= l.len(),
            out@.len() == i,
            forall|k: int| 0 <= k < i ==> (#[trigger] out@[k])@ == tool_form(l@[k]@),
        decreases l.len() - i,
    {
        out.push(l[i].to_json());
        i += 1;
    }
    assert(seq_view(out@) == tool_forms(views(l@)));
    Json::Array(out)
}

proof fn lemma_tool_unread(items: Seq<JsonV>, i: int)
    requires
        0 <= i < items.len(),
        tool_in(items[i]) is None,
    ensures
        tool_list(items) is None,
    decreases items.len(),
{
    if i < items.len() - 1 {
        assert(items.drop_last()[i] == items[i]);
        lemma_tool_unread(items.drop_last(), i);
    }
}

/// The views of a list that was read.
pub open spec fn tool_list_view(r: Option<Vec<CanonicalTool>>) -> Option<Seq<ToolV>> {
    match r {
        Some(l) => Some(views(l@)),
        None => None,
    }
}

fn read_tool_list(v: &Json, key: &str) -> (r: Option<Vec<CanonicalTool>>)
    ensures
        tool_list_view(r) == tool_list_at(v@, key@),
{
    match v.get(key) {
        Some(Json::Array(items)) => {
            let ghost all = seq_view(items@);
            let mut out: Vec<CanonicalTool> = Vec::new();
            assert(views(out@) == Seq::<ToolV>::empty());
            let mut i: usize = 0;
            while i < items.len()
                invariant
                    i <= items.len(),
                    all == seq_view(items@),
                    v@.get(key@) == Some(JsonV::Array(all)),
                    tool_list(all.take(i as int)) == Some(views(out@)),
                decreases items.len() - i,
            {
                let ghost before = views(out@);
                assert(all.take(i + 1).drop_last() == all.take(i as int));
                assert(all.take(i + 1).last() == items@[i as int]@);
                match CanonicalTool::from_json(&items[i]) {
                    Some(x) => {
                        let ghost x_v = x@;
                        out.push(x);
                        assert(views(out@) == before.push(x_v));
                    },
                    None => {
                        proof {
                            lemma_tool_unread(all, i as int);
                        }
                        return None;
                    },
                }
                i += 1;
            }
            assert(all.take(i as int) == all);
            Some(out)
        },
        _ => None,
    }
}

proof fn lemma_tool_list_survives(l: Seq<ToolV>)
    ensures
        tool_list(tool_forms(l)) == Some(l),
    decreases l.len(),
{
    if l.len() > 0 {
        lemma_tool_list_survives(l.drop_last());
        law_tool_survives(l.last());
        assert(tool_forms(l).drop_last() == tool_forms(l.drop_last()));
        assert(tool_forms(l).last() == tool_form(l.last()));
        assert(l == l.drop_last().push(l.last()));
    }
}

/// The value of a tool choice.
pub open spec fn choice_form(x: ToolChoiceV) -> JsonV {
    match x {
        ToolChoiceV::Auto => JsonV::Str("auto"@),
        ToolChoiceV::Any => JsonV::Str("any"@),
        ToolChoiceV::Never => JsonV::Str("none"@),
        ToolChoiceV::Tool(text) => JsonV::Object(
            Map::<Seq<char>, JsonV>::empty().insert("tool"@, JsonV::Str(text)),
        ),
    }
}

/// A tool choice that a value spells out.
pub open spec fn choice_in(v: JsonV) -> Option<ToolChoiceV> {
    if is_word(v, "auto"@, false) {
        Some(ToolChoiceV::Auto)
    } else if is_word(v, "any"@, false) {
        Some(ToolChoiceV::Any)
    } else if is_word(v, "none"@, false) {
        Some(ToolChoiceV::Never)
    } else {
        match v {
            JsonV::Object(m) => match v.text_at("tool"@) {
                Some(text) => if m.dom() == set!["tool"@] {
                    Some(ToolChoiceV::Tool(text))
                } else {
                    None
                },
                None => None,
            },
            _ => None,
        }
    }
}

impl ToolChoice {
    /// The value.
    pub fn to_json(&self) -> (r: Json)
        ensures
            r@ == choice_form(self@),
    {
        match self {
            ToolChoice::Auto => string("auto"),
            ToolChoice::Any => string("any"),
            ToolChoice::Never => string("none"),
            ToolChoice::Tool(text) => Json::Object(
                JsonMap::new().set("tool", string(text.as_str())),
            ),
        }
    }

    /// Reads it from a value.
    pub fn from_json(v: &Json) -> (r: Option<ToolChoice>)
        ensures
            opt_view(r) == choice_in(v@),
    {
        if gives_word(v, "auto", false) {
            Some(ToolChoice::Auto)
        } else if gives_word(v, "any", false) {
            Some(ToolChoice::Any)
        } else if gives_word(v, "none", false) {
            Some(ToolChoice::Never)
        } else {
            match v {
                Json::Object(m) => match v.str_at("tool") {
                    Some(text) => if only_member(m, "tool") {
                        Some(ToolChoice::Tool(text.clone()))
                    } else {
                        None
                    },
                    None => None,
                },
                _ => None,
            }
        }
    }
}

/// A tool choice survives being written and read.
pub proof fn law_choice_survives(x: ToolChoiceV)
    ensures
        choice_in(choice_form(x)) == Some(x),
{
    lemma_canonical_words();
    match x {
        ToolChoiceV::Tool(text) => {
            let m = Map::<Seq<char>, JsonV>::empty().insert("tool"@, JsonV::Str(text));
            assert(m.dom() == set!["tool"@]);
        },
        _ => {},
    }
}

/// A member that is one, or is absent or null.
pub open spec fn opt_choice_at(v: JsonV, key: Seq<char>) -> Option<Option<ToolChoiceV>> {
    match v.get(key) {
        None => Some(None),
        Some(JsonV::Null) => Some(None),
        Some(x) => match choice_in(x) {
            Some(y) => Some(Some(y)),
            None => None,
        },
    }
}

/// The view of one that was read.
pub open spec fn opt_choice_view(r: Option<Option<ToolChoice>>) -> Option<Option<ToolChoiceV>> {
    match r {
        Some(x) => Some(opt_view(x)),
        None => None,
    }
}

fn read_opt_choice(v: &Json, key: &str) -> (r: Option<Option<ToolChoice>>)
    ensures
        opt_choice_view(r) == opt_choice_at(v@, key@),
{
    match v.get(key) {
        None => Some(None),
        Some(Json::Null) => Some(None),
        Some(x) => match ToolChoice::from_json(x) {
            Some(y) => Some(Some(y)),
            None => None,
        },
    }
}

/// The value of a stop reason.
pub open spec fn reason_form(x: StopReasonV) -> JsonV {
    match x {
        StopReasonV::EndTurn => JsonV::Str("end_turn"@),
        StopReasonV::MaxTokens => JsonV::Str("max_tokens"@),
        StopReasonV::ToolUse => JsonV::Str("tool_use"@),
        StopReasonV::StopSequence => JsonV::Str("stop_sequence"@),
        StopReasonV::Other(text) => JsonV::Object(
            Map::<Seq<char>, JsonV>::empty().insert("other"@, JsonV::Str(text)),
        ),
    }
}

/// A stop reason that a value spells out.
pub open spec fn reason_in(v: JsonV, deep: bool) -> Option<StopReasonV> {
    if is_word(v, "end_turn"@, deep) {
        Some(StopReasonV::EndTurn)
    } else if is_word(v, "max_tokens"@, deep) {
        Some(StopReasonV::MaxTokens)
    } else if is_word(v, "tool_use"@, deep) {
        Some(StopReasonV::ToolUse)
    } else if is_word(v, "stop_sequence"@, deep) {
        Some(StopReasonV::StopSequence)
    } else {
        match v {
            JsonV::Object(m) => match v.text_at("other"@) {
                Some(text) => if m.dom() == set!["other"@] {
                    Some(StopReasonV::Other(text))
                } else {
                    None
                },
                None => None,
            },
            _ => None,
        }
    }
}

impl StopReason {
    /// The value.
    pub fn to_json(&self) -> (r: Json)
        ensures
            r@ == reason_form(self@),
    {
        match self {
            StopReason::EndTurn => string("end_turn"),
            StopReason::MaxTokens => string("max_tokens"),
            StopReason::ToolUse => string("tool_use"),
            StopReason::StopSequence => string("stop_sequence"),
            StopReason::Other(text) => Json::Object(
                JsonMap::new().set("other", string(text.as_str())),
            ),
        }
    }

    /// Reads it from a value.
    pub fn from_json(v: &Json) -> (r: Option<StopReason>)
        ensures
            opt_view(r) == reason_in(v@, false),
    {
        StopReason::read(v, false)
    }

    /// Reads it from a value, which may be part of a tagged one.
    fn read(v: &Json, deep: bool) -> (r: Option<StopReason>)
        ensures
            opt_view(r) == reason_in(v@, deep),
    {
        if gives_word(v, "end_turn", deep) {
            Some(StopReason::EndTurn)
        } else if gives_word(v, "max_tokens", deep) {
            Some(StopReason::MaxTokens)
        } else if gives_word(v, "tool_use", deep) {
            Some(StopReason::ToolUse)
        } else if gives_word(v, "stop_sequence", deep) {
            Some(StopReason::StopSequence)
        } else {
            match v {
                Json::Object(m) => match v.str_at("other") {
                    Some(text) => if only_member(m, "other") {
                        Some(StopReason::Other(text.clone()))
                    } else {
                        None
                    },
                    None => None,
                },
                _ => None,
            }
        }
    }
}

/// A stop reason survives being written and read.
pub proof fn law_reason_survives(x: StopReasonV, deep: bool)
    ensures
        reason_in(reason_form(x), deep) == Some(x),
{
    lemma_canonical_words();
    match x {
        StopReasonV::Other(text) => {
            let m = Map::<Seq<char>, JsonV>::empty().insert("other"@, JsonV::Str(text));
            assert(m.dom() == set!["other"@]);
        },
        _ => {},
    }
}

/// A member that is one, or is absent or null.
pub open spec fn opt_reason_at(v: JsonV, key: Seq<char>, deep: bool) -> Option<Option<StopReasonV>> {
    match v.get(key) {
        None => Some(None),
        Some(JsonV::Null) => Some(None),
        Some(x) => match reason_in(x, deep) {
            Some(y) => Some(Some(y)),
            None => None,
        },
    }
}

/// The view of one that was read.
pub open spec fn opt_reason_view(r: Option<Option<StopReason>>) -> Option<Option<StopReasonV>> {
    match r {
        Some(x) => Some(opt_view(x)),
        None => None,
    }
}

fn read_opt_reason(v: &Json, key: &str, deep: bool) -> (r: Option<Option<StopReason>>)
    ensures
        opt_reason_view(r) == opt_reason_at(v@, key@, deep),
{
    match v.get(key) {
        None => Some(None),
        Some(Json::Null) => Some(None),
        Some(x) => match StopReason::read(x, deep) {
            Some(y) => Some(Some(y)),
            None => None,
        },
    }
}

/// Whether a number that may be absent can stand in JSON.
pub open spec fn can_stand(d: Option<Double>) -> bool {
    d matches Some(d) ==> finite_bits(d.bits)
}

/// The value of a choice of sampling.
pub open spec fn sampling_form(x: SamplingV) -> JsonV {
    JsonV::Object(
        map![
            "temperature"@ => or_null(opt_double(x.temperature)),
            "top_p"@ => or_null(opt_double(x.top_p)),
            "top_k"@ => or_null(opt_uint(x.top_k)),
            "max_tokens"@ => or_null(opt_uint(x.max_tokens)),
            "stop"@ => JsonV::Array(str_values(x.stop)),
        ],
    )
}

/// A choice of sampling that a value spells out.
pub open spec fn sampling_in(v: JsonV) -> Option<SamplingV> {
    let v = seated(v, strs(SAMPLING_FIELDS@), 5);
    if v is Object {
        match (
            opt_double_in(v, "temperature"@),
            opt_double_in(v, "top_p"@),
            opt_uint_in(v, "top_k"@),
            opt_uint_in(v, "max_tokens"@),
            texts_at(v, "stop"@),
        ) {
            (Some(temperature), Some(top_p), Some(top_k), Some(max_tokens), Some(stop)) => Some(
                SamplingV { temperature, top_p, top_k, max_tokens, stop },
            ),
            _ => None,
        }
    } else {
        None
    }
}

impl Sampling {
    /// The value.
    pub fn to_json(&self) -> (r: Json)
        ensures
            r@ == sampling_form(self@),
    {
        let mut m = JsonMap::new();
        m = m.set("temperature", double_or_null(self.temperature));
        m = m.set("top_p", double_or_null(self.top_p));
        m = m.set("top_k", uint_or_null(self.top_k));
        m = m.set("max_tokens", uint_or_null(self.max_tokens));
        m = m.set("stop", string_array(&self.stop));
        Json::Object(m)
    }

    /// Reads it from a value.
    pub fn from_json(v: &Json) -> (r: Option<Sampling>)
        ensures
            opt_view(r) == sampling_in(v@),
    {
        let seats = seat(v, &SAMPLING_FIELDS, 5);
        let v = pick(&seats, v);
        if v.as_object().is_none() {
            return None;
        }
        match (
            read_opt_double(v, "temperature"),
            read_opt_double(v, "top_p"),
            read_opt_uint(v, "top_k"),
            read_opt_uint(v, "max_tokens"),
            read_texts(v, "stop"),
        ) {
            (Some(temperature), Some(top_p), Some(top_k), Some(max_tokens), Some(stop)) => Some(
                Sampling { temperature, top_p, top_k, max_tokens, stop },
            ),
            _ => None,
        }
    }
}

/// A choice of sampling survives being written and read.
pub proof fn law_sampling_survives(x: SamplingV)
    requires
        can_stand(x.temperature) && can_stand(x.top_p),
    ensures
        sampling_in(sampling_form(x)) == Some(x),
{
    lemma_canonical_words();
    lemma_strings_come_back(x.stop);
    assert(sampling_in(sampling_form(x)) =~= Some(x));
}

/// A member that is one.
pub open spec fn sampling_at(v: JsonV, key: Seq<char>) -> Option<SamplingV> {
    match v.get(key) {
        Some(x) => sampling_in(x),
        None => None,
    }
}

fn read_sampling(v: &Json, key: &str) -> (r: Option<Sampling>)
    ensures
        opt_view(r) == sampling_at(v@, key@),
{
    match v.get(key) {
        Some(x) => Sampling::from_json(x),
        None => None,
    }
}

/// The value of a count of tokens.
pub open spec fn usage_form(x: Usage) -> JsonV {
    JsonV::Object(
        map![
            "input_tokens"@ => or_null(opt_uint(x.input_tokens)),
            "output_tokens"@ => or_null(opt_uint(x.output_tokens)),
        ],
    )
}

/// A count of tokens that a value spells out.
pub open spec fn usage_in(v: JsonV) -> Option<Usage> {
    let v = seated(v, strs(USAGE_FIELDS@), 2);
    if v is Object {
        match (opt_uint_in(v, "input_tokens"@), opt_uint_in(v, "output_tokens"@)) {
            (Some(input_tokens), Some(output_tokens)) => Some(Usage { input_tokens, output_tokens }),
            _ => None,
        }
    } else {
        None
    }
}

impl Usage {
    /// The value.
    pub fn to_json(&self) -> (r: Json)
        ensures
            r@ == usage_form(*self),
    {
        let mut m = JsonMap::new();
        m = m.set("input_tokens", uint_or_null(self.input_tokens));
        m = m.set("output_tokens", uint_or_null(self.output_tokens));
        Json::Object(m)
    }

    /// Reads it from a value.
    pub fn from_json(v: &Json) -> (r: Option<Usage>)
        ensures
            r == usage_in(v@),
    {
        let seats = seat(v, &USAGE_FIELDS, 2);
        let v = pick(&seats, v);
        if v.as_object().is_none() {
            return None;
        }
        match (read_opt_uint(v, "input_tokens"), read_opt_uint(v, "output_tokens")) {
            (Some(input_tokens), Some(output_tokens)) => Some(Usage { input_tokens, output_tokens }),
            _ => None,
        }
    }
}

/// A count of tokens survives being written and read.
pub proof fn law_usage_survives(x: Usage)
    ensures
        usage_in(usage_form(x)) == Some(x),
{
    lemma_canonical_words();
    assert(usage_in(usage_form(x)) =~= Some(x));
}

/// A member that is one, or is absent or null.
pub open spec fn opt_usage_at(v: JsonV, key: Seq<char>) -> Option<Option<Usage>> {
    match v.get(key) {
        None => Some(None),
        Some(JsonV::Null) => Some(None),
        Some(x) => match usage_in(x) {
            Some(y) => Some(Some(y)),
            None => None,
        },
    }
}

/// The view of one that was read.
pub open spec fn opt_usage_view(r: Option<Option<Usage>>) -> Option<Option<Usage>> {
    match r {
        Some(x) => Some(x),
        None => None,
    }
}

fn read_opt_usage(v: &Json, key: &str) -> (r: Option<Option<Usage>>)
    ensures
        opt_usage_view(r) == opt_usage_at(v@, key@),
{
    match v.get(key) {
        None => Some(None),
        Some(Json::Null) => Some(None),
        Some(x) => match Usage::from_json(x) {
            Some(y) => Some(Some(y)),
            None => None,
        },
    }
}

/// The value of a dropped field.
pub open spec fn dropped_form(x: DroppedV) -> JsonV {
    JsonV::Object(
        map![
            "path"@ => JsonV::Str(x.path),
            "reason"@ => JsonV::Str(x.reason),
        ],
    )
}

/// A dropped field that a value spells out.
pub open spec fn dropped_in(v: JsonV) -> Option<DroppedV> {
    let v = seated(v, strs(DROPPED_FIELDS@), 2);
    if v is Object {
        match (v.text_at("path"@), v.text_at("reason"@)) {
            (Some(path), Some(reason)) => Some(DroppedV { path, reason }),
            _ => None,
        }
    } else {
        None
    }
}

impl DroppedField {
    /// The value.
    pub fn to_json(&self) -> (r: Json)
        ensures
            r@ == dropped_form(self@),
    {
        let mut m = JsonMap::new();
        m = m.set("path", string(self.path.as_str()));
        m = m.set("reason", string(self.reason.as_str()));
        Json::Object(m)
    }

    /// Reads it from a value.
    pub fn from_json(v: &Json) -> (r: Option<DroppedField>)
        ensures
            opt_view(r) == dropped_in(v@),
    {
        let seats = seat(v, &DROPPED_FIELDS, 2);
        let v = pick(&seats, v);
        if v.as_object().is_none() {
            return None;
        }
        match (read_text(v, "path"), read_text(v, "reason")) {
            (Some(path), Some(reason)) => Some(DroppedField { path, reason }),
            _ => None,
        }
    }
}

/// A dropped field survives being written and read.
pub proof fn law_dropped_survives(x: DroppedV)
    ensures
        dropped_in(dropped_form(x)) == Some(x),
{
    lemma_canonical_words();
    assert(dropped_in(dropped_form(x)) =~= Some(x));
}

/// The values of a list.
pub open spec fn dropped_forms(l: Seq<DroppedV>) -> Seq<JsonV> {
    l.map_values(|x: DroppedV| dropped_form(x))
}

/// The list that values spell out.
pub open spec fn dropped_list(items: Seq<JsonV>) -> Option<Seq<DroppedV>>
    decreases items.len(),
{
    if items.len() == 0 {
        Some(Seq::empty())
    } else {
        match (dropped_list(items.drop_last()), dropped_in(items.last())) {
            (Some(before), Some(x)) => Some(before.push(x)),
            _ => None,
        }
    }
}

/// A member that is a list.
pub open spec fn dropped_list_at(v: JsonV, key: Seq<char>) -> Option<Seq<DroppedV>> {
    match v.get(key) {
        Some(JsonV::Array(items)) => dropped_list(items),
        _ => None,
    }
}

fn write_dropped_list(l: &Vec<DroppedField>) -> (r: Json)
    ensures
        r@ == JsonV::Array(dropped_forms(views(l@))),
{
    let mut out: Vec<Json> = Vec::new();
    let mut i: usize = 0;
    while i < l.len()
        invariant
            i <= l.len(),
            out@.len() == i,
            forall|k: int| 0 <= k < i ==> (#[trigger] out@[k])@ == dropped_form(l@[k]@),
        decreases l.len() - i,
    {
        out.push(l[i].to_json());
        i += 1;
    }
    assert(seq_view(out@) == dropped_forms(views(l@)));
    Json::Array(out)
}

proof fn lemma_dropped_unread(items: Seq<JsonV>, i: int)
    requires
        0 <= i < items.len(),
        dropped_in(items[i]) is None,
    ensures
        dropped_list(items) is None,
    decreases items.len(),
{
    if i < items.len() - 1 {
        assert(items.drop_last()[i] == items[i]);
        lemma_dropped_unread(items.drop_last(), i);
    }
}

/// The views of a list that was read.
pub open spec fn dropped_list_view(r: Option<Vec<DroppedField>>) -> Option<Seq<DroppedV>> {
    match r {
        Some(l) => Some(views(l@)),
        None => None,
    }
}

fn read_dropped_list(v: &Json, key: &str) -> (r: Option<Vec<DroppedField>>)
    ensures
        dropped_list_view(r) == dropped_list_at(v@, key@),
{
    match v.get(key) {
        Some(Json::Array(items)) => {
            let ghost all = seq_view(items@);
            let mut out: Vec<DroppedField> = Vec::new();
            assert(views(out@) == Seq::<DroppedV>::empty());
            let mut i: usize = 0;
            while i < items.len()
                invariant
                    i <= items.len(),
                    all == seq_view(items@),
                    v@.get(key@) == Some(JsonV::Array(all)),
                    dropped_list(all.take(i as int)) == Some(views(out@)),
                decreases items.len() - i,
            {
                let ghost before = views(out@);
                assert(all.take(i + 1).drop_last() == all.take(i as int));
                assert(all.take(i + 1).last() == items@[i as int]@);
                match DroppedField::from_json(&items[i]) {
                    Some(x) => {
                        let ghost x_v = x@;
                        out.push(x);
                        assert(views(out@) == before.push(x_v));
                    },
                    None => {
                        proof {
                            lemma_dropped_unread(all, i as int);
                        }
                        return None;
                    },
                }
                i += 1;
            }
            assert(all.take(i as int) == all);
            Some(out)
        },
        _ => None,
    }
}

proof fn lemma_dropped_list_survives(l: Seq<DroppedV>)
    ensures
        dropped_list(dropped_forms(l)) == Some(l),
    decreases l.len(),
{
    if l.len() > 0 {
        lemma_dropped_list_survives(l.drop_last());
        law_dropped_survives(l.last());
        assert(dropped_forms(l).drop_last() == dropped_forms(l.drop_last()));
        assert(dropped_forms(l).last() == dropped_form(l.last()));
        assert(l == l.drop_last().push(l.last()));
    }
}

/// The value of a report.
pub open spec fn report_form(x: ReportV) -> JsonV {
    JsonV::Object(
        map![
            "dropped"@ => JsonV::Array(dropped_forms(x.dropped)),
            "notes"@ => JsonV::Array(str_values(x.notes)),
        ],
    )
}

/// A report that a value spells out.
pub open spec fn report_in(v: JsonV) -> Option<ReportV> {
    let v = seated(v, strs(REPORT_FIELDS@), 2);
    if v is Object {
        match (dropped_list_at(v, "dropped"@), texts_at(v, "notes"@)) {
            (Some(dropped), Some(notes)) => Some(ReportV { dropped, notes }),
            _ => None,
        }
    } else {
        None
    }
}

impl TranslationReport {
    /// The value.
    pub fn to_json(&self) -> (r: Json)
        ensures
            r@ == report_form(self@),
    {
        let mut m = JsonMap::new();
        m = m.set("dropped", write_dropped_list(&self.dropped));
        m = m.set("notes", string_array(&self.notes));
        Json::Object(m)
    }

    /// Reads it from a value.
    pub fn from_json(v: &Json) -> (r: Option<TranslationReport>)
        ensures
            opt_view(r) == report_in(v@),
    {
        let seats = seat(v, &REPORT_FIELDS, 2);
        let v = pick(&seats, v);
        if v.as_object().is_none() {
            return None;
        }
        match (read_dropped_list(v, "dropped"), read_texts(v, "notes")) {
            (Some(dropped), Some(notes)) => Some(TranslationReport { dropped, notes }),
            _ => None,
        }
    }
}

/// A report survives being written and read.
pub proof fn law_report_survives(x: ReportV)
    ensures
        report_in(report_form(x)) == Some(x),
{
    lemma_canonical_words();
    lemma_dropped_list_survives(x.dropped);
    lemma_strings_come_back(x.notes);
    assert(report_in(report_form(x)) =~= Some(x));
}

/// The value of where a request came in.
pub open spec fn ctx_form(path: Seq<char>, method: Seq<char>) -> JsonV {
    JsonV::Object(
        Map::<Seq<char>, JsonV>::empty().insert("path"@, JsonV::Str(path)).insert(
            "method"@,
            JsonV::Str(method),
        ),
    )
}

/// The path and the method that a value spells out.
pub open spec fn ctx_in(v: JsonV) -> Option<(Seq<char>, Seq<char>)> {
    let v = seated(v, strs(CTX_FIELDS@), 2);
    match (v.text_at("path"@), v.text_at("method"@)) {
        (Some(path), Some(method)) => Some((path, method)),
        _ => None,
    }
}

/// The path and the method of a request that may be absent.
pub open spec fn ctx_parts(r: Option<RequestCtx>) -> Option<(Seq<char>, Seq<char>)> {
    match r {
        Some(ctx) => Some((ctx.path@, ctx.method@)),
        None => None,
    }
}

impl RequestCtx {
    /// The value.
    pub fn to_json(&self) -> (r: Json)
        ensures
            r@ == ctx_form(self.path@, self.method@),
    {
        let mut m = JsonMap::new();
        m = m.set("path", string(self.path.as_str()));
        m = m.set("method", string(self.method.as_str()));
        Json::Object(m)
    }

    /// Reads it from a value.
    pub fn from_json(v: &Json) -> (r: Option<RequestCtx>)
        ensures
            ctx_parts(r) == ctx_in(v@),
    {
        let seats = seat(v, &CTX_FIELDS, 2);
        let v = pick(&seats, v);
        match (read_text(v, "path"), read_text(v, "method")) {
            (Some(path), Some(method)) => Some(RequestCtx { path, method }),
            _ => None,
        }
    }
}

/// Where a request came in survives being written and read.
pub proof fn law_ctx_survives(path: Seq<char>, method: Seq<char>)
    ensures
        ctx_in(ctx_form(path, method)) == Some((path, method)),
{
    lemma_canonical_words();
}

/// The value of a request.
pub open spec fn request_form(x: RequestV) -> JsonV {
    JsonV::Object(
        put_opt(
        put_opt(
        map![
            "model"@ => JsonV::Str(x.model),
            "messages"@ => JsonV::Array(message_forms(x.messages)),
            "tools"@ => JsonV::Array(tool_forms(x.tools)),
            "tool_choice"@ => match x.tool_choice { Some(y) => choice_form(y), None => JsonV::Null },
            "sampling"@ => sampling_form(x.sampling),
            "stream"@ => JsonV::Bool(x.stream),
        ],
            "system"@,
            opt_str(x.system),
        ),
            "extra"@,
            extra_value(x.extra),
        ),
    )
}

/// A request that a value spells out.
pub open spec fn request_in(v: JsonV) -> Option<RequestV> {
    let v = seated(v, strs(REQUEST_FIELDS@), 7);
    if v is Object {
        match (
            v.text_at("model"@),
            message_list_at(v, "messages"@),
            opt_text_in(v, "system"@),
            tool_list_at(v, "tools"@),
            opt_choice_at(v, "tool_choice"@),
            sampling_at(v, "sampling"@),
            bool_in(v, "stream"@),
            extra_in(v, "extra"@),
        ) {
            (Some(model), Some(messages), Some(system), Some(tools), Some(tool_choice), Some(sampling), Some(stream), Some(
                extra,
            )) => Some(
                RequestV { model, messages, system, tools, tool_choice, sampling, stream, extra },
            ),
            _ => None,
        }
    } else {
        None
    }
}

impl CanonicalRequest {
    /// The value.
    pub fn to_json(&self) -> (r: Json)
        ensures
            r@ == request_form(self@),
    {
        let mut m = JsonMap::new();
        m = m.set("model", string(self.model.as_str()));
        m = m.set("messages", write_message_list(&self.messages));
        m = m.set("tools", write_tool_list(&self.tools));
        m = m.set("tool_choice", match &self.tool_choice { Some(y) => y.to_json(), None => Json::Null });
        m = m.set("sampling", self.sampling.to_json());
        m = m.set("stream", Json::Bool(self.stream));
        if let Some(s) = &self.system {
            m = m.set("system", string(s.as_str()));
        }
        if !self.extra.is_empty() {
            m = m.set("extra", Json::Object(self.extra.dup()));
        }
        Json::Object(m)
    }

    /// Reads it from a value.
    pub fn from_json(v: &Json) -> (r: Option<CanonicalRequest>)
        ensures
            opt_view(r) == request_in(v@),
    {
        let seats = seat(v, &REQUEST_FIELDS, 7);
        let v = pick(&seats, v);
        if v.as_object().is_none() {
            return None;
        }
        match (
            read_text(v, "model"),
            read_message_list(v, "messages"),
            read_opt_text(v, "system"),
            read_tool_list(v, "tools"),
            read_opt_choice(v, "tool_choice"),
            read_sampling(v, "sampling"),
            read_bool(v, "stream"),
            read_extra(v, "extra"),
        ) {
            (Some(model), Some(messages), Some(system), Some(tools), Some(tool_choice), Some(sampling), Some(stream), Some(
                extra,
            )) => Some(
                CanonicalRequest { model, messages, system, tools, tool_choice, sampling, stream, extra },
            ),
            _ => None,
        }
    }
}

/// A request survives being written and read.
pub proof fn law_request_survives(x: RequestV)
    requires
        can_stand(x.sampling.temperature) && can_stand(x.sampling.top_p),
    ensures
        request_in(request_form(x)) == Some(x),
{
    lemma_canonical_words();
    lemma_message_list_survives(x.messages);
    lemma_tool_list_survives(x.tools);
    if let Some(choice) = x.tool_choice {
        law_choice_survives(choice);
    }
    law_sampling_survives(x.sampling);
    assert(request_in(request_form(x)) =~= Some(x));
}

/// The value of a response.
pub open spec fn response_form(x: ResponseV) -> JsonV {
    JsonV::Object(
        put_opt(
        map![
            "model"@ => JsonV::Str(x.model),
            "content"@ => JsonV::Array(block_forms(x.content)),
            "stop_reason"@ => match x.stop_reason { Some(y) => reason_form(y), None => JsonV::Null },
            "usage"@ => match x.usage { Some(y) => usage_form(y), None => JsonV::Null },
        ],
            "extra"@,
            extra_value(x.extra),
        ),
    )
}

/// A response that a value spells out.
pub open spec fn response_in(v: JsonV) -> Option<ResponseV> {
    let v = seated(v, strs(RESPONSE_FIELDS@), 4);
    if v is Object {
        match (
            v.text_at("model"@),
            block_list_at(v, "content"@),
            opt_reason_at(v, "stop_reason"@, false),
            opt_usage_at(v, "usage"@),
            extra_in(v, "extra"@),
        ) {
            (Some(model), Some(content), Some(stop_reason), Some(usage), Some(extra)) => Some(
                ResponseV { model, content, stop_reason, usage, extra },
            ),
            _ => None,
        }
    } else {
        None
    }
}

impl CanonicalResponse {
    /// The value.
    pub fn to_json(&self) -> (r: Json)
        ensures
            r@ == response_form(self@),
    {
        let mut m = JsonMap::new();
        m = m.set("model", string(self.model.as_str()));
        m = m.set("content", write_block_list(&self.content));
        m = m.set("stop_reason", match &self.stop_reason { Some(y) => y.to_json(), None => Json::Null });
        m = m.set("usage", match &self.usage { Some(y) => y.to_json(), None => Json::Null });
        if !self.extra.is_empty() {
            m = m.set("extra", Json::Object(self.extra.dup()));
        }
        Json::Object(m)
    }

    /// Reads it from a value.
    pub fn from_json(v: &Json) -> (r: Option<CanonicalResponse>)
        ensures
            opt_view(r) == response_in(v@),
    {
        let seats = seat(v, &RESPONSE_FIELDS, 4);
        let v = pick(&seats, v);
        if v.as_object().is_none() {
            return None;
        }
        match (
            read_text(v, "model"),
            read_block_list(v, "content"),
            read_opt_reason(v, "stop_reason", false),
            read_opt_usage(v, "usage"),
            read_extra(v, "extra"),
        ) {
            (Some(model), Some(content), Some(stop_reason), Some(usage), Some(extra)) => Some(
                CanonicalResponse { model, content, stop_reason, usage, extra },
            ),
            _ => None,
        }
    }
}

/// A response survives being written and read.
pub proof fn law_response_survives(x: ResponseV)
    ensures
        response_in(response_form(x)) == Some(x),
{
    lemma_canonical_words();
    lemma_block_list_survives(x.content);
    if let Some(reason) = x.stop_reason {
        law_reason_survives(reason, false);
    }
    if let Some(usage) = x.usage {
        law_usage_survives(usage);
    }
    assert(response_in(response_form(x)) =~= Some(x));
}

/// The value of a stream event.
pub open spec fn event_form(x: EventV) -> JsonV {
    match x {
        EventV::MessageStart { model, role } => JsonV::Object(
            map![
                "type"@ => JsonV::Str("message_start"@),
                "model"@ => JsonV::Str(model),
                "role"@ => role_form(role),
            ],
        ),
        EventV::ContentBlockStart { index, block } => JsonV::Object(
            map![
                "type"@ => JsonV::Str("content_block_start"@),
                "index"@ => JsonV::Number(Num::PosInt(index)),
                "block"@ => block_form(block),
            ],
        ),
        EventV::ContentBlockDelta { index, text, partial_json } => JsonV::Object(
            map![
                "type"@ => JsonV::Str("content_block_delta"@),
                "index"@ => JsonV::Number(Num::PosInt(index)),
                "text"@ => or_null(opt_str(text)),
                "partial_json"@ => or_null(opt_str(partial_json)),
            ],
        ),
        EventV::ContentBlockStop { index } => JsonV::Object(
            map![
                "type"@ => JsonV::Str("content_block_stop"@),
                "index"@ => JsonV::Number(Num::PosInt(index)),
            ],
        ),
        EventV::MessageDelta { stop_reason, usage } => JsonV::Object(
            map![
                "type"@ => JsonV::Str("message_delta"@),
                "stop_reason"@ => match stop_reason { Some(y) => reason_form(y), None => JsonV::Null },
                "usage"@ => match usage { Some(y) => usage_form(y), None => JsonV::Null },
            ],
        ),
        EventV::MessageStop => JsonV::Object(
            map![
                "type"@ => JsonV::Str("message_stop"@),
            ],
        ),
    }
}

/// A stream event that a value spells out.
pub open spec fn event_in(v: JsonV) -> Option<EventV> {
    match tag_in(v, "type"@) {
        None => None,
        Some(tag) => if is_tag(tag, "message_start"@, 0, false) {
            let v = seated(v, strs(MESSAGE_START_FIELDS@), 3);
            match (v.text_at("model"@), role_at(v, "role"@, true)) {
                (Some(model), Some(role)) => Some(EventV::MessageStart { model, role }),
                _ => None,
            }
        } else if is_tag(tag, "content_block_start"@, 1, false) {
            let v = seated(v, strs(CONTENT_BLOCK_START_FIELDS@), 3);
            match (v.uint_at("index"@), block_at(v, "block"@)) {
                (Some(index), Some(block)) => Some(EventV::ContentBlockStart { index, block }),
                _ => None,
            }
        } else if is_tag(tag, "content_block_delta"@, 2, false) {
            let v = seated(v, strs(CONTENT_BLOCK_DELTA_FIELDS@), 4);
            match (v.uint_at("index"@), opt_text_in(v, "text"@), opt_text_in(v, "partial_json"@)) {
                (Some(index), Some(text), Some(partial_json)) => Some(EventV::ContentBlockDelta { index, text, partial_json }),
                _ => None,
            }
        } else if is_tag(tag, "content_block_stop"@, 3, false) {
            let v = seated(v, strs(CONTENT_BLOCK_STOP_FIELDS@), 2);
            match v.uint_at("index"@) {
                Some(index) => Some(EventV::ContentBlockStop { index }),
                None => None,
            }
        } else if is_tag(tag, "message_delta"@, 4, false) {
            let v = seated(v, strs(MESSAGE_DELTA_FIELDS@), 3);
            match (opt_reason_at(v, "stop_reason"@, true), opt_usage_at(v, "usage"@)) {
                (Some(stop_reason), Some(usage)) => Some(EventV::MessageDelta { stop_reason, usage }),
                _ => None,
            }
        } else if is_tag(tag, "message_stop"@, 5, false) {
            if seated(v, strs(MESSAGE_STOP_FIELDS@), 1) is Object {
                Some(EventV::MessageStop)
            } else {
                None
            }
        } else {
            None
        },
    }
}

impl CanonicalStreamEvent {
    /// The value.
    pub fn to_json(&self) -> (r: Json)
        ensures
            r@ == event_form(self@),
    {
        match self {
            CanonicalStreamEvent::MessageStart { model, role } => Json::Object(
                JsonMap::new().set("type", string("message_start")).set(
                    "model",
                    string(model.as_str()),
                ).set(
                    "role",
                    role.to_json(),
                ),
            ),
            CanonicalStreamEvent::ContentBlockStart { index, block } => Json::Object(
                JsonMap::new().set("type", string("content_block_start")).set(
                    "index",
                    uint(*index),
                ).set(
                    "block",
                    block.to_json(),
                ),
            ),
            CanonicalStreamEvent::ContentBlockDelta { index, text, partial_json } => Json::Object(
                JsonMap::new().set("type", string("content_block_delta")).set(
                    "index",
                    uint(*index),
                ).set(
                    "text",
                    string_or_null(text),
                ).set(
                    "partial_json",
                    string_or_null(partial_json),
                ),
            ),
            CanonicalStreamEvent::ContentBlockStop { index } => Json::Object(
                JsonMap::new().set("type", string("content_block_stop")).set(
                    "index",
                    uint(*index),
                ),
            ),
            CanonicalStreamEvent::MessageDelta { stop_reason, usage } => Json::Object(
                JsonMap::new().set("type", string("message_delta")).set(
                    "stop_reason",
                    match stop_reason { Some(y) => y.to_json(), None => Json::Null },
                ).set(
                    "usage",
                    match usage { Some(y) => y.to_json(), None => Json::Null },
                ),
            ),
            CanonicalStreamEvent::MessageStop => Json::Object(
                JsonMap::new().set("type", string("message_stop")),
            ),
        }
    }

    /// Reads it from a value.
    pub fn from_json(v: &Json) -> (r: Option<CanonicalStreamEvent>)
        ensures
            opt_view(r) == event_in(v@),
    {
        let tag = match find_tag(v, "type") {
            Some(tag) => tag,
            None => {
                return None;
            },
        };
        if picks(tag, "message_start", 0, false) {
            let seats = seat(v, &MESSAGE_START_FIELDS, 3);
            let v = pick(&seats, v);
            match (read_text(v, "model"), read_role(v, "role", true)) {
                (Some(model), Some(role)) => Some(CanonicalStreamEvent::MessageStart { model, role }),
                _ => None,
            }
        } else if picks(tag, "content_block_start", 1, false) {
            let seats = seat(v, &CONTENT_BLOCK_START_FIELDS, 3);
            let v = pick(&seats, v);
            match (v.u64_at("index"), read_block(v, "block")) {
                (Some(index), Some(block)) => Some(CanonicalStreamEvent::ContentBlockStart { index, block }),
                _ => None,
            }
        } else if picks(tag, "content_block_delta", 2, false) {
            let seats = seat(v, &CONTENT_BLOCK_DELTA_FIELDS, 4);
            let v = pick(&seats, v);
            match (v.u64_at("index"), read_opt_text(v, "text"), read_opt_text(v, "partial_json")) {
                (Some(index), Some(text), Some(partial_json)) => Some(
                    CanonicalStreamEvent::ContentBlockDelta { index, text, partial_json },
                ),
                _ => None,
            }
        } else if picks(tag, "content_block_stop", 3, false) {
            let seats = seat(v, &CONTENT_BLOCK_STOP_FIELDS, 2);
            let v = pick(&seats, v);
            match v.u64_at("index") {
                Some(index) => Some(CanonicalStreamEvent::ContentBlockStop { index }),
                None => None,
            }
        } else if picks(tag, "message_delta", 4, false) {
            let seats = seat(v, &MESSAGE_DELTA_FIELDS, 3);
            let v = pick(&seats, v);
            match (read_opt_reason(v, "stop_reason", true), read_opt_usage(v, "usage")) {
                (Some(stop_reason), Some(usage)) => Some(CanonicalStreamEvent::MessageDelta { stop_reason, usage }),
                _ => None,
            }
        } else if picks(tag, "message_stop", 5, false) {
            let seats = seat(v, &MESSAGE_STOP_FIELDS, 1);
            let v = pick(&seats, v);
            if v.as_object().is_some() {
                Some(CanonicalStreamEvent::MessageStop)
            } else {
                None
            }
        } else {
            None
        }
    }
}

/// A stream event survives being written and read.
pub proof fn law_event_survives(x: EventV)
    ensures
        event_in(event_form(x)) == Some(x),
{
    lemma_canonical_words();
    match x {
        EventV::MessageStart { role, .. } => {
            law_role_survives(role, true);
        },
        EventV::ContentBlockStart { block, .. } => {
            law_block_survives(block, true);
        },
        EventV::MessageDelta { stop_reason, usage } => {
            if let Some(reason) = stop_reason {
                law_reason_survives(reason, true);
            }
            if let Some(usage) = usage {
                law_usage_survives(usage);
            }
        },
        _ => {},
    }
    assert(event_in(event_form(x)) =~= Some(x));
}

/// The value of a kind of fragment.
pub open spec fn kind_form(x: DeltaKind) -> JsonV {
    match x {
        DeltaKind::Text => JsonV::Str("text"@),
        DeltaKind::ToolCall => JsonV::Str("tool_call"@),
        DeltaKind::Usage => JsonV::Str("usage"@),
        DeltaKind::Finish => JsonV::Str("finish"@),
        DeltaKind::Other => JsonV::Str("other"@),
    }
}

/// A kind of fragment that a value spells out.
pub open spec fn kind_in(v: JsonV) -> Option<DeltaKind> {
    if is_word(v, "text"@, false) {
        Some(DeltaKind::Text)
    } else if is_word(v, "tool_call"@, false) {
        Some(DeltaKind::ToolCall)
    } else if is_word(v, "usage"@, false) {
        Some(DeltaKind::Usage)
    } else if is_word(v, "finish"@, false) {
        Some(DeltaKind::Finish)
    } else if is_word(v, "other"@, false) {
        Some(DeltaKind::Other)
    } else {
        None
    }
}

impl DeltaKind {
    /// The value.
    pub fn to_json(&self) -> (r: Json)
        ensures
            r@ == kind_form(*self),
    {
        match self {
            DeltaKind::Text => string("text"),
            DeltaKind::ToolCall => string("tool_call"),
            DeltaKind::Usage => string("usage"),
            DeltaKind::Finish => string("finish"),
            DeltaKind::Other => string("other"),
        }
    }

    /// Reads it from a value.
    pub fn from_json(v: &Json) -> (r: Option<DeltaKind>)
        ensures
            r == kind_in(v@),
    {
        if gives_word(v, "text", false) {
            Some(DeltaKind::Text)
        } else if gives_word(v, "tool_call", false) {
            Some(DeltaKind::ToolCall)
        } else if gives_word(v, "usage", false) {
            Some(DeltaKind::Usage)
        } else if gives_word(v, "finish", false) {
            Some(DeltaKind::Finish)
        } else if gives_word(v, "other", false) {
            Some(DeltaKind::Other)
        } else {
            None
        }
    }
}

/// A kind of fragment survives being written and read.
pub proof fn law_kind_survives(x: DeltaKind)
    ensures
        kind_in(kind_form(x)) == Some(x),
{
    lemma_canonical_words();
}

/// A member that is one.
pub open spec fn kind_at(v: JsonV, key: Seq<char>) -> Option<DeltaKind> {
    match v.get(key) {
        Some(x) => kind_in(x),
        None => None,
    }
}

fn read_kind(v: &Json, key: &str) -> (r: Option<DeltaKind>)
    ensures
        r == kind_at(v@, key@),
{
    match v.get(key) {
        Some(x) => DeltaKind::from_json(x),
        None => None,
    }
}

/// The value of a fragment of a tool call.
pub open spec fn call_form(x: ToolCallDeltaV) -> JsonV {
    JsonV::Object(
        map![
            "id"@ => or_null(opt_str(x.id)),
            "name"@ => or_null(opt_str(x.name)),
            "arguments_fragment"@ => or_null(opt_str(x.arguments_fragment)),
        ],
    )
}

/// A fragment of a tool call that a value spells out.
pub open spec fn call_in(v: JsonV) -> Option<ToolCallDeltaV> {
    let v = seated(v, strs(CALL_FIELDS@), 3);
    if v is Object {
        match (
            opt_text_in(v, "id"@),
            opt_text_in(v, "name"@),
            opt_text_in(v, "arguments_fragment"@),
        ) {
            (Some(id), Some(name), Some(arguments_fragment)) => Some(ToolCallDeltaV { id, name, arguments_fragment }),
            _ => None,
        }
    } else {
        None
    }
}

impl ToolCallDelta {
    /// The value.
    pub fn to_json(&self) -> (r: Json)
        ensures
            r@ == call_form(self@),
    {
        let mut m = JsonMap::new();
        m = m.set("id", string_or_null(&self.id));
        m = m.set("name", string_or_null(&self.name));
        m = m.set("arguments_fragment", string_or_null(&self.arguments_fragment));
        Json::Object(m)
    }

    /// Reads it from a value.
    pub fn from_json(v: &Json) -> (r: Option<ToolCallDelta>)
        ensures
            opt_view(r) == call_in(v@),
    {
        let seats = seat(v, &CALL_FIELDS, 3);
        let v = pick(&seats, v);
        if v.as_object().is_none() {
            return None;
        }
        match (
            read_opt_text(v, "id"),
            read_opt_text(v, "name"),
            read_opt_text(v, "arguments_fragment"),
        ) {
            (Some(id), Some(name), Some(arguments_fragment)) => Some(ToolCallDelta { id, name, arguments_fragment }),
            _ => None,
        }
    }
}

/// A fragment of a tool call survives being written and read.
pub proof fn law_call_survives(x: ToolCallDeltaV)
    ensures
        call_in(call_form(x)) == Some(x),
{
    lemma_canonical_words();
    assert(call_in(call_form(x)) =~= Some(x));
}

/// A member that is one, or is absent or null.
pub open spec fn opt_call_at(v: JsonV, key: Seq<char>) -> Option<Option<ToolCallDeltaV>> {
    match v.get(key) {
        None => Some(None),
        Some(JsonV::Null) => Some(None),
        Some(x) => match call_in(x) {
            Some(y) => Some(Some(y)),
            None => None,
        },
    }
}

/// The view of one that was read.
pub open spec fn opt_call_view(r: Option<Option<ToolCallDelta>>) -> Option<Option<ToolCallDeltaV>> {
    match r {
        Some(x) => Some(opt_view(x)),
        None => None,
    }
}

fn read_opt_call(v: &Json, key: &str) -> (r: Option<Option<ToolCallDelta>>)
    ensures
        opt_call_view(r) == opt_call_at(v@, key@),
{
    match v.get(key) {
        None => Some(None),
        Some(Json::Null) => Some(None),
        Some(x) => match ToolCallDelta::from_json(x) {
            Some(y) => Some(Some(y)),
            None => None,
        },
    }
}

/// The value of the counts of a fragment.
pub open spec fn counts_form(x: crate::llm::delta::Usage) -> JsonV {
    usage_form(Usage { input_tokens: x.input_tokens, output_tokens: x.output_tokens })
}

/// The counts of a fragment that a value spells out.
pub open spec fn counts_in(v: JsonV) -> Option<crate::llm::delta::Usage> {
    match usage_in(v) {
        Some(u) => Some(
            crate::llm::delta::Usage { input_tokens: u.input_tokens, output_tokens: u.output_tokens },
        ),
        None => None,
    }
}

impl crate::llm::delta::Usage {
    /// The value.
    pub fn to_json(&self) -> (r: Json)
        ensures
            r@ == counts_form(*self),
    {
        Usage { input_tokens: self.input_tokens, output_tokens: self.output_tokens }.to_json()
    }

    /// Reads it from a value.
    pub fn from_json(v: &Json) -> (r: Option<crate::llm::delta::Usage>)
        ensures
            r == counts_in(v@),
    {
        match Usage::from_json(v) {
            Some(u) => Some(
                crate::llm::delta::Usage { input_tokens: u.input_tokens, output_tokens: u.output_tokens },
            ),
            None => None,
        }
    }
}

/// The counts of a fragment survive being written and read.
pub proof fn law_counts_survives(x: crate::llm::delta::Usage)
    ensures
        counts_in(counts_form(x)) == Some(x),
{
    law_usage_survives(Usage { input_tokens: x.input_tokens, output_tokens: x.output_tokens });
}

/// A member that is one, or is absent or null.
pub open spec fn opt_counts_at(v: JsonV, key: Seq<char>) -> Option<Option<crate::llm::delta::Usage>> {
    match v.get(key) {
        None => Some(None),
        Some(JsonV::Null) => Some(None),
        Some(x) => match counts_in(x) {
            Some(y) => Some(Some(y)),
            None => None,
        },
    }
}

/// The view of one that was read.
pub open spec fn opt_counts_view(r: Option<Option<crate::llm::delta::Usage>>) -> Option<Option<crate::llm::delta::Usage>> {
    match r {
        Some(x) => Some(x),
        None => None,
    }
}

fn read_opt_counts(v: &Json, key: &str) -> (r: Option<Option<crate::llm::delta::Usage>>)
    ensures
        opt_counts_view(r) == opt_counts_at(v@, key@),
{
    match v.get(key) {
        None => Some(None),
        Some(Json::Null) => Some(None),
        Some(x) => match crate::llm::delta::Usage::from_json(x) {
            Some(y) => Some(Some(y)),
            None => None,
        },
    }
}

/// The value of an end of a stream.
pub open spec fn finish_form(x: FinishV) -> JsonV {
    JsonV::Object(
        map![
            "reason"@ => or_null(opt_str(x.reason)),
        ],
    )
}

/// An end of a stream that a value spells out.
pub open spec fn finish_in(v: JsonV) -> Option<FinishV> {
    let v = seated(v, strs(FINISH_FIELDS@), 1);
    if v is Object {
        match opt_text_in(v, "reason"@) {
            Some(reason) => Some(FinishV { reason }),
            None => None,
        }
    } else {
        None
    }
}

impl Finish {
    /// The value.
    pub fn to_json(&self) -> (r: Json)
        ensures
            r@ == finish_form(self@),
    {
        let mut m = JsonMap::new();
        m = m.set("reason", string_or_null(&self.reason));
        Json::Object(m)
    }

    /// Reads it from a value.
    pub fn from_json(v: &Json) -> (r: Option<Finish>)
        ensures
            opt_view(r) == finish_in(v@),
    {
        let seats = seat(v, &FINISH_FIELDS, 1);
        let v = pick(&seats, v);
        if v.as_object().is_none() {
            return None;
        }
        match read_opt_text(v, "reason") {
            Some(reason) => Some(Finish { reason }),
            None => None,
        }
    }
}

/// An end of a stream survives being written and read.
pub proof fn law_finish_survives(x: FinishV)
    ensures
        finish_in(finish_form(x)) == Some(x),
{
    lemma_canonical_words();
    assert(finish_in(finish_form(x)) =~= Some(x));
}

/// A member that is one, or is absent or null.
pub open spec fn opt_finish_at(v: JsonV, key: Seq<char>) -> Option<Option<FinishV>> {
    match v.get(key) {
        None => Some(None),
        Some(JsonV::Null) => Some(None),
        Some(x) => match finish_in(x) {
            Some(y) => Some(Some(y)),
            None => None,
        },
    }
}

/// The view of one that was read.
pub open spec fn opt_finish_view(r: Option<Option<Finish>>) -> Option<Option<FinishV>> {
    match r {
        Some(x) => Some(opt_view(x)),
        None => None,
    }
}

fn read_opt_finish(v: &Json, key: &str) -> (r: Option<Option<Finish>>)
    ensures
        opt_finish_view(r) == opt_finish_at(v@, key@),
{
    match v.get(key) {
        None => Some(None),
        Some(Json::Null) => Some(None),
        Some(x) => match Finish::from_json(x) {
            Some(y) => Some(Some(y)),
            None => None,
        },
    }
}

/// The value of a fragment.
pub open spec fn delta_form(x: DeltaV) -> JsonV {
    JsonV::Object(
        map![
            "kind"@ => kind_form(x.kind),
            "text"@ => or_null(opt_str(x.text)),
            "tool_call"@ => match x.tool_call { Some(y) => call_form(y), None => JsonV::Null },
            "usage"@ => match x.usage { Some(y) => counts_form(y), None => JsonV::Null },
            "finish"@ => match x.finish { Some(y) => finish_form(y), None => JsonV::Null },
        ],
    )
}

/// A fragment that a value spells out.
pub open spec fn delta_in(v: JsonV) -> Option<DeltaV> {
    let v = seated(v, strs(DELTA_FIELDS@), 5);
    if v is Object {
        match (
            kind_at(v, "kind"@),
            opt_text_in(v, "text"@),
            opt_call_at(v, "tool_call"@),
            opt_counts_at(v, "usage"@),
            opt_finish_at(v, "finish"@),
        ) {
            (Some(kind), Some(text), Some(tool_call), Some(usage), Some(finish)) => Some(
                DeltaV { kind, text, tool_call, usage, finish },
            ),
            _ => None,
        }
    } else {
        None
    }
}

impl Delta {
    /// The value.
    pub fn to_json(&self) -> (r: Json)
        ensures
            r@ == delta_form(self@),
    {
        let mut m = JsonMap::new();
        m = m.set("kind", self.kind.to_json());
        m = m.set("text", string_or_null(&self.text));
        m = m.set("tool_call", match &self.tool_call { Some(y) => y.to_json(), None => Json::Null });
        m = m.set("usage", match &self.usage { Some(y) => y.to_json(), None => Json::Null });
        m = m.set("finish", match &self.finish { Some(y) => y.to_json(), None => Json::Null });
        Json::Object(m)
    }

    /// Reads it from a value.
    pub fn from_json(v: &Json) -> (r: Option<Delta>)
        ensures
            opt_view(r) == delta_in(v@),
    {
        let seats = seat(v, &DELTA_FIELDS, 5);
        let v = pick(&seats, v);
        if v.as_object().is_none() {
            return None;
        }
        match (
            read_kind(v, "kind"),
            read_opt_text(v, "text"),
            read_opt_call(v, "tool_call"),
            read_opt_counts(v, "usage"),
            read_opt_finish(v, "finish"),
        ) {
            (Some(kind), Some(text), Some(tool_call), Some(usage), Some(finish)) => Some(
                Delta { kind, text, tool_call, usage, finish },
            ),
            _ => None,
        }
    }
}

/// A fragment survives being written and read.
pub proof fn law_delta_survives(x: DeltaV)
    ensures
        delta_in(delta_form(x)) == Some(x),
{
    lemma_canonical_words();
    law_kind_survives(x.kind);
    if let Some(call) = x.tool_call {
        law_call_survives(call);
    }
    if let Some(counts) = x.usage {
        law_counts_survives(counts);
    }
    if let Some(finish) = x.finish {
        law_finish_survives(finish);
    }
    assert(delta_in(delta_form(x)) =~= Some(x));
}

} // verus!
