//! The canonical form of a request, a response and a stream event: every field
//! that a provider's wire format can carry has a place here, so that a body read
//! in one dialect can be written in another without losing what the other could
//! have carried.

use std::collections::{HashMap, HashSet};
use vstd::prelude::*;

use crate::json::{reads_back, Double, Json, JsonMap, JsonV};
use crate::llm::{Llm, Message, PlainMessageV, LlmV, Tool};
use crate::text::{join, joined, opt_view, same, texts, views};

verus! {

/// Who a message is attributed to.
#[derive(Clone, Copy, PartialEq, Eq, Structural, Debug)]
pub enum Role {
    System,
    User,
    Assistant,
    Tool,
}

impl Role {
    /// The lower-case name of a role.
    pub open spec fn name(self) -> Seq<char> {
        match self {
            Role::System => "system"@,
            Role::User => "user"@,
            Role::Assistant => "assistant"@,
            Role::Tool => "tool"@,
        }
    }

    /// The lower-case name of a role.
    pub fn as_str(&self) -> (r: &'static str)
        ensures
            r@ == self.name(),
    {
        match self {
            Role::System => "system",
            Role::User => "user",
            Role::Assistant => "assistant",
            Role::Tool => "tool",
        }
    }
}

/// One block of a message's content.
#[derive(Clone, PartialEq, Debug)]
pub enum ContentBlock {
    Text { text: String },
    ToolUse { id: String, name: String, input: Json },
    ToolResult { id: String, content: String, is_error: bool },
    Image { media_type: String, data: String },
}

#[verifier::ext_equal]
pub enum BlockV {
    Text { text: Seq<char> },
    ToolUse { id: Seq<char>, name: Seq<char>, input: JsonV },
    ToolResult { id: Seq<char>, content: Seq<char>, is_error: bool },
    Image { media_type: Seq<char>, data: Seq<char> },
}

impl View for ContentBlock {
    type V = BlockV;

    open spec fn view(&self) -> BlockV {
        match self {
            ContentBlock::Text { text } => BlockV::Text { text: text@ },
            ContentBlock::ToolUse { id, name, input } => BlockV::ToolUse {
                id: id@,
                name: name@,
                input: input@,
            },
            ContentBlock::ToolResult { id, content, is_error } => BlockV::ToolResult {
                id: id@,
                content: content@,
                is_error: *is_error,
            },
            ContentBlock::Image { media_type, data } => BlockV::Image {
                media_type: media_type@,
                data: data@,
            },
        }
    }
}

impl ContentBlock {
    /// A copy of a block.
    pub fn dup(&self) -> (r: ContentBlock)
        ensures
            r@ == self@,
    {
        match self {
            ContentBlock::Text { text } => ContentBlock::Text { text: text.clone() },
            ContentBlock::ToolUse { id, name, input } => ContentBlock::ToolUse {
                id: id.clone(),
                name: name.clone(),
                input: input.dup(),
            },
            ContentBlock::ToolResult { id, content, is_error } => ContentBlock::ToolResult {
                id: id.clone(),
                content: content.clone(),
                is_error: *is_error,
            },
            ContentBlock::Image { media_type, data } => ContentBlock::Image {
                media_type: media_type.clone(),
                data: data.clone(),
            },
        }
    }
}

/// A message: a role and its content blocks.
#[derive(Clone, PartialEq, Debug)]
pub struct CanonicalMessage {
    pub role: Role,
    pub content: Vec<ContentBlock>,
}

#[verifier::ext_equal]
pub struct MessageV {
    pub role: Role,
    pub content: Seq<BlockV>,
}

impl View for CanonicalMessage {
    type V = MessageV;

    open spec fn view(&self) -> MessageV {
        MessageV { role: self.role, content: views(self.content@) }
    }
}

/// A tool definition.
#[derive(Clone, PartialEq, Debug)]
pub struct CanonicalTool {
    pub name: String,
    pub description: Option<String>,
    pub input_schema: Json,
}

#[verifier::ext_equal]
pub struct ToolV {
    pub name: Seq<char>,
    pub description: Option<Seq<char>>,
    pub input_schema: JsonV,
}

impl View for CanonicalTool {
    type V = ToolV;

    open spec fn view(&self) -> ToolV {
        ToolV {
            name: self.name@,
            description: opt_view(self.description),
            input_schema: self.input_schema@,
        }
    }
}

/// How the model should choose among a request's tools.
#[derive(Clone, PartialEq, Debug)]
pub enum ToolChoice {
    Auto,
    Any,
    Never,
    Tool(String),
}

#[verifier::ext_equal]
pub enum ToolChoiceV {
    Auto,
    Any,
    Never,
    Tool(Seq<char>),
}

impl View for ToolChoice {
    type V = ToolChoiceV;

    open spec fn view(&self) -> ToolChoiceV {
        match self {
            ToolChoice::Auto => ToolChoiceV::Auto,
            ToolChoice::Any => ToolChoiceV::Any,
            ToolChoice::Never => ToolChoiceV::Never,
            ToolChoice::Tool(name) => ToolChoiceV::Tool(name@),
        }
    }
}

/// Why the model stopped, by the providers' common reasons; any other reason is
/// kept as its own text.
#[derive(Clone, PartialEq, Debug)]
pub enum StopReason {
    EndTurn,
    MaxTokens,
    ToolUse,
    StopSequence,
    Other(String),
}

#[verifier::ext_equal]
pub enum StopReasonV {
    EndTurn,
    MaxTokens,
    ToolUse,
    StopSequence,
    Other(Seq<char>),
}

impl View for StopReason {
    type V = StopReasonV;

    open spec fn view(&self) -> StopReasonV {
        match self {
            StopReason::EndTurn => StopReasonV::EndTurn,
            StopReason::MaxTokens => StopReasonV::MaxTokens,
            StopReason::ToolUse => StopReasonV::ToolUse,
            StopReason::StopSequence => StopReasonV::StopSequence,
            StopReason::Other(s) => StopReasonV::Other(s@),
        }
    }
}

/// Sampling parameters.
#[derive(Clone, PartialEq, Debug)]
pub struct Sampling {
    pub temperature: Option<Double>,
    pub top_p: Option<Double>,
    pub top_k: Option<u64>,
    pub max_tokens: Option<u64>,
    pub stop: Vec<String>,
}

#[verifier::ext_equal]
pub struct SamplingV {
    pub temperature: Option<Double>,
    pub top_p: Option<Double>,
    pub top_k: Option<u64>,
    pub max_tokens: Option<u64>,
    pub stop: Seq<Seq<char>>,
}

impl View for Sampling {
    type V = SamplingV;

    open spec fn view(&self) -> SamplingV {
        SamplingV {
            temperature: self.temperature,
            top_p: self.top_p,
            top_k: self.top_k,
            max_tokens: self.max_tokens,
            stop: views(self.stop@),
        }
    }
}

impl Default for Sampling {
    fn default() -> (r: Sampling)
        ensures
            r@ == (SamplingV {
                temperature: None,
                top_p: None,
                top_k: None,
                max_tokens: None,
                stop: Seq::empty(),
            }),
    {
        Sampling { temperature: None, top_p: None, top_k: None, max_tokens: None, stop: Vec::new() }
    }
}

/// Token accounting of a completed response.
#[derive(Clone, Copy, PartialEq, Eq, Structural, Debug)]
pub struct Usage {
    pub input_tokens: Option<u64>,
    pub output_tokens: Option<u64>,
}

impl Default for Usage {
    fn default() -> (r: Usage)
        ensures
            r == (Usage { input_tokens: None, output_tokens: None }),
    {
        Usage { input_tokens: None, output_tokens: None }
    }
}

/// A field that a translation could not carry across.
#[derive(Clone, PartialEq, Debug)]
pub struct DroppedField {
    pub path: String,
    pub reason: String,
}

#[verifier::ext_equal]
pub struct DroppedV {
    pub path: Seq<char>,
    pub reason: Seq<char>,
}

impl View for DroppedField {
    type V = DroppedV;

    open spec fn view(&self) -> DroppedV {
        DroppedV { path: self.path@, reason: self.reason@ }
    }
}

/// What a translation lost, and remarks on what it changed.
#[derive(Clone, PartialEq, Debug)]
pub struct TranslationReport {
    pub dropped: Vec<DroppedField>,
    pub notes: Vec<String>,
}

#[verifier::ext_equal]
pub struct ReportV {
    pub dropped: Seq<DroppedV>,
    pub notes: Seq<Seq<char>>,
}

impl ReportV {
    /// The report of a translation that lost nothing.
    pub open spec fn empty() -> ReportV {
        ReportV { dropped: Seq::empty(), notes: Seq::empty() }
    }

    /// The report with one more dropped field.
    pub open spec fn dropping(self, path: Seq<char>, reason: Seq<char>) -> ReportV {
        ReportV { dropped: self.dropped.push(DroppedV { path, reason }), notes: self.notes }
    }

    /// The report with one more remark.
    pub open spec fn noting(self, note: Seq<char>) -> ReportV {
        ReportV { dropped: self.dropped, notes: self.notes.push(note) }
    }
}

impl View for TranslationReport {
    type V = ReportV;

    open spec fn view(&self) -> ReportV {
        ReportV { dropped: views(self.dropped@), notes: views(self.notes@) }
    }
}

impl Default for TranslationReport {
    fn default() -> (r: TranslationReport)
        ensures
            r@ == ReportV::empty(),
    {
        TranslationReport { dropped: Vec::new(), notes: Vec::new() }
    }
}

impl TranslationReport {
    /// Records that the field at `path` was dropped, and why.
    pub fn drop(&mut self, path: String, reason: String)
        ensures
            final(self)@ == old(self)@.dropping(path@, reason@),
    {
        self.dropped.push(DroppedField { path, reason });
        assert(self@ == old(self)@.dropping(path@, reason@));
    }

    /// Records a remark.
    pub fn note(&mut self, note: String)
        ensures
            final(self)@ == old(self)@.noting(note@),
    {
        self.notes.push(note);
        assert(self@ == old(self)@.noting(note@));
    }
}

/// Where a request came from: the path and method of its HTTP request.
#[derive(Clone, PartialEq, Debug)]
pub struct RequestCtx {
    pub path: String,
    pub method: String,
}

/// The canonical form of a request.
#[derive(Clone, PartialEq, Debug)]
pub struct CanonicalRequest {
    pub model: String,
    pub messages: Vec<CanonicalMessage>,
    /// The system prompt, wherever the source dialect carries it.
    pub system: Option<String>,
    pub tools: Vec<CanonicalTool>,
    pub tool_choice: Option<ToolChoice>,
    pub sampling: Sampling,
    pub stream: bool,
    /// The fields of the source that have no place above, each under a name that
    /// starts with its provider's.
    pub extra: JsonMap,
}

#[verifier::ext_equal]
pub struct RequestV {
    pub model: Seq<char>,
    pub messages: Seq<MessageV>,
    pub system: Option<Seq<char>>,
    pub tools: Seq<ToolV>,
    pub tool_choice: Option<ToolChoiceV>,
    pub sampling: SamplingV,
    pub stream: bool,
    pub extra: Map<Seq<char>, JsonV>,
}

impl View for CanonicalRequest {
    type V = RequestV;

    open spec fn view(&self) -> RequestV {
        RequestV {
            model: self.model@,
            messages: views(self.messages@),
            system: opt_view(self.system),
            tools: views(self.tools@),
            tool_choice: opt_view(self.tool_choice),
            sampling: self.sampling@,
            stream: self.stream,
            extra: self.extra@,
        }
    }
}

/// The canonical form of a completed response.
#[derive(Clone, PartialEq, Debug)]
pub struct CanonicalResponse {
    pub model: String,
    pub content: Vec<ContentBlock>,
    pub stop_reason: Option<StopReason>,
    pub usage: Option<Usage>,
    /// The fields of the source that have no place above, each under a name that
    /// starts with its provider's.
    pub extra: JsonMap,
}

#[verifier::ext_equal]
pub struct ResponseV {
    pub model: Seq<char>,
    pub content: Seq<BlockV>,
    pub stop_reason: Option<StopReasonV>,
    pub usage: Option<Usage>,
    pub extra: Map<Seq<char>, JsonV>,
}

impl View for CanonicalResponse {
    type V = ResponseV;

    open spec fn view(&self) -> ResponseV {
        ResponseV {
            model: self.model@,
            content: views(self.content@),
            stop_reason: opt_view(self.stop_reason),
            usage: self.usage,
            extra: self.extra@,
        }
    }
}

/// The canonical form of one event of a streamed response.
#[derive(Clone, PartialEq, Debug)]
pub enum CanonicalStreamEvent {
    MessageStart { model: String, role: Role },
    ContentBlockStart { index: u64, block: ContentBlock },
    ContentBlockDelta { index: u64, text: Option<String>, partial_json: Option<String> },
    ContentBlockStop { index: u64 },
    MessageDelta { stop_reason: Option<StopReason>, usage: Option<Usage> },
    MessageStop,
}

#[verifier::ext_equal]
pub enum EventV {
    MessageStart { model: Seq<char>, role: Role },
    ContentBlockStart { index: u64, block: BlockV },
    ContentBlockDelta { index: u64, text: Option<Seq<char>>, partial_json: Option<Seq<char>> },
    ContentBlockStop { index: u64 },
    MessageDelta { stop_reason: Option<StopReasonV>, usage: Option<Usage> },
    MessageStop,
}

impl View for CanonicalStreamEvent {
    type V = EventV;

    open spec fn view(&self) -> EventV {
        match self {
            CanonicalStreamEvent::MessageStart { model, role } => EventV::MessageStart {
                model: model@,
                role: *role,
            },
            CanonicalStreamEvent::ContentBlockStart { index, block } => EventV::ContentBlockStart {
                index: *index,
                block: block@,
            },
            CanonicalStreamEvent::ContentBlockDelta { index, text, partial_json } =>
                EventV::ContentBlockDelta {
                index: *index,
                text: opt_view(*text),
                partial_json: opt_view(*partial_json),
            },
            CanonicalStreamEvent::ContentBlockStop { index } => EventV::ContentBlockStop {
                index: *index,
            },
            CanonicalStreamEvent::MessageDelta { stop_reason, usage } => EventV::MessageDelta {
                stop_reason: opt_view(*stop_reason),
                usage: *usage,
            },
            CanonicalStreamEvent::MessageStop => EventV::MessageStop,
        }
    }
}

/// What reading a stream has to remember between events.
pub struct StreamParseState {
    /// The index given to the one text block, once text has been seen.
    pub(crate) text_block: Option<u64>,
    /// The next index to hand out.
    pub(crate) next_index: u64,
    /// The index given to each of the source's tool-call slots.
    pub(crate) tool_indices: HashMap<u64, u64>,
    /// Events that the last wire event expanded into, beyond the one returned.
    pub(crate) pending: Vec<CanonicalStreamEvent>,
}

#[verifier::ext_equal]
pub struct ParseStateV {
    pub text_block: Option<u64>,
    pub next_index: u64,
    pub tool_indices: Map<u64, u64>,
    pub pending: Seq<EventV>,
}

/// The index after `i`; indices wrap around at the end of their range.
pub open spec fn next_index(i: u64) -> u64 {
    if i == u64::MAX {
        0
    } else {
        (i + 1) as u64
    }
}

impl ParseStateV {
    /// The state before the first event.
    pub open spec fn start() -> ParseStateV {
        ParseStateV {
            text_block: None,
            next_index: 0,
            tool_indices: Map::empty(),
            pending: Seq::empty(),
        }
    }

    /// The index of the text block, and the state once it has one.
    pub open spec fn text_index(self) -> (u64, ParseStateV) {
        match self.text_block {
            Some(i) => (i, self),
            None => (
                self.next_index,
                ParseStateV {
                    text_block: Some(self.next_index),
                    next_index: next_index(self.next_index),
                    ..self
                },
            ),
        }
    }

    /// The index of a tool-call slot, whether it is new, and the state once the
    /// slot has an index.
    pub open spec fn tool_index(self, slot: u64) -> (u64, bool, ParseStateV) {
        if self.tool_indices.dom().contains(slot) {
            (self.tool_indices[slot], false, self)
        } else {
            (
                self.next_index,
                true,
                ParseStateV {
                    next_index: next_index(self.next_index),
                    tool_indices: self.tool_indices.insert(slot, self.next_index),
                    ..self
                },
            )
        }
    }

    /// A new index, and the state after it was handed out.
    pub open spec fn fresh_index(self) -> (u64, ParseStateV) {
        (self.next_index, ParseStateV { next_index: next_index(self.next_index), ..self })
    }

    /// Whether the indices handed out so far are all below the next one, and no
    /// two blocks share one.
    pub open spec fn indices_distinct(self) -> bool {
        &&& self.text_block matches Some(i) ==> i < self.next_index
        &&& forall|s: u64| #[trigger]
            self.tool_indices.dom().contains(s) ==> self.tool_indices[s] < self.next_index
        &&& forall|s: u64|
            #[trigger] self.tool_indices.dom().contains(s) ==> self.text_block != Some(
                self.tool_indices[s],
            )
        &&& forall|s: u64, t: u64|
            #[trigger] self.tool_indices.dom().contains(s)
                && #[trigger] self.tool_indices.dom().contains(t) && s != t
                ==> self.tool_indices[s] != self.tool_indices[t]
    }
}

impl View for StreamParseState {
    type V = ParseStateV;

    closed spec fn view(&self) -> ParseStateV {
        ParseStateV {
            text_block: self.text_block,
            next_index: self.next_index,
            tool_indices: self.tool_indices@,
            pending: views(self.pending@),
        }
    }
}

impl Default for StreamParseState {
    fn default() -> (r: StreamParseState)
        ensures
            r@ == ParseStateV::start(),
    {
        let r = StreamParseState {
            text_block: None,
            next_index: 0,
            tool_indices: HashMap::new(),
            pending: Vec::new(),
        };
        assert(r@ == ParseStateV::start());
        r
    }
}

pub(crate) fn index_after(i: u64) -> (r: u64)
    ensures
        r == next_index(i),
{
    if i == u64::MAX {
        0
    } else {
        i + 1
    }
}

impl StreamParseState {
    /// Takes the events that the last wire event expanded into beyond the one
    /// that was returned, in their order.
    pub fn drain_pending(&mut self) -> (r: Vec<CanonicalStreamEvent>)
        ensures
            views(r@) == old(self)@.pending,
            final(self)@ == (ParseStateV { pending: Seq::empty(), ..old(self)@ }),
    {
        let mut out: Vec<CanonicalStreamEvent> = Vec::new();
        std::mem::swap(&mut out, &mut self.pending);
        assert(self@.pending == Seq::<EventV>::empty());
        out
    }

    /// Queues an event behind the one that is returned.
    pub(crate) fn push_pending(&mut self, event: CanonicalStreamEvent)
        ensures
            final(self)@ == (ParseStateV { pending: old(self)@.pending.push(event@), ..old(self)@ }),
    {
        self.pending.push(event);
        assert(self@.pending == old(self)@.pending.push(event@));
    }

    /// The index of the text block, handed out on first use.
    pub(crate) fn text_index(&mut self) -> (r: u64)
        ensures
            (r, final(self)@) == old(self)@.text_index(),
    {
        match self.text_block {
            Some(index) => index,
            None => {
                let index = self.next_index;
                self.next_index = index_after(index);
                self.text_block = Some(index);
                index
            },
        }
    }

    /// The index of a tool-call slot, and whether it was handed out just now.
    pub(crate) fn tool_index(&mut self, slot: u64) -> (r: (u64, bool))
        ensures
            (r.0, r.1, final(self)@) == old(self)@.tool_index(slot),
    {
        broadcast use vstd::std_specs::hash::group_hash_axioms;

        match self.tool_indices.get(&slot) {
            Some(index) => (*index, false),
            None => {
                let index = self.next_index;
                self.next_index = index_after(index);
                self.tool_indices.insert(slot, index);
                (index, true)
            },
        }
    }

    /// A new index.
    pub(crate) fn fresh_index(&mut self) -> (r: u64)
        ensures
            (r, final(self)@) == old(self)@.fresh_index(),
    {
        let index = self.next_index;
        self.next_index = index_after(index);
        index
    }
}

/// Indices stay distinct: whichever block gets its index next, no two of the
/// text block and the tool calls share one.
pub proof fn law_indices_stay_distinct(st: ParseStateV, slot: u64)
    requires
        st.indices_distinct(),
        st.next_index < u64::MAX,
    ensures
        ParseStateV::start().indices_distinct(),
        st.text_index().1.indices_distinct(),
        st.tool_index(slot).2.indices_distinct(),
        st.fresh_index().1.indices_distinct(),
{
}

/// Asking again for the text block's index, or for a slot's, gives the same
/// index and changes nothing; a slot is new only once.
pub proof fn law_indices_are_stable(st: ParseStateV, slot: u64)
    ensures
        st.text_index().1.text_index() == (st.text_index().0, st.text_index().1),
        st.tool_index(slot).2.tool_index(slot) == (
            st.tool_index(slot).0,
            false,
            st.tool_index(slot).2,
        ),
{
}

/// A tool call being written to a stream.
pub struct StreamToolRender {
    /// The tool-call slot in the target dialect.
    pub(crate) slot: u64,
    pub(crate) name: String,
    /// The argument text so far.
    pub(crate) args: String,
}

#[verifier::ext_equal]
pub struct ToolRenderV {
    pub slot: u64,
    pub name: Seq<char>,
    pub args: Seq<char>,
}

impl View for StreamToolRender {
    type V = ToolRenderV;

    open(crate) spec fn view(&self) -> ToolRenderV {
        ToolRenderV { slot: self.slot, name: self.name@, args: self.args@ }
    }
}

/// What writing a stream has to remember between events.
pub struct StreamRenderState {
    /// Whether the stream's preamble has been written.
    pub(crate) message_started: bool,
    pub(crate) model: String,
    pub(crate) role: Option<Role>,
    /// The block that is open in the target stream.
    pub(crate) open_block: Option<u64>,
    /// The blocks whose start has been written.
    pub(crate) started_blocks: HashSet<u64>,
    /// Tool calls by block index.
    pub(crate) tool_render: HashMap<u64, StreamToolRender>,
    pub(crate) next_tool_slot: u64,
    /// Whether the stream's terminal has been written.
    pub(crate) terminal_sent: bool,
}

#[verifier::ext_equal]
pub struct RenderStateV {
    pub message_started: bool,
    pub model: Seq<char>,
    pub role: Option<Role>,
    pub open_block: Option<u64>,
    pub started_blocks: Set<u64>,
    pub tool_render: Map<u64, ToolRenderV>,
    pub next_tool_slot: u64,
    pub terminal_sent: bool,
}

impl View for StreamRenderState {
    type V = RenderStateV;

    open(crate) spec fn view(&self) -> RenderStateV {
        RenderStateV {
            message_started: self.message_started,
            model: self.model@,
            role: self.role,
            open_block: self.open_block,
            started_blocks: self.started_blocks@,
            tool_render: self.tool_render@.map_values(|t: StreamToolRender| t@),
            next_tool_slot: self.next_tool_slot,
            terminal_sent: self.terminal_sent,
        }
    }
}

impl RenderStateV {
    /// The state with a tool call recorded for a block.
    pub open spec fn with_tool(self, index: u64, tool: ToolRenderV) -> RenderStateV {
        RenderStateV { tool_render: self.tool_render.insert(index, tool), ..self }
    }

    /// The state before the first event.
    pub open spec fn start() -> RenderStateV {
        RenderStateV {
            message_started: false,
            model: Seq::empty(),
            role: None,
            open_block: None,
            started_blocks: Set::empty(),
            tool_render: Map::empty(),
            next_tool_slot: 0,
            terminal_sent: false,
        }
    }

    /// The role of the message, the assistant's unless the stream said otherwise.
    pub open spec fn role_or_assistant(self) -> Role {
        match self.role {
            Some(role) => role,
            None => Role::Assistant,
        }
    }
}

impl Default for StreamRenderState {
    fn default() -> (r: StreamRenderState)
        ensures
            r@ == RenderStateV::start(),
    {
        let r = StreamRenderState {
            message_started: false,
            model: String::new(),
            role: None,
            open_block: None,
            started_blocks: HashSet::new(),
            tool_render: HashMap::new(),
            next_tool_slot: 0,
            terminal_sent: false,
        };
        assert(r@ == RenderStateV::start());
        r
    }
}

impl StreamRenderState {
    /// Records a tool call for a block.
    pub(crate) fn set_tool(&mut self, index: u64, tool: StreamToolRender)
        ensures
            final(self)@ == old(self)@.with_tool(index, tool@),
    {
        broadcast use vstd::std_specs::hash::group_hash_axioms;

        self.tool_render.insert(index, tool);
        assert(self@.tool_render == old(self)@.tool_render.insert(index, tool@));
    }

    /// Takes out the tool call recorded for a block.
    pub(crate) fn take_tool(&mut self, index: u64) -> (r: Option<StreamToolRender>)
        ensures
            final(self)@ == (RenderStateV {
                tool_render: old(self)@.tool_render.remove(index),
                ..old(self)@
            }),
            match r {
                Some(t) => old(self)@.tool_render.dom().contains(index) && old(
                    self,
                )@.tool_render[index] == t@,
                None => !old(self)@.tool_render.dom().contains(index),
            },
    {
        broadcast use vstd::std_specs::hash::group_hash_axioms;

        let r = self.tool_render.remove(&index);
        assert(self@.tool_render == old(self)@.tool_render.remove(index));
        r
    }

    /// Hands out the next tool-call slot.
    pub(crate) fn take_slot(&mut self) -> (r: u64)
        ensures
            r == old(self)@.next_tool_slot,
            final(self)@ == (RenderStateV { next_tool_slot: next_index(r), ..old(self)@ }),
    {
        let slot = self.next_tool_slot;
        self.next_tool_slot = index_after(slot);
        slot
    }

    /// The tool call recorded for a block.
    pub(crate) fn tool(&self, index: u64) -> (r: Option<&StreamToolRender>)
        ensures
            match r {
                Some(t) => self@.tool_render.dom().contains(index) && self@.tool_render[index] == t@,
                None => !self@.tool_render.dom().contains(index),
            },
    {
        broadcast use vstd::std_specs::hash::group_hash_axioms;

        self.tool_render.get(&index)
    }

    /// The role of the message, the assistant's unless the stream said otherwise.
    pub(crate) fn role_or_assistant(&self) -> (r: Role)
        ensures
            r == self@.role_or_assistant(),
    {
        match self.role {
            Some(role) => role,
            None => Role::Assistant,
        }
    }
}

/// The texts of the text blocks among the content, in order.
pub open spec fn block_texts(blocks: Seq<BlockV>) -> Seq<Seq<char>>
    decreases blocks.len(),
{
    if blocks.len() == 0 {
        Seq::empty()
    } else {
        let rest = block_texts(blocks.drop_last());
        match blocks.last() {
            BlockV::Text { text } => rest.push(text),
            _ => rest,
        }
    }
}

/// The content as plain text: its text blocks, one per line.
pub open spec fn flattened(blocks: Seq<BlockV>) -> Seq<char> {
    joined(block_texts(blocks), "\n"@)
}

/// The content as plain text: its text blocks, one per line.
pub fn flatten_content(blocks: &Vec<ContentBlock>) -> (r: String)
    ensures
        r@ == flattened(views(blocks@)),
{
    let mut parts: Vec<String> = Vec::new();
    let mut i: usize = 0;
    while i < blocks.len()
        invariant
            i <= blocks.len(),
            texts(parts@) == block_texts(views(blocks@).take(i as int)),
        decreases blocks.len() - i,
    {
        let ghost t = views(blocks@).take(i + 1);
        let ghost before = texts(parts@);
        assert(t.drop_last() == views(blocks@).take(i as int));
        assert(t.last() == blocks@[i as int]@);
        if let ContentBlock::Text { text } = &blocks[i] {
            parts.push(text.clone());
            assert(texts(parts@) == before.push(text@));
        }
        i += 1;
    }
    assert(views(blocks@).take(i as int) == views(blocks@));
    join(&parts, "\n")
}

/// The message of the plain view: its role's name and its content as text.
pub open spec fn plain_message(m: MessageV) -> PlainMessageV {
    PlainMessageV { role: m.role.name(), content: flattened(m.content) }
}

/// The messages of the plain view. A dialect that carries the system prompt among
/// its messages has it there again, in front.
pub open spec fn plain_messages(req: RequestV, provider: Seq<char>) -> Seq<PlainMessageV> {
    let rest = req.messages.map_values(|m: MessageV| plain_message(m));
    match req.system {
        Some(system) if provider == "openai"@ => seq![
            PlainMessageV { role: "system"@, content: system },
        ] + rest,
        _ => rest,
    }
}

/// The plain view of a request.
pub open spec fn projected(req: RequestV, provider: Seq<char>) -> LlmV {
    LlmV {
        provider,
        model: req.model,
        messages: plain_messages(req, provider),
        tools: req.tools.map_values(|t: ToolV| t.name),
        max_tokens: req.sampling.max_tokens,
        stream: req.stream,
        facts: None,
    }
}

/// Projects a request down to the plain view.
pub fn project_llm(req: &CanonicalRequest, provider: &str) -> (r: Llm)
    ensures
        r@ == projected(req@, provider@),
{
    let ghost rest = req@.messages.map_values(|m: MessageV| plain_message(m));
    let mut messages: Vec<Message> = Vec::new();
    if same(provider, "openai") {
        if let Some(system) = &req.system {
            messages.push(
                Message { role: Role::System.as_str().to_owned(), content: system.clone() },
            );
        }
    }
    let ghost head = views(messages@);
    let mut i: usize = 0;
    while i < req.messages.len()
        invariant
            i <= req.messages.len(),
            rest == req@.messages.map_values(|m: MessageV| plain_message(m)),
            views(messages@) == head + rest.take(i as int),
        decreases req.messages.len() - i,
    {
        let m = &req.messages[i];
        let ghost before = views(messages@);
        messages.push(
            Message { role: m.role.as_str().to_owned(), content: flatten_content(&m.content) },
        );
        i += 1;
        proof {
            assert(req@.messages[i - 1] == m@);
            assert(messages@.last()@ == plain_message(m@));
            assert(views(messages@) == before.push(messages@.last()@));
            assert(rest.take(i as int) == rest.take(i - 1).push(rest[i - 1]));
            assert(views(messages@) == head + rest.take(i as int));
        }
    }
    assert(rest.take(i as int) == rest);
    let mut tools: Vec<Tool> = Vec::new();
    let mut j: usize = 0;
    while j < req.tools.len()
        invariant
            j <= req.tools.len(),
            tools@.len() == j,
            forall|k: int| 0 <= k < j ==> (#[trigger] tools@[k])@ == req@.tools[k].name,
        decreases req.tools.len() - j,
    {
        tools.push(Tool { name: req.tools[j].name.clone() });
        j += 1;
    }
    proof {
        assert(views(tools@) == req@.tools.map_values(|t: ToolV| t.name));
        assert(views(messages@) == plain_messages(req@, provider@));
    }
    Llm {
        provider: provider.to_owned(),
        model: req.model.clone(),
        messages,
        tools,
        max_tokens: req.sampling.max_tokens,
        stream: req.stream,
        facts: None,
    }
}

/// The input that a block's start brings whole: that of a tool call, unless it is
/// null or empty, which says that it comes in fragments.
pub open spec fn late_input(block: BlockV) -> Option<JsonV> {
    match block {
        BlockV::ToolUse { input, .. } => if input == JsonV::Null || input == JsonV::Object(
            Map::empty(),
        ) {
            None
        } else {
            Some(input)
        },
        _ => None,
    }
}

/// Finds the input that a block's start brings whole.
pub fn find_late_input(block: &ContentBlock) -> (r: Option<&Json>)
    ensures
        match r {
            Some(input) => late_input(block@) == Some(input@),
            None => late_input(block@) is None,
        },
{
    match block {
        ContentBlock::ToolUse { input, .. } => {
            let empty = match input {
                Json::Null => true,
                Json::Object(m) => m.is_empty(),
                _ => false,
            };
            if empty {
                None
            } else {
                Some(input)
            }
        },
        _ => None,
    }
}

/// Whether the input that an event brings whole reads back from its own text.
pub open spec fn fragment_reads_back(event: EventV) -> bool {
    event matches EventV::ContentBlockStart { block, .. } ==> (late_input(block) matches Some(input)
        ==> reads_back(input))
}

} // verus!
