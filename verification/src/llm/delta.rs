//! The common form of a streamed fragment.

use vstd::prelude::*;

use crate::text::opt_view;

verus! {

/// What a fragment carries.
#[derive(Clone, Copy, PartialEq, Eq, Structural, Debug)]
pub enum DeltaKind {
    Text,
    ToolCall,
    Usage,
    Finish,
    Other,
}

/// A fragment of a tool call.
#[derive(Clone, PartialEq, Debug)]
pub struct ToolCallDelta {
    pub id: Option<String>,
    pub name: Option<String>,
    pub arguments_fragment: Option<String>,
}

#[verifier::ext_equal]
pub struct ToolCallDeltaV {
    pub id: Option<Seq<char>>,
    pub name: Option<Seq<char>>,
    pub arguments_fragment: Option<Seq<char>>,
}

impl View for ToolCallDelta {
    type V = ToolCallDeltaV;

    open spec fn view(&self) -> ToolCallDeltaV {
        ToolCallDeltaV {
            id: opt_view(self.id),
            name: opt_view(self.name),
            arguments_fragment: opt_view(self.arguments_fragment),
        }
    }
}

/// Token counts so far.
#[derive(Clone, Copy, PartialEq, Eq, Structural, Debug)]
pub struct Usage {
    pub input_tokens: Option<u64>,
    pub output_tokens: Option<u64>,
}

impl View for Usage {
    type V = Usage;

    open spec fn view(&self) -> Usage {
        *self
    }
}

/// Why the stream ended.
#[derive(Clone, PartialEq, Debug)]
pub struct Finish {
    pub reason: Option<String>,
}

#[verifier::ext_equal]
pub struct FinishV {
    pub reason: Option<Seq<char>>,
}

impl View for Finish {
    type V = FinishV;

    open spec fn view(&self) -> FinishV {
        FinishV { reason: opt_view(self.reason) }
    }
}

/// One fragment, with the field that its kind calls for.
#[derive(Clone, PartialEq, Debug)]
pub struct Delta {
    pub kind: DeltaKind,
    pub text: Option<String>,
    pub tool_call: Option<ToolCallDelta>,
    pub usage: Option<Usage>,
    pub finish: Option<Finish>,
}

#[verifier::ext_equal]
pub struct DeltaV {
    pub kind: DeltaKind,
    pub text: Option<Seq<char>>,
    pub tool_call: Option<ToolCallDeltaV>,
    pub usage: Option<Usage>,
    pub finish: Option<FinishV>,
}

impl View for Delta {
    type V = DeltaV;

    open spec fn view(&self) -> DeltaV {
        DeltaV {
            kind: self.kind,
            text: opt_view(self.text),
            tool_call: opt_view(self.tool_call),
            usage: opt_view(self.usage),
            finish: opt_view(self.finish),
        }
    }
}

impl DeltaV {
    /// A fragment of text.
    pub open spec fn of_text(text: Seq<char>) -> DeltaV {
        DeltaV { kind: DeltaKind::Text, text: Some(text), tool_call: None, usage: None, finish: None }
    }

    /// A fragment of a tool call.
    pub open spec fn of_tool_call(tool_call: ToolCallDeltaV) -> DeltaV {
        DeltaV {
            kind: DeltaKind::ToolCall,
            text: None,
            tool_call: Some(tool_call),
            usage: None,
            finish: None,
        }
    }

    /// Token counts.
    pub open spec fn of_usage(usage: Usage) -> DeltaV {
        DeltaV { kind: DeltaKind::Usage, text: None, tool_call: None, usage: Some(usage), finish: None }
    }

    /// The end of the stream.
    pub open spec fn of_finish(finish: FinishV) -> DeltaV {
        DeltaV { kind: DeltaKind::Finish, text: None, tool_call: None, usage: None, finish: Some(finish) }
    }
}

impl Delta {
    /// A fragment of text.
    pub fn text(text: String) -> (r: Delta)
        ensures
            r@ == DeltaV::of_text(text@),
    {
        Delta { kind: DeltaKind::Text, text: Some(text), tool_call: None, usage: None, finish: None }
    }

    /// A fragment of a tool call.
    pub fn tool_call(tool_call: ToolCallDelta) -> (r: Delta)
        ensures
            r@ == DeltaV::of_tool_call(tool_call@),
    {
        Delta {
            kind: DeltaKind::ToolCall,
            text: None,
            tool_call: Some(tool_call),
            usage: None,
            finish: None,
        }
    }

    /// Token counts.
    pub fn usage(usage: Usage) -> (r: Delta)
        ensures
            r@ == DeltaV::of_usage(usage),
    {
        Delta { kind: DeltaKind::Usage, text: None, tool_call: None, usage: Some(usage), finish: None }
    }

    /// The end of the stream.
    pub fn finish(finish: Finish) -> (r: Delta)
        ensures
            r@ == DeltaV::of_finish(finish@),
    {
        Delta { kind: DeltaKind::Finish, text: None, tool_call: None, usage: None, finish: Some(finish) }
    }
}

} // verus!
