//! What the benchmark measures, and the configuration for each.

use vstd::prelude::*;

use crate::text::{concat5, concat7};

verus! {

/// What is measured.
#[derive(Clone, Copy, PartialEq, Eq, Structural, Debug)]
pub enum Scenario {
    Passthrough,
    Translation,
    ScriptStep,
    WasmStep,
    Streaming,
}

impl Scenario {
    /// All scenarios, in the order of the report.
    pub fn all() -> (r: Vec<Scenario>)
        ensures
            r@ == seq![
                Scenario::Passthrough,
                Scenario::Translation,
                Scenario::ScriptStep,
                Scenario::WasmStep,
                Scenario::Streaming,
            ],
    {
        let mut out: Vec<Scenario> = Vec::new();
        out.push(Scenario::Passthrough);
        out.push(Scenario::Translation);
        out.push(Scenario::ScriptStep);
        out.push(Scenario::WasmStep);
        out.push(Scenario::Streaming);
        out
    }

    /// The scenario's name.
    pub fn name(&self) -> (r: &'static str)
        ensures
            r@ == match self {
                Scenario::Passthrough => "passthrough"@,
                Scenario::Translation => "translation"@,
                Scenario::ScriptStep => "script-step"@,
                Scenario::WasmStep => "wasm-step"@,
                Scenario::Streaming => "streaming"@,
            },
    {
        match self {
            Scenario::Passthrough => "passthrough",
            Scenario::Translation => "translation",
            Scenario::ScriptStep => "script-step",
            Scenario::WasmStep => "wasm-step",
            Scenario::Streaming => "streaming",
        }
    }

    /// Where the client's request goes at the gateway.
    pub fn request_path(&self) -> (r: &'static str)
        ensures
            r@ == match self {
                Scenario::Translation => "/bench/v1/chat/completions"@,
                Scenario::Streaming => "/bench/v1/stream"@,
                _ => "/bench/v1/messages"@,
            },
    {
        match self {
            Scenario::Translation => "/bench/v1/chat/completions",
            Scenario::Streaming => "/bench/v1/stream",
            _ => "/bench/v1/messages",
        }
    }

    /// What the client sends.
    pub fn request_body(&self) -> (r: &'static str)
        ensures
            r@ == if *self == Scenario::Translation {
                "{\"model\":\"gpt-5\",\"messages\":[{\"role\":\"user\",\"content\":\"benchmark\"}]}"@
            } else {
                "{}"@
            },
    {
        match self {
            Scenario::Translation => {
                "{\"model\":\"gpt-5\",\"messages\":[{\"role\":\"user\",\"content\":\"benchmark\"}]}"
            },
            _ => "{}",
        }
    }

    /// Where the same request goes at the upstream itself.
    pub fn baseline_path(&self) -> (r: &'static str)
        ensures
            r@ == if *self == Scenario::Streaming {
                "/v1/stream"@
            } else {
                "/v1/messages"@
            },
    {
        match self {
            Scenario::Streaming => "/v1/stream",
            _ => "/v1/messages",
        }
    }

    /// Whether the answer is streamed.
    pub fn is_streaming(&self) -> (r: bool)
        ensures
            r == (*self == Scenario::Streaming),
    {
        match self {
            Scenario::Streaming => true,
            _ => false,
        }
    }

    /// Whether the scenario can run: scripts are for Unix only.
    pub fn available(&self, unix: bool) -> (r: bool)
        ensures
            r == (*self != Scenario::ScriptStep || unix),
    {
        match self {
            Scenario::ScriptStep => unix,
            _ => true,
        }
    }
}

/// A script step that lets everything pass.
pub const NOOP_SCRIPT: &'static str = "#!/bin/sh\ncat >/dev/null\necho '{\"action\":\"continue\"}'\n";

/// The configuration of a scenario: one route to the upstream, with what the
/// scenario adds.
pub open spec fn config_file(
    scenario: Scenario,
    upstream: Seq<char>,
    listen: Seq<char>,
    wasm: Seq<char>,
    script: Seq<char>,
    model: Seq<char>,
) -> Seq<char> {
    match scenario {
        Scenario::Passthrough | Scenario::Streaming => "[gateway]\nlisten = \""@ + listen
            + "\"\n\n[[route]]\nid       = \"bench\"\nupstream = \"http://"@ + upstream + "\"\n"@,
        Scenario::Translation => "[gateway]\nlisten = \""@ + listen
            + "\"\n\n[[route]]\nid       = \"bench\"\nupstream = \"http://"@ + upstream
            + "\"\n\n  [route.translate]\n  from  = \"openai\"\n  to    = \"anthropic\"\n  model = \""@ + model + "\"\n"@,
        Scenario::ScriptStep => "[gateway]\nlisten        = \""@ + listen
            + "\"\nallow_scripts = true\n\n[[route]]\nid       = \"bench\"\nupstream = \"http://"@ + upstream
            + "\"\n\n  [[route.step]]\n  name = \"noop-script\"\n  type = \"script\"\n  hook = \"on_request\"\n  cmd  = [\"sh\", \""@
            + script + "\"]\n  timeout_ms = 2000\n  on_error   = \"fail_closed\"\n"@,
        Scenario::WasmStep => "[gateway]\nlisten = \""@ + listen
            + "\"\n\n[[route]]\nid       = \"bench\"\nupstream = \"http://"@ + upstream
            + "\"\n\n  [[route.step]]\n  name = \"noop-wasm\"\n  type = \"wasm\"\n  hook = \"on_request\"\n  wasm = \""@
            + wasm + "\"\n  timeout_ms = 2000\n  on_error   = \"fail_closed\"\n"@,
    }
}

/// The configuration of a scenario, for an upstream and an address to listen on,
/// with the paths of the module and the script, and the model to translate to.
pub fn route_toml(
    scenario: &Scenario,
    upstream: &str,
    listen: &str,
    wasm: &str,
    script: &str,
    model: &str,
) -> (r: String)
    ensures
        r@ == config_file(*scenario, upstream@, listen@, wasm@, script@, model@),
{
    match scenario {
        Scenario::Passthrough | Scenario::Streaming => concat5(
            "[gateway]\nlisten = \"",
            listen,
            "\"\n\n[[route]]\nid       = \"bench\"\nupstream = \"http://",
            upstream,
            "\"\n",
        ),
        Scenario::Translation => concat7(
            "[gateway]\nlisten = \"",
            listen,
            "\"\n\n[[route]]\nid       = \"bench\"\nupstream = \"http://",
            upstream,
            "\"\n\n  [route.translate]\n  from  = \"openai\"\n  to    = \"anthropic\"\n  model = \"",
            model,
            "\"\n",
        ),
        Scenario::ScriptStep => concat7(
            "[gateway]\nlisten        = \"",
            listen,
            "\"\nallow_scripts = true\n\n[[route]]\nid       = \"bench\"\nupstream = \"http://",
            upstream,
            "\"\n\n  [[route.step]]\n  name = \"noop-script\"\n  type = \"script\"\n  hook = \"on_request\"\n  cmd  = [\"sh\", \"",
            script,
            "\"]\n  timeout_ms = 2000\n  on_error   = \"fail_closed\"\n",
        ),
        Scenario::WasmStep => concat7(
            "[gateway]\nlisten = \"",
            listen,
            "\"\n\n[[route]]\nid       = \"bench\"\nupstream = \"http://",
            upstream,
            "\"\n\n  [[route.step]]\n  name = \"noop-wasm\"\n  type = \"wasm\"\n  hook = \"on_request\"\n  wasm = \"",
            wasm,
            "\"\n  timeout_ms = 2000\n  on_error   = \"fail_closed\"\n",
        ),
    }
}

} // verus!
