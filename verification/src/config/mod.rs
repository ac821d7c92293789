//! The gateway's configuration.

use vstd::prelude::*;

pub mod load;
pub mod load_laws;
pub mod read;
pub mod read_laws;
pub mod watch;

use crate::sse::DEFAULT_MAX_EVENT_BYTES;
use crate::text::{concat3, decimal, decimal_text, opt_view, views};

verus! {

/// When a step runs.
#[derive(Clone, Copy, PartialEq, Eq, Structural, Debug)]
pub enum Hook {
    OnRequest,
    OnResponse,
    OnStream,
}

/// What a step is.
#[derive(Clone, Copy, PartialEq, Eq, Structural, Debug)]
pub enum StepType {
    Url,
    Script,
    Wasm,
}

/// How a URL step is called.
#[derive(Clone, Copy, PartialEq, Eq, Structural, Debug)]
pub enum UrlMode {
    Transform,
    Loopback,
}

/// What a failed step does to the request.
#[derive(Clone, Copy, PartialEq, Eq, Structural, Debug)]
pub enum OnError {
    FailOpen,
    FailClosed,
}

/// Whether a stream step may rewrite chunks.
#[derive(Clone, Copy, PartialEq, Eq, Structural, Debug)]
pub enum ChunkMode {
    Observe,
    Mutate,
}

impl Default for ChunkMode {
    fn default() -> (r: ChunkMode)
        ensures
            r == ChunkMode::Observe,
    {
        ChunkMode::Observe
    }
}

/// How long a script process lives.
#[derive(Clone, Copy, PartialEq, Eq, Structural, Debug)]
pub enum ScriptMode {
    Oneshot,
    Worker,
}

impl Default for ScriptMode {
    fn default() -> (r: ScriptMode)
        ensures
            r == ScriptMode::Oneshot,
    {
        ScriptMode::Oneshot
    }
}

/// What happens to a body over the limit.
#[derive(Clone, Copy, PartialEq, Eq, Structural, Debug)]
pub enum Oversize {
    Reject,
    StreamThrough,
}

/// One step of a route.
#[derive(Clone, PartialEq, Debug)]
pub struct Step {
    pub name: Option<String>,
    pub hook: Hook,
    pub type_: StepType,
    pub url: Option<String>,
    pub mode: UrlMode,
    pub timeout_ms: u64,
    pub on_error: OnError,
    pub chunk_mode: ChunkMode,
    /// Guardrails must be able to enforce and must fail closed.
    pub is_guardrail: bool,
    pub script_mode: ScriptMode,
    pub cmd: Vec<String>,
    pub wasm: Option<String>,
}

#[verifier::ext_equal]
pub struct StepV {
    pub name: Option<Seq<char>>,
    pub hook: Hook,
    pub type_: StepType,
    pub url: Option<Seq<char>>,
    pub mode: UrlMode,
    pub timeout_ms: u64,
    pub on_error: OnError,
    pub chunk_mode: ChunkMode,
    pub is_guardrail: bool,
    pub script_mode: ScriptMode,
    pub cmd: Seq<Seq<char>>,
    pub wasm: Option<Seq<char>>,
}

impl View for Step {
    type V = StepV;

    open spec fn view(&self) -> StepV {
        StepV {
            name: opt_view(self.name),
            hook: self.hook,
            type_: self.type_,
            url: opt_view(self.url),
            mode: self.mode,
            timeout_ms: self.timeout_ms,
            on_error: self.on_error,
            chunk_mode: self.chunk_mode,
            is_guardrail: self.is_guardrail,
            script_mode: self.script_mode,
            cmd: views(self.cmd@),
            wasm: opt_view(self.wasm),
        }
    }
}

/// The dialects of a route's two sides.
#[derive(Clone, PartialEq, Debug)]
pub struct RouteAdapter {
    pub ingress: Option<String>,
    pub egress: Option<String>,
}

#[verifier::ext_equal]
pub struct RouteAdapterV {
    pub ingress: Option<Seq<char>>,
    pub egress: Option<Seq<char>>,
}

impl View for RouteAdapter {
    type V = RouteAdapterV;

    open spec fn view(&self) -> RouteAdapterV {
        RouteAdapterV {
            ingress: opt_view(self.ingress),
            egress: opt_view(self.egress),
        }
    }
}

/// The translation of a route between two dialects.
#[derive(Clone, PartialEq, Debug)]
pub struct Translate {
    pub from: String,
    pub to: String,
    pub model: Option<String>,
    pub report_header: bool,
}

#[verifier::ext_equal]
pub struct TranslateV {
    pub from: Seq<char>,
    pub to: Seq<char>,
    pub model: Option<Seq<char>>,
    pub report_header: bool,
}

impl View for Translate {
    type V = TranslateV;

    open spec fn view(&self) -> TranslateV {
        TranslateV {
            from: self.from@,
            to: self.to@,
            model: opt_view(self.model),
            report_header: self.report_header,
        }
    }
}

/// A route: what is reached under its id, and the steps on the way.
#[derive(Clone, PartialEq, Debug)]
pub struct Route {
    pub id: String,
    pub upstream: String,
    pub steps: Vec<Step>,
    pub adapter: Option<RouteAdapter>,
    pub translate: Option<Translate>,
}

#[verifier::ext_equal]
pub struct RouteV {
    pub id: Seq<char>,
    pub upstream: Seq<char>,
    pub steps: Seq<StepV>,
    pub adapter: Option<RouteAdapterV>,
    pub translate: Option<TranslateV>,
}

impl View for Route {
    type V = RouteV;

    open spec fn view(&self) -> RouteV {
        RouteV {
            id: self.id@,
            upstream: self.upstream@,
            steps: views(self.steps@),
            adapter: opt_view(self.adapter),
            translate: opt_view(self.translate),
        }
    }
}

/// A named listener and the routes that it serves.
#[derive(Clone, PartialEq, Debug)]
pub struct GatewayDef {
    pub name: String,
    pub listen: String,
    pub routes: Vec<String>,
}

#[verifier::ext_equal]
pub struct GatewayDefV {
    pub name: Seq<char>,
    pub listen: Seq<char>,
    pub routes: Seq<Seq<char>>,
}

impl View for GatewayDef {
    type V = GatewayDefV;

    open spec fn view(&self) -> GatewayDefV {
        GatewayDefV {
            name: self.name@,
            listen: self.listen@,
            routes: views(self.routes@),
        }
    }
}

/// The gateway's own settings.
#[derive(Clone, PartialEq, Debug)]
pub struct Gateway {
    pub schema_version: u32,
    pub allow_scripts: bool,
    pub listen: String,
    pub expose_headers: Vec<String>,
    pub max_context_bytes: usize,
    pub max_body_bytes: usize,
    pub oversize: Oversize,
    pub max_inflight: usize,
    pub upstream_timeout_ms: u64,
    pub admin_listen: String,
    pub admin_token: String,
    pub loopback_secret: String,
    pub max_hops: u32,
    pub callback_path: String,
    pub max_parked: usize,
    pub max_event_bytes: Option<usize>,
    pub max_response_bytes: Option<usize>,
}

#[verifier::ext_equal]
pub struct GatewayV {
    pub schema_version: u32,
    pub allow_scripts: bool,
    pub listen: Seq<char>,
    pub expose_headers: Seq<Seq<char>>,
    pub max_context_bytes: usize,
    pub max_body_bytes: usize,
    pub oversize: Oversize,
    pub max_inflight: usize,
    pub upstream_timeout_ms: u64,
    pub admin_listen: Seq<char>,
    pub admin_token: Seq<char>,
    pub loopback_secret: Seq<char>,
    pub max_hops: u32,
    pub callback_path: Seq<char>,
    pub max_parked: usize,
    pub max_event_bytes: Option<usize>,
    pub max_response_bytes: Option<usize>,
}

impl View for Gateway {
    type V = GatewayV;

    open spec fn view(&self) -> GatewayV {
        GatewayV {
            schema_version: self.schema_version,
            allow_scripts: self.allow_scripts,
            listen: self.listen@,
            expose_headers: views(self.expose_headers@),
            max_context_bytes: self.max_context_bytes,
            max_body_bytes: self.max_body_bytes,
            oversize: self.oversize,
            max_inflight: self.max_inflight,
            upstream_timeout_ms: self.upstream_timeout_ms,
            admin_listen: self.admin_listen@,
            admin_token: self.admin_token@,
            loopback_secret: self.loopback_secret@,
            max_hops: self.max_hops,
            callback_path: self.callback_path@,
            max_parked: self.max_parked,
            max_event_bytes: self.max_event_bytes,
            max_response_bytes: self.max_response_bytes,
        }
    }
}

/// A whole configuration.
#[derive(Clone, PartialEq, Debug)]
pub struct Config {
    pub gateway: Gateway,
    pub routes: Vec<Route>,
    pub gateways: Vec<GatewayDef>,
}

#[verifier::ext_equal]
pub struct ConfigV {
    pub gateway: GatewayV,
    pub routes: Seq<RouteV>,
    pub gateways: Seq<GatewayDefV>,
}

impl View for Config {
    type V = ConfigV;

    open spec fn view(&self) -> ConfigV {
        ConfigV {
            gateway: self.gateway@,
            routes: views(self.routes@),
            gateways: views(self.gateways@),
        }
    }
}

/// The settings that hold where nothing is configured.
pub open spec fn default_gateway() -> GatewayV {
    GatewayV {
        schema_version: 1,
        allow_scripts: false,
        listen: "127.0.0.1:8080"@,
        expose_headers: Seq::empty(),
        max_context_bytes: 65536,
        max_body_bytes: 8_388_608,
        oversize: Oversize::Reject,
        max_inflight: 1024,
        upstream_timeout_ms: 60_000,
        admin_listen: ""@,
        admin_token: ""@,
        loopback_secret: ""@,
        max_hops: 8,
        callback_path: "/__sluice/loopback"@,
        max_parked: 1024,
        max_event_bytes: None,
        max_response_bytes: None,
    }
}

impl Default for Gateway {
    fn default() -> (r: Gateway)
        ensures
            r@ == default_gateway(),
    {
        let r = Gateway {
            schema_version: 1,
            allow_scripts: false,
            listen: "127.0.0.1:8080".to_owned(),
            expose_headers: Vec::new(),
            max_context_bytes: 65536,
            max_body_bytes: 8_388_608,
            oversize: Oversize::Reject,
            max_inflight: 1024,
            upstream_timeout_ms: 60_000,
            admin_listen: "".to_owned(),
            admin_token: "".to_owned(),
            loopback_secret: "".to_owned(),
            max_hops: 8,
            callback_path: "/__sluice/loopback".to_owned(),
            max_parked: 1024,
            max_event_bytes: None,
            max_response_bytes: None,
        };
        assert(r@ == default_gateway());
        r
    }
}

impl Gateway {
    /// The largest response body: the limit of its own, else that of any body.
    pub fn max_response_bytes(&self) -> (r: usize)
        ensures
            r == (match self.max_response_bytes {
                Some(n) => n,
                None => self.max_body_bytes,
            }),
    {
        match self.max_response_bytes {
            Some(n) => n,
            None => self.max_body_bytes,
        }
    }

    /// The largest stream event.
    pub fn max_event_bytes(&self) -> (r: usize)
        ensures
            r == (match self.max_event_bytes {
                Some(n) => n,
                None => DEFAULT_MAX_EVENT_BYTES,
            }),
    {
        match self.max_event_bytes {
            Some(n) => n,
            None => DEFAULT_MAX_EVENT_BYTES,
        }
    }
}

/// The name of a kind of step.
pub open spec fn step_type_name(t: StepType) -> Seq<char> {
    match t {
        StepType::Url => "url"@,
        StepType::Script => "script"@,
        StepType::Wasm => "wasm"@,
    }
}

impl StepV {
    /// The step's name: its own, else its kind and place.
    pub open spec fn effective_name(self, index: nat) -> Seq<char> {
        match self.name {
            Some(name) => name,
            None => step_type_name(self.type_) + ":"@ + decimal(index),
        }
    }
}

impl Step {
    /// The step's name: its own, else its kind and place.
    pub fn effective_name(&self, index: usize) -> (r: String)
        ensures
            r@ == self@.effective_name(index as nat),
    {
        match &self.name {
            Some(name) => name.clone(),
            None => {
                let kind = match self.type_ {
                    StepType::Url => "url",
                    StepType::Script => "script",
                    StepType::Wasm => "wasm",
                };
                let index_text = decimal_text(index as u64);
                concat3(kind, ":", index_text.as_str())
            },
        }
    }
}

} // verus!
