//! Checking and merging configurations.

use vstd::prelude::*;

use crate::config::{
    ChunkMode, Config, ConfigV, Gateway, GatewayDef, GatewayDefV, GatewayV, Hook, OnError, Route, RouteAdapter,
    RouteAdapterV, RouteV, ScriptMode, Step, StepType, StepV, Translate, TranslateV, UrlMode,
};
use crate::llm::adapter::known_provider;
use crate::registry::{Registry, RegistryV};
use crate::text::{
    concat2, concat3, concat5, concat7, concat9, copy_opt, decimal, decimal_text, has_char, is_before, is_listed,
    lemma_precedes_irreflexive, lemma_precedes_transitive, opt_view, precedes, same, texts, views,
};

pub use crate::config::read::{load_dir, load_file, load_str};

verus! {

/// Why a configuration was not accepted.
#[derive(Clone, PartialEq, Debug)]
pub enum ConfigError {
    Io(String),
    Parse(String),
    Invalid(String),
}

#[verifier::ext_equal]
pub enum ConfigErrorV {
    Io(Seq<char>),
    Parse(Seq<char>),
    Invalid(Seq<char>),
}

impl View for ConfigError {
    type V = ConfigErrorV;

    open spec fn view(&self) -> ConfigErrorV {
        match self {
            ConfigError::Io(s) => ConfigErrorV::Io(s@),
            ConfigError::Parse(s) => ConfigErrorV::Parse(s@),
            ConfigError::Invalid(s) => ConfigErrorV::Invalid(s@),
        }
    }
}

impl ConfigError {
    /// The error as a message.
    pub fn message(&self) -> (r: String)
        ensures
            r@ == match self@ {
                ConfigErrorV::Io(what) => "failed to read file: "@ + what,
                ConfigErrorV::Parse(what) => "failed to parse TOML: "@ + what,
                ConfigErrorV::Invalid(what) => what,
            },
    {
        match self {
            ConfigError::Io(what) => concat2("failed to read file: ", what.as_str()),
            ConfigError::Parse(what) => concat2("failed to parse TOML: ", what.as_str()),
            ConfigError::Invalid(what) => what.clone(),
        }
    }
}

/// What compiling a module gave: nothing, or an error.
#[derive(Clone, PartialEq, Debug)]
pub struct ModuleCheck {
    pub path: String,
    pub error: Option<String>,
}

#[verifier::ext_equal]
pub struct ModuleCheckV {
    pub path: Seq<char>,
    pub error: Option<Seq<char>>,
}

impl View for ModuleCheck {
    type V = ModuleCheckV;

    open spec fn view(&self) -> ModuleCheckV {
        ModuleCheckV { path: self.path@, error: opt_view(self.error) }
    }
}

/// What the configuration is checked against: the models that are known, the
/// paths that are files, and what compiling each module gave.
#[derive(Clone, PartialEq, Debug)]
pub struct Surroundings {
    pub models: Registry,
    pub files: Vec<String>,
    pub modules: Vec<ModuleCheck>,
}

#[verifier::ext_equal]
pub struct SurroundingsV {
    pub models: RegistryV,
    pub files: Seq<Seq<char>>,
    pub modules: Seq<ModuleCheckV>,
}

impl View for Surroundings {
    type V = SurroundingsV;

    open spec fn view(&self) -> SurroundingsV {
        SurroundingsV {
            models: self.models@,
            files: texts(self.files@),
            modules: views(self.modules@),
        }
    }
}

/// The error of the first check of a module; one that was not checked has one.
pub open spec fn module_error(modules: Seq<ModuleCheckV>, path: Seq<char>) -> Option<Seq<char>>
    decreases modules.len(),
{
    if modules.len() == 0 {
        Some("module was not checked"@)
    } else if modules[0].path == path {
        modules[0].error
    } else {
        module_error(modules.drop_first(), path)
    }
}

fn find_module_error(modules: &Vec<ModuleCheck>, path: &str) -> (r: Option<String>)
    ensures
        opt_view(r) == module_error(views(modules@), path@),
{
    let ghost all = views(modules@);
    assert(all.skip(0) == all);
    let mut i: usize = 0;
    while i < modules.len()
        invariant
            i <= modules.len(),
            all == views(modules@),
            module_error(all, path@) == module_error(all.skip(i as int), path@),
        decreases modules.len() - i,
    {
        assert(all.skip(i as int)[0] == modules@[i as int]@);
        assert(all.skip(i as int).drop_first() == all.skip(i + 1));
        if same(modules[i].path.as_str(), path) {
            return copy_opt(&modules[i].error);
        }
        i += 1;
    }
    Some("module was not checked".to_owned())
}

/// The first of two problems.
pub open spec fn first_of(a: Option<Seq<char>>, b: Option<Seq<char>>) -> Option<Seq<char>> {
    match a {
        Some(_) => a,
        None => b,
    }
}

/// A problem where a condition holds.
pub open spec fn problem_if(condition: bool, message: Seq<char>) -> Option<Seq<char>> {
    if condition {
        Some(message)
    } else {
        None
    }
}

/// The first problem of the gateway's own settings.
pub open spec fn gateway_problem(cfg: ConfigV) -> Option<Seq<char>> {
    let g = cfg.gateway;
    first_of(
        problem_if(
            g.schema_version != 1,
            "unsupported schema_version "@ + decimal(g.schema_version as nat)
                + ": this build supports major version 1"@,
        ),
        first_of(
            problem_if(
                g.max_response_bytes == Some(0usize),
                "max_response_bytes must be >= 1 (0 would reject every response body)"@,
            ),
            first_of(
                problem_if(g.max_inflight == 0, "max_inflight must be >= 1"@),
                first_of(
                    problem_if(
                        g.max_event_bytes == Some(0usize),
                        "max_event_bytes must be >= 1 (0 would reject every SSE event)"@,
                    ),
                    first_of(
                        problem_if(
                            g.admin_listen.len() > 0 && g.admin_listen == g.listen,
                            "admin_listen must differ from listen"@,
                        ),
                        problem_if(
                            cfg.routes.len() == 0,
                            "configuration defines no routes; at least one [[route]] is required"@,
                        ),
                    ),
                ),
            ),
        ),
    )
}

fn check_gateway(cfg: &Config) -> (r: Option<String>)
    ensures
        opt_view(r) == gateway_problem(cfg@),
{
    let g = &cfg.gateway;
    if g.schema_version != 1 {
        let version = decimal_text(g.schema_version as u64);
        return Some(
            concat3(
                "unsupported schema_version ",
                version.as_str(),
                ": this build supports major version 1",
            ),
        );
    }
    if let Some(0) = g.max_response_bytes {
        return Some("max_response_bytes must be >= 1 (0 would reject every response body)".to_owned());
    }
    if g.max_inflight == 0 {
        return Some("max_inflight must be >= 1".to_owned());
    }
    if let Some(0) = g.max_event_bytes {
        return Some("max_event_bytes must be >= 1 (0 would reject every SSE event)".to_owned());
    }
    if !g.admin_listen.as_str().is_empty() && same(g.admin_listen.as_str(), g.listen.as_str()) {
        return Some("admin_listen must differ from listen".to_owned());
    }
    if cfg.routes.len() == 0 {
        return Some("configuration defines no routes; at least one [[route]] is required".to_owned());
    }
    None
}

/// The problem of an unknown provider in a route's field.
pub open spec fn unknown_provider(id: Seq<char>, field: Seq<char>, name: Seq<char>) -> Option<
    Seq<char>,
> {
    problem_if(
        !known_provider(name),
        "route '"@ + id + "' has unknown "@ + field + " '"@ + name
            + "' (known: "@ + "anthropic, openai, google"@ + ")"@,
    )
}

fn is_known_provider(name: &str) -> (r: bool)
    ensures
        r == known_provider(name@),
{
    same(name, "anthropic") || same(name, "openai") || same(name, "google")
}

fn check_provider(id: &str, field: &str, name: &str) -> (r: Option<String>)
    ensures
        opt_view(r) == unknown_provider(id@, field@, name@),
{
    if is_known_provider(name) {
        None
    } else {
        Some(
            concat9(
                "route '",
                id,
                "' has unknown ",
                field,
                " '",
                name,
                "' (known: ",
                "anthropic, openai, google",
                ")",
            ),
        )
    }
}

/// The first problem of a route's adapter: unknown names, or two sides that
/// differ.
pub open spec fn adapter_problem(id: Seq<char>, adapter: RouteAdapterV) -> Option<Seq<char>> {
    first_of(
        match adapter.ingress {
            Some(ingress) => unknown_provider(id, "adapter.ingress"@, ingress),
            None => None,
        },
        match adapter.egress {
            Some(egress) => first_of(
                unknown_provider(id, "adapter.egress"@, egress),
                problem_if(
                    adapter.ingress != Some(egress),
                    "route '"@ + id + "': cross-provider egress translation is not supported yet"@,
                ),
            ),
            None => None,
        },
    )
}

fn check_adapter(id: &str, adapter: &RouteAdapter) -> (r: Option<String>)
    ensures
        opt_view(r) == adapter_problem(id@, adapter@),
{
    if let Some(ingress) = &adapter.ingress {
        if let Some(p) = check_provider(id, "adapter.ingress", ingress.as_str()) {
            return Some(p);
        }
    }
    if let Some(egress) = &adapter.egress {
        if let Some(p) = check_provider(id, "adapter.egress", egress.as_str()) {
            return Some(p);
        }
        let matching: bool = match &adapter.ingress {
            Some(ingress) => same(ingress.as_str(), egress.as_str()),
            None => false,
        };
        if !matching {
            return Some(
                concat3("route '", id, "': cross-provider egress translation is not supported yet"),
            );
        }
    }
    None
}

/// Whether a route has a step of the loopback mode.
pub open spec fn has_loopback(steps: Seq<StepV>) -> bool {
    exists|i: int| 0 <= i < steps.len() && (#[trigger] steps[i]).mode == UrlMode::Loopback
}

fn find_loopback(steps: &Vec<Step>) -> (r: bool)
    ensures
        r == has_loopback(views(steps@)),
{
    let ghost all = views(steps@);
    let mut i: usize = 0;
    while i < steps.len()
        invariant
            i <= steps.len(),
            all == views(steps@),
            forall|j: int| 0 <= j < i ==> (#[trigger] all[j]).mode != UrlMode::Loopback,
        decreases steps.len() - i,
    {
        assert(all[i as int] == steps@[i as int]@);
        if steps[i].mode == UrlMode::Loopback {
            return true;
        }
        i += 1;
    }
    false
}

/// The first problem of a route's translation.
pub open spec fn translate_problem(route: RouteV, t: TranslateV, env: SurroundingsV) -> Option<
    Seq<char>,
> {
    let id = route.id;
    first_of(
        unknown_provider(id, "translate.from"@, t.from),
        first_of(
            unknown_provider(id, "translate.to"@, t.to),
            first_of(
                problem_if(
                    t.from == t.to,
                    "route '"@ + id + "': translate.from and translate.to are both '"@ + t.from
                        + "' (a translate that doesn't translate is a config error)"@,
                ),
                first_of(
                    match route.adapter {
                        Some(adapter) => match adapter.ingress {
                            Some(ingress) => problem_if(
                                ingress != t.from,
                                "route '"@ + id + "': adapter.ingress '"@ + ingress
                                    + "' and translate.from '"@ + t.from
                                    + "' must match (the llm view uses adapter.ingress, so a mismatch silently disables request-side guardrails)"@,
                            ),
                            None => None,
                        },
                        None => None,
                    },
                    first_of(
                        match t.model {
                            Some(model) => problem_if(
                                env.models.find(t.to, model) is None,
                                "route '"@ + id + "': translate.model '"@ + model
                                    + "' is not a known model for provider '"@ + t.to
                                    + "' (translate.to)"@,
                            ),
                            None => None,
                        },
                        problem_if(
                            has_loopback(route.steps),
                            "route '"@ + id
                                + "': translate cannot be combined with a mode=loopback step (the loopback interaction is out of scope)"@,
                        ),
                    ),
                ),
            ),
        ),
    )
}

fn check_translate(route: &Route, t: &Translate, env: &Surroundings) -> (r: Option<String>)
    ensures
        opt_view(r) == translate_problem(route@, t@, env@),
{
    let id = route.id.as_str();
    if let Some(p) = check_provider(id, "translate.from", t.from.as_str()) {
        return Some(p);
    }
    if let Some(p) = check_provider(id, "translate.to", t.to.as_str()) {
        return Some(p);
    }
    if same(t.from.as_str(), t.to.as_str()) {
        return Some(
            concat5(
                "route '",
                id,
                "': translate.from and translate.to are both '",
                t.from.as_str(),
                "' (a translate that doesn't translate is a config error)",
            ),
        );
    }
    if let Some(adapter) = &route.adapter {
        if let Some(ingress) = &adapter.ingress {
            if !same(ingress.as_str(), t.from.as_str()) {
                return Some(
                    concat7(
                        "route '",
                        id,
                        "': adapter.ingress '",
                        ingress.as_str(),
                        "' and translate.from '",
                        t.from.as_str(),
                        "' must match (the llm view uses adapter.ingress, so a mismatch silently disables request-side guardrails)",
                    ),
                );
            }
        }
    }
    if let Some(model) = &t.model {
        if env.models.get(t.to.as_str(), model.as_str()).is_none() {
            return Some(
                concat7(
                    "route '",
                    id,
                    "': translate.model '",
                    model.as_str(),
                    "' is not a known model for provider '",
                    t.to.as_str(),
                    "' (translate.to)",
                ),
            );
        }
    }
    if find_loopback(&route.steps) {
        return Some(
            concat3(
                "route '",
                id,
                "': translate cannot be combined with a mode=loopback step (the loopback interaction is out of scope)",
            ),
        );
    }
    None
}

/// A message on a step of a route.
pub open spec fn step_message(id: Seq<char>, name: Seq<char>, text: Seq<char>) -> Seq<char> {
    "route '"@ + id + "' step '"@ + name + text
}

fn say_step(id: &str, name: &str, text: &str) -> (r: String)
    ensures
        r@ == step_message(id@, name@, text@),
{
    concat5("route '", id, "' step '", name, text)
}

/// Whether a command names a path.
pub open spec fn names_path(bin: Seq<char>) -> bool {
    bin.contains('/') || bin.contains('\\')
}

/// The problem of a loopback step without a secret to sign with: while there is
/// none, loopback is off.
pub open spec fn secret_problem(g: GatewayV, id: Seq<char>, name: Seq<char>, s: StepV) -> Option<
    Seq<char>,
> {
    problem_if(
        s.mode == UrlMode::Loopback && g.loopback_secret.len() == 0,
        step_message(id, name, "': mode=loopback requires a non-empty loopback_secret"@),
    )
}

/// The first problem of a URL step.
pub open spec fn url_problem(g: GatewayV, id: Seq<char>, name: Seq<char>, s: StepV) -> Option<
    Seq<char>,
> {
    first_of(
        problem_if(s.url is None, step_message(id, name, "' is type=url but has no url"@)),
        first_of(
            secret_problem(g, id, name, s),
            problem_if(
                s.mode == UrlMode::Loopback && s.hook != Hook::OnRequest,
                step_message(
                    id,
                    name,
                    "' uses mode=loopback, which is only supported on hook=on_request"@,
                ),
            ),
        ),
    )
}

/// The first problem of a script step.
pub open spec fn script_problem(
    g: GatewayV,
    id: Seq<char>,
    name: Seq<char>,
    s: StepV,
    env: SurroundingsV,
) -> Option<Seq<char>> {
    let streamed = s.hook == Hook::OnStream;
    first_of(
        problem_if(
            !g.allow_scripts,
            step_message(id, name, "': script steps require allow_scripts = true"@),
        ),
        first_of(
            problem_if(
                s.cmd.len() == 0,
                step_message(id, name, "' is type=script but has no cmd"@),
            ),
            first_of(
                problem_if(
                    names_path(s.cmd[0]) && !env.files.contains(s.cmd[0]),
                    step_message(id, name, "': script cmd[0] '"@) + s.cmd[0] + "' does not exist"@,
                ),
                first_of(
                    problem_if(
                        streamed && s.script_mode == ScriptMode::Oneshot,
                        step_message(
                            id,
                            name,
                            "': script steps are not supported on the on_stream hook yet"@,
                        ),
                    ),
                    problem_if(
                        streamed && s.script_mode == ScriptMode::Worker && s.chunk_mode
                            != ChunkMode::Mutate,
                        step_message(
                            id,
                            name,
                            "': a worker script on on_stream requires chunk_mode = mutate (an observe-only worker step is never dispatched)"@,
                        ),
                    ),
                ),
            ),
        ),
    )
}

/// The first problem of a WASM step.
pub open spec fn wasm_problem(
    id: Seq<char>,
    name: Seq<char>,
    s: StepV,
    env: SurroundingsV,
) -> Option<Seq<char>> {
    match s.wasm {
        None => Some(step_message(id, name, "' is type=wasm but has no wasm module path"@)),
        Some(path) => first_of(
            problem_if(
                s.hook == Hook::OnStream,
                step_message(id, name, "': wasm steps are not supported on on_stream yet"@),
            ),
            match module_error(env.modules, path) {
                Some(e) => Some(
                    step_message(id, name, "': wasm module '"@) + path + "' failed to compile: "@ + e,
                ),
                None => None,
            },
        ),
    }
}

/// The first problem of a guardrail: it must be able to enforce, and must fail
/// closed.
pub open spec fn guardrail_problem(id: Seq<char>, name: Seq<char>, s: StepV) -> Option<Seq<char>> {
    first_of(
        problem_if(
            s.is_guardrail && s.hook == Hook::OnStream && s.chunk_mode == ChunkMode::Observe,
            step_message(
                id,
                name,
                "': is_guardrail on hook=on_stream requires chunk_mode = mutate (an observe-only guardrail cannot enforce anything)"@,
            ),
        ),
        problem_if(
            s.is_guardrail && s.on_error == OnError::FailOpen,
            step_message(
                id,
                name,
                "': is_guardrail steps cannot use on_error = fail_open (a guardrail must fail closed)"@,
            ),
        ),
    )
}

/// Whether an earlier step has the name of the step at `i`.
pub open spec fn name_taken(steps: Seq<StepV>, i: int) -> bool {
    exists|j: int|
        0 <= j < i && #[trigger] steps[j].effective_name(j as nat) == steps[i].effective_name(
            i as nat,
        )
}

/// The first problem of the step at `i`. Whatever its type, a loopback step needs
/// the secret.
pub open spec fn step_problem(g: GatewayV, route: RouteV, i: int, env: SurroundingsV) -> Option<
    Seq<char>,
> {
    let s = route.steps[i];
    let name = s.effective_name(i as nat);
    first_of(
        problem_if(
            name_taken(route.steps, i),
            "route '"@ + route.id + "' has duplicate step name '"@ + name + "'"@,
        ),
        first_of(
            match s.type_ {
                StepType::Url => url_problem(g, route.id, name, s),
                StepType::Script => script_problem(g, route.id, name, s, env),
                StepType::Wasm => wasm_problem(route.id, name, s, env),
            },
            first_of(
                secret_problem(g, route.id, name, s),
                guardrail_problem(route.id, name, s),
            ),
        ),
    )
}

/// The first problem of the first `n` steps.
pub open spec fn steps_problem(g: GatewayV, route: RouteV, n: nat, env: SurroundingsV) -> Option<
    Seq<char>,
>
    decreases n,
{
    if n == 0 {
        None
    } else {
        first_of(
            steps_problem(g, route, (n - 1) as nat, env),
            step_problem(g, route, n - 1, env),
        )
    }
}

proof fn lemma_steps_problem(g: GatewayV, route: RouteV, k: nat, n: nat, env: SurroundingsV)
    requires
        k <= n,
        steps_problem(g, route, k, env) is Some,
    ensures
        steps_problem(g, route, n, env) == steps_problem(g, route, k, env),
    decreases n,
{
    if k < n {
        lemma_steps_problem(g, route, k, (n - 1) as nat, env);
    }
}

/// Whether some step has a hook.
pub open spec fn has_hook(steps: Seq<StepV>, hook: Hook) -> bool {
    exists|i: int| 0 <= i < steps.len() && (#[trigger] steps[i]).hook == hook
}

/// Whether some stream step has a chunk mode.
pub open spec fn has_stream_mode(steps: Seq<StepV>, mode: ChunkMode) -> bool {
    exists|i: int|
        0 <= i < steps.len() && (#[trigger] steps[i]).hook == Hook::OnStream && steps[i].chunk_mode
            == mode
}

fn find_hook(steps: &Vec<Step>, hook: Hook) -> (r: bool)
    ensures
        r == has_hook(views(steps@), hook),
{
    let ghost all = views(steps@);
    let mut i: usize = 0;
    while i < steps.len()
        invariant
            i <= steps.len(),
            all == views(steps@),
            forall|j: int| 0 <= j < i ==> (#[trigger] all[j]).hook != hook,
        decreases steps.len() - i,
    {
        assert(all[i as int] == steps@[i as int]@);
        if steps[i].hook == hook {
            return true;
        }
        i += 1;
    }
    false
}

fn find_stream_mode(steps: &Vec<Step>, mode: ChunkMode) -> (r: bool)
    ensures
        r == has_stream_mode(views(steps@), mode),
{
    let ghost all = views(steps@);
    let mut i: usize = 0;
    while i < steps.len()
        invariant
            i <= steps.len(),
            all == views(steps@),
            forall|j: int|
                0 <= j < i ==> !((#[trigger] all[j]).hook == Hook::OnStream && all[j].chunk_mode
                    == mode),
        decreases steps.len() - i,
    {
        assert(all[i as int] == steps@[i as int]@);
        if steps[i].hook == Hook::OnStream && steps[i].chunk_mode == mode {
            return true;
        }
        i += 1;
    }
    false
}

fn check_secret(g: &Gateway, id: &str, name: &str, s: &Step) -> (r: Option<String>)
    ensures
        opt_view(r) == secret_problem(g@, id@, name@, s@),
{
    if s.mode == UrlMode::Loopback && g.loopback_secret.as_str().is_empty() {
        Some(say_step(id, name, "': mode=loopback requires a non-empty loopback_secret"))
    } else {
        None
    }
}

fn check_url(g: &Gateway, id: &str, name: &str, s: &Step) -> (r: Option<String>)
    ensures
        opt_view(r) == url_problem(g@, id@, name@, s@),
{
    if s.url.is_none() {
        return Some(say_step(id, name, "' is type=url but has no url"));
    }
    if let Some(p) = check_secret(g, id, name, s) {
        return Some(p);
    }
    if s.mode == UrlMode::Loopback && s.hook != Hook::OnRequest {
        return Some(
            say_step(
                id,
                name,
                "' uses mode=loopback, which is only supported on hook=on_request",
            ),
        );
    }
    None
}

fn check_script(g: &Gateway, id: &str, name: &str, s: &Step, env: &Surroundings) -> (r: Option<
    String,
>)
    ensures
        opt_view(r) == script_problem(g@, id@, name@, s@, env@),
{
    if !g.allow_scripts {
        return Some(say_step(id, name, "': script steps require allow_scripts = true"));
    }
    if s.cmd.len() == 0 {
        return Some(say_step(id, name, "' is type=script but has no cmd"));
    }
    let bin = s.cmd[0].as_str();
    assert(s@.cmd[0] == bin@);
    if (has_char(bin, '/') || has_char(bin, '\\')) && !is_listed(bin, &env.files) {
        let head = say_step(id, name, "': script cmd[0] '");
        return Some(concat3(head.as_str(), bin, "' does not exist"));
    }
    if s.hook == Hook::OnStream {
        if s.script_mode == ScriptMode::Oneshot {
            return Some(
                say_step(id, name, "': script steps are not supported on the on_stream hook yet"),
            );
        }
        if s.chunk_mode != ChunkMode::Mutate {
            return Some(
                say_step(
                    id,
                    name,
                    "': a worker script on on_stream requires chunk_mode = mutate (an observe-only worker step is never dispatched)",
                ),
            );
        }
    }
    None
}

fn check_wasm(id: &str, name: &str, s: &Step, env: &Surroundings) -> (r: Option<String>)
    ensures
        opt_view(r) == wasm_problem(id@, name@, s@, env@),
{
    match &s.wasm {
        None => Some(say_step(id, name, "' is type=wasm but has no wasm module path")),
        Some(path) => {
            if s.hook == Hook::OnStream {
                return Some(
                    say_step(id, name, "': wasm steps are not supported on on_stream yet"),
                );
            }
            match find_module_error(&env.modules, path.as_str()) {
                Some(e) => {
                    let head = say_step(id, name, "': wasm module '");
                    let tail = concat3(head.as_str(), path.as_str(), "' failed to compile: ");
                    Some(concat2(tail.as_str(), e.as_str()))
                },
                None => None,
            }
        },
    }
}

fn check_guardrail(id: &str, name: &str, s: &Step) -> (r: Option<String>)
    ensures
        opt_view(r) == guardrail_problem(id@, name@, s@),
{
    if s.is_guardrail {
        if s.hook == Hook::OnStream && s.chunk_mode == ChunkMode::Observe {
            return Some(
                say_step(
                    id,
                    name,
                    "': is_guardrail on hook=on_stream requires chunk_mode = mutate (an observe-only guardrail cannot enforce anything)",
                ),
            );
        }
        if s.on_error == OnError::FailOpen {
            return Some(
                say_step(
                    id,
                    name,
                    "': is_guardrail steps cannot use on_error = fail_open (a guardrail must fail closed)",
                ),
            );
        }
    }
    None
}

fn check_steps(g: &Gateway, route: &Route, env: &Surroundings) -> (r: Option<String>)
    ensures
        opt_view(r) == steps_problem(g@, route@, route@.steps.len(), env@),
{
    let ghost all = route@.steps;
    let id = route.id.as_str();
    let mut seen: Vec<String> = Vec::new();
    let mut i: usize = 0;
    while i < route.steps.len()
        invariant
            i <= route.steps.len(),
            all == views(route.steps@),
            all == route@.steps,
            id@ == route.id@,
            seen@.len() == i,
            forall|j: int| 0 <= j < i ==> (#[trigger] seen@[j])@ == all[j].effective_name(j as nat),
            steps_problem(g@, route@, i as nat, env@) is None,
        decreases route.steps.len() - i,
    {
        let s = &route.steps[i];
        assert(all[i as int] == s@);
        let name = s.effective_name(i);
        let taken = is_listed(name.as_str(), &seen);
        proof {
            if taken {
                let j = choose|j: int| 0 <= j < texts(seen@).len() && texts(seen@)[j] == name@;
                assert(seen@[j]@ == name@);
                assert(all[j].effective_name(j as nat) == name@);
            } else if name_taken(all, i as int) {
                let j = choose|j: int|
                    0 <= j < i && #[trigger] all[j].effective_name(j as nat)
                        == all[i as int].effective_name(i as nat);
                assert(texts(seen@)[j] == name@);
            }
            assert(taken == name_taken(all, i as int));
        }
        let mut problem: Option<String> = None;
        if taken {
            problem = Some(
                concat5("route '", id, "' has duplicate step name '", name.as_str(), "'"),
            );
        }
        if problem.is_none() {
            problem =
            match s.type_ {
                StepType::Url => check_url(g, id, name.as_str(), s),
                StepType::Script => check_script(g, id, name.as_str(), s, env),
                StepType::Wasm => check_wasm(id, name.as_str(), s, env),
            };
        }
        if problem.is_none() {
            problem = check_secret(g, id, name.as_str(), s);
        }
        if problem.is_none() {
            problem = check_guardrail(id, name.as_str(), s);
        }
        assert(opt_view(problem) == step_problem(g@, route@, i as int, env@));
        if problem.is_some() {
            proof {
                lemma_steps_problem(g@, route@, (i + 1) as nat, all.len(), env@);
            }
            return problem;
        }
        seen.push(name);
        i += 1;
    }
    None
}

/// The first problem of how a route's hooks go together.
pub open spec fn hooks_problem(route: RouteV) -> Option<Seq<char>> {
    let streamed = has_hook(route.steps, Hook::OnStream);
    first_of(
        problem_if(
            has_hook(route.steps, Hook::OnResponse) && streamed,
            "route '"@ + route.id
                + "': on_response and on_stream steps cannot be combined on one route yet"@,
        ),
        first_of(
            problem_if(
                route.translate is Some && streamed,
                "route '"@ + route.id
                    + "': on_stream steps cannot be combined with [route.translate] yet (they would be silently skipped on a translate route); run guardrails on on_request/on_response, or remove translate"@,
            ),
            problem_if(
                has_stream_mode(route.steps, ChunkMode::Observe) && has_stream_mode(
                    route.steps,
                    ChunkMode::Mutate,
                ),
                "route '"@ + route.id
                    + "': a route cannot mix observe and mutate on_stream steps"@,
            ),
        ),
    )
}

fn check_hooks(route: &Route) -> (r: Option<String>)
    ensures
        opt_view(r) == hooks_problem(route@),
{
    let id = route.id.as_str();
    let streamed = find_hook(&route.steps, Hook::OnStream);
    if find_hook(&route.steps, Hook::OnResponse) && streamed {
        return Some(
            concat3(
                "route '",
                id,
                "': on_response and on_stream steps cannot be combined on one route yet",
            ),
        );
    }
    if route.translate.is_some() && streamed {
        return Some(
            concat3(
                "route '",
                id,
                "': on_stream steps cannot be combined with [route.translate] yet (they would be silently skipped on a translate route); run guardrails on on_request/on_response, or remove translate",
            ),
        );
    }
    if find_stream_mode(&route.steps, ChunkMode::Observe) && find_stream_mode(
        &route.steps,
        ChunkMode::Mutate,
    ) {
        return Some(
            concat3("route '", id, "': a route cannot mix observe and mutate on_stream steps"),
        );
    }
    None
}

/// Whether an earlier route has the id of the route at `i`.
pub open spec fn id_taken(routes: Seq<RouteV>, i: int) -> bool {
    exists|j: int| 0 <= j < i && (#[trigger] routes[j]).id == routes[i].id
}

/// The first problem of the route at `i`.
pub open spec fn route_problem(cfg: ConfigV, i: int, env: SurroundingsV) -> Option<Seq<char>> {
    let route = cfg.routes[i];
    first_of(
        problem_if(route.id.len() == 0, "a route has an empty id"@),
        first_of(
            problem_if(
                route.id.contains('/'),
                "route id '"@ + route.id + "' must not contain '/'"@,
            ),
            first_of(
                problem_if(
                    id_taken(cfg.routes, i),
                    "duplicate route id '"@ + route.id + "' (route ids must be globally unique)"@,
                ),
                first_of(
                    problem_if(
                        route.upstream.len() == 0,
                        "route '"@ + route.id + "' has an empty upstream"@,
                    ),
                    first_of(
                        match route.adapter {
                            Some(adapter) => adapter_problem(route.id, adapter),
                            None => None,
                        },
                        first_of(
                            match route.translate {
                                Some(t) => translate_problem(route, t, env),
                                None => None,
                            },
                            first_of(
                                steps_problem(cfg.gateway, route, route.steps.len(), env),
                                hooks_problem(route),
                            ),
                        ),
                    ),
                ),
            ),
        ),
    )
}

/// The first problem of the first `n` routes.
pub open spec fn routes_problem(cfg: ConfigV, n: nat, env: SurroundingsV) -> Option<Seq<char>>
    decreases n,
{
    if n == 0 {
        None
    } else {
        first_of(routes_problem(cfg, (n - 1) as nat, env), route_problem(cfg, n - 1, env))
    }
}

proof fn lemma_routes_problem(cfg: ConfigV, k: nat, n: nat, env: SurroundingsV)
    requires
        k <= n,
        routes_problem(cfg, k, env) is Some,
    ensures
        routes_problem(cfg, n, env) == routes_problem(cfg, k, env),
    decreases n,
{
    if k < n {
        lemma_routes_problem(cfg, k, (n - 1) as nat, env);
    }
}

fn find_id(routes: &Vec<Route>, n: usize, id: &str) -> (r: bool)
    requires
        n <= routes@.len(),
    ensures
        r == exists|j: int| 0 <= j < n && (#[trigger] views(routes@)[j]).id == id@,
{
    let ghost all = views(routes@);
    let mut i: usize = 0;
    while i < n
        invariant
            i <= n,
            n <= routes@.len(),
            all == views(routes@),
            forall|j: int| 0 <= j < i ==> (#[trigger] all[j]).id != id@,
        decreases n - i,
    {
        assert(all[i as int] == routes@[i as int]@);
        if same(routes[i].id.as_str(), id) {
            return true;
        }
        i += 1;
    }
    false
}

fn check_route(cfg: &Config, i: usize, env: &Surroundings) -> (r: Option<String>)
    requires
        i < cfg.routes@.len(),
    ensures
        opt_view(r) == route_problem(cfg@, i as int, env@),
{
    let route = &cfg.routes[i];
    assert(cfg@.routes[i as int] == route@);
    let id = route.id.as_str();
    if id.is_empty() {
        return Some("a route has an empty id".to_owned());
    }
    if has_char(id, '/') {
        return Some(concat3("route id '", id, "' must not contain '/'"));
    }
    if find_id(&cfg.routes, i, id) {
        return Some(
            concat3("duplicate route id '", id, "' (route ids must be globally unique)"),
        );
    }
    if route.upstream.as_str().is_empty() {
        return Some(concat3("route '", id, "' has an empty upstream"));
    }
    if let Some(adapter) = &route.adapter {
        if let Some(p) = check_adapter(id, adapter) {
            return Some(p);
        }
    }
    if let Some(t) = &route.translate {
        if let Some(p) = check_translate(route, t, env) {
            return Some(p);
        }
    }
    if let Some(p) = check_steps(&cfg.gateway, route, env) {
        return Some(p);
    }
    check_hooks(route)
}

/// The name of the first listener before `i` on the same address as that at `i`.
pub open spec fn same_listen(gateways: Seq<GatewayDefV>, i: int, n: nat) -> Option<Seq<char>>
    decreases n,
{
    if n == 0 {
        None
    } else {
        first_of(
            same_listen(gateways, i, (n - 1) as nat),
            problem_if(gateways[n - 1].listen == gateways[i].listen, gateways[n - 1].name),
        )
    }
}

/// Whether an earlier listener has the name of the one at `i`.
pub open spec fn gateway_name_taken(gateways: Seq<GatewayDefV>, i: int) -> bool {
    exists|j: int| 0 <= j < i && (#[trigger] gateways[j]).name == gateways[i].name
}

/// Whether some route has an id.
pub open spec fn defines_route(routes: Seq<RouteV>, id: Seq<char>) -> bool {
    exists|j: int| 0 <= j < routes.len() && (#[trigger] routes[j]).id == id
}

/// The first of the first `n` route ids of a listener that no route has.
pub open spec fn undefined_route(cfg: ConfigV, gw: GatewayDefV, n: nat) -> Option<Seq<char>>
    decreases n,
{
    if n == 0 {
        None
    } else {
        first_of(
            undefined_route(cfg, gw, (n - 1) as nat),
            problem_if(!defines_route(cfg.routes, gw.routes[n - 1]), gw.routes[n - 1]),
        )
    }
}

/// The first problem of the listener at `i`.
pub open spec fn listener_problem(cfg: ConfigV, i: int) -> Option<Seq<char>> {
    let gw = cfg.gateways[i];
    let admin = cfg.gateway.admin_listen;
    let file = "gateway '"@ + gw.name + "' (gateways.d/"@ + gw.name;
    first_of(
        problem_if(
            gateway_name_taken(cfg.gateways, i),
            "duplicate gateway name '"@ + gw.name
                + "' (gateway names in gateways.d must be unique)"@,
        ),
        first_of(
            match same_listen(cfg.gateways, i, i as nat) {
                Some(other) => Some(
                    "gateways '"@ + other + "' and '"@ + gw.name
                        + "' (gateways.d/*.toml) both listen on '"@ + gw.listen
                        + "' (gateway listen addresses must be unique)"@,
                ),
                None => None,
            },
            first_of(
                problem_if(
                    admin.len() > 0 && gw.listen == admin,
                    file + ".toml) and admin_listen both listen on '"@ + gw.listen
                        + "' (admin and gateway listen addresses must not collide)"@,
                ),
                first_of(
                    problem_if(gw.routes.len() == 0, file + ".toml) declares no routes"@),
                    match undefined_route(cfg, gw, gw.routes.len()) {
                        Some(id) => Some(
                            file + ".toml) references undefined route id '"@ + id + "'"@,
                        ),
                        None => None,
                    },
                ),
            ),
        ),
    )
}

/// The first problem of the first `n` listeners.
pub open spec fn listeners_problem(cfg: ConfigV, n: nat) -> Option<Seq<char>>
    decreases n,
{
    if n == 0 {
        None
    } else {
        first_of(listeners_problem(cfg, (n - 1) as nat), listener_problem(cfg, n - 1))
    }
}

proof fn lemma_listeners_problem(cfg: ConfigV, k: nat, n: nat)
    requires
        k <= n,
        listeners_problem(cfg, k) is Some,
    ensures
        listeners_problem(cfg, n) == listeners_problem(cfg, k),
    decreases n,
{
    if k < n {
        lemma_listeners_problem(cfg, k, (n - 1) as nat);
    }
}

proof fn lemma_same_listen(gateways: Seq<GatewayDefV>, i: int, k: nat, n: nat)
    requires
        k <= n,
        same_listen(gateways, i, k) is Some,
    ensures
        same_listen(gateways, i, n) == same_listen(gateways, i, k),
    decreases n,
{
    if k < n {
        lemma_same_listen(gateways, i, k, (n - 1) as nat);
    }
}

proof fn lemma_undefined_route(cfg: ConfigV, gw: GatewayDefV, k: nat, n: nat)
    requires
        k <= n,
        undefined_route(cfg, gw, k) is Some,
    ensures
        undefined_route(cfg, gw, n) == undefined_route(cfg, gw, k),
    decreases n,
{
    if k < n {
        lemma_undefined_route(cfg, gw, k, (n - 1) as nat);
    }
}

fn find_same_listen(gateways: &Vec<GatewayDef>, i: usize) -> (r: Option<String>)
    requires
        i < gateways@.len(),
    ensures
        opt_view(r) == same_listen(views(gateways@), i as int, i as nat),
{
    let ghost all = views(gateways@);
    assert(all[i as int] == gateways@[i as int]@);
    let mut k: usize = 0;
    while k < i
        invariant
            k <= i,
            i < gateways@.len(),
            all == views(gateways@),
            all[i as int] == gateways@[i as int]@,
            same_listen(all, i as int, k as nat) is None,
        decreases i - k,
    {
        assert(all[k as int] == gateways@[k as int]@);
        if same(gateways[k].listen.as_str(), gateways[i].listen.as_str()) {
            proof {
                lemma_same_listen(all, i as int, (k + 1) as nat, i as nat);
            }
            return Some(gateways[k].name.clone());
        }
        k += 1;
    }
    None
}

fn find_gateway_name(gateways: &Vec<GatewayDef>, i: usize) -> (r: bool)
    requires
        i < gateways@.len(),
    ensures
        r == gateway_name_taken(views(gateways@), i as int),
{
    let ghost all = views(gateways@);
    assert(all[i as int] == gateways@[i as int]@);
    let mut k: usize = 0;
    while k < i
        invariant
            k <= i,
            i < gateways@.len(),
            all == views(gateways@),
            all[i as int] == gateways@[i as int]@,
            forall|j: int| 0 <= j < k ==> (#[trigger] all[j]).name != all[i as int].name,
        decreases i - k,
    {
        assert(all[k as int] == gateways@[k as int]@);
        if same(gateways[k].name.as_str(), gateways[i].name.as_str()) {
            return true;
        }
        k += 1;
    }
    false
}

fn find_undefined_route(cfg: &Config, gw: &GatewayDef) -> (r: Option<String>)
    ensures
        opt_view(r) == undefined_route(cfg@, gw@, gw@.routes.len()),
{
    let mut k: usize = 0;
    while k < gw.routes.len()
        invariant
            k <= gw.routes.len(),
            undefined_route(cfg@, gw@, k as nat) is None,
        decreases gw.routes.len() - k,
    {
        assert(gw@.routes[k as int] == gw.routes@[k as int]@);
        if !find_id(&cfg.routes, cfg.routes.len(), gw.routes[k].as_str()) {
            proof {
                assert(!defines_route(cfg@.routes, gw@.routes[k as int]));
                lemma_undefined_route(cfg@, gw@, (k + 1) as nat, gw@.routes.len());
            }
            return Some(gw.routes[k].clone());
        }
        k += 1;
    }
    None
}

fn check_listener(cfg: &Config, i: usize) -> (r: Option<String>)
    requires
        i < cfg.gateways@.len(),
    ensures
        opt_view(r) == listener_problem(cfg@, i as int),
{
    let gw = &cfg.gateways[i];
    assert(cfg@.gateways[i as int] == gw@);
    let name = gw.name.as_str();
    let admin = cfg.gateway.admin_listen.as_str();
    let mut file = concat3("gateway '", name, "' (gateways.d/");
    file.append(name);
    if find_gateway_name(&cfg.gateways, i) {
        return Some(
            concat3(
                "duplicate gateway name '",
                name,
                "' (gateway names in gateways.d must be unique)",
            ),
        );
    }
    if let Some(other) = find_same_listen(&cfg.gateways, i) {
        return Some(
            concat7(
                "gateways '",
                other.as_str(),
                "' and '",
                name,
                "' (gateways.d/*.toml) both listen on '",
                gw.listen.as_str(),
                "' (gateway listen addresses must be unique)",
            ),
        );
    }
    if !admin.is_empty() && same(gw.listen.as_str(), admin) {
        let head = concat3(
            file.as_str(),
            ".toml) and admin_listen both listen on '",
            gw.listen.as_str(),
        );
        return Some(
            concat2(
                head.as_str(),
                "' (admin and gateway listen addresses must not collide)",
            ),
        );
    }
    if gw.routes.len() == 0 {
        return Some(concat2(file.as_str(), ".toml) declares no routes"));
    }
    match find_undefined_route(cfg, gw) {
        Some(id) => {
            let head = concat3(
                file.as_str(),
                ".toml) references undefined route id '",
                id.as_str(),
            );
            Some(concat2(head.as_str(), "'"))
        },
        None => None,
    }
}

/// The first problem of a configuration: of the gateway's settings, of the routes
/// in order, of the listeners in order.
pub open spec fn config_problem(cfg: ConfigV, env: SurroundingsV) -> Option<Seq<char>> {
    first_of(
        gateway_problem(cfg),
        first_of(
            routes_problem(cfg, cfg.routes.len(), env),
            listeners_problem(cfg, cfg.gateways.len()),
        ),
    )
}

/// Checks a configuration: accepted where it has no problem, else refused with
/// its first one.
pub fn validate(cfg: &Config, env: &Surroundings) -> (r: Result<(), ConfigError>)
    ensures
        match r {
            Ok(_) => config_problem(cfg@, env@) is None,
            Err(e) => e@ is Invalid && config_problem(cfg@, env@) == Some(e@->Invalid_0),
        },
{
    if let Some(p) = check_gateway(cfg) {
        return Err(ConfigError::Invalid(p));
    }
    let mut i: usize = 0;
    while i < cfg.routes.len()
        invariant
            i <= cfg.routes.len(),
            gateway_problem(cfg@) is None,
            routes_problem(cfg@, i as nat, env@) is None,
        decreases cfg.routes.len() - i,
    {
        if let Some(p) = check_route(cfg, i, env) {
            proof {
                lemma_routes_problem(cfg@, (i + 1) as nat, cfg@.routes.len(), env@);
            }
            return Err(ConfigError::Invalid(p));
        }
        i += 1;
    }
    let mut j: usize = 0;
    while j < cfg.gateways.len()
        invariant
            j <= cfg.gateways.len(),
            gateway_problem(cfg@) is None,
            routes_problem(cfg@, cfg@.routes.len(), env@) is None,
            listeners_problem(cfg@, j as nat) is None,
        decreases cfg.gateways.len() - j,
    {
        if let Some(p) = check_listener(cfg, j) {
            proof {
                lemma_listeners_problem(cfg@, (j + 1) as nat, cfg@.gateways.len());
            }
            return Err(ConfigError::Invalid(p));
        }
        j += 1;
    }
    Ok(())
}

proof fn lemma_no_route_problem(cfg: ConfigV, n: nat, env: SurroundingsV, i: int)
    requires
        routes_problem(cfg, n, env) is None,
        0 <= i < n,
    ensures
        route_problem(cfg, i, env) is None,
    decreases n,
{
    if i < n - 1 {
        lemma_no_route_problem(cfg, (n - 1) as nat, env, i);
    }
}

proof fn lemma_no_step_problem(g: GatewayV, route: RouteV, n: nat, env: SurroundingsV, i: int)
    requires
        steps_problem(g, route, n, env) is None,
        0 <= i < n,
    ensures
        step_problem(g, route, i, env) is None,
    decreases n,
{
    if i < n - 1 {
        lemma_no_step_problem(g, route, (n - 1) as nat, env, i);
    }
}

proof fn lemma_no_listener_problem(cfg: ConfigV, n: nat, i: int)
    requires
        listeners_problem(cfg, n) is None,
        0 <= i < n,
    ensures
        listener_problem(cfg, i) is None,
    decreases n,
{
    if i < n - 1 {
        lemma_no_listener_problem(cfg, (n - 1) as nat, i);
    }
}

proof fn lemma_no_same_listen(gateways: Seq<GatewayDefV>, i: int, n: nat, j: int)
    requires
        same_listen(gateways, i, n) is None,
        0 <= j < n,
    ensures
        gateways[j].listen != gateways[i].listen,
    decreases n,
{
    if j < n - 1 {
        lemma_no_same_listen(gateways, i, (n - 1) as nat, j);
    }
}

proof fn lemma_all_defined(cfg: ConfigV, gw: GatewayDefV, n: nat, j: int)
    requires
        undefined_route(cfg, gw, n) is None,
        0 <= j < n,
    ensures
        defines_route(cfg.routes, gw.routes[j]),
    decreases n,
{
    if j < n - 1 {
        lemma_all_defined(cfg, gw, (n - 1) as nat, j);
    }
}

/// The routes of an accepted configuration can be told apart: there is one, every
/// id is non-empty and without a slash, and no two routes share one.
pub proof fn law_accepted_routes_are_distinct(cfg: ConfigV, env: SurroundingsV)
    requires
        config_problem(cfg, env) is None,
    ensures
        cfg.gateway.schema_version == 1,
        cfg.routes.len() > 0,
        forall|i: int|
            0 <= i < cfg.routes.len() ==> (#[trigger] cfg.routes[i]).id.len() > 0
                && !cfg.routes[i].id.contains('/') && cfg.routes[i].upstream.len() > 0,
        forall|i: int, j: int|
            0 <= i < j < cfg.routes.len() ==> (#[trigger] cfg.routes[i]).id != (
            #[trigger] cfg.routes[j]).id,
{
    assert forall|i: int| 0 <= i < cfg.routes.len() implies (#[trigger] cfg.routes[i]).id.len() > 0
        && !cfg.routes[i].id.contains('/') && cfg.routes[i].upstream.len() > 0 by {
        lemma_no_route_problem(cfg, cfg.routes.len(), env, i);
    }
    assert forall|i: int, j: int| 0 <= i < j < cfg.routes.len() implies (#[trigger] cfg.routes[i]).id
        != (#[trigger] cfg.routes[j]).id by {
        lemma_no_route_problem(cfg, cfg.routes.len(), env, j);
        if cfg.routes[i].id == cfg.routes[j].id {
            assert(id_taken(cfg.routes, j));
        }
    }
}

/// Every guardrail of an accepted configuration fails closed, and one on a stream
/// may rewrite it; scripts run only where they are allowed; a loopback step of any
/// type has a secret, and a URL one runs on requests; the names of a route's steps
/// differ.
pub proof fn law_accepted_steps_are_safe(cfg: ConfigV, env: SurroundingsV, i: int, k: int)
    requires
        config_problem(cfg, env) is None,
        0 <= i < cfg.routes.len(),
        0 <= k < cfg.routes[i].steps.len(),
    ensures
        ({
            let s = cfg.routes[i].steps[k];
            &&& s.is_guardrail ==> s.on_error == OnError::FailClosed
            &&& s.is_guardrail && s.hook == Hook::OnStream ==> s.chunk_mode == ChunkMode::Mutate
            &&& s.type_ == StepType::Script ==> cfg.gateway.allow_scripts && s.cmd.len() > 0
            &&& s.type_ == StepType::Url ==> s.url is Some
            &&& s.mode == UrlMode::Loopback ==> cfg.gateway.loopback_secret.len() > 0
            &&& s.type_ == StepType::Url && s.mode == UrlMode::Loopback ==> s.hook == Hook::OnRequest
            &&& s.type_ == StepType::Wasm ==> s.wasm is Some && module_error(
                env.modules,
                s.wasm->Some_0,
            ) is None
            &&& forall|j: int|
                0 <= j < k ==> #[trigger] cfg.routes[i].steps[j].effective_name(j as nat)
                    != s.effective_name(k as nat)
        }),
{
    let route = cfg.routes[i];
    lemma_no_route_problem(cfg, cfg.routes.len(), env, i);
    lemma_no_step_problem(cfg.gateway, route, route.steps.len(), env, k);
    let s = route.steps[k];
    assert forall|j: int| 0 <= j < k implies #[trigger] route.steps[j].effective_name(j as nat)
        != s.effective_name(k as nat) by {
        if route.steps[j].effective_name(j as nat) == s.effective_name(k as nat) {
            assert(name_taken(route.steps, k));
        }
    }
}

/// While there is no secret, loopback is off: a configuration with a loopback step,
/// whatever its type, is refused.
pub proof fn law_loopback_needs_a_secret(cfg: ConfigV, env: SurroundingsV, i: int, k: int)
    requires
        0 <= i < cfg.routes.len(),
        0 <= k < cfg.routes[i].steps.len(),
        cfg.routes[i].steps[k].mode == UrlMode::Loopback,
        cfg.gateway.loopback_secret.len() == 0,
    ensures
        config_problem(cfg, env) is Some,
{
    if config_problem(cfg, env) is None {
        law_accepted_steps_are_safe(cfg, env, i, k);
    }
}

/// A translating route of an accepted configuration goes from one known dialect to
/// another, reads requests in the dialect that it translates from, and has no step
/// that translation would skip: none on the stream, none in loopback.
pub proof fn law_accepted_translation_skips_no_step(cfg: ConfigV, env: SurroundingsV, i: int)
    requires
        config_problem(cfg, env) is None,
        0 <= i < cfg.routes.len(),
        cfg.routes[i].translate is Some,
    ensures
        ({
            let route = cfg.routes[i];
            let t = route.translate->Some_0;
            &&& known_provider(t.from) && known_provider(t.to) && t.from != t.to
            &&& route.adapter matches Some(a) ==> (a.ingress matches Some(name) ==> name == t.from)
            &&& t.model matches Some(model) ==> env.models.find(t.to, model) is Some
            &&& forall|k: int|
                0 <= k < route.steps.len() ==> (#[trigger] route.steps[k]).hook != Hook::OnStream
                    && route.steps[k].mode != UrlMode::Loopback
        }),
{
    let route = cfg.routes[i];
    lemma_no_route_problem(cfg, cfg.routes.len(), env, i);
    assert forall|k: int| 0 <= k < route.steps.len() implies (#[trigger] route.steps[k]).hook
        != Hook::OnStream && route.steps[k].mode != UrlMode::Loopback by {
        if route.steps[k].hook == Hook::OnStream {
            assert(has_hook(route.steps, Hook::OnStream));
        }
        if route.steps[k].mode == UrlMode::Loopback {
            assert(has_loopback(route.steps));
        }
    }
}

/// The listeners of an accepted configuration serve only routes that there are, on
/// addresses that neither another listener nor the admin endpoint has.
pub proof fn law_accepted_listeners_are_distinct(cfg: ConfigV, env: SurroundingsV, i: int)
    requires
        config_problem(cfg, env) is None,
        0 <= i < cfg.gateways.len(),
    ensures
        ({
            let gw = cfg.gateways[i];
            &&& gw.routes.len() > 0
            &&& forall|k: int|
                0 <= k < gw.routes.len() ==> defines_route(cfg.routes, #[trigger] gw.routes[k])
            &&& cfg.gateway.admin_listen.len() > 0 ==> gw.listen != cfg.gateway.admin_listen
            &&& forall|j: int|
                0 <= j < i ==> (#[trigger] cfg.gateways[j]).name != gw.name && cfg.gateways[j].listen
                    != gw.listen
        }),
{
    let gw = cfg.gateways[i];
    lemma_no_listener_problem(cfg, cfg.gateways.len(), i);
    assert forall|k: int| 0 <= k < gw.routes.len() implies defines_route(
        cfg.routes,
        #[trigger] gw.routes[k],
    ) by {
        lemma_all_defined(cfg, gw, gw.routes.len(), k);
    }
    assert forall|j: int| 0 <= j < i implies (#[trigger] cfg.gateways[j]).name != gw.name
        && cfg.gateways[j].listen != gw.listen by {
        if cfg.gateways[j].name == gw.name {
            assert(gateway_name_taken(cfg.gateways, i));
        }
        lemma_no_same_listen(cfg.gateways, i, i as nat, j);
    }
}

/// Whether a file of that name holds configuration: a name before `.toml`.
pub open spec fn toml_stem(file_name: Seq<char>) -> Option<Seq<char>> {
    let n = file_name.len() - 5;
    if n > 0 && file_name.skip(n) == ".toml"@ {
        Some(file_name.take(n))
    } else {
        None
    }
}

/// The name of a configuration file without `.toml`; nothing for other files.
pub fn config_stem(file_name: &str) -> (r: Option<String>)
    ensures
        opt_view(r) == toml_stem(file_name@),
{
    let n = file_name.unicode_len();
    if n > 5 && same(file_name.substring_char(n - 5, n), ".toml") {
        assert(file_name@.skip(n - 5) == file_name@.subrange(n - 5, n as int));
        assert(file_name@.take(n - 5) == file_name@.subrange(0, n - 5));
        Some(file_name.substring_char(0, n - 5).to_owned())
    } else {
        assert(n > 5 ==> file_name@.skip(n - 5) == file_name@.subrange(n - 5, n as int));
        None
    }
}

/// A file of routes: its name, its path for messages, and what reading it gave.
#[derive(PartialEq, Debug)]
pub struct RouteFile {
    pub file_name: String,
    pub path: String,
    pub routes: Result<Vec<Route>, ConfigError>,
}

#[verifier::ext_equal]
pub struct RouteFileV {
    pub file_name: Seq<char>,
    pub path: Seq<char>,
    pub routes: Result<Seq<RouteV>, ConfigErrorV>,
}

impl View for RouteFile {
    type V = RouteFileV;

    open spec fn view(&self) -> RouteFileV {
        RouteFileV {
            file_name: self.file_name@,
            path: self.path@,
            routes: match self.routes {
                Ok(routes) => Ok(views(routes@)),
                Err(e) => Err(e@),
            },
        }
    }
}

/// What a listener's file says: its address and its routes.
#[derive(Clone, PartialEq, Debug)]
pub struct Listener {
    pub listen: String,
    pub routes: Vec<String>,
}

/// A listener's file: its name, and what reading it gave.
#[derive(PartialEq, Debug)]
pub struct ListenerFile {
    pub file_name: String,
    pub listener: Result<Listener, ConfigError>,
}

#[verifier::ext_equal]
pub struct ListenerFileV {
    pub file_name: Seq<char>,
    pub listener: Result<(Seq<char>, Seq<Seq<char>>), ConfigErrorV>,
}

impl View for ListenerFile {
    type V = ListenerFileV;

    open spec fn view(&self) -> ListenerFileV {
        ListenerFileV {
            file_name: self.file_name@,
            listener: match self.listener {
                Ok(l) => Ok((l.listen@, texts(l.routes@))),
                Err(e) => Err(e@),
            },
        }
    }
}

/// A file of a configuration directory as it was found: its name, its path, and its
/// text or why it could not be read.
#[derive(PartialEq, Debug)]
pub struct SourceFile {
    pub file_name: String,
    pub path: String,
    pub text: Result<String, String>,
}

#[verifier::ext_equal]
pub struct SourceFileV {
    pub file_name: Seq<char>,
    pub path: Seq<char>,
    pub text: Result<Seq<char>, Seq<char>>,
}

impl View for SourceFile {
    type V = SourceFileV;

    open spec fn view(&self) -> SourceFileV {
        SourceFileV {
            file_name: self.file_name@,
            path: self.path@,
            text: match self.text {
                Ok(text) => Ok(text@),
                Err(why) => Err(why@),
            },
        }
    }
}

/// Whether files stand in ascending order of their names.
pub open spec fn in_name_order(files: Seq<SourceFile>) -> bool {
    forall|i: int, j: int|
        0 <= i < j < files.len() ==> !precedes(
            (#[trigger] files[j]).file_name@,
            (#[trigger] files[i]).file_name@,
        )
}

/// Puts files into ascending order of their names.
pub fn sort_by_name(files: Vec<SourceFile>) -> (r: Vec<SourceFile>)
    ensures
        r@.to_multiset() == files@.to_multiset(),
        in_name_order(r@),
{
    let ghost given = files@;
    let mut rest = files;
    let mut out: Vec<SourceFile> = Vec::new();
    proof {
        assert(out@ + rest@ == given);
    }
    while rest.len() > 0
        invariant
            in_name_order(out@),
            (out@ + rest@).to_multiset() == given.to_multiset(),
        decreases rest.len(),
    {
        let ghost rest0 = rest@;
        let ghost out0 = out@;
        let f = rest.remove(0);
        let mut k: usize = 0;
        while k < out.len() && !is_before(f.file_name.as_str(), out[k].file_name.as_str())
            invariant
                k <= out.len(),
                forall|j: int| 0 <= j < k ==> !precedes(f.file_name@, (#[trigger] out@[j]).file_name@),
            decreases out.len() - k,
        {
            k += 1;
        }
        let ghost fv = f;
        out.insert(k, f);
        proof {
            let v1 = out@;
            assert forall|i: int, j: int| 0 <= i < j < v1.len() implies !precedes(
                (#[trigger] v1[j]).file_name@,
                (#[trigger] v1[i]).file_name@,
            ) by {
                let i1 = if i < k { i } else { i - 1 };
                let j1 = if j < k { j } else { j - 1 };
                if i == k {
                    assert(v1[j] == out0[j1]);
                    if k < out0.len() && precedes(v1[j].file_name@, fv.file_name@) {
                        assert(precedes(fv.file_name@, out0[k as int].file_name@));
                        lemma_precedes_transitive(
                            out0[j1].file_name@,
                            fv.file_name@,
                            out0[k as int].file_name@,
                        );
                        if j1 == k {
                            lemma_precedes_irreflexive(out0[k as int].file_name@);
                        } else {
                            assert(!precedes(out0[j1].file_name@, out0[k as int].file_name@));
                        }
                    }
                } else if j == k {
                    assert(v1[i] == out0[i1]);
                } else {
                    assert(v1[i] == out0[i1] && v1[j] == out0[j1]);
                }
            }
            assert(rest0 == seq![fv] + rest@);
            lemma_moved(out0, fv, rest@, k as int);
        }
    }
    proof {
        assert(out@ + rest@ == out@);
    }
    out
}

proof fn lemma_moved<T>(out: Seq<T>, f: T, rest: Seq<T>, k: int)
    requires
        0 <= k <= out.len(),
    ensures
        (out.insert(k, f) + rest).to_multiset() == (out + (seq![f] + rest)).to_multiset(),
{
    broadcast use vstd::seq_lib::group_to_multiset_ensures;

    vstd::seq_lib::lemma_multiset_commutative(out.insert(k, f), rest);
    vstd::seq_lib::lemma_multiset_commutative(out, seq![f] + rest);
    vstd::seq_lib::lemma_multiset_commutative(seq![f], rest);
    assert(out.insert(k, f) == out.take(k) + (seq![f] + out.skip(k)));
    vstd::seq_lib::lemma_multiset_commutative(out.take(k), seq![f] + out.skip(k));
    vstd::seq_lib::lemma_multiset_commutative(seq![f], out.skip(k));
    assert(out == out.take(k) + out.skip(k));
    vstd::seq_lib::lemma_multiset_commutative(out.take(k), out.skip(k));
    assert((out.insert(k, f) + rest).to_multiset() =~= (out + (seq![f] + rest)).to_multiset());
}

/// A route with the path of the file that it came from.
#[verifier::ext_equal]
pub struct Origin {
    pub route: RouteV,
    pub path: Seq<char>,
}

/// The path of the first route with an id.
pub open spec fn origin_of(found: Seq<Origin>, id: Seq<char>) -> Option<Seq<char>>
    decreases found.len(),
{
    if found.len() == 0 {
        None
    } else {
        match origin_of(found.drop_last(), id) {
            Some(path) => Some(path),
            None => if found.last().route.id == id {
                Some(found.last().path)
            } else {
                None
            },
        }
    }
}

/// The message on an id that two files define.
pub open spec fn defined_twice(id: Seq<char>, first: Seq<char>, second: Seq<char>) -> Seq<char> {
    "duplicate route id '"@ + id + "' defined in both "@ + first + " and "@ + second
        + " (route ids must be globally unique)"@
}

/// The routes found so far with the first `n` of a file's, unless one has an id
/// that was found before.
pub open spec fn add_routes(
    found: Seq<Origin>,
    routes: Seq<RouteV>,
    path: Seq<char>,
    n: nat,
) -> Result<Seq<Origin>, ConfigErrorV>
    decreases n,
{
    if n == 0 {
        Ok(found)
    } else {
        match add_routes(found, routes, path, (n - 1) as nat) {
            Err(e) => Err(e),
            Ok(now) => {
                let route = routes[n - 1];
                match origin_of(now, route.id) {
                    Some(first) => Err(
                        ConfigErrorV::Invalid(defined_twice(route.id, first, path)),
                    ),
                    None => Ok(now.push(Origin { route, path })),
                }
            },
        }
    }
}

/// The routes of the first `n` files in order, unless a file could not be read or
/// an id is defined twice.
pub open spec fn merged(files: Seq<RouteFileV>, n: nat) -> Result<Seq<Origin>, ConfigErrorV>
    decreases n,
{
    if n == 0 {
        Ok(Seq::empty())
    } else {
        match merged(files, (n - 1) as nat) {
            Err(e) => Err(e),
            Ok(found) => match files[n - 1].routes {
                Err(e) => Err(e),
                Ok(routes) => add_routes(found, routes, files[n - 1].path, routes.len()),
            },
        }
    }
}

proof fn lemma_add_routes_fails(
    found: Seq<Origin>,
    routes: Seq<RouteV>,
    path: Seq<char>,
    k: nat,
    n: nat,
)
    requires
        k <= n,
        add_routes(found, routes, path, k) is Err,
    ensures
        add_routes(found, routes, path, n) == add_routes(found, routes, path, k),
    decreases n,
{
    if k < n {
        lemma_add_routes_fails(found, routes, path, k, (n - 1) as nat);
    }
}

proof fn lemma_merged_fails(files: Seq<RouteFileV>, k: nat, n: nat)
    requires
        k <= n,
        merged(files, k) is Err,
    ensures
        merged(files, n) == merged(files, k),
    decreases n,
{
    if k < n {
        lemma_merged_fails(files, k, (n - 1) as nat);
    }
}

/// What has been found, from the routes and paths that hold it.
pub open spec fn origins(routes: Seq<RouteV>, paths: Seq<Seq<char>>) -> Seq<Origin> {
    Seq::new(routes.len(), |i: int| Origin { route: routes[i], path: paths[i] })
}

fn find_origin(routes: &Vec<Route>, paths: &Vec<String>, id: &str) -> (r: Option<String>)
    requires
        routes@.len() == paths@.len(),
    ensures
        opt_view(r) == origin_of(origins(views(routes@), texts(paths@)), id@),
{
    let ghost all = origins(views(routes@), texts(paths@));
    assert(all.take(0) == Seq::<Origin>::empty());
    let mut i: usize = 0;
    while i < routes.len()
        invariant
            i <= routes.len(),
            routes@.len() == paths@.len(),
            all == origins(views(routes@), texts(paths@)),
            origin_of(all.take(i as int), id@) is None,
        decreases routes.len() - i,
    {
        assert(all.take(i + 1).drop_last() == all.take(i as int));
        assert(all.take(i + 1).last() == Origin {
            route: routes@[i as int]@,
            path: paths@[i as int]@,
        });
        if same(routes[i].id.as_str(), id) {
            proof {
                lemma_origin_stays(all, id@, (i + 1) as nat, all.len());
                assert(all.take(all.len() as int) == all);
            }
            return Some(paths[i].clone());
        }
        i += 1;
    }
    assert(all.take(i as int) == all);
    None
}

proof fn lemma_origin_stays(all: Seq<Origin>, id: Seq<char>, k: nat, n: nat)
    requires
        k <= n <= all.len(),
        origin_of(all.take(k as int), id) is Some,
    ensures
        origin_of(all.take(n as int), id) == origin_of(all.take(k as int), id),
    decreases n,
{
    if k < n {
        lemma_origin_stays(all, id, k, (n - 1) as nat);
        assert(all.take(n as int).drop_last() == all.take(n - 1));
    }
}

/// Merges the routes of the files, in the order given.
pub fn merge_routes(given: Vec<RouteFile>) -> (r: Result<Vec<Route>, ConfigError>)
    ensures
        match r {
            Ok(routes) => merged(views(given@), given@.len()) matches Ok(found) && views(routes@)
                == found.map_values(|o: Origin| o.route),
            Err(e) => merged(views(given@), given@.len()) == Err::<Seq<Origin>, ConfigErrorV>(e@),
        },
{
    let ghost all = views(given@);
    let mut files = given;
    let ghost mut done: nat = 0;
    let mut routes: Vec<Route> = Vec::new();
    let mut paths: Vec<String> = Vec::new();
    proof {
        assert(origins(views(routes@), texts(paths@)) == Seq::<Origin>::empty());
    }
    while files.len() > 0
        invariant
            all == views(given@),
            done + files@.len() == all.len(),
            forall|k: int| 0 <= k < files@.len() ==> (#[trigger] files@[k])@ == all[done + k],
            routes@.len() == paths@.len(),
            merged(all, done) == Ok::<Seq<Origin>, ConfigErrorV>(
                origins(views(routes@), texts(paths@)),
            ),
        decreases files.len(),
    {
        let ghost files0 = files@;
        let f = files.remove(0);
        assert(f@ == all[done as int]);
        assert forall|k: int| 0 <= k < files@.len() implies (#[trigger] files@[k])@ == all[done + 1
            + k] by {
            assert(files@[k] == files0[k + 1]);
        }
        let RouteFile { file_name: _, path, routes: parsed } = f;
        match parsed {
            Err(e) => {
                proof {
                    lemma_merged_fails(all, (done + 1) as nat, all.len());
                }
                return Err(e);
            },
            Ok(new_routes) => {
                let ghost new_v = views(new_routes@);
                let ghost found = origins(views(routes@), texts(paths@));
                let mut new_routes = new_routes;
                let ghost mut added: nat = 0;
                while new_routes.len() > 0
                    invariant
                        all == views(given@),
                        done < all.len(),
                        all[done as int].routes == Ok::<Seq<RouteV>, ConfigErrorV>(new_v),
                        all[done as int].path == path@,
                        merged(all, done) == Ok::<Seq<Origin>, ConfigErrorV>(found),
                        added + new_routes@.len() == new_v.len(),
                        forall|k: int|
                            0 <= k < new_routes@.len() ==> (#[trigger] new_routes@[k])@
                                == new_v[added + k],
                        routes@.len() == paths@.len(),
                        add_routes(found, new_v, path@, added) == Ok::<Seq<Origin>, ConfigErrorV>(
                            origins(views(routes@), texts(paths@)),
                        ),
                    decreases new_routes.len(),
                {
                    let ghost rest0 = new_routes@;
                    let route = new_routes.remove(0);
                    assert(route@ == new_v[added as int]);
                    assert forall|k: int| 0 <= k < new_routes@.len() implies (
                    #[trigger] new_routes@[k])@ == new_v[added + 1 + k] by {
                        assert(new_routes@[k] == rest0[k + 1]);
                    }
                    if let Some(other) = find_origin(&routes, &paths, route.id.as_str()) {
                        proof {
                            lemma_add_routes_fails(
                                found,
                                new_v,
                                path@,
                                (added + 1) as nat,
                                new_v.len(),
                            );
                            lemma_merged_fails(all, (done + 1) as nat, all.len());
                        }
                        return Err(
                            ConfigError::Invalid(
                                concat7(
                                    "duplicate route id '",
                                    route.id.as_str(),
                                    "' defined in both ",
                                    other.as_str(),
                                    " and ",
                                    path.as_str(),
                                    " (route ids must be globally unique)",
                                ),
                            ),
                        );
                    }
                    let ghost before = origins(views(routes@), texts(paths@));
                    let ghost route_v = route@;
                    routes.push(route);
                    paths.push(path.clone());
                    proof {
                        assert(origins(views(routes@), texts(paths@)) == before.push(
                            Origin { route: route_v, path: path@ },
                        ));
                        added = added + 1;
                    }
                }
                proof {
                    done = done + 1;
                }
            },
        }
    }
    proof {
        let found = origins(views(routes@), texts(paths@));
        assert(views(routes@) == found.map_values(|o: Origin| o.route));
    }
    Ok(routes)
}

/// The name of a listener: its file's, without `.toml`.
pub open spec fn listener_name(file_name: Seq<char>) -> Seq<char> {
    match toml_stem(file_name) {
        Some(stem) => stem,
        None => file_name,
    }
}

/// The listeners of the first `n` files in order, unless one could not be read.
pub open spec fn listeners_of(files: Seq<ListenerFileV>, n: nat) -> Result<
    Seq<GatewayDefV>,
    ConfigErrorV,
>
    decreases n,
{
    if n == 0 {
        Ok(Seq::empty())
    } else {
        match listeners_of(files, (n - 1) as nat) {
            Err(e) => Err(e),
            Ok(before) => match files[n - 1].listener {
                Err(e) => Err(e),
                Ok(l) => Ok(
                    before.push(
                        GatewayDefV {
                            name: listener_name(files[n - 1].file_name),
                            listen: l.0,
                            routes: l.1,
                        },
                    ),
                ),
            },
        }
    }
}

proof fn lemma_listeners_of_fails(files: Seq<ListenerFileV>, k: nat, n: nat)
    requires
        k <= n,
        listeners_of(files, k) is Err,
    ensures
        listeners_of(files, n) == listeners_of(files, k),
    decreases n,
{
    if k < n {
        lemma_listeners_of_fails(files, k, (n - 1) as nat);
    }
}

/// Names the listeners of the files, in the order given.
pub fn name_listeners(given: Vec<ListenerFile>) -> (r: Result<Vec<GatewayDef>, ConfigError>)
    ensures
        match r {
            Ok(defs) => listeners_of(views(given@), given@.len()) == Ok::<
                Seq<GatewayDefV>,
                ConfigErrorV,
            >(views(defs@)),
            Err(e) => listeners_of(views(given@), given@.len()) == Err::<
                Seq<GatewayDefV>,
                ConfigErrorV,
            >(e@),
        },
{
    let ghost all = views(given@);
    let mut files = given;
    let ghost mut done: nat = 0;
    let mut out: Vec<GatewayDef> = Vec::new();
    proof {
        assert(views(out@) == Seq::<GatewayDefV>::empty());
    }
    while files.len() > 0
        invariant
            all == views(given@),
            done + files@.len() == all.len(),
            forall|k: int| 0 <= k < files@.len() ==> (#[trigger] files@[k])@ == all[done + k],
            listeners_of(all, done) == Ok::<Seq<GatewayDefV>, ConfigErrorV>(views(out@)),
        decreases files.len(),
    {
        let ghost files0 = files@;
        let ghost out0 = views(out@);
        let f = files.remove(0);
        assert(f@ == all[done as int]);
        assert forall|k: int| 0 <= k < files@.len() implies (#[trigger] files@[k])@ == all[done + 1
            + k] by {
            assert(files@[k] == files0[k + 1]);
        }
        let name = match config_stem(f.file_name.as_str()) {
            Some(stem) => stem,
            None => f.file_name.clone(),
        };
        match f.listener {
            Err(e) => {
                proof {
                    lemma_listeners_of_fails(all, (done + 1) as nat, all.len());
                }
                return Err(e);
            },
            Ok(l) => {
                let def = GatewayDef { name, listen: l.listen, routes: l.routes };
                let ghost def_v = def@;
                out.push(def);
                proof {
                    assert(views(out@) == out0.push(def_v));
                    done = done + 1;
                }
            },
        }
    }
    Ok(out)
}

/// The configuration of a directory, from its files in order.
pub open spec fn dir_config(
    gateway: GatewayV,
    routes: Seq<RouteFileV>,
    listeners: Seq<ListenerFileV>,
) -> Result<ConfigV, ConfigErrorV> {
    match merged(routes, routes.len()) {
        Err(e) => Err(e),
        Ok(found) => match listeners_of(listeners, listeners.len()) {
            Err(e) => Err(e),
            Ok(gateways) => Ok(
                ConfigV {
                    gateway,
                    routes: found.map_values(|o: Origin| o.route),
                    gateways,
                },
            ),
        },
    }
}

/// A configuration that was read, or the error.
pub open spec fn config_view(r: Result<Config, ConfigError>) -> Result<ConfigV, ConfigErrorV> {
    match r {
        Ok(cfg) => Ok(cfg@),
        Err(e) => Err(e@),
    }
}

/// One bad file fails the load of the whole directory: no part of a configuration is
/// ever taken.
pub proof fn law_bad_file_fails_the_load(
    gateway: GatewayV,
    routes: Seq<RouteFileV>,
    listeners: Seq<ListenerFileV>,
    i: int,
)
    requires
        (0 <= i < routes.len() && routes[i].routes is Err) || (0 <= i < listeners.len()
            && listeners[i].listener is Err),
    ensures
        dir_config(gateway, routes, listeners) is Err,
{
    if 0 <= i < routes.len() && routes[i].routes is Err {
        assert(merged(routes, (i + 1) as nat) is Err);
        lemma_merged_fails(routes, (i + 1) as nat, routes.len());
    } else {
        assert(listeners_of(listeners, (i + 1) as nat) is Err);
        lemma_listeners_of_fails(listeners, (i + 1) as nat, listeners.len());
    }
}

/// Whether files are some others put into ascending order of their names.
pub open spec fn name_ordered(ordered: Seq<SourceFile>, given: Seq<SourceFile>) -> bool {
    ordered.to_multiset() == given.to_multiset() && in_name_order(ordered)
}

/// Puts the configuration of a directory together from its files in order. The
/// result has still to be checked.
pub fn assemble(
    gateway: Gateway,
    routes: Vec<RouteFile>,
    listeners: Vec<ListenerFile>,
) -> (r: Result<Config, ConfigError>)
    ensures
        config_view(r) == dir_config(gateway@, views(routes@), views(listeners@)),
{
    let merged_routes = match merge_routes(routes) {
        Ok(routes) => routes,
        Err(e) => {
            return Err(e);
        },
    };
    let gateways = match name_listeners(listeners) {
        Ok(gateways) => gateways,
        Err(e) => {
            return Err(e);
        },
    };
    Ok(Config { gateway, routes: merged_routes, gateways })
}

/// Whether a step's command has to be looked up as a file.
pub open spec fn looks_up(s: StepV, path: Seq<char>) -> bool {
    s.type_ == StepType::Script && s.cmd.len() > 0 && s.cmd[0] == path && names_path(path)
}

/// Whether a step's module has to be compiled.
pub open spec fn compiles(s: StepV, path: Seq<char>) -> bool {
    s.type_ == StepType::Wasm && s.wasm == Some(path)
}

/// Whether some step of the configuration looks a path up.
pub open spec fn some_looks_up(cfg: ConfigV, path: Seq<char>) -> bool {
    exists|i: int, k: int|
        0 <= i < cfg.routes.len() && 0 <= k < cfg.routes[i].steps.len() && #[trigger] looks_up(
            cfg.routes[i].steps[k],
            path,
        )
}

/// Whether some step of the configuration compiles a module.
pub open spec fn some_compiles(cfg: ConfigV, path: Seq<char>) -> bool {
    exists|i: int, k: int|
        0 <= i < cfg.routes.len() && 0 <= k < cfg.routes[i].steps.len() && #[trigger] compiles(
            cfg.routes[i].steps[k],
            path,
        )
}

/// The command paths that checking the configuration has to look up, and the
/// modules that it has to compile.
pub fn paths_to_check(cfg: &Config) -> (r: (Vec<String>, Vec<String>))
    ensures
        forall|p: Seq<char>| some_looks_up(cfg@, p) ==> #[trigger] texts(r.0@).contains(p),
        forall|p: Seq<char>| #[trigger] texts(r.0@).contains(p) ==> some_looks_up(cfg@, p),
        forall|p: Seq<char>| some_compiles(cfg@, p) ==> #[trigger] texts(r.1@).contains(p),
        forall|p: Seq<char>| #[trigger] texts(r.1@).contains(p) ==> some_compiles(cfg@, p),
{
    let mut files: Vec<String> = Vec::new();
    let mut modules: Vec<String> = Vec::new();
    let ghost c = cfg@;
    let mut i: usize = 0;
    while i < cfg.routes.len()
        invariant
            i <= cfg.routes.len(),
            c == cfg@,
            forall|p: Seq<char>| #[trigger] texts(files@).contains(p) ==> some_looks_up(c, p),
            forall|p: Seq<char>| #[trigger] texts(modules@).contains(p) ==> some_compiles(c, p),
            forall|a: int, b: int, p: Seq<char>|
                0 <= a < i && 0 <= b < c.routes[a].steps.len() && #[trigger] looks_up(
                    c.routes[a].steps[b],
                    p,
                ) ==> texts(files@).contains(p),
            forall|a: int, b: int, p: Seq<char>|
                0 <= a < i && 0 <= b < c.routes[a].steps.len() && #[trigger] compiles(
                    c.routes[a].steps[b],
                    p,
                ) ==> texts(modules@).contains(p),
        decreases cfg.routes.len() - i,
    {
        let route = &cfg.routes[i];
        assert(c.routes[i as int] == route@);
        let mut k: usize = 0;
        while k < route.steps.len()
            invariant
                i < cfg.routes.len(),
                k <= route.steps.len(),
                c == cfg@,
                c.routes[i as int] == route@,
                forall|p: Seq<char>| #[trigger] texts(files@).contains(p) ==> some_looks_up(c, p),
                forall|p: Seq<char>| #[trigger] texts(modules@).contains(p) ==> some_compiles(c, p),
                forall|a: int, b: int, p: Seq<char>|
                    0 <= a < i && 0 <= b < c.routes[a].steps.len() && #[trigger] looks_up(
                        c.routes[a].steps[b],
                        p,
                    ) ==> texts(files@).contains(p),
                forall|a: int, b: int, p: Seq<char>|
                    0 <= a < i && 0 <= b < c.routes[a].steps.len() && #[trigger] compiles(
                        c.routes[a].steps[b],
                        p,
                    ) ==> texts(modules@).contains(p),
                forall|b: int, p: Seq<char>|
                    0 <= b < k && #[trigger] looks_up(c.routes[i as int].steps[b], p) ==> texts(
                        files@,
                    ).contains(p),
                forall|b: int, p: Seq<char>|
                    0 <= b < k && #[trigger] compiles(c.routes[i as int].steps[b], p) ==> texts(
                        modules@,
                    ).contains(p),
            decreases route.steps.len() - k,
        {
            let s = &route.steps[k];
            let ghost sv = c.routes[i as int].steps[k as int];
            assert(sv == s@);
            let ghost files0 = texts(files@);
            let ghost modules0 = texts(modules@);
            if s.type_ == StepType::Script && s.cmd.len() > 0 {
                let bin = s.cmd[0].as_str();
                assert(sv.cmd[0] == bin@);
                if has_char(bin, '/') || has_char(bin, '\\') {
                    files.push(bin.to_owned());
                    proof {
                        assert(looks_up(sv, bin@));
                        assert(texts(files@) == files0.push(bin@));
                        lemma_push_contains(files0, bin@);
                    }
                }
            }
            if s.type_ == StepType::Wasm {
                if let Some(path) = &s.wasm {
                    modules.push(path.clone());
                    proof {
                        assert(compiles(sv, path@));
                        assert(texts(modules@) == modules0.push(path@));
                        lemma_push_contains(modules0, path@);
                    }
                }
            }
            k += 1;
        }
        i += 1;
    }
    (files, modules)
}

proof fn lemma_push_contains(s: Seq<Seq<char>>, x: Seq<char>)
    ensures
        forall|p: Seq<char>| #[trigger] s.push(x).contains(p) <==> (s.contains(p) || p == x),
{
    assert forall|p: Seq<char>| #[trigger] s.push(x).contains(p) <==> (s.contains(p) || p == x) by {
        if s.contains(p) {
            let i = choose|i: int| 0 <= i < s.len() && s[i] == p;
            assert(s.push(x)[i] == p);
        }
        if p == x {
            assert(s.push(x)[s.len() as int] == p);
        }
    }
}

} // verus!
