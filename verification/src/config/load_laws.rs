//! Which configurations are accepted, and what the others are told.

use vstd::prelude::*;

use crate::config::load::{
    adapter_problem, add_routes, compiles, looks_up, some_compiles, some_looks_up, config_problem, dir_config, gateway_problem, guardrail_problem, has_hook, has_loopback,
    has_stream_mode, hooks_problem, listener_problem, listeners_of, listeners_problem, merged, module_error, origin_of,
    route_problem, routes_problem, same_listen, script_problem, secret_problem, step_problem, steps_problem, toml_stem,
    translate_problem, undefined_route, url_problem, wasm_problem, ConfigErrorV, ListenerFileV, ModuleCheckV, Origin,
    RouteFileV, SurroundingsV,
};
use crate::config::{
    ChunkMode, ConfigV, GatewayDefV, GatewayV, Hook, RouteAdapterV, RouteV, StepType, StepV, TranslateV, UrlMode,
};
use crate::text::decimal;

verus! {

/// The settings that are refused, in the order in which that is told.
pub proof fn law_settings_are_checked(cfg: ConfigV)
    ensures
        (cfg.gateway.schema_version != 1)
            ==> gateway_problem(cfg) == Some(
                "unsupported schema_version "@ + decimal(cfg.gateway.schema_version as nat)
            + ": this build supports major version 1"@),
        !(cfg.gateway.schema_version != 1) && (cfg.gateway.max_response_bytes == Some(0usize))
            ==> gateway_problem(cfg) == Some("max_response_bytes must be >= 1 (0 would reject every response body)"@),
        !(cfg.gateway.schema_version != 1) && !(cfg.gateway.max_response_bytes == Some(0usize))
            && (cfg.gateway.max_inflight == 0)
            ==> gateway_problem(cfg) == Some("max_inflight must be >= 1"@),
        !(cfg.gateway.schema_version != 1) && !(cfg.gateway.max_response_bytes == Some(0usize))
            && !(cfg.gateway.max_inflight == 0) && (cfg.gateway.max_event_bytes == Some(0usize))
            ==> gateway_problem(cfg) == Some("max_event_bytes must be >= 1 (0 would reject every SSE event)"@),
        !(cfg.gateway.schema_version != 1) && !(cfg.gateway.max_response_bytes == Some(0usize))
            && !(cfg.gateway.max_inflight == 0) && !(cfg.gateway.max_event_bytes == Some(0usize))
            && (cfg.gateway.admin_listen.len() > 0 && cfg.gateway.admin_listen == cfg.gateway.listen)
            ==> gateway_problem(cfg) == Some("admin_listen must differ from listen"@),
        !(cfg.gateway.schema_version != 1) && !(cfg.gateway.max_response_bytes == Some(0usize))
            && !(cfg.gateway.max_inflight == 0) && !(cfg.gateway.max_event_bytes == Some(0usize))
            && !(cfg.gateway.admin_listen.len() > 0 && cfg.gateway.admin_listen == cfg.gateway.listen)
            && (cfg.routes.len() == 0)
            ==> gateway_problem(cfg) == Some("configuration defines no routes; at least one [[route]] is required"@),
        !(cfg.gateway.schema_version != 1) && !(cfg.gateway.max_response_bytes == Some(0usize))
            && !(cfg.gateway.max_inflight == 0) && !(cfg.gateway.max_event_bytes == Some(0usize))
            && !(cfg.gateway.admin_listen.len() > 0 && cfg.gateway.admin_listen == cfg.gateway.listen)
            && !(cfg.routes.len() == 0)
            ==> gateway_problem(cfg) is None,
{
}

/// The dialects that there are.
pub open spec fn is_dialect(name: Seq<char>) -> bool {
    name == "anthropic"@ || name == "openai"@ || name == "google"@
}

/// What is told of a dialect that there is not.
pub open spec fn no_such_dialect(id: Seq<char>, field: Seq<char>, name: Seq<char>) -> Seq<char> {
    "route '"@ + id + "' has unknown "@ + field + " '"@ + name + "' (known: "@ + "anthropic, openai, google"@ + ")"@
}

/// The dialects of a route must exist, and the two must be the same.
pub proof fn law_dialects_are_checked(id: Seq<char>, a: RouteAdapterV)
    ensures
        (a.ingress is Some && !is_dialect(a.ingress->Some_0))
            ==> adapter_problem(id, a) == Some(no_such_dialect(id, "adapter.ingress"@, a.ingress->Some_0)),
        !(a.ingress is Some && !is_dialect(a.ingress->Some_0)) && (a.egress is Some && !is_dialect(a.egress->Some_0))
            ==> adapter_problem(id, a) == Some(no_such_dialect(id, "adapter.egress"@, a.egress->Some_0)),
        !(a.ingress is Some && !is_dialect(a.ingress->Some_0)) && !(a.egress is Some && !is_dialect(a.egress->Some_0))
            && (a.egress is Some && a.ingress != a.egress)
            ==> adapter_problem(id, a) == Some(
                "route '"@ + id + "': cross-provider egress translation is not supported yet"@,
            ),
        !(a.ingress is Some && !is_dialect(a.ingress->Some_0)) && !(a.egress is Some && !is_dialect(a.egress->Some_0))
            && !(a.egress is Some && a.ingress != a.egress)
            ==> adapter_problem(id, a) is None,
{
}

/// Whether some step of a route passes a test.
pub open spec fn some_step(route: RouteV, holds: spec_fn(StepV) -> bool) -> bool {
    exists|k: int| 0 <= k < route.steps.len() && holds(#[trigger] route.steps[k])
}

/// A translation goes from one dialect to another, agrees with the route's own
/// dialect, names a model that is known, and has no loopback beside it.
pub proof fn law_translations_are_checked(route: RouteV, t: TranslateV, env: SurroundingsV)
    ensures
        (!is_dialect(t.from))
            ==> translate_problem(route, t, env) == Some(no_such_dialect(route.id, "translate.from"@, t.from)),
        !(!is_dialect(t.from)) && (!is_dialect(t.to))
            ==> translate_problem(route, t, env) == Some(no_such_dialect(route.id, "translate.to"@, t.to)),
        !(!is_dialect(t.from)) && !(!is_dialect(t.to)) && (t.from == t.to)
            ==> translate_problem(route, t, env) == Some(
                "route '"@ + route.id + "': translate.from and translate.to are both '"@ + t.from
            + "' (a translate that doesn't translate is a config error)"@),
        !(!is_dialect(t.from)) && !(!is_dialect(t.to)) && !(t.from == t.to) && (route.adapter is Some
            && route.adapter->Some_0.ingress is Some && route.adapter->Some_0.ingress->Some_0 != t.from)
            ==> translate_problem(route, t, env) == Some(
                "route '"@ + route.id + "': adapter.ingress '"@ + route.adapter->Some_0.ingress->Some_0
            + "' and translate.from '"@ + t.from
            + "' must match (the llm view uses adapter.ingress, so a mismatch silently disables request-side guardrails)"@),
        !(!is_dialect(t.from)) && !(!is_dialect(t.to)) && !(t.from == t.to) && !(route.adapter is Some
            && route.adapter->Some_0.ingress is Some && route.adapter->Some_0.ingress->Some_0 != t.from)
            && (t.model is Some && env.models.find(t.to, t.model->Some_0) is None)
            ==> translate_problem(route, t, env) == Some(
                "route '"@ + route.id + "': translate.model '"@ + t.model->Some_0
            + "' is not a known model for provider '"@ + t.to + "' (translate.to)"@),
        !(!is_dialect(t.from)) && !(!is_dialect(t.to)) && !(t.from == t.to) && !(route.adapter is Some
            && route.adapter->Some_0.ingress is Some && route.adapter->Some_0.ingress->Some_0 != t.from)
            && !(t.model is Some && env.models.find(t.to, t.model->Some_0) is None)
            && (some_step(route, |s: StepV| s.mode is Loopback))
            ==> translate_problem(route, t, env) == Some("route '"@ + route.id
            + "': translate cannot be combined with a mode=loopback step (the loopback interaction is out of scope)"@),
        !(!is_dialect(t.from)) && !(!is_dialect(t.to)) && !(t.from == t.to) && !(route.adapter is Some
            && route.adapter->Some_0.ingress is Some && route.adapter->Some_0.ingress->Some_0 != t.from)
            && !(t.model is Some && env.models.find(t.to, t.model->Some_0) is None)
            && !(some_step(route, |s: StepV| s.mode is Loopback))
            ==> translate_problem(route, t, env) is None,
{
    let f = |s: StepV| s.mode is Loopback;
    if some_step(route, f) {
        let k = choose|k: int| 0 <= k < route.steps.len() && f(#[trigger] route.steps[k]);
        assert(route.steps[k].mode == UrlMode::Loopback);
        assert(has_loopback(route.steps));
    }
    if has_loopback(route.steps) {
        let k = choose|k: int| 0 <= k < route.steps.len() && (#[trigger] route.steps[k]).mode == UrlMode::Loopback;
        assert(f(route.steps[k]));
    }
}

/// What is told of a step.
pub open spec fn of_step(id: Seq<char>, name: Seq<char>, text: Seq<char>) -> Seq<char> {
    "route '"@ + id + "' step '"@ + name + text
}

/// The error that the check of a module gave: that of the first check of its path.
pub proof fn law_modules_are_looked_up(modules: Seq<ModuleCheckV>, path: Seq<char>, i: int)
    ensures
        0 <= i < modules.len() && modules[i].path == path && (forall|j: int|
            0 <= j < i ==> (#[trigger] modules[j]).path != path) ==> module_error(modules, path) == modules[i].error,
        (forall|j: int| 0 <= j < modules.len() ==> (#[trigger] modules[j]).path != path) ==> module_error(modules, path)
            == Some("module was not checked"@),
    decreases modules.len(),
{
    if modules.len() > 0 {
        let rest = modules.drop_first();
        law_modules_are_looked_up(rest, path, i - 1);
        assert forall|j: int| 0 <= j < rest.len() implies #[trigger] rest[j] == modules[j + 1] by {}
    }
}

/// A step of each kind has what that kind needs, and runs where that kind can.
pub proof fn law_kinds_of_steps_are_checked(
    g: GatewayV,
    id: Seq<char>,
    name: Seq<char>,
    s: StepV,
    env: SurroundingsV,
)
    ensures
        (s.url is None) ==> url_problem(g, id, name, s) == Some(of_step(id, name, "' is type=url but has no url"@)),
        !(s.url is None) && (s.mode is Loopback && g.loopback_secret.len() == 0)
            ==> url_problem(g, id, name, s) == Some(
                of_step(id, name, "': mode=loopback requires a non-empty loopback_secret"@),
            ),
        !(s.url is None) && !(s.mode is Loopback && g.loopback_secret.len() == 0) && (s.mode is Loopback
            && !(s.hook is OnRequest))
            ==> url_problem(g, id, name, s) == Some(
                of_step(id, name, "' uses mode=loopback, which is only supported on hook=on_request"@),
            ),
        !(s.url is None) && !(s.mode is Loopback && g.loopback_secret.len() == 0) && !(s.mode is Loopback
            && !(s.hook is OnRequest))
            ==> url_problem(g, id, name, s) is None,
        (!g.allow_scripts)
            ==> script_problem(g, id, name, s, env) == Some(
                of_step(id, name, "': script steps require allow_scripts = true"@),
            ),
        !(!g.allow_scripts) && (s.cmd.len() == 0)
            ==> script_problem(g, id, name, s, env) == Some(of_step(id, name, "' is type=script but has no cmd"@)),
        !(!g.allow_scripts) && !(s.cmd.len() == 0) && ((s.cmd[0].contains('/') || s.cmd[0].contains('\\'))
            && !env.files.contains(s.cmd[0]))
            ==> script_problem(g, id, name, s, env) == Some(
                of_step(id, name, "': script cmd[0] '"@) + s.cmd[0] + "' does not exist"@,
            ),
        !(!g.allow_scripts) && !(s.cmd.len() == 0) && !((s.cmd[0].contains('/') || s.cmd[0].contains('\\'))
            && !env.files.contains(s.cmd[0])) && (s.hook is OnStream && s.script_mode is Oneshot)
            ==> script_problem(g, id, name, s, env) == Some(
                of_step(id, name, "': script steps are not supported on the on_stream hook yet"@),
            ),
        !(!g.allow_scripts) && !(s.cmd.len() == 0) && !((s.cmd[0].contains('/') || s.cmd[0].contains('\\'))
            && !env.files.contains(s.cmd[0])) && !(s.hook is OnStream && s.script_mode is Oneshot)
            && (s.hook is OnStream && s.script_mode is Worker && !(s.chunk_mode is Mutate))
            ==> script_problem(g, id, name, s, env) == Some(of_step(
            id,
            name,
            "': a worker script on on_stream requires chunk_mode = mutate (an observe-only worker step is never dispatched)"@,
        )),
        !(!g.allow_scripts) && !(s.cmd.len() == 0) && !((s.cmd[0].contains('/') || s.cmd[0].contains('\\'))
            && !env.files.contains(s.cmd[0])) && !(s.hook is OnStream && s.script_mode is Oneshot)
            && !(s.hook is OnStream && s.script_mode is Worker && !(s.chunk_mode is Mutate))
            ==> script_problem(g, id, name, s, env) is None,
        (s.wasm is None)
            ==> wasm_problem(id, name, s, env) == Some(
                of_step(id, name, "' is type=wasm but has no wasm module path"@),
            ),
        !(s.wasm is None) && (s.hook is OnStream)
            ==> wasm_problem(id, name, s, env) == Some(
                of_step(id, name, "': wasm steps are not supported on on_stream yet"@),
            ),
        !(s.wasm is None) && !(s.hook is OnStream) && (module_error(env.modules, s.wasm->Some_0) is Some)
            ==> wasm_problem(id, name, s, env) == Some(
                of_step(id, name, "': wasm module '"@) + s.wasm->Some_0 + "' failed to compile: "@
            + module_error(env.modules, s.wasm->Some_0)->Some_0),
        !(s.wasm is None) && !(s.hook is OnStream) && !(module_error(env.modules, s.wasm->Some_0) is Some)
            ==> wasm_problem(id, name, s, env) is None,
        (s.mode is Loopback && g.loopback_secret.len() == 0)
            ==> secret_problem(g, id, name, s) == Some(
                of_step(id, name, "': mode=loopback requires a non-empty loopback_secret"@),
            ),
        !(s.mode is Loopback && g.loopback_secret.len() == 0) ==> secret_problem(g, id, name, s) is None,
        (s.is_guardrail && s.hook is OnStream && s.chunk_mode is Observe)
            ==> guardrail_problem(id, name, s) == Some(of_step(
            id,
            name,
            "': is_guardrail on hook=on_stream requires chunk_mode = mutate (an observe-only guardrail cannot enforce anything)"@,
        )),
        !(s.is_guardrail && s.hook is OnStream && s.chunk_mode is Observe) && (s.is_guardrail
            && s.on_error is FailOpen)
            ==> guardrail_problem(id, name, s) == Some(of_step(
            id,
            name,
            "': is_guardrail steps cannot use on_error = fail_open (a guardrail must fail closed)"@,
        )),
        !(s.is_guardrail && s.hook is OnStream && s.chunk_mode is Observe) && !(s.is_guardrail
            && s.on_error is FailOpen)
            ==> guardrail_problem(id, name, s) is None,
{
}

/// Whether an earlier step of a route has the same name.
pub open spec fn name_is_taken(route: RouteV, k: int) -> bool {
    exists|j: int|
        0 <= j < k && #[trigger] route.steps[j].effective_name(j as nat) == route.steps[k].effective_name(k as nat)
}

/// A step is told first that its name is taken, then what its kind lacks, then that
/// loopback needs a secret, then what a guardrail must not do.
pub proof fn law_steps_are_checked(g: GatewayV, route: RouteV, k: int, env: SurroundingsV)
    ensures
        ({
            let s = route.steps[k];
            let name = s.effective_name(k as nat);
            let of_kind = match s.type_ {
                StepType::Url => url_problem(g, route.id, name, s),
                StepType::Script => script_problem(g, route.id, name, s, env),
                StepType::Wasm => wasm_problem(route.id, name, s, env),
            };
            let p = step_problem(g, route, k, env);
            if name_is_taken(route, k) {
                p == Some("route '"@ + route.id + "' has duplicate step name '"@ + name + "'"@)
            } else if of_kind is Some {
                p == of_kind
            } else if secret_problem(g, route.id, name, s) is Some {
                p == secret_problem(g, route.id, name, s)
            } else {
                p == guardrail_problem(route.id, name, s)
            }
        }),
{
    assert(name_is_taken(route, k) == crate::config::load::name_taken(route.steps, k));
}

/// The steps of a route are checked one by one: the first that has a problem tells it.
pub proof fn law_every_step_is_checked(g: GatewayV, route: RouteV, n: nat, env: SurroundingsV)
    ensures
        steps_problem(g, route, n, env) is None <==> forall|k: int|
            0 <= k < n ==> #[trigger] step_problem(g, route, k, env) is None,
        steps_problem(g, route, n, env) matches Some(text) ==> exists|k: int|
            0 <= k < n && #[trigger] step_problem(g, route, k, env) == Some(text) && forall|j: int|
                0 <= j < k ==> #[trigger] step_problem(g, route, j, env) is None,
    decreases n,
{
    if n > 0 {
        law_every_step_is_checked(g, route, (n - 1) as nat, env);
        if steps_problem(g, route, (n - 1) as nat, env) is None && steps_problem(g, route, n, env) is Some {
            assert(step_problem(g, route, n - 1, env) == steps_problem(g, route, n, env));
        }
    }
}

/// The steps of a route fit together: none on the stream beside one on the response or
/// a translation, and none that observes beside one that rewrites.
pub proof fn law_hooks_are_checked(route: RouteV)
    ensures
        (some_step(route, |s: StepV| s.hook is OnResponse) && some_step(route, |s: StepV| s.hook is OnStream))
            ==> hooks_problem(route) == Some("route '"@ + route.id
            + "': on_response and on_stream steps cannot be combined on one route yet"@),
        !(some_step(route, |s: StepV| s.hook is OnResponse) && some_step(route, |s: StepV| s.hook is OnStream))
            && (route.translate is Some && some_step(route, |s: StepV| s.hook is OnStream))
            ==> hooks_problem(route) == Some("route '"@ + route.id
            + "': on_stream steps cannot be combined with [route.translate] yet (they would be silently skipped on a translate route); run guardrails on on_request/on_response, or remove translate"@),
        !(some_step(route, |s: StepV| s.hook is OnResponse) && some_step(route, |s: StepV| s.hook is OnStream)) && !(route.translate is Some && some_step(route, |s: StepV| s.hook is OnStream)) && (some_step(route, |s: StepV| s.hook is OnStream && s.chunk_mode is Observe) && some_step(
            route,
            |s: StepV| s.hook is OnStream && s.chunk_mode is Mutate,
        ))
            ==> hooks_problem(route) == Some(
                "route '"@ + route.id + "': a route cannot mix observe and mutate on_stream steps"@,
            ),
        !(some_step(route, |s: StepV| s.hook is OnResponse) && some_step(route, |s: StepV| s.hook is OnStream)) && !(route.translate is Some && some_step(route, |s: StepV| s.hook is OnStream)) && !(some_step(route, |s: StepV| s.hook is OnStream && s.chunk_mode is Observe) && some_step(
            route,
            |s: StepV| s.hook is OnStream && s.chunk_mode is Mutate,
        )) ==> hooks_problem(route) is None,
{
    lemma_hook(route, Hook::OnResponse, |s: StepV| s.hook is OnResponse);
    lemma_hook(route, Hook::OnStream, |s: StepV| s.hook is OnStream);
    lemma_stream_mode(route, ChunkMode::Observe, |s: StepV| s.hook is OnStream && s.chunk_mode is Observe);
    lemma_stream_mode(route, ChunkMode::Mutate, |s: StepV| s.hook is OnStream && s.chunk_mode is Mutate);
}

proof fn lemma_hook(route: RouteV, hook: Hook, f: spec_fn(StepV) -> bool)
    requires
        forall|s: StepV| #[trigger] f(s) <==> s.hook == hook,
    ensures
        has_hook(route.steps, hook) == some_step(route, f),
{
    if some_step(route, f) {
        let k = choose|k: int| 0 <= k < route.steps.len() && f(#[trigger] route.steps[k]);
        assert(route.steps[k].hook == hook);
    }
    if has_hook(route.steps, hook) {
        let k = choose|k: int| 0 <= k < route.steps.len() && (#[trigger] route.steps[k]).hook == hook;
        assert(f(route.steps[k]));
    }
}

proof fn lemma_stream_mode(route: RouteV, mode: ChunkMode, f: spec_fn(StepV) -> bool)
    requires
        forall|s: StepV| #[trigger] f(s) <==> s.hook is OnStream && s.chunk_mode == mode,
    ensures
        has_stream_mode(route.steps, mode) == some_step(route, f),
{
    if some_step(route, f) {
        let k = choose|k: int| 0 <= k < route.steps.len() && f(#[trigger] route.steps[k]);
        assert(route.steps[k].chunk_mode == mode);
    }
    if has_stream_mode(route.steps, mode) {
        let k = choose|k: int|
            0 <= k < route.steps.len() && (#[trigger] route.steps[k]).hook == Hook::OnStream && route.steps[k].chunk_mode
                == mode;
        assert(f(route.steps[k]));
    }
}

/// Whether an earlier route has the same id.
pub open spec fn id_is_taken(cfg: ConfigV, i: int) -> bool {
    exists|j: int| 0 <= j < i && (#[trigger] cfg.routes[j]).id == cfg.routes[i].id
}

/// A route has an id of its own without a slash and an upstream; then its dialects, its
/// translation, its steps and their hooks are checked, in that order.
pub proof fn law_routes_are_checked(cfg: ConfigV, i: int, env: SurroundingsV)
    ensures
        ({
            let route = cfg.routes[i];
            let p = route_problem(cfg, i, env);
            let dialects = match route.adapter {
                Some(a) => adapter_problem(route.id, a),
                None => None,
            };
            let translation = match route.translate {
                Some(t) => translate_problem(route, t, env),
                None => None,
            };
            let steps = steps_problem(cfg.gateway, route, route.steps.len(), env);
            if route.id.len() == 0 {
                p == Some("a route has an empty id"@)
            } else if route.id.contains('/') {
                p == Some("route id '"@ + route.id + "' must not contain '/'"@)
            } else if id_is_taken(cfg, i) {
                p == Some("duplicate route id '"@ + route.id + "' (route ids must be globally unique)"@)
            } else if route.upstream.len() == 0 {
                p == Some("route '"@ + route.id + "' has an empty upstream"@)
            } else if dialects is Some {
                p == dialects
            } else if translation is Some {
                p == translation
            } else if steps is Some {
                p == steps
            } else {
                p == hooks_problem(route)
            }
        }),
{
    assert(id_is_taken(cfg, i) == crate::config::load::id_taken(cfg.routes, i));
}

proof fn lemma_every_route(cfg: ConfigV, n: nat, env: SurroundingsV)
    ensures
        routes_problem(cfg, n, env) is None <==> forall|k: int|
            0 <= k < n ==> #[trigger] route_problem(cfg, k, env) is None,
        routes_problem(cfg, n, env) matches Some(text) ==> exists|k: int|
            0 <= k < n && #[trigger] route_problem(cfg, k, env) == Some(text) && forall|j: int|
                0 <= j < k ==> #[trigger] route_problem(cfg, j, env) is None,
    decreases n,
{
    if n > 0 {
        lemma_every_route(cfg, (n - 1) as nat, env);
        if routes_problem(cfg, (n - 1) as nat, env) is None && routes_problem(cfg, n, env) is Some {
            assert(route_problem(cfg, n - 1, env) == routes_problem(cfg, n, env));
        }
    }
}

proof fn lemma_every_listener(cfg: ConfigV, n: nat)
    ensures
        listeners_problem(cfg, n) is None <==> forall|k: int|
            0 <= k < n ==> #[trigger] listener_problem(cfg, k) is None,
        listeners_problem(cfg, n) matches Some(text) ==> exists|k: int|
            0 <= k < n && #[trigger] listener_problem(cfg, k) == Some(text) && forall|j: int|
                0 <= j < k ==> #[trigger] listener_problem(cfg, j) is None,
    decreases n,
{
    if n > 0 {
        lemma_every_listener(cfg, (n - 1) as nat);
        if listeners_problem(cfg, (n - 1) as nat) is None && listeners_problem(cfg, n) is Some {
            assert(listener_problem(cfg, n - 1) == listeners_problem(cfg, n));
        }
    }
}

/// A configuration is accepted exactly where its settings, every route and every
/// listener are; of one that is not, the first problem is told: that of the settings,
/// else that of the first route that has one, else that of the first listener.
pub proof fn law_configurations_are_checked(cfg: ConfigV, env: SurroundingsV)
    ensures
        config_problem(cfg, env) is None <==> {
            &&& gateway_problem(cfg) is None
            &&& forall|i: int| 0 <= i < cfg.routes.len() ==> #[trigger] route_problem(cfg, i, env) is None
            &&& forall|i: int| 0 <= i < cfg.gateways.len() ==> #[trigger] listener_problem(cfg, i) is None
        },
        gateway_problem(cfg) is Some ==> config_problem(cfg, env) == gateway_problem(cfg),
        gateway_problem(cfg) is None ==> forall|i: int|
            0 <= i < cfg.routes.len() && #[trigger] route_problem(cfg, i, env) is Some && (forall|j: int|
                0 <= j < i ==> #[trigger] route_problem(cfg, j, env) is None) ==> config_problem(cfg, env)
                == route_problem(cfg, i, env),
        gateway_problem(cfg) is None && (forall|i: int|
            0 <= i < cfg.routes.len() ==> #[trigger] route_problem(cfg, i, env) is None) ==> forall|i: int|
            0 <= i < cfg.gateways.len() && #[trigger] listener_problem(cfg, i) is Some && (forall|j: int|
                0 <= j < i ==> #[trigger] listener_problem(cfg, j) is None) ==> config_problem(cfg, env)
                == listener_problem(cfg, i),
{
    lemma_every_route(cfg, cfg.routes.len(), env);
    lemma_every_listener(cfg, cfg.gateways.len());
}

/// A listener has a name and an address of its own, an address that is not the admin
/// endpoint's, and serves routes that there are.
pub proof fn law_listeners_are_checked(cfg: ConfigV, i: int)
    requires
        0 <= i < cfg.gateways.len(),
    ensures
        listener_problem(cfg, i) is None <==> {
            let gw = cfg.gateways[i];
            &&& forall|j: int|
                0 <= j < i ==> (#[trigger] cfg.gateways[j]).name != gw.name && cfg.gateways[j].listen != gw.listen
            &&& cfg.gateway.admin_listen.len() > 0 ==> gw.listen != cfg.gateway.admin_listen
            &&& gw.routes.len() > 0
            &&& forall|k: int|
                0 <= k < gw.routes.len() ==> exists|r: int|
                    0 <= r < cfg.routes.len() && (#[trigger] cfg.routes[r]).id == #[trigger] gw.routes[k]
        },
{
    let gw = cfg.gateways[i];
    lemma_same_listen(cfg.gateways, i, i as nat);
    lemma_undefined(cfg, gw, gw.routes.len());
    if listener_problem(cfg, i) is None {
        assert forall|j: int| 0 <= j < i implies (#[trigger] cfg.gateways[j]).name != gw.name
            && cfg.gateways[j].listen != gw.listen by {
            if cfg.gateways[j].name == gw.name {
                assert(crate::config::load::gateway_name_taken(cfg.gateways, i));
            }
        }
    } else if forall|j: int|
        0 <= j < i ==> (#[trigger] cfg.gateways[j]).name != gw.name && cfg.gateways[j].listen != gw.listen {
        assert(!crate::config::load::gateway_name_taken(cfg.gateways, i));
    }
}

/// What a listener is told, each fault by its own text.
pub proof fn law_listeners_are_told(cfg: ConfigV, i: int, j: int, k: int)
    requires
        0 <= i < cfg.gateways.len(),
    ensures
        ({
            let gw = cfg.gateways[i];
            let p = listener_problem(cfg, i);
            let file = "gateway '"@ + gw.name + "' (gateways.d/"@ + gw.name;
            let taken = exists|o: int| 0 <= o < i && (#[trigger] cfg.gateways[o]).name == gw.name;
            let shared = exists|o: int| 0 <= o < i && (#[trigger] cfg.gateways[o]).listen == gw.listen;
            let admin = cfg.gateway.admin_listen.len() > 0 && gw.listen == cfg.gateway.admin_listen;
            &&& taken ==> p == Some(
                "duplicate gateway name '"@ + gw.name + "' (gateway names in gateways.d must be unique)"@,
            )
            &&& !taken && 0 <= j < i && cfg.gateways[j].listen == gw.listen && (forall|o: int|
                0 <= o < j ==> (#[trigger] cfg.gateways[o]).listen != gw.listen) ==> p == Some(
                "gateways '"@ + cfg.gateways[j].name + "' and '"@ + gw.name
                    + "' (gateways.d/*.toml) both listen on '"@ + gw.listen
                    + "' (gateway listen addresses must be unique)"@,
            )
            &&& !taken && !shared && admin ==> p == Some(
                file + ".toml) and admin_listen both listen on '"@ + gw.listen
                    + "' (admin and gateway listen addresses must not collide)"@,
            )
            &&& !taken && !shared && !admin && gw.routes.len() == 0 ==> p == Some(
                file + ".toml) declares no routes"@,
            )
            &&& !taken && !shared && !admin && 0 <= k < gw.routes.len() && !is_route(cfg, gw.routes[k]) && (forall|
                o: int,
            | 0 <= o < k ==> is_route(cfg, #[trigger] gw.routes[o])) ==> p == Some(
                file + ".toml) references undefined route id '"@ + gw.routes[k] + "'"@,
            )
        }),
{
    let gw = cfg.gateways[i];
    lemma_same_listen(cfg.gateways, i, i as nat);
    lemma_undefined(cfg, gw, gw.routes.len());
    let taken = exists|o: int| 0 <= o < i && (#[trigger] cfg.gateways[o]).name == gw.name;
    assert(taken == crate::config::load::gateway_name_taken(cfg.gateways, i));
    assert forall|id: Seq<char>| #[trigger] is_route(cfg, id) == crate::config::load::defines_route(cfg.routes, id) by {}
}

/// Whether a route has an id.
pub open spec fn is_route(cfg: ConfigV, id: Seq<char>) -> bool {
    exists|r: int| 0 <= r < cfg.routes.len() && (#[trigger] cfg.routes[r]).id == id
}

proof fn lemma_same_listen(gateways: Seq<GatewayDefV>, i: int, n: nat)
    ensures
        same_listen(gateways, i, n) is None <==> forall|j: int|
            0 <= j < n ==> (#[trigger] gateways[j]).listen != gateways[i].listen,
        forall|j: int|
            0 <= j < n && (#[trigger] gateways[j]).listen == gateways[i].listen && (forall|o: int|
                0 <= o < j ==> (#[trigger] gateways[o]).listen != gateways[i].listen) ==> same_listen(gateways, i, n)
                == Some(gateways[j].name),
    decreases n,
{
    if n > 0 {
        lemma_same_listen(gateways, i, (n - 1) as nat);
    }
}

proof fn lemma_undefined(cfg: ConfigV, gw: GatewayDefV, n: nat)
    requires
        n <= gw.routes.len(),
    ensures
        undefined_route(cfg, gw, n) is None <==> forall|k: int|
            0 <= k < n ==> crate::config::load::defines_route(cfg.routes, #[trigger] gw.routes[k]),
        forall|k: int|
            0 <= k < n && !crate::config::load::defines_route(cfg.routes, #[trigger] gw.routes[k]) && (forall|o: int|
                0 <= o < k ==> crate::config::load::defines_route(cfg.routes, #[trigger] gw.routes[o]))
                ==> undefined_route(cfg, gw, n) == Some(gw.routes[k]),
    decreases n,
{
    if n > 0 {
        lemma_undefined(cfg, gw, (n - 1) as nat);
    }
}

/// A file of a directory holds configuration exactly where its name is a stem and
/// `.toml`; the stem is not empty.
pub proof fn law_stems_come_before_toml(file_name: Seq<char>, stem: Seq<char>)
    ensures
        toml_stem(file_name) == Some(stem) <==> file_name == stem + ".toml"@ && stem.len() > 0,
{
    reveal_strlit(".toml");
    if file_name == stem + ".toml"@ {
        assert(file_name.skip(stem.len() as int) == ".toml"@);
        assert(file_name.take(stem.len() as int) == stem);
    }
    if toml_stem(file_name) == Some(stem) {
        assert(file_name == file_name.take(file_name.len() - 5) + file_name.skip(file_name.len() - 5));
    }
}

/// The routes that some files hold, in order.
pub open spec fn routes_in(files: Seq<RouteFileV>) -> Seq<RouteV>
    decreases files.len(),
{
    if files.len() == 0 {
        Seq::empty()
    } else {
        routes_in(files.drop_last()) + files.last().routes->Ok_0
    }
}

/// Whether no two routes share an id.
pub open spec fn ids_differ(routes: Seq<RouteV>) -> bool {
    forall|i: int, j: int| 0 <= i < j < routes.len() ==> (#[trigger] routes[i]).id != (#[trigger] routes[j]).id
}

proof fn lemma_origin(found: Seq<Origin>, id: Seq<char>)
    ensures
        origin_of(found, id) is None <==> forall|i: int| 0 <= i < found.len() ==> (#[trigger] found[i]).route.id != id,
        forall|i: int|
            0 <= i < found.len() && (#[trigger] found[i]).route.id == id && (forall|j: int|
                0 <= j < i ==> (#[trigger] found[j]).route.id != id) ==> origin_of(found, id) == Some(found[i].path),
    decreases found.len(),
{
    if found.len() > 0 {
        let rest = found.drop_last();
        lemma_origin(rest, id);
        assert forall|i: int|
            #![trigger rest[i]]
            #![trigger found[i]]
            0 <= i < rest.len() implies rest[i] == found[i] by {}
        assert(found.last() == found[found.len() - 1]);
        assert forall|i: int|
            0 <= i < found.len() && (#[trigger] found[i]).route.id == id && (forall|j: int|
                0 <= j < i ==> (#[trigger] found[j]).route.id != id) implies origin_of(found, id) == Some(
            found[i].path,
        ) by {
            if i < rest.len() {
                assert(rest[i].route.id == id);
                assert forall|j: int| 0 <= j < i implies (#[trigger] rest[j]).route.id != id by {
                    assert(found[j].route.id != id);
                }
            }
        }
    }
}

/// The routes with those of one more file behind them.
proof fn lemma_added(found: Seq<Origin>, routes: Seq<RouteV>, path: Seq<char>, n: nat)
    requires
        n <= routes.len(),
        ids_differ(found.map_values(|o: Origin| o.route)),
    ensures
        ({
            let before = found.map_values(|o: Origin| o.route);
            let all = before + routes.take(n as int);
            let r = add_routes(found, routes, path, n);
            &&& r is Ok <==> ids_differ(all)
            &&& r matches Ok(now) ==> {
                &&& now.map_values(|o: Origin| o.route) == all
                &&& now.take(found.len() as int) == found
                &&& forall|i: int| found.len() <= i < now.len() ==> (#[trigger] now[i]).path == path
            }
        }),
    decreases n,
{
    let before = found.map_values(|o: Origin| o.route);
    let all = before + routes.take(n as int);
    if n > 0 {
        let m = (n - 1) as nat;
        lemma_added(found, routes, path, m);
        let less = before + routes.take(m as int);
        assert(all =~= less.push(routes[m as int]));
        if let Ok(now) = add_routes(found, routes, path, m) {
            lemma_origin(now, routes[m as int].id);
            assert forall|i: int| 0 <= i < now.len() implies (#[trigger] now[i]).route == less[i] by {
                assert(now.map_values(|o: Origin| o.route)[i] == less[i]);
            }
            if origin_of(now, routes[m as int].id) is Some {
                let i = choose|i: int| 0 <= i < now.len() && (#[trigger] now[i]).route.id == routes[m as int].id;
                assert(all[i].id == all[all.len() - 1].id);
                assert(all[i] == less[i]);
                assert(!ids_differ(all));
            } else {
                let after = now.push(Origin { route: routes[m as int], path });
                assert(after.map_values(|o: Origin| o.route) =~= all);
                assert(after.take(found.len() as int) =~= found);
                assert forall|i: int, j: int| 0 <= i < j < all.len() implies (#[trigger] all[i]).id != (
                #[trigger] all[j]).id by {
                    assert(all[i] == less[i]);
                    assert(now[i].route == less[i]);
                    if j < less.len() {
                        assert(all[j] == less[j]);
                    }
                }
                assert(ids_differ(all));
            }
        } else {
            let (i, j) = choose|i: int, j: int|
                0 <= i < j < less.len() && (#[trigger] less[i]).id == (#[trigger] less[j]).id;
            assert(all[i] == less[i] && all[j] == less[j]);
            assert(!ids_differ(all));
        }
    } else {
        assert(all =~= before);
        assert(found.take(found.len() as int) =~= found);
    }
}

proof fn lemma_routes_in(files: Seq<RouteFileV>, n: nat)
    requires
        0 < n <= files.len(),
    ensures
        routes_in(files.take(n as int)) == routes_in(files.take(n - 1)) + files[n - 1].routes->Ok_0,
{
    assert(files.take(n as int).drop_last() == files.take(n - 1));
}

proof fn lemma_merged(files: Seq<RouteFileV>, n: nat)
    requires
        n <= files.len(),
    ensures
        merged(files, n) is Ok <==> (forall|k: int| 0 <= k < n ==> (#[trigger] files[k]).routes is Ok) && ids_differ(
            routes_in(files.take(n as int)),
        ),
        merged(files, n) matches Ok(found) ==> found.map_values(|o: Origin| o.route) == routes_in(
            files.take(n as int),
        ),
    decreases n,
{
    if n > 0 {
        let m = (n - 1) as nat;
        lemma_merged(files, m);
        lemma_routes_in(files, n);
        let less = routes_in(files.take(m as int));
        let all = routes_in(files.take(n as int));
        if let Ok(found) = merged(files, m) {
            if let Ok(routes) = files[m as int].routes {
                lemma_added(found, routes, files[m as int].path, routes.len());
                assert(routes.take(routes.len() as int) =~= routes);
            }
        } else if ids_differ(all) {
            assert(ids_differ(less)) by {
                assert forall|i: int, j: int| 0 <= i < j < less.len() implies (#[trigger] less[i]).id != (
                #[trigger] less[j]).id by {
                    assert(all[i] == less[i] && all[j] == less[j]);
                }
            }
        }
    } else {
        assert(files.take(0) =~= Seq::empty());
        assert(routes_in(files.take(0)) =~= Seq::empty());
        assert(Seq::<Origin>::empty().map_values(|o: Origin| o.route) =~= Seq::<RouteV>::empty());
    }
}

/// A directory of files makes a configuration exactly where every file could be read
/// and no id is given twice: it has the settings, the routes of all files in order,
/// and a listener for each listener file, in order, named after the file.
pub proof fn law_directories_are_put_together(
    gateway: GatewayV,
    routes: Seq<RouteFileV>,
    listeners: Seq<ListenerFileV>,
)
    ensures
        dir_config(gateway, routes, listeners) is Ok <==> {
            &&& forall|k: int| 0 <= k < routes.len() ==> (#[trigger] routes[k]).routes is Ok
            &&& ids_differ(routes_in(routes))
            &&& forall|k: int| 0 <= k < listeners.len() ==> (#[trigger] listeners[k]).listener is Ok
        },
        dir_config(gateway, routes, listeners) matches Ok(cfg) ==> {
            &&& cfg.gateway == gateway
            &&& cfg.routes == routes_in(routes)
            &&& cfg.gateways.len() == listeners.len()
            &&& forall|k: int|
                #![trigger cfg.gateways[k]]
                #![trigger listeners[k]]
                0 <= k < listeners.len() ==> {
                    let (listen, served) = listeners[k].listener->Ok_0;
                    &&& cfg.gateways[k].listen == listen
                    &&& cfg.gateways[k].routes == served
                    &&& match toml_stem(listeners[k].file_name) {
                        Some(stem) => cfg.gateways[k].name == stem,
                        None => cfg.gateways[k].name == listeners[k].file_name,
                    }
                }
        },
{
    lemma_merged(routes, routes.len());
    lemma_listeners(listeners, listeners.len());
    assert(routes.take(routes.len() as int) =~= routes);
}

proof fn lemma_listeners(files: Seq<ListenerFileV>, n: nat)
    requires
        n <= files.len(),
    ensures
        listeners_of(files, n) is Ok <==> forall|k: int| 0 <= k < n ==> (#[trigger] files[k]).listener is Ok,
        listeners_of(files, n) matches Ok(made) ==> made.len() == n && forall|k: int|
            #![trigger made[k]]
            #![trigger files[k]]
            0 <= k < n ==> {
                let (listen, served) = files[k].listener->Ok_0;
                &&& made[k].listen == listen
                &&& made[k].routes == served
                &&& match toml_stem(files[k].file_name) {
                    Some(stem) => made[k].name == stem,
                    None => made[k].name == files[k].file_name,
                }
            },
    decreases n,
{
    if n > 0 {
        lemma_listeners(files, (n - 1) as nat);
    }
}

/// What stands in the way of a configuration is told: a file that could not be read is
/// told by its own error. Routes come before listeners, earlier files before later ones.
pub proof fn law_unreadable_files_are_told(
    gateway: GatewayV,
    routes: Seq<RouteFileV>,
    listeners: Seq<ListenerFileV>,
    k: int,
)
    ensures
        0 <= k < routes.len() && routes[k].routes is Err && ids_differ(routes_in(routes.take(k))) && (forall|j: int|
            0 <= j < k ==> (#[trigger] routes[j]).routes is Ok) ==> dir_config(gateway, routes, listeners) == Err::<
            ConfigV,
            ConfigErrorV,
        >(routes[k].routes->Err_0),
        (forall|j: int| 0 <= j < routes.len() ==> (#[trigger] routes[j]).routes is Ok) && ids_differ(routes_in(routes))
            && 0 <= k < listeners.len() && listeners[k].listener is Err && (forall|j: int|
            0 <= j < k ==> (#[trigger] listeners[j]).listener is Ok) ==> dir_config(gateway, routes, listeners)
            == Err::<ConfigV, ConfigErrorV>(listeners[k].listener->Err_0),
{
    if 0 <= k < routes.len() {
        lemma_merged(routes, k as nat);
        if merged(routes, (k + 1) as nat) is Err {
            lemma_merged_stops(routes, (k + 1) as nat, routes.len());
        }
    }
    lemma_merged(routes, routes.len());
    assert(routes.take(routes.len() as int) =~= routes);
    if 0 <= k < listeners.len() {
        lemma_listeners(listeners, k as nat);
        lemma_listeners_stop(listeners, (k + 1) as nat, listeners.len());
    }
}

/// An id that is given twice is told with the two files that give it, the first route
/// that gives it again in the later one.
pub proof fn law_repeated_ids_are_told(
    gateway: GatewayV,
    routes: Seq<RouteFileV>,
    listeners: Seq<ListenerFileV>,
    a: int,
    p: int,
    b: int,
    q: int,
)
    requires
        0 <= a <= b < routes.len(),
        forall|j: int| 0 <= j <= b ==> (#[trigger] routes[j]).routes is Ok,
        0 <= p < routes[a].routes->Ok_0.len(),
        0 <= q < routes[b].routes->Ok_0.len(),
        a == b ==> p < q,
        ids_differ(routes_in(routes.take(b)) + routes[b].routes->Ok_0.take(q)),
        routes[a].routes->Ok_0[p].id == routes[b].routes->Ok_0[q].id,
    ensures
        dir_config(gateway, routes, listeners) == Err::<ConfigV, ConfigErrorV>(
            ConfigErrorV::Invalid(
                "duplicate route id '"@ + routes[b].routes->Ok_0[q].id + "' defined in both "@ + routes[a].path
                    + " and "@ + routes[b].path + " (route ids must be globally unique)"@,
            ),
        ),
{
    let two = routes[b].routes->Ok_0;
    let path = routes[b].path;
    let earlier = routes_in(routes.take(b));
    let known = earlier + two.take(q);
    assert(ids_differ(earlier)) by {
        assert forall|i: int, j: int| 0 <= i < j < earlier.len() implies (#[trigger] earlier[i]).id != (
        #[trigger] earlier[j]).id by {
            assert(known[i] == earlier[i] && known[j] == earlier[j]);
        }
    }
    lemma_merged(routes, b as nat);
    let found = merged(routes, b as nat)->Ok_0;
    lemma_added(found, two, path, q as nat);
    let now = add_routes(found, two, path, q as nat)->Ok_0;
    assert(now.map_values(|o: Origin| o.route) == known);
    let at = if a == b {
        found.len() + p
    } else {
        lemma_paths(routes, b as nat, a, p)
    };
    assert(found.map_values(|o: Origin| o.route).len() == found.len());
    assert(now.len() == known.len());
    assert forall|j: int| 0 <= j < now.len() implies (#[trigger] now[j]).route == known[j] by {
        assert(now.map_values(|o: Origin| o.route)[j] == known[j]);
    }
    if a == b {
        assert(known[at] == two[p]);
        assert(now[at].path == path);
    } else {
        assert(now.take(found.len() as int)[at] == found[at]);
    }
    assert(now[at].route.id == two[q].id);
    assert(now[at].path == routes[a].path);
    lemma_origin(now, two[q].id);
    assert forall|j: int| 0 <= j < at implies (#[trigger] now[j]).route.id != two[q].id by {
        assert(known[j].id != known[at].id);
    }
    assert(origin_of(now, two[q].id) == Some(routes[a].path));
    assert(add_routes(found, two, path, (q + 1) as nat) is Err);
    lemma_added_stops(found, two, path, (q + 1) as nat, two.len());
    assert(merged(routes, (b + 1) as nat) is Err);
    lemma_merged_stops(routes, (b + 1) as nat, routes.len());
}

proof fn lemma_merged_stops(files: Seq<RouteFileV>, m: nat, n: nat)
    requires
        m <= n,
        merged(files, m) is Err,
    ensures
        merged(files, n) == merged(files, m),
    decreases n,
{
    if m < n {
        lemma_merged_stops(files, m, (n - 1) as nat);
    }
}

proof fn lemma_added_stops(found: Seq<Origin>, routes: Seq<RouteV>, path: Seq<char>, m: nat, n: nat)
    requires
        m <= n,
        add_routes(found, routes, path, m) is Err,
    ensures
        add_routes(found, routes, path, n) == add_routes(found, routes, path, m),
    decreases n,
{
    if m < n {
        lemma_added_stops(found, routes, path, m, (n - 1) as nat);
    }
}

proof fn lemma_listeners_stop(files: Seq<ListenerFileV>, m: nat, n: nat)
    ensures
        m <= n && listeners_of(files, m) is Err ==> listeners_of(files, n) == listeners_of(files, m),
    decreases n,
{
    if m < n {
        lemma_listeners_stop(files, m, (n - 1) as nat);
    }
}

proof fn lemma_paths(files: Seq<RouteFileV>, n: nat, a: int, p: int) -> (at: int)
    requires
        0 <= a < n <= files.len(),
        merged(files, n) is Ok,
        files[a].routes is Ok,
        0 <= p < files[a].routes->Ok_0.len(),
    ensures
        0 <= at < merged(files, n)->Ok_0.len(),
        merged(files, n)->Ok_0[at].path == files[a].path,
        merged(files, n)->Ok_0[at].route == files[a].routes->Ok_0[p],
    decreases n,
{
    let m = (n - 1) as nat;
    lemma_merged(files, m);
    let found = merged(files, m)->Ok_0;
    let routes = files[m as int].routes->Ok_0;
    lemma_added(found, routes, files[m as int].path, routes.len());
    let now = merged(files, n)->Ok_0;
    assert(routes.take(routes.len() as int) =~= routes);
    let all = found.map_values(|o: Origin| o.route) + routes;
    assert(now.map_values(|o: Origin| o.route) == all);
    if a == m {
        let at = found.len() + p;
        assert(now.len() == all.len());
        assert(now.map_values(|o: Origin| o.route)[at] == all[at]);
        at
    } else {
        let at = lemma_paths(files, m, a, p);
        assert(now.take(found.len() as int)[at] == found[at]);
        at
    }
}

/// A file is looked up exactly where a script step runs a command that names a path; a
/// module is compiled exactly where a wasm step names it.
pub proof fn law_files_that_are_needed(cfg: ConfigV, path: Seq<char>)
    ensures
        some_looks_up(cfg, path) <==> (path.contains('/') || path.contains('\\')) && exists|i: int, k: int|
            0 <= i < cfg.routes.len() && 0 <= k < cfg.routes[i].steps.len() && {
                let s = #[trigger] cfg.routes[i].steps[k];
                s.type_ is Script && s.cmd.len() > 0 && s.cmd[0] == path
            },
        some_compiles(cfg, path) <==> exists|i: int, k: int|
            0 <= i < cfg.routes.len() && 0 <= k < cfg.routes[i].steps.len() && {
                let s = #[trigger] cfg.routes[i].steps[k];
                s.type_ is Wasm && s.wasm == Some(path)
            },
{
    if some_looks_up(cfg, path) {
        let (i, k) = choose|i: int, k: int|
            0 <= i < cfg.routes.len() && 0 <= k < cfg.routes[i].steps.len() && #[trigger] looks_up(
                cfg.routes[i].steps[k],
                path,
            );
        assert(cfg.routes[i].steps[k].cmd[0] == path);
    }
    if some_compiles(cfg, path) {
        let (i, k) = choose|i: int, k: int|
            0 <= i < cfg.routes.len() && 0 <= k < cfg.routes[i].steps.len() && #[trigger] compiles(
                cfg.routes[i].steps[k],
                path,
            );
        assert(cfg.routes[i].steps[k].wasm == Some(path));
    }
    assert forall|i: int, k: int|
        0 <= i < cfg.routes.len() && 0 <= k < cfg.routes[i].steps.len() && {
            let s = #[trigger] cfg.routes[i].steps[k];
            s.type_ is Script && s.cmd.len() > 0 && s.cmd[0] == path
        } && (path.contains('/') || path.contains('\\')) implies some_looks_up(cfg, path) by {
        assert(looks_up(cfg.routes[i].steps[k], path));
    }
    assert forall|i: int, k: int|
        0 <= i < cfg.routes.len() && 0 <= k < cfg.routes[i].steps.len() && {
            let s = #[trigger] cfg.routes[i].steps[k];
            s.type_ is Wasm && s.wasm == Some(path)
        } implies some_compiles(cfg, path) by {
        assert(compiles(cfg.routes[i].steps[k], path));
    }
}

} // verus!
