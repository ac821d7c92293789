//! What the printed reports show.

use vstd::prelude::*;

use crate::config::{ConfigV, GatewayDefV, GatewayV, Hook, OnError, RouteV, StepType, StepV, UrlMode};
use crate::json::Double;
use crate::loopback::token::{ChainTokenV, TokenError};
use crate::registry::{FactsV, ModelChangeV, ModelKeyV, RegistryDiffV};
use crate::report::{
    by_id, is_shown, change_lines, changed_names, claims_text, config_text, count_cell, diff_text, double_text, gateway_text,
    key_lines, left_aligned, listed_text, listener_text, listeners_text, model_line, model_lines, placed, price_cell,
    right_aligned, route_text, routes_text, step_text, steps_text, table_header, token_shown,
};
use crate::text::{decimal, joined, precedes};

verus! {

/// The settings are shown line by line; the admin address only where there is one.
pub proof fn law_settings_are_shown(g: GatewayV)
    ensures
        ({
            let limits = "  max_body_bytes: "@ + decimal(g.max_body_bytes as nat);
            &&& g.admin_listen.len() > 0 ==> gateway_text(g) == "gateway:\n  listen: "@ + g.listen + "\n"@ + (
            "  admin_listen: "@ + g.admin_listen + "\n"@) + "  max_body_bytes: "@ + decimal(g.max_body_bytes as nat)
                + "\n  max_inflight: "@ + decimal(g.max_inflight as nat) + "\n  upstream_timeout_ms: "@ + decimal(
                g.upstream_timeout_ms as nat,
            ) + "\n  max_context_bytes: "@ + decimal(g.max_context_bytes as nat) + "\n"@
            &&& g.admin_listen.len() == 0 ==> gateway_text(g) == "gateway:\n  listen: "@ + g.listen + "\n"@ + limits
                + "\n  max_inflight: "@ + decimal(g.max_inflight as nat) + "\n  upstream_timeout_ms: "@ + decimal(
                g.upstream_timeout_ms as nat,
            ) + "\n  max_context_bytes: "@ + decimal(g.max_context_bytes as nat) + "\n"@
        }),
{
    reveal_strlit("");
    let head = "gateway:\n  listen: "@ + g.listen + "\n"@;
    assert(head + ""@ == head);
    let count = decimal(g.max_body_bytes as nat);
    assert(head + "  max_body_bytes: "@ + count == head + ("  max_body_bytes: "@ + count));
}

/// A step is shown by its name, its hook, its kind, its mode, its time and what happens
/// on an error; the steps of a route follow each other in order.
pub proof fn law_steps_are_shown(steps: Seq<StepV>, s: StepV, i: nat)
    requires
        i < steps.len(),
    ensures
        step_text(s, i) == "      - name: "@ + s.effective_name(i) + "\n        hook: "@ + (match s.hook {
            Hook::OnRequest => "on_request"@,
            Hook::OnResponse => "on_response"@,
            Hook::OnStream => "on_stream"@,
        }) + "\n        type: "@ + (match s.type_ {
            StepType::Url => "url"@,
            StepType::Script => "script"@,
            StepType::Wasm => "wasm"@,
        }) + "\n        mode: "@ + (match s.mode {
            UrlMode::Transform => "transform"@,
            UrlMode::Loopback => "loopback"@,
        }) + "\n        timeout_ms: "@ + decimal(s.timeout_ms as nat) + "\n        on_error: "@ + (match s.on_error {
            OnError::FailOpen => "fail_open"@,
            OnError::FailClosed => "fail_closed"@,
        }) + "\n"@,
        steps_text(steps, 0) == Seq::<char>::empty(),
        steps_text(steps, i + 1) == steps_text(steps, i) + step_text(steps[i as int], i),
{
}

/// A route is shown by its id, its upstream and its steps, where it has any; the routes
/// follow each other in order.
pub proof fn law_routes_are_shown(routes: Seq<RouteV>, r: RouteV, i: nat)
    requires
        i < routes.len(),
    ensures
        r.steps.len() == 0 ==> route_text(r) == "  - id: "@ + r.id + "\n    upstream: "@ + r.upstream + "\n"@,
        r.steps.len() > 0 ==> route_text(r) == "  - id: "@ + r.id + "\n    upstream: "@ + r.upstream + "\n"@ + (
        "    steps:\n"@ + steps_text(r.steps, r.steps.len())),
        routes_text(routes, 0) == Seq::<char>::empty(),
        routes_text(routes, i + 1) == routes_text(routes, i) + route_text(routes[i as int]),
{
    reveal_strlit("");
    let head = "  - id: "@ + r.id + "\n    upstream: "@ + r.upstream + "\n"@;
    assert(head + ""@ == head);
}

/// A listener is shown by its name, its address and the routes that it serves, where
/// there are any; the listeners follow each other in order.
pub proof fn law_listeners_are_shown(
    gateways: Seq<GatewayDefV>,
    gw: GatewayDefV,
    i: nat,
    routes: Seq<Seq<char>>,
    k: nat,
)
    requires
        i < gateways.len(),
        k < routes.len(),
    ensures
        gw.routes.len() == 0 ==> listener_text(gw) == "  - name: "@ + gw.name + "\n    listen: "@ + gw.listen + "\n"@,
        gw.routes.len() > 0 ==> listener_text(gw) == "  - name: "@ + gw.name + "\n    listen: "@ + gw.listen + "\n"@ + (
        "    routes:\n"@ + listed_text(gw.routes, gw.routes.len())),
        listed_text(routes, 0) == Seq::<char>::empty(),
        listed_text(routes, k + 1) == listed_text(routes, k) + ("      - "@ + routes[k as int] + "\n"@),
        listeners_text(gateways, 0) == Seq::<char>::empty(),
        listeners_text(gateways, i + 1) == listeners_text(gateways, i) + listener_text(gateways[i as int]),
{
    reveal_strlit("");
    let head = "  - name: "@ + gw.name + "\n    listen: "@ + gw.listen + "\n"@;
    assert(head + ""@ == head);
}

/// A configuration is shown by its settings, the number of its routes and the routes,
/// and, where there are listeners, their number and the listeners.
pub proof fn law_configurations_are_shown(cfg: ConfigV)
    ensures
        ({
            let routes = gateway_text(cfg.gateway) + "\nroutes ("@ + decimal(cfg.routes.len()) + "):\n"@ + routes_text(
                cfg.routes,
                cfg.routes.len(),
            );
            &&& cfg.gateways.len() == 0 ==> config_text(cfg) == routes
            &&& cfg.gateways.len() > 0 ==> config_text(cfg) == routes + ("\ngateways ("@ + decimal(cfg.gateways.len())
                + "):\n"@ + listeners_text(cfg.gateways, cfg.gateways.len()))
        }),
{
    reveal_strlit("");
    let routes = gateway_text(cfg.gateway) + "\nroutes ("@ + decimal(cfg.routes.len()) + "):\n"@ + routes_text(
        cfg.routes,
        cfg.routes.len(),
    );
    assert(routes + ""@ == routes);
}

/// A cell is filled up with blanks to its width, behind what is left-aligned and ahead
/// of what is right-aligned; what is wider stays whole.
pub proof fn law_cells_are_aligned(s: Seq<char>, width: nat, i: int)
    ensures
        s.len() >= width ==> left_aligned(s, width) == s && right_aligned(s, width) == s,
        s.len() < width ==> {
            &&& left_aligned(s, width).len() == width && right_aligned(s, width).len() == width
            &&& left_aligned(s, width).take(s.len() as int) == s
            &&& right_aligned(s, width).skip(width - s.len()) == s
            &&& s.len() <= i < width ==> left_aligned(s, width)[i] == ' '
            &&& 0 <= i < width - s.len() ==> right_aligned(s, width)[i] == ' '
        },
{
    if s.len() >= width {
        assert(left_aligned(s, width) =~= s && right_aligned(s, width) =~= s);
    } else {
        assert(left_aligned(s, width).take(s.len() as int) =~= s);
        assert(right_aligned(s, width).skip(width - s.len()) =~= s);
    }
}

/// A model is shown in a line of its id, its provider, its window, its prices and
/// whether it calls tools, a dash for what is not known; the header names the columns.
pub proof fn law_models_are_shown(
    m: FactsV,
    n: Option<u64>,
    d: Option<Double>,
    models: Seq<FactsV>,
    i: nat,
)
    requires
        i < models.len(),
    ensures
        model_line(m) == left_aligned(m.id, 32) + " "@ + left_aligned(m.provider, 12) + " "@ + right_aligned(
            count_cell(m.context),
            10,
        ) + " "@ + right_aligned(price_cell(m.cost_input), 10) + " "@ + right_aligned(price_cell(m.cost_output), 10)
            + " "@ + right_aligned(
            if m.tool_call {
                "true"@
            } else {
                "false"@
            },
            9,
        ) + "\n"@,
        table_header() == left_aligned("ID"@, 32) + " "@ + left_aligned("PROVIDER"@, 12) + " "@ + right_aligned(
            "CONTEXT"@,
            10,
        ) + " "@ + right_aligned("COST_IN"@, 10) + " "@ + right_aligned("COST_OUT"@, 10) + " "@ + right_aligned(
            "TOOL_CALL"@,
            9,
        ) + "\n"@,
        count_cell(n) == match n {
            Some(n) => decimal(n as nat),
            None => "-"@,
        },
        price_cell(d) == match d {
            Some(d) => double_text(d.bits),
            None => "-"@,
        },
        model_lines(models, 0) == Seq::<char>::empty(),
        model_lines(models, i + 1) == model_lines(models, i) + model_line(models[i as int]),
{
}

/// Models are put in order of their ids one by one: each comes behind all that do not
/// come after it, so that those of one id keep their order.
pub proof fn law_models_are_ordered_stably(models: Seq<FactsV>, m: FactsV, k: int)
    requires
        0 <= k <= models.len(),
        k > 0 ==> !precedes(m.id, models[k - 1].id),
        forall|j: int| k <= j < models.len() ==> precedes(m.id, (#[trigger] models[j]).id),
    ensures
        placed(models, m) == models.take(k).push(m) + models.skip(k),
        by_id(models, 0).len() == 0,
        models.len() > 0 ==> by_id(models, models.len()) == placed(
            by_id(models, (models.len() - 1) as nat),
            models[models.len() - 1],
        ),
    decreases models.len(),
{
    if k < models.len() {
        let rest = models.drop_last();
        assert(precedes(m.id, models[models.len() - 1].id));
        assert forall|j: int| k <= j < rest.len() implies precedes(m.id, (#[trigger] rest[j]).id) by {
            assert(rest[j] == models[j]);
        }
        law_models_are_ordered_stably(rest, m, k);
        assert(rest.take(k) =~= models.take(k));
        assert(placed(models, m) =~= models.take(k).push(m) + models.skip(k));
    } else {
        assert(models.take(k).push(m) + models.skip(k) =~= models.push(m));
    }
}

/// A difference is shown part by part, each with its title where it is not empty; no
/// difference is said in so many words.
pub proof fn law_differences_are_shown(
    d: RegistryDiffV,
    sign: Seq<char>,
    keys: Seq<ModelKeyV>,
    changed: Seq<ModelChangeV>,
    i: nat,
    k: nat,
)
    requires
        i < keys.len(),
        k < changed.len(),
    ensures
        d.added.len() == 0 && d.removed.len() == 0 && d.changed.len() == 0 ==> diff_text(d) == "no differences\n"@,
        d.added.len() > 0 || d.removed.len() > 0 || d.changed.len() > 0 ==> diff_text(d) == (if d.added.len() > 0 {
            "added:\n"@ + key_lines("  + "@, d.added, d.added.len())
        } else {
            ""@
        }) + (if d.removed.len() > 0 {
            "removed:\n"@ + key_lines("  - "@, d.removed, d.removed.len())
        } else {
            ""@
        }) + (if d.changed.len() > 0 {
            "changed:\n"@ + change_lines(d.changed, d.changed.len())
        } else {
            ""@
        }),
        key_lines(sign, keys, 0) == Seq::<char>::empty(),
        key_lines(sign, keys, i + 1) == key_lines(sign, keys, i) + (sign + keys[i as int].id + " ("@
            + keys[i as int].provider + ")\n"@),
        change_lines(changed, 0) == Seq::<char>::empty(),
        change_lines(changed, k + 1) == change_lines(changed, k) + ("  ~ "@ + changed[k as int].id + " ("@
            + changed[k as int].provider + ") ("@ + joined(changed_names(changed[k as int]), ", "@) + ")\n"@),
{
}

/// What changed of a model is named: its window and its two prices, in that order.
pub proof fn law_changes_are_named(c: ModelChangeV)
    ensures
        changed_names(c).contains("context"@) <==> c.context_changed,
        changed_names(c).contains("cost_input"@) <==> c.cost_input_changed,
        changed_names(c).contains("cost_output"@) <==> c.cost_output_changed,
        c.context_changed && c.cost_input_changed && c.cost_output_changed ==> changed_names(c) == seq![
            "context"@,
            "cost_input"@,
            "cost_output"@,
        ],
        changed_names(c).len() == (if c.context_changed {
            1int
        } else {
            0
        }) + (if c.cost_input_changed {
            1int
        } else {
            0
        }) + (if c.cost_output_changed {
            1int
        } else {
            0
        }),
{
    reveal_strlit("context");
    reveal_strlit("cost_input");
    reveal_strlit("cost_output");
    let n = changed_names(c);
    let a: int = if c.context_changed {
        1
    } else {
        0
    };
    let b: int = if c.cost_input_changed {
        1
    } else {
        0
    };
    if c.context_changed {
        assert(n[0] == "context"@);
    }
    if c.cost_input_changed {
        assert(n[a] == "cost_input"@);
    }
    if c.cost_output_changed {
        assert(n[a + b] == "cost_output"@);
    }
    if c.context_changed && c.cost_input_changed && c.cost_output_changed {
        assert(n =~= seq!["context"@, "cost_input"@, "cost_output"@]);
    }
}

/// A token is shown with its claims and whether it holds; one that cannot be trusted
/// shows no claims.
pub proof fn law_tokens_are_shown(t: ChainTokenV, now: u64)
    ensures
        ({
            let claims = "cid: "@ + t.cid + "\nroute_id: "@ + t.route_id + "\nresume_index: "@ + decimal(
                t.resume_index as nat,
            ) + "\nhop: "@ + decimal(t.hop as nat) + "\nexpires_at: "@ + decimal(t.expires_at_unix as nat) + "\n"@;
            &&& claims_text(t) == claims
            &&& now < t.expires_at_unix ==> token_shown(Ok(t), now) == (claims + "valid: true\n"@, true)
            &&& now >= t.expires_at_unix ==> token_shown(Ok(t), now) == (claims + "valid: false (expired)\n"@, false)
        }),
        token_shown(Err(TokenError::BadMac), now) == ("valid: false (bad mac)\n"@, false),
        token_shown(Err(TokenError::BadFormat), now) == ("valid: false (bad format)\n"@, false),
        token_shown(Err(TokenError::Expired), now) == ("valid: false (expired)\n"@, false),
{
}

/// Models are shown all, or those of the provider that is asked for.
pub proof fn law_models_are_picked(m: FactsV, provider: Seq<char>)
    ensures
        is_shown(m, None),
        is_shown(m, Some(provider)) <==> m.provider == provider,
{
}

} // verus!
