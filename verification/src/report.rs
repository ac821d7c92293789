//! Texts that the command line shows.

use vstd::prelude::*;

use crate::config::{
    step_type_name, Config, ConfigV, Gateway, GatewayDef, GatewayDefV, GatewayV, Hook, OnError, Route,
    RouteV, Step, StepType, StepV, UrlMode,
};
use crate::json::Double;
use crate::loopback::token::{ChainToken, ChainTokenV, TokenError};
use crate::registry::{
    FactsV, ModelChange, ModelChangeV, ModelFacts, ModelKey, ModelKeyV, Registry, RegistryDiff, RegistryDiffV,
};
use crate::text::{
    chars_of, concat2, concat3, decimal, decimal_text, is_before, joined, lemma_precedes_irreflexive,
    lemma_precedes_total, lemma_precedes_transitive, opt_text, precedes, same, texts, views,
};

verus! {

/// The name of a hook.
pub open spec fn hook_name(hook: Hook) -> Seq<char> {
    match hook {
        Hook::OnRequest => "on_request"@,
        Hook::OnResponse => "on_response"@,
        Hook::OnStream => "on_stream"@,
    }
}

/// The name of a hook.
pub fn hook_str(hook: Hook) -> (r: &'static str)
    ensures
        r@ == hook_name(hook),
{
    match hook {
        Hook::OnRequest => "on_request",
        Hook::OnResponse => "on_response",
        Hook::OnStream => "on_stream",
    }
}

/// The name of a kind of step.
pub fn step_type_str(ty: StepType) -> (r: &'static str)
    ensures
        r@ == step_type_name(ty),
{
    match ty {
        StepType::Url => "url",
        StepType::Script => "script",
        StepType::Wasm => "wasm",
    }
}

/// The name of a way to call a step.
pub open spec fn url_mode_name(mode: UrlMode) -> Seq<char> {
    match mode {
        UrlMode::Transform => "transform"@,
        UrlMode::Loopback => "loopback"@,
    }
}

/// The name of a way to call a step.
pub fn url_mode_str(mode: UrlMode) -> (r: &'static str)
    ensures
        r@ == url_mode_name(mode),
{
    match mode {
        UrlMode::Transform => "transform",
        UrlMode::Loopback => "loopback",
    }
}

/// The name of what a failed step does.
pub open spec fn on_error_name(on_error: OnError) -> Seq<char> {
    match on_error {
        OnError::FailOpen => "fail_open"@,
        OnError::FailClosed => "fail_closed"@,
    }
}

/// The name of what a failed step does.
pub fn on_error_str(on_error: OnError) -> (r: &'static str)
    ensures
        r@ == on_error_name(on_error),
{
    match on_error {
        OnError::FailOpen => "fail_open",
        OnError::FailClosed => "fail_closed",
    }
}

/// The text of the gateway's settings.
pub open spec fn gateway_text(g: GatewayV) -> Seq<char> {
    "gateway:\n  listen: "@ + g.listen + "\n"@ + (if g.admin_listen.len() > 0 {
        "  admin_listen: "@ + g.admin_listen + "\n"@
    } else {
        ""@
    }) + "  max_body_bytes: "@ + decimal(g.max_body_bytes as nat) + "\n  max_inflight: "@ + decimal(
        g.max_inflight as nat,
    ) + "\n  upstream_timeout_ms: "@ + decimal(g.upstream_timeout_ms as nat)
        + "\n  max_context_bytes: "@ + decimal(g.max_context_bytes as nat) + "\n"@
}

fn show_gateway(g: &Gateway) -> (r: String)
    ensures
        r@ == gateway_text(g@),
{
    let admin = if !g.admin_listen.as_str().is_empty() {
        concat3("  admin_listen: ", g.admin_listen.as_str(), "\n")
    } else {
        "".to_owned()
    };
    let mut out = "gateway:\n  listen: ".to_owned();
    out.append(g.listen.as_str());
    out.append("\n");
    out.append(admin.as_str());
    out.append("  max_body_bytes: ");
    out.append(decimal_text(g.max_body_bytes as u64).as_str());
    out.append("\n  max_inflight: ");
    out.append(decimal_text(g.max_inflight as u64).as_str());
    out.append("\n  upstream_timeout_ms: ");
    out.append(decimal_text(g.upstream_timeout_ms).as_str());
    out.append("\n  max_context_bytes: ");
    out.append(decimal_text(g.max_context_bytes as u64).as_str());
    out.append("\n");
    out
}

/// The text of a step at its place.
pub open spec fn step_text(s: StepV, i: nat) -> Seq<char> {
    "      - name: "@ + s.effective_name(i) + "\n        hook: "@ + hook_name(s.hook)
        + "\n        type: "@ + step_type_name(s.type_) + "\n        mode: "@ + url_mode_name(s.mode)
        + "\n        timeout_ms: "@ + decimal(s.timeout_ms as nat) + "\n        on_error: "@
        + on_error_name(s.on_error) + "\n"@
}

fn show_step(s: &Step, i: usize) -> (r: String)
    ensures
        r@ == step_text(s@, i as nat),
{
    let mut out = "      - name: ".to_owned();
    out.append(s.effective_name(i).as_str());
    out.append("\n        hook: ");
    out.append(hook_str(s.hook));
    out.append("\n        type: ");
    out.append(step_type_str(s.type_));
    out.append("\n        mode: ");
    out.append(url_mode_str(s.mode));
    out.append("\n        timeout_ms: ");
    out.append(decimal_text(s.timeout_ms).as_str());
    out.append("\n        on_error: ");
    out.append(on_error_str(s.on_error));
    out.append("\n");
    out
}

/// The texts of the first `n` steps, one after the other.
pub open spec fn steps_text(steps: Seq<StepV>, n: nat) -> Seq<char>
    decreases n,
{
    if n == 0 {
        Seq::empty()
    } else {
        steps_text(steps, (n - 1) as nat) + step_text(steps[n - 1], (n - 1) as nat)
    }
}

/// The text of a route.
pub open spec fn route_text(route: RouteV) -> Seq<char> {
    "  - id: "@ + route.id + "\n    upstream: "@ + route.upstream + "\n"@ + (if route.steps.len() > 0 {
        "    steps:\n"@ + steps_text(route.steps, route.steps.len())
    } else {
        ""@
    })
}

fn show_route(route: &Route) -> (r: String)
    ensures
        r@ == route_text(route@),
{
    let ghost steps = route@.steps;
    let mut body = "".to_owned();
    if route.steps.len() > 0 {
        let mut listed = String::new();
        let mut i: usize = 0;
        while i < route.steps.len()
            invariant
                i <= route.steps.len(),
                steps == views(route.steps@),
                listed@ == steps_text(steps, i as nat),
            decreases route.steps.len() - i,
        {
            assert(steps[i as int] == route.steps@[i as int]@);
            listed.append(show_step(&route.steps[i], i).as_str());
            i += 1;
        }
        body = concat2("    steps:\n", listed.as_str());
    }
    let mut out = "  - id: ".to_owned();
    out.append(route.id.as_str());
    out.append("\n    upstream: ");
    out.append(route.upstream.as_str());
    out.append("\n");
    out.append(body.as_str());
    out
}

/// The texts of the first `n` routes, one after the other.
pub open spec fn routes_text(routes: Seq<RouteV>, n: nat) -> Seq<char>
    decreases n,
{
    if n == 0 {
        Seq::empty()
    } else {
        routes_text(routes, (n - 1) as nat) + route_text(routes[n - 1])
    }
}

/// The names of the first `n` routes of a listener, one to a line.
pub open spec fn listed_text(routes: Seq<Seq<char>>, n: nat) -> Seq<char>
    decreases n,
{
    if n == 0 {
        Seq::empty()
    } else {
        listed_text(routes, (n - 1) as nat) + ("      - "@ + routes[n - 1] + "\n"@)
    }
}

/// The text of a listener.
pub open spec fn listener_text(gw: GatewayDefV) -> Seq<char> {
    "  - name: "@ + gw.name + "\n    listen: "@ + gw.listen + "\n"@ + (if gw.routes.len() > 0 {
        "    routes:\n"@ + listed_text(gw.routes, gw.routes.len())
    } else {
        ""@
    })
}

fn show_listener(gw: &GatewayDef) -> (r: String)
    ensures
        r@ == listener_text(gw@),
{
    let ghost names = gw@.routes;
    let mut body = "".to_owned();
    if gw.routes.len() > 0 {
        let mut listed = String::new();
        let mut i: usize = 0;
        while i < gw.routes.len()
            invariant
                i <= gw.routes.len(),
                names == views(gw.routes@),
                listed@ == listed_text(names, i as nat),
            decreases gw.routes.len() - i,
        {
            assert(names[i as int] == gw.routes@[i as int]@);
            listed.append(concat3("      - ", gw.routes[i].as_str(), "\n").as_str());
            i += 1;
        }
        body = concat2("    routes:\n", listed.as_str());
    }
    let mut out = "  - name: ".to_owned();
    out.append(gw.name.as_str());
    out.append("\n    listen: ");
    out.append(gw.listen.as_str());
    out.append("\n");
    out.append(body.as_str());
    out
}

/// The texts of the first `n` listeners, one after the other.
pub open spec fn listeners_text(gateways: Seq<GatewayDefV>, n: nat) -> Seq<char>
    decreases n,
{
    if n == 0 {
        Seq::empty()
    } else {
        listeners_text(gateways, (n - 1) as nat) + listener_text(gateways[n - 1])
    }
}

/// The text of a whole configuration.
pub open spec fn config_text(cfg: ConfigV) -> Seq<char> {
    gateway_text(cfg.gateway) + "\nroutes ("@ + decimal(cfg.routes.len()) + "):\n"@ + routes_text(
        cfg.routes,
        cfg.routes.len(),
    ) + (if cfg.gateways.len() > 0 {
        "\ngateways ("@ + decimal(cfg.gateways.len()) + "):\n"@ + listeners_text(
            cfg.gateways,
            cfg.gateways.len(),
        )
    } else {
        ""@
    })
}

/// The configuration as text: the gateway's settings, the routes with their steps,
/// and the named listeners.
pub fn render_routes(cfg: &Config) -> (r: String)
    ensures
        r@ == config_text(cfg@),
{
    let ghost c = cfg@;
    let mut out = show_gateway(&cfg.gateway);
    out.append("\nroutes (");
    out.append(decimal_text(cfg.routes.len() as u64).as_str());
    out.append("):\n");
    let mut routes = String::new();
    let mut i: usize = 0;
    while i < cfg.routes.len()
        invariant
            i <= cfg.routes.len(),
            c.routes == views(cfg.routes@),
            routes@ == routes_text(c.routes, i as nat),
        decreases cfg.routes.len() - i,
    {
        assert(c.routes[i as int] == cfg.routes@[i as int]@);
        routes.append(show_route(&cfg.routes[i]).as_str());
        i += 1;
    }
    out.append(routes.as_str());
    let mut tail = "".to_owned();
    if cfg.gateways.len() > 0 {
        tail = concat3("\ngateways (", decimal_text(cfg.gateways.len() as u64).as_str(), "):\n");
        let mut listeners = String::new();
        let mut k: usize = 0;
        while k < cfg.gateways.len()
            invariant
                k <= cfg.gateways.len(),
                c.gateways == views(cfg.gateways@),
                listeners@ == listeners_text(c.gateways, k as nat),
            decreases cfg.gateways.len() - k,
        {
            assert(c.gateways[k as int] == cfg.gateways@[k as int]@);
            listeners.append(show_listener(&cfg.gateways[k]).as_str());
            k += 1;
        }
        tail.append(listeners.as_str());
    }
    out.append(tail.as_str());
    out
}

/// So many blanks.
pub open spec fn blanks(n: int) -> Seq<char> {
    Seq::new(if n > 0 { n as nat } else { 0 }, |i: int| ' ')
}

/// A text filled up with blanks on the right.
pub open spec fn left_aligned(s: Seq<char>, width: nat) -> Seq<char> {
    s + blanks(width - s.len())
}

/// A text filled up with blanks on the left.
pub open spec fn right_aligned(s: Seq<char>, width: nat) -> Seq<char> {
    blanks(width - s.len()) + s
}

fn fill(s: &str, width: usize) -> (r: String)
    ensures
        r@ == blanks(width - s@.len()),
{
    let have = chars_of(s).len();
    let mut out = String::new();
    let mut i: usize = have;
    proof {
        reveal_strlit(" ");
        assert(out@ == blanks(0));
    }
    while i < width
        invariant
            have == s@.len(),
            have <= i,
            i <= width || i == have,
            out@ == blanks(i - have),
            " "@ == seq![' '],
        decreases width - i,
    {
        out.append(" ");
        i += 1;
        assert(out@ == blanks(i - have));
    }
    assert(out@ == blanks(width - s@.len()));
    out
}

fn align_left(s: &str, width: usize) -> (r: String)
    ensures
        r@ == left_aligned(s@, width as nat),
{
    concat2(s, fill(s, width).as_str())
}

fn align_right(s: &str, width: usize) -> (r: String)
    ensures
        r@ == right_aligned(s@, width as nat),
{
    concat2(fill(s, width).as_str(), s)
}

/// The decimal text that std writes for a binary64 number.
pub uninterp spec fn double_text(bits: u64) -> Seq<char>;

/// Calls `ToString::to_string` of std on a binary64 number, which
/// `bytes::Buf::get_f64` takes from its bit pattern: a function of that.
#[verifier::external_body]
fn show_double(bits: u64) -> (r: String)
    ensures
        r@ == double_text(bits),
{
    bytes::Buf::get_f64(&mut bits.to_be_bytes().as_slice()).to_string()
}

/// A count in the table, a dash where it is not known.
pub open spec fn count_cell(n: Option<u64>) -> Seq<char> {
    match n {
        Some(n) => decimal(n as nat),
        None => "-"@,
    }
}

fn show_count(n: Option<u64>) -> (r: String)
    ensures
        r@ == count_cell(n),
{
    match n {
        Some(n) => decimal_text(n),
        None => "-".to_owned(),
    }
}

/// A price in the table, a dash where it is not known.
pub open spec fn price_cell(d: Option<Double>) -> Seq<char> {
    match d {
        Some(d) => double_text(d.bits),
        None => "-"@,
    }
}

fn show_price(d: Option<Double>) -> (r: String)
    ensures
        r@ == price_cell(d),
{
    match d {
        Some(d) => show_double(d.bits),
        None => "-".to_owned(),
    }
}

/// A line of the table.
pub open spec fn table_line(
    id: Seq<char>,
    provider: Seq<char>,
    context: Seq<char>,
    cost_in: Seq<char>,
    cost_out: Seq<char>,
    tool_call: Seq<char>,
) -> Seq<char> {
    left_aligned(id, 32) + " "@ + left_aligned(provider, 12) + " "@ + right_aligned(context, 10) + " "@
        + right_aligned(cost_in, 10) + " "@ + right_aligned(cost_out, 10) + " "@ + right_aligned(
        tool_call,
        9,
    ) + "\n"@
}

fn show_line(
    id: &str,
    provider: &str,
    context: &str,
    cost_in: &str,
    cost_out: &str,
    tool_call: &str,
) -> (r: String)
    ensures
        r@ == table_line(id@, provider@, context@, cost_in@, cost_out@, tool_call@),
{
    let mut out = align_left(id, 32);
    out.append(" ");
    out.append(align_left(provider, 12).as_str());
    out.append(" ");
    out.append(align_right(context, 10).as_str());
    out.append(" ");
    out.append(align_right(cost_in, 10).as_str());
    out.append(" ");
    out.append(align_right(cost_out, 10).as_str());
    out.append(" ");
    out.append(align_right(tool_call, 9).as_str());
    out.append("\n");
    out
}

/// The line of a model.
pub open spec fn model_line(m: FactsV) -> Seq<char> {
    table_line(
        m.id,
        m.provider,
        count_cell(m.context),
        price_cell(m.cost_input),
        price_cell(m.cost_output),
        if m.tool_call {
            "true"@
        } else {
            "false"@
        },
    )
}

/// The lines of the first `n` models, one after the other.
pub open spec fn model_lines(models: Seq<FactsV>, n: nat) -> Seq<char>
    decreases n,
{
    if n == 0 {
        Seq::empty()
    } else {
        model_lines(models, (n - 1) as nat) + model_line(models[n - 1])
    }
}

/// The views of models that are referred to.
pub open spec fn facts_of(models: Seq<&ModelFacts>) -> Seq<FactsV> {
    models.map_values(|m: &ModelFacts| m@)
}

/// A list in order of ids with one model more, behind all whose ids are not
/// greater.
pub open spec fn placed(models: Seq<FactsV>, m: FactsV) -> Seq<FactsV>
    decreases models.len(),
{
    if models.len() == 0 || !precedes(m.id, models.last().id) {
        models.push(m)
    } else {
        placed(models.drop_last(), m).push(models.last())
    }
}

/// The first `n` models in order of ids; models of one id stay in the order that
/// they had.
pub open spec fn by_id(models: Seq<FactsV>, n: nat) -> Seq<FactsV>
    decreases n,
{
    if n == 0 {
        Seq::empty()
    } else {
        placed(by_id(models, (n - 1) as nat), models[n - 1])
    }
}

proof fn lemma_placed_at(models: Seq<FactsV>, m: FactsV, k: int)
    requires
        0 <= k <= models.len(),
        k == 0 || !precedes(m.id, models[k - 1].id),
        forall|j: int| k <= j < models.len() ==> precedes(m.id, #[trigger] models[j].id),
    ensures
        placed(models, m) == models.insert(k, m),
    decreases models.len(),
{
    if k < models.len() {
        let rest = models.drop_last();
        assert(models[models.len() - 1] == models.last());
        assert forall|j: int| k <= j < rest.len() implies precedes(m.id, #[trigger] rest[j].id) by {
            assert(rest[j] == models[j]);
        }
        lemma_placed_at(rest, m, k);
        assert(placed(models, m) == models.insert(k, m));
    } else {
        assert(models.push(m) == models.insert(k, m));
    }
}

fn sort_by_id<'a>(models: &Vec<&'a ModelFacts>) -> (r: Vec<&'a ModelFacts>)
    ensures
        facts_of(r@) == by_id(facts_of(models@), models@.len()),
{
    let ghost all = facts_of(models@);
    let mut out: Vec<&'a ModelFacts> = Vec::new();
    assert(facts_of(out@) == Seq::<FactsV>::empty());
    let mut i: usize = 0;
    while i < models.len()
        invariant
            i <= models.len(),
            all == facts_of(models@),
            out@.len() == i,
            facts_of(out@) == by_id(all, i as nat),
        decreases models.len() - i,
    {
        let m = models[i];
        let ghost before = facts_of(out@);
        assert(all[i as int] == m@);
        let mut k: usize = out.len();
        while k > 0 && is_before(m.id.as_str(), out[k - 1].id.as_str())
            invariant
                k <= out.len(),
                before == facts_of(out@),
                forall|j: int| k <= j < before.len() ==> precedes(m@.id, #[trigger] before[j].id),
            decreases k,
        {
            k -= 1;
            assert(before[k as int] == out@[k as int]@);
        }
        proof {
            if k > 0 {
                assert(before[k - 1] == out@[k - 1]@);
            }
            lemma_placed_at(before, m@, k as int);
        }
        out.insert(k, m);
        assert(facts_of(out@) == before.insert(k as int, m@));
        i += 1;
    }
    out
}

/// The header of the table.
pub open spec fn table_header() -> Seq<char> {
    table_line("ID"@, "PROVIDER"@, "CONTEXT"@, "COST_IN"@, "COST_OUT"@, "TOOL_CALL"@)
}

/// Models as a table in order of their ids.
pub fn render_models_table(models: &Vec<&ModelFacts>) -> (r: String)
    ensures
        r@ == table_header() + model_lines(by_id(facts_of(models@), models@.len()), models@.len()),
{
    let sorted = sort_by_id(models);
    let ghost all = facts_of(sorted@);
    proof {
        lemma_by_id_len(facts_of(models@), models@.len());
    }
    let mut lines = String::new();
    let mut i: usize = 0;
    while i < sorted.len()
        invariant
            i <= sorted.len(),
            all == facts_of(sorted@),
            lines@ == model_lines(all, i as nat),
        decreases sorted.len() - i,
    {
        let m = sorted[i];
        assert(all[i as int] == m@);
        let tool_call = if m.tool_call {
            "true"
        } else {
            "false"
        };
        lines.append(
            show_line(
                m.id.as_str(),
                m.provider.as_str(),
                show_count(m.context).as_str(),
                show_price(m.cost_input).as_str(),
                show_price(m.cost_output).as_str(),
                tool_call,
            ).as_str(),
        );
        i += 1;
    }
    let header = show_line("ID", "PROVIDER", "CONTEXT", "COST_IN", "COST_OUT", "TOOL_CALL");
    concat2(header.as_str(), lines.as_str())
}

proof fn lemma_placed_len(models: Seq<FactsV>, m: FactsV)
    ensures
        placed(models, m).len() == models.len() + 1,
    decreases models.len(),
{
    if models.len() > 0 {
        lemma_placed_len(models.drop_last(), m);
    }
}

proof fn lemma_by_id_len(models: Seq<FactsV>, n: nat)
    ensures
        by_id(models, n).len() == n,
    decreases n,
{
    if n > 0 {
        lemma_by_id_len(models, (n - 1) as nat);
        lemma_placed_len(by_id(models, (n - 1) as nat), models[n - 1]);
    }
}

/// Whether models stand in order of their ids.
pub open spec fn id_ordered(models: Seq<FactsV>) -> bool {
    forall|i: int, j: int|
        0 <= i < j < models.len() ==> !precedes((#[trigger] models[j]).id, (#[trigger] models[i]).id)
}

proof fn lemma_placed_orders(models: Seq<FactsV>, m: FactsV)
    requires
        id_ordered(models),
    ensures
        id_ordered(placed(models, m)),
        placed(models, m).to_multiset() == models.to_multiset().insert(m),
        placed(models, m).len() == models.len() + 1,
        placed(models, m).last() == m || (models.len() > 0 && placed(models, m).last() == models.last()),
        forall|i: int|
            0 <= i <= models.len() ==> (#[trigger] placed(models, m)[i]) == m || models.contains(
                placed(models, m)[i],
            ),
    decreases models.len(),
{
    broadcast use vstd::seq_lib::group_to_multiset_ensures;

    lemma_placed_len(models, m);
    let out = placed(models, m);
    if models.len() == 0 || !precedes(m.id, models.last().id) {
        assert forall|i: int, j: int| 0 <= i < j < out.len() implies !precedes(
            (#[trigger] out[j]).id,
            (#[trigger] out[i]).id,
        ) by {
            if j == models.len() && i < models.len() - 1 {
                let last = models.last().id;
                assert(!precedes(models[models.len() - 1].id, models[i].id));
                if precedes(m.id, models[i].id) {
                    lemma_precedes_total(last, models[i].id);
                    lemma_precedes_total(last, m.id);
                    if precedes(models[i].id, last) {
                        lemma_precedes_transitive(m.id, models[i].id, last);
                    }
                }
            }
        }
        assert forall|i: int| 0 <= i <= models.len() implies (#[trigger] out[i]) == m || models.contains(
            out[i],
        ) by {
            if i < models.len() {
                assert(models[i] == out[i]);
            }
        }
    } else {
        let rest = models.drop_last();
        let last = models.last();
        assert(models == rest.push(last));
        assert(models[models.len() - 1] == last);
        assert forall|i: int, j: int| 0 <= i < j < rest.len() implies !precedes(
            (#[trigger] rest[j]).id,
            (#[trigger] rest[i]).id,
        ) by {
            assert(rest[i] == models[i] && rest[j] == models[j]);
        }
        lemma_placed_orders(rest, m);
        let inner = placed(rest, m);
        assert(out == inner.push(last));
        assert forall|i: int, j: int| 0 <= i < j < out.len() implies !precedes(
            (#[trigger] out[j]).id,
            (#[trigger] out[i]).id,
        ) by {
            if j == inner.len() {
                assert(inner[i] == m || rest.contains(inner[i]));
                if inner[i] == m {
                    if precedes(last.id, m.id) {
                        lemma_precedes_transitive(m.id, last.id, m.id);
                        lemma_precedes_irreflexive(m.id);
                    }
                } else {
                    let k = choose|k: int| 0 <= k < rest.len() && rest[k] == inner[i];
                    assert(models[k] == inner[i]);
                    assert(!precedes(models[models.len() - 1].id, models[k].id));
                }
            } else {
                assert(out[i] == inner[i] && out[j] == inner[j]);
            }
        }
        assert(out.to_multiset() == inner.to_multiset().insert(last));
        assert(models.to_multiset() == rest.to_multiset().insert(last));
        assert(out.to_multiset() =~= models.to_multiset().insert(m));
        assert forall|i: int| 0 <= i <= models.len() implies (#[trigger] out[i]) == m || models.contains(
            out[i],
        ) by {
            if i < inner.len() {
                assert(out[i] == inner[i]);
                if inner[i] != m {
                    let k = choose|k: int| 0 <= k < rest.len() && rest[k] == inner[i];
                    assert(models[k] == inner[i]);
                }
            } else {
                assert(models[models.len() - 1] == out[i]);
            }
        }
    }
}

/// The table shows each model once, in order of the ids.
pub proof fn law_table_shows_all_in_order(models: Seq<FactsV>, n: nat)
    requires
        n <= models.len(),
    ensures
        id_ordered(by_id(models, n)),
        by_id(models, n).to_multiset() == models.take(n as int).to_multiset(),
    decreases n,
{
    broadcast use vstd::seq_lib::group_to_multiset_ensures;

    if n > 0 {
        law_table_shows_all_in_order(models, (n - 1) as nat);
        lemma_placed_orders(by_id(models, (n - 1) as nat), models[n - 1]);
        assert(models.take(n as int) == models.take(n - 1).push(models[n - 1]));
    } else {
        assert(models.take(0) == Seq::<FactsV>::empty());
    }
}

/// Whether a model is shown: all are, unless one provider is asked for.
pub open spec fn is_shown(m: FactsV, provider: Option<Seq<char>>) -> bool {
    match provider {
        Some(p) => m.provider == p,
        None => true,
    }
}

/// The models of a registry that are shown, in order.
pub fn models_of<'a>(registry: &'a Registry, provider: Option<&str>) -> (r: Vec<&'a ModelFacts>)
    ensures
        facts_of(r@) == registry@.models.filter(|m: FactsV| is_shown(m, opt_text(provider))),
{
    broadcast use vstd::seq_lib::group_seq_properties;

    let models = registry.all();
    let ghost all = registry@.models;
    let ghost shown = |m: FactsV| is_shown(m, opt_text(provider));
    let mut out: Vec<&'a ModelFacts> = Vec::new();
    proof {
        assert(facts_of(out@) == Seq::<FactsV>::empty());
        reveal(Seq::filter);
        assert(all.take(0).filter(shown) == Seq::<FactsV>::empty());
    }
    let mut i: usize = 0;
    while i < models.len()
        invariant
            i <= models.len(),
            all == views(models@),
            shown == (|m: FactsV| is_shown(m, opt_text(provider))),
            facts_of(out@) == all.take(i as int).filter(shown),
        decreases models.len() - i,
    {
        let m = &models[i];
        let ghost before = facts_of(out@);
        assert(all[i as int] == m@);
        let keep = match provider {
            Some(p) => same(m.provider.as_str(), p),
            None => true,
        };
        proof {
            reveal(Seq::filter);
            assert(all.take(i + 1).drop_last() == all.take(i as int));
            assert(all.take(i + 1).last() == m@);
        }
        if keep {
            out.push(m);
            assert(facts_of(out@) == before.push(m@));
        }
        i += 1;
    }
    assert(all.take(i as int) == all);
    out
}

/// The line of a model that was added or removed.
pub open spec fn key_line(sign: Seq<char>, k: ModelKeyV) -> Seq<char> {
    sign + k.id + " ("@ + k.provider + ")\n"@
}

/// The lines of the first `n` models.
pub open spec fn key_lines(sign: Seq<char>, keys: Seq<ModelKeyV>, n: nat) -> Seq<char>
    decreases n,
{
    if n == 0 {
        Seq::empty()
    } else {
        key_lines(sign, keys, (n - 1) as nat) + key_line(sign, keys[n - 1])
    }
}

/// A part of the difference under its title, left out where it is empty.
pub open spec fn key_part(title: Seq<char>, sign: Seq<char>, keys: Seq<ModelKeyV>) -> Seq<char> {
    if keys.len() > 0 {
        title + key_lines(sign, keys, keys.len())
    } else {
        ""@
    }
}

fn show_keys(title: &str, sign: &str, keys: &Vec<ModelKey>) -> (r: String)
    ensures
        r@ == key_part(title@, sign@, views(keys@)),
{
    if keys.len() == 0 {
        return "".to_owned();
    }
    let ghost all = views(keys@);
    let mut lines = String::new();
    let mut i: usize = 0;
    while i < keys.len()
        invariant
            i <= keys.len(),
            all == views(keys@),
            lines@ == key_lines(sign@, all, i as nat),
        decreases keys.len() - i,
    {
        let k = &keys[i];
        assert(all[i as int] == k@);
        let mut line = concat2(sign, k.id.as_str());
        line.append(" (");
        line.append(k.provider.as_str());
        line.append(")\n");
        lines.append(line.as_str());
        i += 1;
    }
    concat2(title, lines.as_str())
}

/// The names of the facts that changed.
pub open spec fn changed_names(c: ModelChangeV) -> Seq<Seq<char>> {
    (if c.context_changed {
        seq!["context"@]
    } else {
        Seq::empty()
    }) + (if c.cost_input_changed {
        seq!["cost_input"@]
    } else {
        Seq::empty()
    }) + (if c.cost_output_changed {
        seq!["cost_output"@]
    } else {
        Seq::empty()
    })
}

/// The line of a model that changed.
pub open spec fn change_line(c: ModelChangeV) -> Seq<char> {
    "  ~ "@ + c.id + " ("@ + c.provider + ") ("@ + joined(changed_names(c), ", "@) + ")\n"@
}

/// The lines of the first `n` models that changed.
pub open spec fn change_lines(changed: Seq<ModelChangeV>, n: nat) -> Seq<char>
    decreases n,
{
    if n == 0 {
        Seq::empty()
    } else {
        change_lines(changed, (n - 1) as nat) + change_line(changed[n - 1])
    }
}

fn show_change(c: &ModelChange) -> (r: String)
    ensures
        r@ == change_line(c@),
{
    let mut names: Vec<String> = Vec::new();
    if c.context_changed {
        names.push("context".to_owned());
    }
    if c.cost_input_changed {
        names.push("cost_input".to_owned());
    }
    if c.cost_output_changed {
        names.push("cost_output".to_owned());
    }
    assert(texts(names@) == changed_names(c@));
    let mut out = "  ~ ".to_owned();
    out.append(c.id.as_str());
    out.append(" (");
    out.append(c.provider.as_str());
    out.append(") (");
    out.append(crate::text::join(&names, ", ").as_str());
    out.append(")\n");
    out
}

/// The text of a difference.
pub open spec fn diff_text(d: RegistryDiffV) -> Seq<char> {
    if d.added.len() == 0 && d.removed.len() == 0 && d.changed.len() == 0 {
        "no differences\n"@
    } else {
        key_part("added:\n"@, "  + "@, d.added) + key_part("removed:\n"@, "  - "@, d.removed) + (
        if d.changed.len() > 0 {
            "changed:\n"@ + change_lines(d.changed, d.changed.len())
        } else {
            ""@
        })
    }
}

/// A difference as text: what was added, what was removed, and which facts changed.
pub fn render_diff(d: &RegistryDiff) -> (r: String)
    ensures
        r@ == diff_text(d@),
{
    if d.is_empty() {
        return "no differences\n".to_owned();
    }
    let mut out = show_keys("added:\n", "  + ", &d.added);
    out.append(show_keys("removed:\n", "  - ", &d.removed).as_str());
    let mut tail = "".to_owned();
    if d.changed.len() > 0 {
        let ghost all = views(d.changed@);
        let mut lines = String::new();
        let mut i: usize = 0;
        while i < d.changed.len()
            invariant
                i <= d.changed.len(),
                all == views(d.changed@),
                lines@ == change_lines(all, i as nat),
            decreases d.changed.len() - i,
        {
            assert(all[i as int] == d.changed@[i as int]@);
            lines.append(show_change(&d.changed[i]).as_str());
            i += 1;
        }
        tail = concat2("changed:\n", lines.as_str());
    }
    out.append(tail.as_str());
    out
}

/// What a failure to get at the models' source is reported as.
pub fn models_source_label(source: Option<&str>, from_network: bool) -> (r: String)
    requires
        from_network || source is Some,
    ensures
        r@ == if from_network {
            "failed to fetch models.dev"@
        } else {
            "failed to resolve "@ + source->Some_0@
        },
{
    if from_network {
        "failed to fetch models.dev".to_owned()
    } else {
        match source {
            Some(path) => concat2("failed to resolve ", path),
            None => "".to_owned(),
        }
    }
}

/// What is shown of a token, and whether it is good.
#[derive(Clone, PartialEq, Eq, Debug)]
pub struct TokenReport {
    pub text: String,
    pub valid: bool,
}

/// The claims of a token, one to a line.
pub open spec fn claims_text(t: ChainTokenV) -> Seq<char> {
    "cid: "@ + t.cid + "\nroute_id: "@ + t.route_id + "\nresume_index: "@ + decimal(
        t.resume_index as nat,
    ) + "\nhop: "@ + decimal(t.hop as nat) + "\nexpires_at: "@ + decimal(t.expires_at_unix as nat)
        + "\n"@
}

/// What is shown of a token that was decoded, and whether it is good. The claims are
/// shown of an expired token too.
pub open spec fn token_shown(decoded: Result<ChainTokenV, TokenError>, now: u64) -> (Seq<char>, bool) {
    match decoded {
        Ok(t) => if t.expires_at_unix <= now {
            (claims_text(t) + "valid: false (expired)\n"@, false)
        } else {
            (claims_text(t) + "valid: true\n"@, true)
        },
        Err(TokenError::BadMac) => ("valid: false (bad mac)\n"@, false),
        Err(TokenError::BadFormat) => ("valid: false (bad format)\n"@, false),
        Err(TokenError::Expired) => ("valid: false (expired)\n"@, false),
    }
}

/// The report on a token that was decoded.
pub fn token_report(decoded: &Result<ChainToken, TokenError>, now_unix: u64) -> (r: TokenReport)
    ensures
        (r.text@, r.valid) == token_shown(
            match decoded {
                Ok(t) => Ok(t@),
                Err(e) => Err(*e),
            },
            now_unix,
        ),
{
    match decoded {
        Ok(t) => {
            let mut out = "cid: ".to_owned();
            out.append(t.cid.as_str());
            out.append("\nroute_id: ");
            out.append(t.route_id.as_str());
            out.append("\nresume_index: ");
            out.append(decimal_text(t.resume_index as u64).as_str());
            out.append("\nhop: ");
            out.append(decimal_text(t.hop as u64).as_str());
            out.append("\nexpires_at: ");
            out.append(decimal_text(t.expires_at_unix).as_str());
            out.append("\n");
            if t.expires_at_unix <= now_unix {
                out.append("valid: false (expired)\n");
                TokenReport { text: out, valid: false }
            } else {
                out.append("valid: true\n");
                TokenReport { text: out, valid: true }
            }
        },
        Err(TokenError::BadMac) => TokenReport {
            text: "valid: false (bad mac)\n".to_owned(),
            valid: false,
        },
        Err(TokenError::BadFormat) => TokenReport {
            text: "valid: false (bad format)\n".to_owned(),
            valid: false,
        },
        Err(TokenError::Expired) => TokenReport {
            text: "valid: false (expired)\n".to_owned(),
            valid: false,
        },
    }
}

} // verus!
