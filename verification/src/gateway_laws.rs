//! What the gateway's own operations come to.

use vstd::prelude::*;
use vstd::utf8::{encode_utf8, is_ascii_chars, is_ascii_chars_encode_utf8};

use crate::admin::{admin_answer, may_reach, AdminReplyV};
use crate::config::watch::{watch_step, WatchEvent, WatchState};
use crate::config::{Hook, RouteV, StepType, StepV};
use crate::directive::{ops_applied, DirectiveV};
use crate::http_msg::{standard_text, HttpMsgV};
use crate::llm::tokenize::{estimate, estimate_all};
use crate::llm::PlainMessageV;
use crate::loopback::token::{
    claims_in, decoded, hmac_sha256, signed, url_bytes, url_text, verified, ChainTokenV, TokenError,
};
use crate::loopback::{found, is_young, offered, swept, takes_in, ContinuationV};
use crate::members::{members_text, record_in};
use crate::json::{JsonV, Num};
use crate::observability::valid_id;
use crate::probe::{
    next_step, probe_next, probe_request, probe_taken, step_label, ProbeActionV, ProbeV,
};
use crate::registry::{first_match, FactsV, RegistryV};
use crate::router::forwarded;
use crate::text::{decimal, lemma_split_first, lowered};
use crate::text_laws::law_splitting_loses_nothing;

verus! {

/// Whether a reply is a plain text with a status.
pub open spec fn is_text(r: AdminReplyV, status: u16, body: Seq<char>) -> bool {
    r.status == status && r.content_type == "text/plain; charset=utf-8"@ && r.body == body
}

/// What the admin endpoint answers. Every path but the health check asks for the token,
/// where there is one, as a bearer's; then each path has its own answer.
pub proof fn law_admin_answers(
    path: Seq<char>,
    token: Seq<char>,
    auth: Option<Seq<char>>,
    ready: bool,
    metrics: Seq<char>,
)
    ensures
        ({
            let r = admin_answer(path, token, auth, ready, metrics);
            let refused = path != "/healthz"@ && token.len() > 0 && auth != Some("Bearer "@ + token);
            &&& refused <==> !may_reach(path, token, auth)
            &&& refused ==> is_text(r, 401, "unauthorized"@)
            &&& !refused ==> {
                &&& path == "/healthz"@ ==> is_text(r, 200, "ok"@)
                &&& path == "/readyz"@ && ready ==> is_text(r, 200, "ok"@)
                &&& path == "/readyz"@ && !ready ==> is_text(r, 503, "not ready"@)
                &&& path == "/metrics"@ ==> r.status == 200 && r.content_type == "text/plain; version=0.0.4"@ && r.body
                    == metrics
                &&& path != "/healthz"@ && path != "/readyz"@ && path != "/metrics"@ ==> is_text(r, 404, "not found"@)
            }
        }),
{
    reveal_strlit("/healthz");
    reveal_strlit("/readyz");
    reveal_strlit("/metrics");
    assert("/healthz"@[1] == 'h' && "/metrics"@[1] == 'm');
}

/// A path goes to the upstream without the route that it starts with: with a slash in
/// front or without one, all that follows the route's name is kept, and a path that is
/// the route alone goes to the upstream itself.
pub proof fn law_paths_are_forwarded(upstream: Seq<char>, route: Seq<char>, rest: Seq<char>)
    requires
        !route.contains('/'),
    ensures
        forwarded(upstream, "/"@ + route + "/"@ + rest) == upstream + "/"@ + rest,
        forwarded(upstream, "/"@ + route) == upstream,
        forwarded(upstream, route) == upstream,
        route.len() > 0 ==> forwarded(upstream, route + "/"@ + rest) == upstream + "/"@ + rest,
{
    reveal_strlit("/");
    crate::router::law_only_the_route_is_taken(upstream, route, rest);
    lemma_split_first(route, '/', rest);
    law_splitting_loses_nothing(route, '/');
    assert(route + "/"@ + rest == route + seq!['/'] + rest);
    if route.len() > 0 {
        assert(route.contains(route[0]));
        assert((route + "/"@ + rest)[0] == route[0]);
    }
}

/// Setting and deleting a header, and replacing the body or the path, changes that one
/// thing; the name of a header is taken in small letters.
pub proof fn law_messages_change_in_one_place(
    m: HttpMsgV,
    name: Seq<char>,
    value: Seq<char>,
    other: Seq<char>,
)
    ensures
        ({
            let set = m.with_header(name, value);
            let cut = m.without_header(name);
            &&& set.headers.dom().contains(lowered(name)) && set.headers[lowered(name)] == value
            &&& !cut.headers.dom().contains(lowered(name))
            &&& other != lowered(name) ==> {
                &&& set.headers.dom().contains(other) <==> m.headers.dom().contains(other)
                &&& cut.headers.dom().contains(other) <==> m.headers.dom().contains(other)
                &&& m.headers.dom().contains(other) ==> set.headers[other] == m.headers[other] && cut.headers[other]
                    == m.headers[other]
            }
            &&& set.method == m.method && set.path == m.path && set.body_b64 == m.body_b64
            &&& cut.method == m.method && cut.path == m.path && cut.body_b64 == m.body_b64
        }),
        m.with_body(value).body_b64 == value && m.with_body(value).headers == m.headers && m.with_body(value).path
            == m.path && m.with_body(value).method == m.method,
        m.with_path(value).path == value && m.with_path(value).headers == m.headers && m.with_path(value).body_b64
            == m.body_b64 && m.with_path(value).method == m.method,
{
}

/// A text may serve as a correlation id exactly where it has one to 200 characters, each
/// of them printable ASCII.
pub proof fn law_ids_are_short_and_plain(s: Seq<char>)
    ensures
        valid_id(s) <==> 1 <= s.len() <= 200 && forall|i: int|
            0 <= i < s.len() ==> 0x20 <= (#[trigger] s[i]) as int && s[i] as int <= 0x7e,
{
    if forall|i: int| 0 <= i < s.len() ==> 0x20 <= (#[trigger] s[i]) as int && s[i] as int <= 0x7e {
        assert(is_ascii_chars(s));
        is_ascii_chars_encode_utf8(s);
        assert forall|i: int| 0 <= i < s.len() implies crate::observability::plain(#[trigger] s[i]) by {}
    }
    if valid_id(s) {
        assert forall|i: int| 0 <= i < s.len() implies 0x20 <= (#[trigger] s[i]) as int && s[i] as int <= 0x7e by {
            assert(crate::observability::plain(s[i]));
        }
        assert(is_ascii_chars(s));
        is_ascii_chars_encode_utf8(s);
    }
}

/// The watcher: a change makes it wait for quiet, quiet after a change makes it reload,
/// and nothing else does. An error is told only while nothing is under way, and the end
/// of the watched channel ends it for good.
pub proof fn law_watcher_waits_for_quiet(state: WatchState, event: WatchEvent)
    ensures
        ({
            let (next, action) = watch_step(state, event);
            &&& action is Reload <==> state is Settling && event is Quiet
            &&& action is Stop <==> state is Finished || event is Closed
            &&& next is Finished <==> state is Finished || event is Closed
            &&& action is Warn <==> state is Idle && event is Failed
            &&& action is Wait <==> state is Idle && event is Quiet
            &&& next is Settling <==> (state is Idle && event is Changed) || (state is Settling && (event is Changed
                || event is Failed))
            &&& action is WaitForQuiet <==> next is Settling
        }),
{
}

/// A chain is parked where it already is or there is room, and only there; sweeping
/// keeps exactly the chains that have been parked for less than the time.
pub proof fn law_chains_are_parked_and_swept(
    map: Map<Seq<char>, ContinuationV>,
    cid: Seq<char>,
    c: ContinuationV,
    max_parked: nat,
    now: u128,
    ttl: u128,
)
    ensures
        takes_in(map, cid, max_parked) <==> map.dom().contains(cid) || map.dom().len() < max_parked,
        map.dom().contains(cid) || map.dom().len() < max_parked ==> offered(map, cid, c, max_parked) == map.insert(cid, c),
        !map.dom().contains(cid) && map.dom().len() >= max_parked ==> offered(map, cid, c, max_parked) == map,
        found(map, cid) == if map.dom().contains(cid) {
            Some(map[cid])
        } else {
            None
        },
        swept(map, now, ttl).dom().contains(cid) <==> map.dom().contains(cid) && ttl > 0 && now < map[cid].created + ttl,
        swept(map, now, ttl).dom().contains(cid) ==> swept(map, now, ttl)[cid] == map[cid],
        is_young(c, now, ttl) <==> ttl > 0 && now < c.created + ttl,
{
}

/// A token is its claims and their code, each in the URL alphabet, with a dot between;
/// the claims are written by name, in order.
pub proof fn law_tokens_are_signed(t: ChainTokenV, secret: Seq<u8>)
    ensures
        ({
            let claims = encode_utf8(
                members_text(
                    seq!["cid"@, "route_id"@, "resume_index"@, "hop"@, "expires_at_unix"@],
                    seq![
                        JsonV::Str(t.cid),
                        JsonV::Str(t.route_id),
                        JsonV::Number(Num::PosInt(t.resume_index as u64)),
                        JsonV::Number(Num::PosInt(t.hop as u64)),
                        JsonV::Number(Num::PosInt(t.expires_at_unix)),
                    ],
                ),
            );
            signed(t, secret) == url_text(claims) + "."@ + url_text(hmac_sha256(secret, claims))
        }),
{
    crate::field_names::law_loopback_token_names();
}

/// A token is read: what stands before the first dot and behind it must be in the URL
/// alphabet, the code must be that of the claims under the secret, and the claims must
/// be a record of all of them. One that has run out is refused.
pub proof fn law_tokens_are_read(
    token: Seq<char>,
    left: Seq<char>,
    right: Seq<char>,
    secret: Seq<u8>,
    now: u64,
)
    ensures
        !token.contains('.') ==> decoded(token, secret) == Err::<ChainTokenV, TokenError>(TokenError::BadFormat),
        token == left.push('.') + right && !left.contains('.') ==> {
            let d = decoded(token, secret);
            match (url_bytes(left), url_bytes(right)) {
                (Some(claims), Some(code)) => {
                    &&& code != hmac_sha256(secret, claims) ==> d == Err::<ChainTokenV, TokenError>(TokenError::BadMac)
                    &&& code == hmac_sha256(secret, claims) ==> match record_in(
                        claims,
                        seq!["cid"@, "route_id"@, "resume_index"@, "hop"@, "expires_at_unix"@],
                    ) {
                        Some(v) => match claims_in(v) {
                            Some(t) => d == Ok::<ChainTokenV, TokenError>(t),
                            None => d == Err::<ChainTokenV, TokenError>(TokenError::BadFormat),
                        },
                        None => d == Err::<ChainTokenV, TokenError>(TokenError::BadFormat),
                    }
                },
                _ => d == Err::<ChainTokenV, TokenError>(TokenError::BadFormat),
            }
        },
        match decoded(token, secret) {
            Ok(t) => {
                &&& now < t.expires_at_unix ==> verified(token, secret, now) == Ok::<ChainTokenV, TokenError>(t)
                &&& now >= t.expires_at_unix ==> verified(token, secret, now) == Err::<ChainTokenV, TokenError>(
                    TokenError::Expired,
                )
            },
            Err(e) => verified(token, secret, now) == Err::<ChainTokenV, TokenError>(e),
        },
        TokenError::BadFormat.text() == "chain token is malformed"@,
        TokenError::BadMac.text() == "chain token MAC verification failed"@,
        TokenError::Expired.text() == "chain token has expired"@,
{
    crate::field_names::law_loopback_token_names();
    law_splitting_loses_nothing(token, '.');
    if !left.contains('.') {
        lemma_split_first(left, '.', right);
        assert(left + seq!['.'] + right == left.push('.') + right);
    }
}

/// The facts of a model are those of the first entry with its provider and its id.
pub proof fn law_models_are_found(models: Seq<FactsV>, provider: Seq<char>, id: Seq<char>, i: int)
    ensures
        0 <= i < models.len() && models[i].provider == provider && models[i].id == id && (forall|j: int|
            0 <= j < i ==> !((#[trigger] models[j]).provider == provider && models[j].id == id)) ==> first_match(
            models,
            provider,
            id,
        ) == Some(models[i]),
        (forall|j: int|
            0 <= j < models.len() ==> !((#[trigger] models[j]).provider == provider && models[j].id == id))
            ==> first_match(models, provider, id) is None,
        (RegistryV { models }).find(provider, id) == first_match(models, provider, id),
    decreases models.len(),
{
    if models.len() > 0 {
        let rest = models.drop_first();
        law_models_are_found(rest, provider, id, i - 1);
        assert forall|j: int| 0 <= j < rest.len() implies #[trigger] rest[j] == models[j + 1] by {}
    }
}

/// A text is estimated at a token for every four characters, begun ones counted whole;
/// messages at the sum of their contents.
pub proof fn law_tokens_are_estimated(text: Seq<char>, messages: Seq<PlainMessageV>, last: PlainMessageV)
    ensures
        text.len() <= 4 * estimate(text) < text.len() + 4,
        estimate_all(messages, 0) == 0,
        estimate_all(messages.push(last), messages.len() + 1) == estimate_all(messages, messages.len()) + estimate(
            last.content,
        ),
{
    lemma_same_estimate(messages, last, messages.len());
}

proof fn lemma_same_estimate(messages: Seq<PlainMessageV>, last: PlainMessageV, n: nat)
    requires
        n <= messages.len(),
    ensures
        estimate_all(messages.push(last), n) == estimate_all(messages, n),
    decreases n,
{
    if n > 0 {
        lemma_same_estimate(messages, last, (n - 1) as nat);
        assert(messages.push(last)[n - 1] == messages[n - 1]);
    }
}

/// A step has the name that it was given, else its kind and its place.
pub proof fn law_steps_are_named(s: StepV, index: nat)
    ensures
        s.effective_name(index) == match s.name {
            Some(name) => name,
            None => match s.type_ {
                StepType::Url => "url"@ + ":"@ + decimal(index),
                StepType::Script => "script"@ + ":"@ + decimal(index),
                StepType::Wasm => "wasm"@ + ":"@ + decimal(index),
            },
        },
{
}

/// A probe sends an empty JSON object to the route.
pub proof fn law_probes_send_an_empty_object(route_id: Seq<char>, name: Seq<char>)
    ensures
        ({
            let m = probe_request(route_id);
            &&& m.method == "POST"@
            &&& m.path == "/"@ + route_id + "/probe"@
            &&& m.headers.dom().contains(name) <==> name == "content-type"@
            &&& m.headers["content-type"@] == "application/json"@
            &&& m.body_b64 == standard_text(encode_utf8("{}"@))
        }),
{
}

proof fn lemma_next_step(steps: Seq<StepV>, from: nat)
    ensures
        match next_step(steps, from) {
            Some(i) => from <= i < steps.len() && steps[i as int].hook is OnRequest && forall|j: int|
                from <= j < i ==> !((#[trigger] steps[j]).hook is OnRequest),
            None => forall|j: int| from <= j < steps.len() ==> !((#[trigger] steps[j]).hook is OnRequest),
        },
    decreases steps.len() - from,
{
    if from < steps.len() && !(steps[from as int].hook is OnRequest) {
        lemma_next_step(steps, from + 1);
    }
}

/// What a note on a step begins with.
pub open spec fn note_on(s: StepV, i: nat) -> Seq<char> {
    s.effective_name(i) + " ("@ + (match s.type_ {
        StepType::Url => "url"@,
        StepType::Script => "script"@,
        StepType::Wasm => "wasm"@,
    }) + "/"@ + (match s.hook {
        Hook::OnRequest => "on_request"@,
        Hook::OnResponse => "on_response"@,
        Hook::OnStream => "on_stream"@,
    }) + ") -> "@
}

/// A probe visits the steps that run on requests, in order, each from where the last one
/// left off: a loopback step is noted, any other is called with an envelope of the
/// request as it then is, and behind the last the request would go on.
pub proof fn law_probes_visit_each_step(p: ProbeV, route: RouteV, cid: Seq<char>, i: nat)
    ensures
        ({
            let (after, action) = probe_next(p, route, cid);
            let s = route.steps[i as int];
            let is_next = p.next <= i < route.steps.len() && s.hook is OnRequest && forall|j: int|
                p.next <= j < i ==> !((#[trigger] route.steps[j]).hook is OnRequest);
            &&& after.worked == p.worked
            &&& is_next && s.mode is Loopback ==> after.next == i + 1 && action == ProbeActionV::Note(
                note_on(s, i) + "skipped (loopback needs live infra)"@,
            )
            &&& is_next && !(s.mode is Loopback) ==> after.next == i + 1 && (action matches ProbeActionV::Call {
                index,
                envelope,
            } && {
                &&& index == i
                &&& envelope.envelope_version == 1
                &&& envelope.hook == "on_request"@
                &&& envelope.route_id == route.id
                &&& envelope.correlation_id == cid
                &&& envelope.self_ == Some(s.effective_name(i))
                &&& envelope.request == p.worked.req
                &&& envelope.context == p.worked.context
                &&& envelope.response is None && envelope.chunk is None && envelope.llm is None
            })
            &&& (forall|j: int| p.next <= j < route.steps.len() ==> !((#[trigger] route.steps[j]).hook is OnRequest))
                ==> action is Forward && after.next == route.steps.len()
        }),
{
    lemma_next_step(route.steps, p.next);
}

/// A probe takes a step's answer: operations that can be applied change the request and
/// let it go on; a response, a chunk, an error or operations that are refused end it,
/// and change nothing.
pub proof fn law_probes_take_answers(
    p: ProbeV,
    s: StepV,
    i: nat,
    answer: Result<DirectiveV, Seq<char>>,
    ms: u64,
    cap: nat,
)
    ensures
        ({
            let (after, note, on) = probe_taken(p, s, i, answer, ms, cap);
            let label = note_on(s, i);
            let took = " ["@ + decimal(ms as nat) + "ms]"@;
            &&& after.next == p.next
            &&& step_label(s, i) == label
            &&& match answer {
                Ok(DirectiveV::Continue { ops }) => match ops_applied(
                    p.worked,
                    s.effective_name(i),
                    ops,
                    ops.len(),
                    cap,
                ) {
                    Ok(worked) => after.worked == worked && note == label + "continue"@ + took && on,
                    Err(e) => after == p && note == label + "continue"@ + took + "\n  note: ops rejected ("@ + e.text()
                        + "); chain stops here"@ && !on,
                },
                Ok(DirectiveV::ShortCircuit { response }) => after == p && note == label + "short_circuit (status "@
                    + decimal(response.status as nat) + ")"@ + took && !on,
                Ok(DirectiveV::Abort { response }) => after == p && note == label + "abort (status "@ + decimal(
                    response.status as nat,
                ) + ")"@ + took && !on,
                Ok(_) => after == p && note == label + "error (emit/drop is on_stream-only)"@ + took && !on,
                Err(why) => after == p && note == label + "error: "@ + why + took && !on,
            }
        }),
{
}

} // verus!
