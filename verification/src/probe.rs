//! Probing a route: a made-up request is sent through the steps that run on
//! requests, and what each decides is noted. Nothing reaches the upstream.

use vstd::prelude::*;
use vstd::utf8::encode_utf8;

use crate::config::{step_type_name, Hook, Route, RouteV, Step, StepV, UrlMode};
use crate::directive::{apply_ops, ops_applied, Directive, DirectiveV, Worked};
use crate::envelope::{build_request_envelope, Envelope, EnvelopeV, ENVELOPE_VERSION};
use crate::http_msg::{standard_text, HeaderMap, HttpMsg, HttpMsgV};
use crate::json::{JsonMap, JsonV};
use crate::report::{hook_name, hook_str, step_type_str};
use crate::text::{concat2, concat3, decimal, decimal_text, views};

verus! {

/// The request that a route is probed with.
pub open spec fn probe_request(route_id: Seq<char>) -> HttpMsgV {
    HttpMsgV {
        method: "POST"@,
        path: "/"@ + route_id + "/probe"@,
        headers: Map::<Seq<char>, Seq<char>>::empty().insert("content-type"@, "application/json"@),
        body_b64: standard_text(encode_utf8("{}"@)),
    }
}

/// The request that a route is probed with.
pub fn probe_message(route_id: &str) -> (r: HttpMsg)
    ensures
        r@ == probe_request(route_id@),
{
    let mut headers = HeaderMap::new();
    headers.insert("content-type".to_owned(), "application/json".to_owned());
    let mut msg = HttpMsg {
        method: "POST".to_owned(),
        path: concat3("/", route_id, "/probe"),
        headers,
        body_b64: String::new(),
    };
    msg.set_body_bytes("{}".as_bytes());
    msg
}

/// A probe on its way: the request as the steps so far have left it, what they keep,
/// and the place of the step to look at next.
#[derive(Clone, PartialEq, Debug)]
pub struct Probe {
    pub msg: HttpMsg,
    pub context: JsonMap,
    pub next: usize,
}

#[verifier::ext_equal]
pub struct ProbeV {
    pub worked: Worked,
    pub next: nat,
}

impl View for Probe {
    type V = ProbeV;

    open spec fn view(&self) -> ProbeV {
        ProbeV {
            worked: Worked { req: self.msg@, context: self.context@ },
            next: self.next as nat,
        }
    }
}

/// What a probe does next.
#[derive(Clone, PartialEq, Debug)]
pub enum ProbeAction {
    /// Note a step that cannot be probed.
    Note(String),
    /// Hand the envelope to the step of that place, and take its answer.
    Call { index: usize, envelope: Envelope },
    /// Stop: the request would go to the upstream now.
    Forward,
}

#[verifier::ext_equal]
pub enum ProbeActionV {
    Note(Seq<char>),
    Call { index: nat, envelope: EnvelopeV },
    Forward,
}

impl View for ProbeAction {
    type V = ProbeActionV;

    open spec fn view(&self) -> ProbeActionV {
        match self {
            ProbeAction::Note(line) => ProbeActionV::Note(line@),
            ProbeAction::Call { index, envelope } => ProbeActionV::Call {
                index: *index as nat,
                envelope: envelope@,
            },
            ProbeAction::Forward => ProbeActionV::Forward,
        }
    }
}

/// What a note begins with: the step's name, its kind and its hook.
pub open spec fn step_label(s: StepV, i: nat) -> Seq<char> {
    s.effective_name(i) + " ("@ + step_type_name(s.type_) + "/"@ + hook_name(s.hook) + ") -> "@
}

fn show_label(s: &Step, i: usize) -> (r: String)
    ensures
        r@ == step_label(s@, i as nat),
{
    let mut out = s.effective_name(i);
    out.append(" (");
    out.append(step_type_str(s.type_));
    out.append("/");
    out.append(hook_str(s.hook));
    out.append(") -> ");
    out
}

/// Whether a step waits for a call back, which a probe cannot give.
pub open spec fn waits(s: StepV) -> bool {
    s.mode == UrlMode::Loopback
}

/// The first step from a place on that runs on requests.
pub open spec fn next_step(steps: Seq<StepV>, from: nat) -> Option<nat>
    decreases steps.len() - from,
{
    if from >= steps.len() {
        None
    } else if steps[from as int].hook == Hook::OnRequest {
        Some(from)
    } else {
        next_step(steps, from + 1)
    }
}

/// The envelope that a probed step is handed.
pub open spec fn probe_envelope(p: ProbeV, route: RouteV, i: nat, correlation_id: Seq<char>) -> EnvelopeV {
    EnvelopeV {
        envelope_version: ENVELOPE_VERSION,
        hook: "on_request"@,
        route_id: route.id,
        correlation_id,
        self_: Some(route.steps[i as int].effective_name(i)),
        request: p.worked.req,
        response: None,
        chunk: None,
        llm: None,
        context: p.worked.context,
    }
}

/// Where a probe stands after its next action, and the action.
pub open spec fn probe_next(p: ProbeV, route: RouteV, correlation_id: Seq<char>) -> (
    ProbeV,
    ProbeActionV,
) {
    match next_step(route.steps, p.next) {
        None => (ProbeV { next: route.steps.len(), ..p }, ProbeActionV::Forward),
        Some(i) => if waits(route.steps[i as int]) {
            (
                ProbeV { next: i + 1, ..p },
                ProbeActionV::Note(
                    step_label(route.steps[i as int], i) + "skipped (loopback needs live infra)"@,
                ),
            )
        } else {
            (
                ProbeV { next: i + 1, ..p },
                ProbeActionV::Call { index: i, envelope: probe_envelope(p, route, i, correlation_id) },
            )
        },
    }
}

/// What a step's answer is noted as.
#[derive(Clone, PartialEq, Eq, Debug)]
pub struct ProbeNote {
    /// One line, or two where the changes are refused.
    pub text: String,
    /// Whether the next step is looked at.
    pub go_on: bool,
}

/// How long a step took, in brackets.
pub open spec fn took(ms: u64) -> Seq<char> {
    " ["@ + decimal(ms as nat) + "ms]"@
}

/// What a probe makes of a step's answer, and what it notes.
pub open spec fn probe_taken(
    p: ProbeV,
    s: StepV,
    i: nat,
    answer: Result<DirectiveV, Seq<char>>,
    ms: u64,
    cap: nat,
) -> (ProbeV, Seq<char>, bool) {
    let label = step_label(s, i);
    match answer {
        Ok(DirectiveV::Continue { ops }) => {
            match ops_applied(p.worked, s.effective_name(i), ops, ops.len(), cap) {
                Ok(worked) => (ProbeV { worked, ..p }, label + "continue"@ + took(ms), true),
                Err(e) => (
                    p,
                    label + "continue"@ + took(ms) + "\n  note: ops rejected ("@ + e.text()
                        + "); chain stops here"@,
                    false,
                ),
            }
        },
        Ok(DirectiveV::ShortCircuit { response }) => (
            p,
            label + "short_circuit (status "@ + decimal(response.status as nat) + ")"@ + took(ms),
            false,
        ),
        Ok(DirectiveV::Abort { response }) => (
            p,
            label + "abort (status "@ + decimal(response.status as nat) + ")"@ + took(ms),
            false,
        ),
        Ok(DirectiveV::Emit { .. }) => (
            p,
            label + "error (emit/drop is on_stream-only)"@ + took(ms),
            false,
        ),
        Ok(DirectiveV::Drop { .. }) => (
            p,
            label + "error (emit/drop is on_stream-only)"@ + took(ms),
            false,
        ),
        Err(why) => (p, label + "error: "@ + why + took(ms), false),
    }
}

fn show_took(ms: u64) -> (r: String)
    ensures
        r@ == took(ms),
{
    concat3(" [", decimal_text(ms).as_str(), "ms]")
}

/// The view of a step's answer.
pub open spec fn answer_view(answer: Result<Directive, String>) -> Result<DirectiveV, Seq<char>> {
    match answer {
        Ok(d) => Ok(d@),
        Err(why) => Err(why@),
    }
}

impl Probe {
    /// A probe of a route, before its first step.
    pub fn start(route_id: &str) -> (r: Probe)
        ensures
            r@ == (ProbeV {
                worked: Worked {
                    req: probe_request(route_id@),
                    context: Map::<Seq<char>, JsonV>::empty(),
                },
                next: 0,
            }),
    {
        Probe { msg: probe_message(route_id), context: JsonMap::new(), next: 0 }
    }

    /// What to do next.
    pub fn advance(&mut self, route: &Route, correlation_id: &str) -> (r: ProbeAction)
        ensures
            (final(self)@, r@) == probe_next(old(self)@, route@, correlation_id@),
    {
        let ghost p = self@;
        let ghost steps = route@.steps;
        let mut i: usize = self.next;
        while i < route.steps.len()
            invariant
                *self == *old(self),
                p == self@,
                steps == views(route.steps@),
                steps == route@.steps,
                next_step(steps, p.next) == next_step(steps, i as nat),
            decreases route.steps.len() - i,
        {
            let step = &route.steps[i];
            assert(steps[i as int] == step@);
            if step.hook == Hook::OnRequest {
                self.next = i + 1;
                if step.mode == UrlMode::Loopback {
                    let line = concat2(
                        show_label(step, i).as_str(),
                        "skipped (loopback needs live infra)",
                    );
                    return ProbeAction::Note(line);
                }
                let name = step.effective_name(i);
                let envelope = build_request_envelope(
                    route.id.as_str(),
                    name.as_str(),
                    &self.msg,
                    &self.context,
                    correlation_id,
                    None,
                );
                let action = ProbeAction::Call { index: i, envelope };
                assert((self@, action@) == probe_next(p, route@, correlation_id@));
                return action;
            }
            i += 1;
        }
        self.next = route.steps.len();
        ProbeAction::Forward
    }

    /// Takes the answer of the step at a place, which took so many milliseconds.
    pub fn take(
        &mut self,
        step: &Step,
        index: usize,
        answer: Result<Directive, String>,
        elapsed_ms: u64,
        max_context_bytes: usize,
    ) -> (r: ProbeNote)
        ensures
            (final(self)@, r.text@, r.go_on) == probe_taken(
                old(self)@,
                step@,
                index as nat,
                answer_view(answer),
                elapsed_ms,
                max_context_bytes as nat,
            ),
    {
        let label = show_label(step, index);
        let time = show_took(elapsed_ms);
        let mut text = label;
        match answer {
            Ok(Directive::Continue { ops }) => {
                let name = step.effective_name(index);
                text.append("continue");
                text.append(time.as_str());
                match apply_ops(
                    &mut self.msg,
                    &mut self.context,
                    name.as_str(),
                    ops.as_slice(),
                    max_context_bytes,
                ) {
                    Ok(_) => ProbeNote { text, go_on: true },
                    Err(e) => {
                        text.append("\n  note: ops rejected (");
                        text.append(e.message().as_str());
                        text.append("); chain stops here");
                        ProbeNote { text, go_on: false }
                    },
                }
            },
            Ok(Directive::ShortCircuit { response }) => {
                text.append("short_circuit (status ");
                text.append(decimal_text(response.status as u64).as_str());
                text.append(")");
                text.append(time.as_str());
                ProbeNote { text, go_on: false }
            },
            Ok(Directive::Abort { response }) => {
                text.append("abort (status ");
                text.append(decimal_text(response.status as u64).as_str());
                text.append(")");
                text.append(time.as_str());
                ProbeNote { text, go_on: false }
            },
            Ok(Directive::Emit { .. }) => {
                text.append("error (emit/drop is on_stream-only)");
                text.append(time.as_str());
                ProbeNote { text, go_on: false }
            },
            Ok(Directive::Drop { .. }) => {
                text.append("error (emit/drop is on_stream-only)");
                text.append(time.as_str());
                ProbeNote { text, go_on: false }
            },
            Err(why) => {
                text.append("error: ");
                text.append(why.as_str());
                text.append(time.as_str());
                ProbeNote { text, go_on: false }
            },
        }
    }
}

proof fn lemma_next_step_is_ahead(steps: Seq<StepV>, from: nat)
    ensures
        match next_step(steps, from) {
            Some(i) => from <= i < steps.len() && steps[i as int].hook == Hook::OnRequest && forall|k: int|
                from <= k < i ==> (#[trigger] steps[k]).hook != Hook::OnRequest,
            None => forall|k: int|
                from <= k < steps.len() ==> (#[trigger] steps[k]).hook != Hook::OnRequest,
        },
    decreases steps.len() - from,
{
    if from < steps.len() && steps[from as int].hook != Hook::OnRequest {
        lemma_next_step_is_ahead(steps, from + 1);
    }
}

/// A probe goes forward only, never past the end, and skips no step that runs on
/// requests.
pub proof fn law_probe_goes_forward(p: ProbeV, route: RouteV, correlation_id: Seq<char>)
    requires
        p.next <= route.steps.len(),
    ensures
        ({
            let (after, action) = probe_next(p, route, correlation_id);
            &&& p.next <= after.next <= route.steps.len()
            &&& after.worked == p.worked
            &&& !(action is Forward) ==> p.next < after.next && route.steps[after.next - 1].hook
                == Hook::OnRequest
            &&& forall|k: int|
                p.next <= k < after.next - (if action is Forward {
                    0int
                } else {
                    1
                }) ==> (#[trigger] route.steps[k]).hook != Hook::OnRequest
        }),
{
    lemma_next_step_is_ahead(route.steps, p.next);
}

/// A step that is called is one that runs on requests and waits for no call back,
/// and it is handed the request as the steps before have left it.
pub proof fn law_called_steps_can_answer(p: ProbeV, route: RouteV, correlation_id: Seq<char>)
    ensures
        match probe_next(p, route, correlation_id).1 {
            ProbeActionV::Call { index, envelope } => {
                &&& index < route.steps.len()
                &&& route.steps[index as int].hook == Hook::OnRequest
                &&& !waits(route.steps[index as int])
                &&& envelope.request == p.worked.req
                &&& envelope.context == p.worked.context
            },
            _ => true,
        },
{
    lemma_next_step_is_ahead(route.steps, p.next);
}

} // verus!
