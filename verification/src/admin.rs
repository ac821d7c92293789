//! The admin endpoints: who may reach them, and what they answer.

use std::sync::atomic::{AtomicBool, Ordering};
use std::sync::Arc;

use vstd::prelude::*;
use vstd::utf8::encode_utf8_decode_utf8;

use crate::text::{concat2, opt_text, same};

verus! {

/// Whether the gateway takes traffic yet: one flag, shared by all clones. The flag
/// changes behind shared references, so no contract here says what a later look at
/// it gives.
#[derive(Clone)]
pub struct Ready(Arc<AtomicBool>);

impl Ready {
    /// A flag that says no.
    pub fn new() -> Ready {
        Ready(Arc::new(AtomicBool::new(false)))
    }

    /// Makes the flag, for all clones, say yes.
    pub fn set_ready(&self) {
        self.0.store(true, Ordering::SeqCst);
    }

    /// What the flag says.
    pub fn is_ready(&self) -> bool {
        self.0.load(Ordering::SeqCst)
    }
}

impl Default for Ready {
    fn default() -> Ready {
        Ready::new()
    }
}

/// Calls `ConstantTimeEq::ct_eq` of subtle on two byte strings: whether they are the
/// same.
#[verifier::external_body]
fn same_bytes(a: &[u8], b: &[u8]) -> (r: bool)
    ensures
        r == (a@ == b@),
{
    subtle::ConstantTimeEq::ct_eq(a, b).into()
}

/// Whether a request may reach a path: the health check always, the others where
/// no token is set or the header carries it.
pub open spec fn may_reach(path: Seq<char>, token: Seq<char>, auth_header: Option<Seq<char>>) -> bool {
    path == "/healthz"@ || token.len() == 0 || auth_header == Some("Bearer "@ + token)
}

/// Whether a request may reach a path. The header is compared in constant time.
pub fn authorized(path: &str, token: &str, auth_header: Option<&str>) -> (r: bool)
    ensures
        r == may_reach(path@, token@, opt_text(auth_header)),
{
    if same(path, "/healthz") || token.is_empty() {
        return true;
    }
    let expected = concat2("Bearer ", token);
    match auth_header {
        Some(actual) => {
            let equal = same_bytes(actual.as_bytes(), expected.as_str().as_bytes());
            proof {
                encode_utf8_decode_utf8(actual@);
                encode_utf8_decode_utf8(expected@);
            }
            equal
        },
        None => false,
    }
}

/// An answer of the admin listener.
#[derive(Clone, PartialEq, Eq, Debug)]
pub struct AdminReply {
    pub status: u16,
    pub content_type: String,
    pub body: String,
}

#[verifier::ext_equal]
pub struct AdminReplyV {
    pub status: u16,
    pub content_type: Seq<char>,
    pub body: Seq<char>,
}

impl View for AdminReply {
    type V = AdminReplyV;

    open spec fn view(&self) -> AdminReplyV {
        AdminReplyV { status: self.status, content_type: self.content_type@, body: self.body@ }
    }
}

/// An answer of plain text.
pub open spec fn text_reply(status: u16, body: Seq<char>) -> AdminReplyV {
    AdminReplyV { status, content_type: "text/plain; charset=utf-8"@, body }
}

fn text_response(status: u16, body: &str) -> (r: AdminReply)
    ensures
        r@ == text_reply(status, body@),
{
    AdminReply {
        status,
        content_type: "text/plain; charset=utf-8".to_owned(),
        body: body.to_owned(),
    }
}

/// What a path answers.
pub open spec fn admin_route(path: Seq<char>, ready: bool, metrics: Seq<char>) -> AdminReplyV {
    if path == "/healthz"@ {
        text_reply(200, "ok"@)
    } else if path == "/readyz"@ {
        if ready {
            text_reply(200, "ok"@)
        } else {
            text_reply(503, "not ready"@)
        }
    } else if path == "/metrics"@ {
        AdminReplyV { status: 200, content_type: "text/plain; version=0.0.4"@, body: metrics }
    } else {
        text_reply(404, "not found"@)
    }
}

/// What a path answers, given whether traffic is taken and the metrics' text.
pub fn route_admin(path: &str, ready: bool, metrics: &str) -> (r: AdminReply)
    ensures
        r@ == admin_route(path@, ready, metrics@),
{
    if same(path, "/healthz") {
        text_response(200, "ok")
    } else if same(path, "/readyz") {
        if ready {
            text_response(200, "ok")
        } else {
            text_response(503, "not ready")
        }
    } else if same(path, "/metrics") {
        AdminReply {
            status: 200,
            content_type: "text/plain; version=0.0.4".to_owned(),
            body: metrics.to_owned(),
        }
    } else {
        text_response(404, "not found")
    }
}

/// What a request is answered.
pub open spec fn admin_answer(
    path: Seq<char>,
    token: Seq<char>,
    auth_header: Option<Seq<char>>,
    ready: bool,
    metrics: Seq<char>,
) -> AdminReplyV {
    if may_reach(path, token, auth_header) {
        admin_route(path, ready, metrics)
    } else {
        text_reply(401, "unauthorized"@)
    }
}

/// What a request is answered, given whether traffic is taken and the metrics'
/// text.
pub fn answer(
    path: &str,
    token: &str,
    auth_header: Option<&str>,
    ready: bool,
    metrics: &str,
) -> (r: AdminReply)
    ensures
        r@ == admin_answer(path@, token@, opt_text(auth_header), ready, metrics@),
{
    if !authorized(path, token, auth_header) {
        return text_response(401, "unauthorized");
    }
    route_admin(path, ready, metrics)
}

/// Whoever may not reach a path learns nothing of the gateway: the answer is the
/// same whether or not traffic is taken, and whatever the metrics are.
pub proof fn law_refusal_tells_nothing(
    path: Seq<char>,
    token: Seq<char>,
    auth_header: Option<Seq<char>>,
    ready_a: bool,
    ready_b: bool,
    metrics_a: Seq<char>,
    metrics_b: Seq<char>,
)
    requires
        !may_reach(path, token, auth_header),
    ensures
        admin_answer(path, token, auth_header, ready_a, metrics_a) == admin_answer(
            path,
            token,
            auth_header,
            ready_b,
            metrics_b,
        ),
        admin_answer(path, token, auth_header, ready_a, metrics_a).status == 401,
{
}

/// The health check answers whoever asks, whatever the token.
pub proof fn law_health_is_open(
    token: Seq<char>,
    auth_header: Option<Seq<char>>,
    ready: bool,
    metrics: Seq<char>,
)
    ensures
        admin_answer("/healthz"@, token, auth_header, ready, metrics) == text_reply(200, "ok"@),
{
}

} // verus!
