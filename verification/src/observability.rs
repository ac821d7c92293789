//! Names of metrics, and the ids that tie a request's traces together.

use vstd::prelude::*;
use vstd::utf8::{encode_utf8, is_ascii_chars, is_ascii_chars_encode_utf8};

use crate::text::chars_of;

verus! {

/// Requests handled, by route and outcome.
pub const METRIC_REQUESTS_TOTAL: &'static str = "sluice_requests_total";

/// Requests in flight.
pub const METRIC_INFLIGHT: &'static str = "sluice_inflight";

/// Seconds that requests took, by route.
pub const METRIC_REQUEST_DURATION_SECONDS: &'static str = "sluice_request_duration_seconds";

/// Upstream answers, by route and status.
pub const METRIC_UPSTREAM_STATUS_TOTAL: &'static str = "sluice_upstream_status_total";

/// Requests that a step answered.
pub const METRIC_SHORT_CIRCUIT_TOTAL: &'static str = "sluice_short_circuit_total";

/// Requests that a step gave up.
pub const METRIC_ABORT_TOTAL: &'static str = "sluice_abort_total";

/// Steps that failed.
pub const METRIC_STEP_ERROR_TOTAL: &'static str = "sluice_step_error_total";

/// Observed chunks that were dropped because the queue was full.
pub const METRIC_STREAM_SHED: &'static str = "sluice_stream_shed_total";

/// Whether a character is ASCII and no control character.
pub open spec fn plain(c: char) -> bool {
    ' ' <= c && c <= '~'
}

/// Whether a text may serve as a correlation id: one to 200 bytes, each a plain
/// ASCII character.
pub open spec fn valid_id(s: Seq<char>) -> bool {
    1 <= encode_utf8(s).len() <= 200 && forall|i: int| 0 <= i < s.len() ==> plain(#[trigger] s[i])
}

/// Whether a text may serve as a correlation id.
pub fn is_valid_correlation_id(s: &str) -> (r: bool)
    ensures
        r == valid_id(s@),
{
    let len = s.as_bytes().len();
    if len < 1 || len > 200 {
        return false;
    }
    let chars = chars_of(s);
    let mut i: usize = 0;
    while i < chars.len()
        invariant
            i <= chars.len(),
            chars@ == s@,
            forall|k: int| 0 <= k < i ==> plain(#[trigger] s@[k]),
        decreases chars.len() - i,
    {
        let c = chars[i];
        if c < ' ' || c > '~' {
            assert(!plain(s@[i as int]));
            return false;
        }
        i += 1;
    }
    true
}

/// Whether a character is a small hexadecimal digit.
pub open spec fn hex_digit(c: char) -> bool {
    ('0' <= c && c <= '9') || ('a' <= c && c <= 'f')
}

/// Whether a text has the shape of a random id: 32 small hexadecimal digits in
/// groups of 8, 4, 4, 4 and 12 with hyphens between, the version digit 4.
pub open spec fn uuid_shape(s: Seq<char>) -> bool {
    s.len() == 36 && s[14] == '4' && forall|i: int|
        0 <= i < 36 ==> if i == 8 || i == 13 || i == 18 || i == 23 {
            (#[trigger] s[i]) == '-'
        } else {
            hex_digit(s[i])
        }
}

/// Calls `Uuid::new_v4` of uuid and writes the id out. It is a random one; of every
/// id the shape is known.
#[verifier::external_body]
fn fresh_id() -> (r: String)
    ensures
        uuid_shape(r@),
{
    uuid::Uuid::new_v4().to_string()
}

/// An id of that shape may serve as a correlation id.
pub proof fn lemma_fresh_is_valid(s: Seq<char>)
    requires
        uuid_shape(s),
    ensures
        valid_id(s),
{
    assert forall|i: int| 0 <= i < s.len() implies plain(#[trigger] s[i]) by {}
    assert(is_ascii_chars(s));
    is_ascii_chars_encode_utf8(s);
}

/// The correlation id of a request: the one that it came with, if it may serve as
/// one, else the fresh one.
pub fn choose_correlation_id(inbound: Option<&str>, fresh: String) -> (r: String)
    ensures
        r@ == match inbound {
            Some(s) => if valid_id(s@) {
                s@
            } else {
                fresh@
            },
            None => fresh@,
        },
{
    match inbound {
        Some(s) => if is_valid_correlation_id(s) {
            s.to_owned()
        } else {
            fresh
        },
        None => fresh,
    }
}

/// The correlation id of a request: the one that it came with, if it may serve as
/// one, else a fresh one. It may serve as one in any case.
pub fn correlation_id_from(inbound: Option<&str>) -> (r: String)
    ensures
        match inbound {
            Some(s) => if valid_id(s@) {
                r@ == s@
            } else {
                uuid_shape(r@)
            },
            None => uuid_shape(r@),
        },
        valid_id(r@),
{
    let fresh = fresh_id();
    proof {
        lemma_fresh_is_valid(fresh@);
    }
    choose_correlation_id(inbound, fresh)
}

} // verus!
