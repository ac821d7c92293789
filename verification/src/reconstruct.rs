//! Rules for rebuilding messages on their way out.

use vstd::prelude::*;

use crate::text::{is_one_of, lowered, strs};

verus! {

/// The framing headers, which the gateway owns and sets itself.
pub const FRAMING_HEADERS: [&'static str; 6] = [
    "connection",
    "transfer-encoding",
    "content-length",
    "keep-alive",
    "upgrade",
    "te",
];

/// Whether a header frames one hop only, whatever the case of its name.
pub open spec fn hop_by_hop(name: Seq<char>) -> bool {
    strs(FRAMING_HEADERS@).contains(lowered(name))
}

/// Whether a header frames one hop only, whatever the case of its name.
pub fn is_hop_by_hop(name: &str) -> (r: bool)
    ensures
        r == hop_by_hop(name@),
{
    is_one_of(name.to_ascii_lowercase().as_str(), &FRAMING_HEADERS)
}

} // verus!
