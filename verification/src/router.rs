//! Where a request goes.

use vstd::prelude::*;

use crate::text::{concat3, split_first, split_once, strip_prefix};

verus! {

/// A path without the slash in front of it.
pub open spec fn unrooted(path: Seq<char>) -> Seq<char> {
    if path.len() > 0 && path[0] == '/' {
        path.skip(1)
    } else {
        path
    }
}

/// The URL that a path is forwarded to: its first segment selects the route, and the
/// rest is appended to the route's upstream.
pub open spec fn forwarded(upstream: Seq<char>, path: Seq<char>) -> Seq<char> {
    match split_first(unrooted(path), '/') {
        Some((_, rest)) => upstream + "/"@ + rest,
        None => upstream,
    }
}

/// The URL that a path is forwarded to.
pub fn upstream_url_for(upstream: &str, path: &str) -> (r: String)
    ensures
        r@ == forwarded(upstream@, path@),
{
    proof {
        reveal_strlit("/");
    }
    let bare = match strip_prefix(path, "/") {
        Some(bare) => {
            assert(path@.take(1) == "/"@);
            assert(path@[0] == path@.take(1)[0]);
            bare
        },
        None => {
            proof {
                if path@.len() > 0 && path@[0] == '/' {
                    assert(path@.take(1) == "/"@);
                }
            }
            path
        },
    };
    assert(bare@ == unrooted(path@));
    match split_once(bare, '/') {
        Some((_, rest)) => concat3(upstream, "/", rest),
        None => upstream.to_owned(),
    }
}

/// A path under a route keeps all but the route's name, whatever the upstream.
pub proof fn law_only_the_route_is_taken(upstream: Seq<char>, route: Seq<char>, rest: Seq<char>)
    requires
        !route.contains('/'),
    ensures
        forwarded(upstream, "/"@ + route + "/"@ + rest) == upstream + "/"@ + rest,
        forwarded(upstream, "/"@ + route) == upstream,
{
    reveal_strlit("/");
    crate::text::lemma_split_first(route, '/', rest);
    let path = "/"@ + route + "/"@ + rest;
    assert(path.skip(1) == route + seq!['/'] + rest);
    let bare = "/"@ + route;
    assert(bare.skip(1) == route);
}

} // verus!
