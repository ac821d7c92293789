//! Chains that are parked until a tool calls back.

use std::sync::Arc;

use vstd::prelude::*;

pub mod token;

use crate::config::{Config, ConfigV};
use crate::json::{JsonMap, JsonV};

verus! {

/// What a parked chain needs to go on.
#[derive(Clone, PartialEq, Debug)]
pub struct Continuation {
    /// By which the reply channel of the parked request is found.
    pub ticket: u64,
    /// When it was parked, in nanoseconds of a clock that never goes back.
    pub created: u128,
    pub route_id: String,
    /// The step to go on with.
    pub resume_index: usize,
    pub hop: u32,
    /// What the steps before have written.
    pub context: JsonMap,
    pub path: String,
    pub correlation_id: String,
    /// The configuration that the parked request began with.
    pub config: Arc<Config>,
}

#[verifier::ext_equal]
pub struct ContinuationV {
    pub ticket: u64,
    pub created: u128,
    pub route_id: Seq<char>,
    pub resume_index: usize,
    pub hop: u32,
    pub context: Map<Seq<char>, JsonV>,
    pub path: Seq<char>,
    pub correlation_id: Seq<char>,
    pub config: ConfigV,
}

impl View for Continuation {
    type V = ContinuationV;

    open spec fn view(&self) -> ContinuationV {
        ContinuationV {
            ticket: self.ticket,
            created: self.created,
            route_id: self.route_id@,
            resume_index: self.resume_index,
            hop: self.hop,
            context: self.context@,
            path: self.path@,
            correlation_id: self.correlation_id@,
            config: self.config@,
        }
    }
}

/// A concurrent hash map.
#[verifier::external_type_specification]
#[verifier::external_body]
#[verifier::reject_recursive_types(K)]
#[verifier::reject_recursive_types(V)]
#[verifier::reject_recursive_types(S)]
pub struct ExDashMap<K, V, S>(dashmap::DashMap<K, V, S>);

/// The chains that a map holds, by their ids.
pub uninterp spec fn parked(map: dashmap::DashMap<String, Continuation>) -> Map<
    Seq<char>,
    ContinuationV,
>;

/// No chains.
pub open spec fn nothing_parked() -> Map<Seq<char>, ContinuationV> {
    Map::empty()
}

/// Whether there are so many keys, and no more.
pub open spec fn counts(keys: Set<Seq<char>>, n: nat) -> bool {
    keys.finite() && keys.len() == n
}

/// Calls `DashMap::new`: the map holds nothing.
#[verifier::external_body]
fn empty_map() -> (r: dashmap::DashMap<String, Continuation>)
    ensures
        parked(r) == nothing_parked(),
{
    dashmap::DashMap::new()
}

/// Calls `DashMap::contains_key`: whether a key is there.
#[verifier::external_body]
fn holds(map: &dashmap::DashMap<String, Continuation>, cid: &str) -> (r: bool)
    ensures
        r == parked(*map).dom().contains(cid@),
{
    map.contains_key(cid)
}

/// Calls `DashMap::len`: how many keys are there, which are finitely many.
#[verifier::external_body]
fn size(map: &dashmap::DashMap<String, Continuation>) -> (r: usize)
    ensures
        counts(parked(*map).dom(), r as nat),
{
    map.len()
}

/// Calls `DashMap::insert`: the value is then there under its key, in place of any
/// other.
#[verifier::external_body]
fn put(map: &mut dashmap::DashMap<String, Continuation>, cid: String, continuation: Continuation)
    ensures
        parked(*final(map)) == parked(*old(map)).insert(cid@, continuation@),
{
    map.insert(cid, continuation);
}

/// The view of a continuation that may be absent.
pub open spec fn opt_parked(r: Option<Continuation>) -> Option<ContinuationV> {
    match r {
        Some(c) => Some(c@),
        None => None,
    }
}

/// What a map has under a key.
pub open spec fn found(map: Map<Seq<char>, ContinuationV>, cid: Seq<char>) -> Option<ContinuationV> {
    if map.dom().contains(cid) {
        Some(map[cid])
    } else {
        None
    }
}

/// Calls `DashMap::remove`: the key is then not there, and what was under it is
/// handed out.
#[verifier::external_body]
fn pull(map: &mut dashmap::DashMap<String, Continuation>, cid: &str) -> (r: Option<Continuation>)
    ensures
        parked(*final(map)) == parked(*old(map)).remove(cid@),
        opt_parked(r) == found(parked(*old(map)), cid@),
{
    map.remove(cid).map(|entry| entry.1)
}

/// Whether a chain has been parked for less than a time.
pub open spec fn is_young(c: ContinuationV, now: u128, ttl: u128) -> bool {
    now - c.created < ttl && ttl > 0
}

/// Whether a chain has been parked for less than a time.
pub fn young(c: &Continuation, now: u128, ttl: u128) -> (r: bool)
    ensures
        r == is_young(c@, now, ttl),
{
    if now < c.created {
        ttl > 0
    } else {
        now - c.created < ttl
    }
}

/// The chains that have been parked for less than a time.
pub open spec fn swept(
    map: Map<Seq<char>, ContinuationV>,
    now: u128,
    ttl: u128,
) -> Map<Seq<char>, ContinuationV> {
    map.restrict(
        Set::new(|cid: Seq<char>| map.dom().contains(cid) && is_young(map[cid], now, ttl)),
    )
}

/// Calls `DashMap::retain` with a test of each value's age: what passes stays as it
/// is, and nothing else stays.
#[verifier::external_body]
fn keep_young(map: &mut dashmap::DashMap<String, Continuation>, now: u128, ttl: u128)
    ensures
        parked(*final(map)) == swept(parked(*old(map)), now, ttl),
{
    map.retain(|_, c| young(c, now, ttl))
}

/// The parked chains.
pub struct Registry {
    map: dashmap::DashMap<String, Continuation>,
}

impl View for Registry {
    type V = Map<Seq<char>, ContinuationV>;

    closed spec fn view(&self) -> Map<Seq<char>, ContinuationV> {
        parked(self.map)
    }
}

/// Whether a registry takes a chain in: where there is room, or where the chain
/// takes the place of another.
pub open spec fn takes_in(map: Map<Seq<char>, ContinuationV>, cid: Seq<char>, max_parked: nat) -> bool {
    map.dom().contains(cid) || map.dom().len() < max_parked
}

impl Registry {
    /// A registry without chains.
    pub fn new() -> (r: Registry)
        ensures
            r@ == nothing_parked(),
    {
        Registry { map: empty_map() }
    }

    /// Parks a chain, unless it is a new one and there is no room; says whether it
    /// was parked.
    pub fn register(&mut self, cid: String, continuation: Continuation, max_parked: usize) -> (r: bool)
        ensures
            r == takes_in(old(self)@, cid@, max_parked as nat),
            final(self)@ == if r {
                old(self)@.insert(cid@, continuation@)
            } else {
                old(self)@
            },
            old(self)@.dom().finite(),
    {
        let room = size(&self.map) < max_parked;
        if !holds(&self.map, cid.as_str()) && !room {
            return false;
        }
        put(&mut self.map, cid, continuation);
        true
    }

    /// Takes the chain of that id out, if it is parked.
    pub fn take(&mut self, cid: &str) -> (r: Option<Continuation>)
        ensures
            opt_parked(r) == found(old(self)@, cid@),
            final(self)@ == old(self)@.remove(cid@),
    {
        pull(&mut self.map, cid)
    }

    /// Drops every chain that has been parked for `ttl` nanoseconds or more.
    pub fn sweep(&mut self, now: u128, ttl: u128)
        ensures
            final(self)@ == swept(old(self)@, now, ttl),
    {
        keep_young(&mut self.map, now, ttl);
    }

    /// How many chains are parked.
    pub fn len(&self) -> (r: usize)
        ensures
            counts(self@.dom(), r as nat),
    {
        size(&self.map)
    }

    /// Whether no chain is parked.
    pub fn is_empty(&self) -> (r: bool)
        ensures
            r == (self@ == nothing_parked()),
    {
        let n = size(&self.map);
        if n == 0 {
            assert(self@ == nothing_parked());
            true
        } else {
            assert(self@ != nothing_parked());
            false
        }
    }
}

/// What a registry holds after a chain was offered to it.
pub open spec fn offered(
    map: Map<Seq<char>, ContinuationV>,
    cid: Seq<char>,
    c: ContinuationV,
    max_parked: nat,
) -> Map<Seq<char>, ContinuationV> {
    if takes_in(map, cid, max_parked) {
        map.insert(cid, c)
    } else {
        map
    }
}

/// A registry that keeps to a number of chains goes on keeping to it.
pub proof fn law_registry_keeps_to_its_cap(
    map: Map<Seq<char>, ContinuationV>,
    cid: Seq<char>,
    c: ContinuationV,
    max_parked: nat,
)
    requires
        map.dom().finite(),
        map.dom().len() <= max_parked,
    ensures
        offered(map, cid, c, max_parked).dom().len() <= max_parked,
{
    if map.dom().contains(cid) {
        assert(map.insert(cid, c).dom() == map.dom());
    }
}

/// A chain that is taken in comes out once: the next to ask for it gets nothing.
pub proof fn law_chain_resumes_once(
    map: Map<Seq<char>, ContinuationV>,
    cid: Seq<char>,
    c: ContinuationV,
    max_parked: nat,
)
    requires
        takes_in(map, cid, max_parked),
    ensures
        found(offered(map, cid, c, max_parked), cid) == Some(c),
        found(offered(map, cid, c, max_parked).remove(cid), cid) is None,
{
}

/// Taking a chain out, or parking one, leaves every other chain where it was.
pub proof fn law_other_chains_stay(
    map: Map<Seq<char>, ContinuationV>,
    cid: Seq<char>,
    c: ContinuationV,
    max_parked: nat,
    other: Seq<char>,
)
    requires
        other != cid,
    ensures
        found(offered(map, cid, c, max_parked), other) == found(map, other),
        found(map.remove(cid), other) == found(map, other),
{
}

/// Sweeping keeps a chain as it was or drops it, and drops it exactly when it has
/// been parked for the whole time; sweeping again at the same moment drops nothing
/// more.
pub proof fn law_sweep_drops_the_old(
    map: Map<Seq<char>, ContinuationV>,
    now: u128,
    ttl: u128,
    cid: Seq<char>,
)
    ensures
        found(swept(map, now, ttl), cid) == match found(map, cid) {
            Some(c) => if is_young(c, now, ttl) {
                Some(c)
            } else {
                None
            },
            None => None,
        },
        swept(swept(map, now, ttl), now, ttl) == swept(map, now, ttl),
{
    assert(swept(swept(map, now, ttl), now, ttl) == swept(map, now, ttl));
}

} // verus!
