//! Estimates of how many tokens a text has.

use vstd::prelude::*;

use crate::llm::{Message, PlainMessageV};
use crate::text::{chars_of, views};

verus! {

/// How far a count can be relied on.
#[derive(Clone, Copy, PartialEq, Eq, Structural, Debug)]
pub enum Confidence {
    Exact,
    Approx,
}

/// The estimate for a text: a token for every four characters begun.
pub open spec fn estimate(text: Seq<char>) -> nat {
    (text.len() + 3) / 4
}

/// Estimates how many tokens a text has, for any provider and model.
pub fn count_tokens(provider: &str, model: &str, text: &str) -> (r: (u64, Confidence))
    ensures
        r.0 == estimate(text@),
        r.1 == Confidence::Approx,
{
    let chars = chars_of(text).len() as u64;
    let tokens = chars / 4 + if chars % 4 > 0 {
        1
    } else {
        0
    };
    (tokens, Confidence::Approx)
}

/// The estimate for the first `n` of some messages: what their contents add up to.
pub open spec fn estimate_all(messages: Seq<PlainMessageV>, n: nat) -> nat
    decreases n,
{
    if n == 0 {
        0
    } else {
        estimate_all(messages, (n - 1) as nat) + estimate(messages[n - 1].content)
    }
}

/// Estimates how many tokens the contents of some messages have.
pub fn count_messages(provider: &str, model: &str, messages: &[Message]) -> (r: (u64, Confidence))
    requires
        estimate_all(views(messages@), messages@.len()) <= u64::MAX,
    ensures
        r.0 == estimate_all(views(messages@), messages@.len()),
        r.1 == Confidence::Approx,
{
    let ghost all = views(messages@);
    let mut total: u64 = 0;
    let mut i: usize = 0;
    while i < messages.len()
        invariant
            i <= messages.len(),
            all == views(messages@),
            estimate_all(all, all.len()) <= u64::MAX,
            total == estimate_all(all, i as nat),
        decreases messages.len() - i,
    {
        proof {
            lemma_estimate_grows(all, (i + 1) as nat, all.len());
        }
        assert(all[i as int] == messages@[i as int]@);
        let (tokens, _) = count_tokens(provider, model, messages[i].content.as_str());
        total = total + tokens;
        i += 1;
    }
    (total, Confidence::Approx)
}

proof fn lemma_estimate_grows(messages: Seq<PlainMessageV>, k: nat, n: nat)
    requires
        k <= n,
    ensures
        estimate_all(messages, k) <= estimate_all(messages, n),
    decreases n,
{
    if k < n {
        lemma_estimate_grows(messages, k, (n - 1) as nat);
    }
}

/// A longer text is never estimated at less, and a text that is not empty at one
/// token or more.
pub proof fn law_estimate_is_monotonic(a: Seq<char>, b: Seq<char>)
    requires
        a.len() <= b.len(),
    ensures
        estimate(a) <= estimate(b),
        b.len() > 0 ==> estimate(b) >= 1,
        estimate(Seq::<char>::empty()) == 0,
{
}

/// Texts put together are estimated at no more than the parts, and at one token
/// less at most.
pub proof fn law_estimate_of_a_whole(a: Seq<char>, b: Seq<char>)
    ensures
        estimate(a + b) <= estimate(a) + estimate(b) <= estimate(a + b) + 1,
{
}

} // verus!
