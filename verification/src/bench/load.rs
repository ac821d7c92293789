//! What the load driver counts.

use vstd::prelude::*;

verus! {

/// What became of one request.
#[derive(Clone, Copy, PartialEq, Eq, Structural, Debug)]
pub enum Outcome {
    /// No answer came.
    Failed,
    /// An answer came: its status, how many nanoseconds it took, and how many until
    /// the first chunk, where it was streamed.
    Answered { status: u16, latency: u64, first_chunk: Option<u64> },
}

/// What was counted: how long good answers took, and how many requests had none.
#[derive(Clone, PartialEq, Eq, Debug)]
pub struct Tally {
    pub latencies: Vec<u64>,
    pub first_chunks: Vec<u64>,
    pub errors: usize,
}

#[verifier::ext_equal]
pub struct TallyV {
    pub latencies: Seq<u64>,
    pub first_chunks: Seq<u64>,
    pub errors: nat,
}

impl View for Tally {
    type V = TallyV;

    open spec fn view(&self) -> TallyV {
        TallyV {
            latencies: self.latencies@,
            first_chunks: self.first_chunks@,
            errors: self.errors as nat,
        }
    }
}

/// Whether a status tells of success.
pub open spec fn good_status(status: u16) -> bool {
    200 <= status <= 299
}

/// Whether an outcome is a good answer.
pub open spec fn is_good(o: Outcome) -> bool {
    match o {
        Outcome::Answered { status, .. } => good_status(status),
        Outcome::Failed => false,
    }
}

/// Tells whether a status is one of success.
pub fn succeeded(status: u16) -> (r: bool)
    ensures
        r == good_status(status),
{
    status >= 200 && status <= 299
}

impl Outcome {
    /// Tells whether this is a good answer.
    pub fn good(&self) -> (r: bool)
        ensures
            r == is_good(*self),
    {
        match self {
            Outcome::Answered { status, .. } => succeeded(*status),
            Outcome::Failed => false,
        }
    }
}

/// A tally with one request more. Nothing counts outside the time of recording, and
/// only good answers are timed.
pub open spec fn tallied(t: TallyV, recording: bool, o: Outcome) -> TallyV {
    if !recording {
        t
    } else {
        match o {
            Outcome::Answered { status, latency, first_chunk } => if good_status(status) {
                TallyV {
                    latencies: t.latencies.push(latency),
                    first_chunks: match first_chunk {
                        Some(n) => t.first_chunks.push(n),
                        None => t.first_chunks,
                    },
                    ..t
                }
            } else {
                TallyV { errors: t.errors + 1, ..t }
            },
            Outcome::Failed => TallyV { errors: t.errors + 1, ..t },
        }
    }
}

/// Two tallies as one: the samples of the first, then those of the second.
pub open spec fn merged(a: TallyV, b: TallyV) -> TallyV {
    TallyV {
        latencies: a.latencies + b.latencies,
        first_chunks: a.first_chunks + b.first_chunks,
        errors: a.errors + b.errors,
    }
}

impl Tally {
    /// Nothing counted.
    pub fn new() -> (r: Tally)
        ensures
            r@ == (TallyV { latencies: Seq::empty(), first_chunks: Seq::empty(), errors: 0 }),
    {
        Tally { latencies: Vec::new(), first_chunks: Vec::new(), errors: 0 }
    }

    /// Counts a request.
    pub fn take(&mut self, recording: bool, outcome: Outcome)
        requires
            old(self).errors < usize::MAX,
        ensures
            final(self)@ == tallied(old(self)@, recording, outcome),
    {
        if !recording {
            return ;
        }
        match outcome {
            Outcome::Answered { status, latency, first_chunk } => {
                if succeeded(status) {
                    self.latencies.push(latency);
                    if let Some(n) = first_chunk {
                        self.first_chunks.push(n);
                    }
                } else {
                    self.errors = self.errors + 1;
                }
            },
            Outcome::Failed => {
                self.errors = self.errors + 1;
            },
        }
    }

    /// Adds what another worker counted.
    pub fn merge(&mut self, other: Tally)
        requires
            old(self).errors + other.errors <= usize::MAX,
        ensures
            final(self)@ == merged(old(self)@, other@),
    {
        let mut other = other;
        self.latencies.append(&mut other.latencies);
        self.first_chunks.append(&mut other.first_chunks);
        self.errors = self.errors + other.errors;
    }
}

/// A tally of some requests, all made while recording.
pub open spec fn tally_of(outcomes: Seq<Outcome>) -> TallyV
    decreases outcomes.len(),
{
    if outcomes.len() == 0 {
        TallyV { latencies: Seq::empty(), first_chunks: Seq::empty(), errors: 0 }
    } else {
        tallied(tally_of(outcomes.drop_last()), true, outcomes.last())
    }
}

/// Every request is counted once, as a sample or as an error; where no answer is
/// good there is no sample.
pub proof fn law_every_request_counts_once(outcomes: Seq<Outcome>)
    ensures
        tally_of(outcomes).latencies.len() + tally_of(outcomes).errors == outcomes.len(),
        tally_of(outcomes).first_chunks.len() <= tally_of(outcomes).latencies.len(),
        (forall|i: int| 0 <= i < outcomes.len() ==> !is_good(#[trigger] outcomes[i])) ==> tally_of(
            outcomes,
        ).latencies.len() == 0,
    decreases outcomes.len(),
{
    if outcomes.len() > 0 {
        let rest = outcomes.drop_last();
        law_every_request_counts_once(rest);
        if forall|i: int| 0 <= i < outcomes.len() ==> !is_good(#[trigger] outcomes[i]) {
            assert forall|i: int| 0 <= i < rest.len() implies !is_good(#[trigger] rest[i]) by {
                assert(rest[i] == outcomes[i]);
            }
            assert(!is_good(outcomes[outcomes.len() - 1]));
        }
    }
}

/// What workers counted apart comes to what one would have counted of all their
/// requests.
pub proof fn law_merging_loses_nothing(a: Seq<Outcome>, b: Seq<Outcome>)
    ensures
        merged(tally_of(a), tally_of(b)) == tally_of(a + b),
    decreases b.len(),
{
    if b.len() == 0 {
        assert(a + b == a);
    } else {
        law_merging_loses_nothing(a, b.drop_last());
        assert((a + b).drop_last() == a + b.drop_last());
        assert((a + b).last() == b.last());
        assert(merged(tally_of(a), tally_of(b)) =~= tally_of(a + b));
    }
}

} // verus!
