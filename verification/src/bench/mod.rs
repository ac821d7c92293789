//! The benchmark: what is measured, how long, and on which upstream.

use vstd::prelude::*;

pub mod calendar;
pub mod laws;
pub mod load;
pub mod scenarios;
pub mod stats;
pub mod upstream;

use crate::bench::scenarios::Scenario;
use crate::text::same;

verus! {

/// What the command line asks for.
#[derive(Clone, Copy, PartialEq, Eq, Structural, Debug)]
pub struct Args {
    pub quick: bool,
}

impl Args {
    /// Reads the arguments: a short run where one of them asks for it.
    pub fn from_words(words: &[String]) -> (r: Args)
        ensures
            r.quick == exists|i: int| 0 <= i < words@.len() && (#[trigger] words@[i])@ == "--quick"@,
    {
        let mut i: usize = 0;
        while i < words.len()
            invariant
                i <= words.len(),
                forall|k: int| 0 <= k < i ==> (#[trigger] words@[k])@ != "--quick"@,
            decreases words.len() - i,
        {
            if same(words[i].as_str(), "--quick") {
                return Args { quick: true };
            }
            i += 1;
        }
        Args { quick: false }
    }
}

/// How long each level of concurrency runs before it is measured, how long it is
/// measured, and the levels.
#[derive(Clone, PartialEq, Eq, Debug)]
pub struct Plan {
    pub warmup_ms: u64,
    pub window_ms: u64,
    pub concurrency: Vec<usize>,
}

impl Plan {
    /// The plan for a short run or a full one.
    pub fn for_args(args: &Args) -> (r: Plan)
        ensures
            args.quick ==> r.warmup_ms == 200 && r.window_ms == 1000 && r.concurrency@ == seq![
                1usize,
                8,
            ],
            !args.quick ==> r.warmup_ms == 2000 && r.window_ms == 5000 && r.concurrency@ == seq![
                1usize,
                8,
                64,
            ],
    {
        let mut concurrency: Vec<usize> = Vec::new();
        concurrency.push(1);
        concurrency.push(8);
        if args.quick {
            Plan { warmup_ms: 200, window_ms: 1000, concurrency }
        } else {
            concurrency.push(64);
            Plan { warmup_ms: 2000, window_ms: 5000, concurrency }
        }
    }
}

/// The machine that a run was made on.
#[derive(Clone, PartialEq, Eq, Debug)]
pub struct Machine {
    pub os: String,
    pub arch: String,
    pub cpus: usize,
}

/// One measurement: a scenario at a level of concurrency, and whether it is set
/// against the baseline that all scenarios without streaming share.
#[derive(Clone, Copy, PartialEq, Eq, Structural, Debug)]
pub struct CellPlan {
    pub scenario: Scenario,
    pub concurrency: usize,
    pub shared_baseline: bool,
}

/// The measurements of a scenario at the first `n` levels.
pub open spec fn cells_at(scenario: Scenario, levels: Seq<usize>, n: nat) -> Seq<CellPlan> {
    Seq::new(
        n,
        |i: int|
            CellPlan {
                scenario,
                concurrency: levels[i],
                shared_baseline: scenario != Scenario::Streaming,
            },
    )
}

/// The measurements of the first `n` scenarios, those left out that cannot run.
pub open spec fn cells_of(scenarios: Seq<Scenario>, levels: Seq<usize>, unix: bool, n: nat) -> Seq<CellPlan>
    decreases n,
{
    if n == 0 {
        Seq::empty()
    } else {
        let before = cells_of(scenarios, levels, unix, (n - 1) as nat);
        let s = scenarios[n - 1];
        if s != Scenario::ScriptStep || unix {
            before + cells_at(s, levels, levels.len())
        } else {
            before
        }
    }
}

/// All scenarios, in the order of the report.
pub open spec fn all_scenarios() -> Seq<Scenario> {
    seq![
        Scenario::Passthrough,
        Scenario::Translation,
        Scenario::ScriptStep,
        Scenario::WasmStep,
        Scenario::Streaming,
    ]
}

/// All measurements of a run, in order.
pub fn cells(plan: &Plan, unix: bool) -> (r: Vec<CellPlan>)
    ensures
        r@ == cells_of(all_scenarios(), plan.concurrency@, unix, 5),
{
    let scenarios = Scenario::all();
    let ghost levels = plan.concurrency@;
    let mut out: Vec<CellPlan> = Vec::new();
    let mut i: usize = 0;
    while i < scenarios.len()
        invariant
            i <= scenarios.len(),
            scenarios@ == all_scenarios(),
            levels == plan.concurrency@,
            out@ == cells_of(all_scenarios(), levels, unix, i as nat),
        decreases scenarios.len() - i,
    {
        let scenario = scenarios[i];
        if scenario.available(unix) {
            let ghost before = out@;
            assert(out@ == before + cells_at(scenario, levels, 0));
            let mut k: usize = 0;
            while k < plan.concurrency.len()
                invariant
                    k <= plan.concurrency.len(),
                    levels == plan.concurrency@,
                    out@ == before + cells_at(scenario, levels, k as nat),
                decreases plan.concurrency.len() - k,
            {
                out.push(
                    CellPlan {
                        scenario,
                        concurrency: plan.concurrency[k],
                        shared_baseline: !scenario.is_streaming(),
                    },
                );
                k += 1;
                assert(out@ == before + cells_at(scenario, levels, k as nat));
            }
        }
        i += 1;
    }
    out
}

} // verus!
