//! What the benchmark's measures come to.

use vstd::prelude::*;

use crate::bench::calendar::{date_text, day_number, days_to_month, leap, month_len, zero_padded};
use crate::bench::load::{is_good, merged, tallied, tally_of, Outcome, TallyV};
use crate::bench::scenarios::{config_file, Scenario};
use crate::bench::stats::{ascending, at_most, percentile, rank};
use crate::bench::upstream::{chunk_at, whole_answer};
use crate::bench::{all_scenarios, cells_of, CellPlan};
use crate::text::decimal;

verus! {

/// The percentile of some times is the one whose place is nearest to that share of the
/// way from the first to the last, the later of two that are equally near.
pub proof fn law_percentiles_are_nearest(times: Seq<u64>, percent: nat)
    requires
        percent <= 100,
    ensures
        times.len() == 0 ==> percentile(times, percent) == 0,
        times.len() > 0 ==> {
            let r = rank(times.len(), percent);
            &&& 0 <= r < times.len()
            &&& 100 * r <= (times.len() - 1) * percent + 50 < 100 * r + 100
            &&& percentile(times, percent) == times[r]
        },
{
    if times.len() > 0 {
        let whole = (times.len() - 1) * percent;
        assert(0 <= whole <= (times.len() - 1) * 100) by (nonlinear_arith)
            requires
                whole == (times.len() - 1) * percent,
                0 <= percent <= 100,
                times.len() > 0,
        ;
    }
}

/// Sorting keeps every time, as often as it was there, and puts none before a smaller.
pub proof fn law_times_are_sorted(times: Seq<u64>, i: int, j: int)
    ensures
        ascending(times).to_multiset() == times.to_multiset(),
        0 <= i < j < ascending(times).len() ==> ascending(times)[i] <= ascending(times)[j],
{
    crate::bench::stats::lemma_order();
    times.lemma_sort_by_ensures(at_most());
    if 0 <= i < j < ascending(times).len() {
        assert(at_most()(ascending(times)[i], ascending(times)[j]));
    }
}

/// An answer with a status from 200 to 299 adds its time, and that of its first chunk
/// where it has one; any other answer, and none, adds an error. Nothing counts while
/// nothing is recorded, and two tallies are put together part by part.
pub proof fn law_outcomes_are_tallied(t: TallyV, u: TallyV, o: Outcome)
    ensures
        tallied(t, false, o) == t,
        ({
            let after = tallied(t, true, o);
            match o {
                Outcome::Answered { status, latency, first_chunk } => if 200 <= status < 300 {
                    &&& after.latencies == t.latencies.push(latency)
                    &&& after.first_chunks == match first_chunk {
                        Some(n) => t.first_chunks.push(n),
                        None => t.first_chunks,
                    }
                    &&& after.errors == t.errors
                } else {
                    after.latencies == t.latencies && after.first_chunks == t.first_chunks && after.errors == t.errors + 1
                },
                Outcome::Failed => after.latencies == t.latencies && after.first_chunks == t.first_chunks
                    && after.errors == t.errors + 1,
            }
        }),
        is_good(o) <==> (o matches Outcome::Answered { status, .. } && 200 <= status < 300),
        merged(t, u).latencies == t.latencies + u.latencies,
        merged(t, u).first_chunks == t.first_chunks + u.first_chunks,
        merged(t, u).errors == t.errors + u.errors,
        tally_of(Seq::empty()).latencies.len() == 0 && tally_of(Seq::empty()).first_chunks.len() == 0 && tally_of(
            Seq::empty(),
        ).errors == 0,
{
}

proof fn lemma_cells(scenarios: Seq<Scenario>, levels: Seq<usize>, unix: bool, n: nat, s: Scenario, k: int)
    requires
        n <= scenarios.len(),
        0 <= k < levels.len(),
    ensures
        ({
            let cells = cells_of(scenarios, levels, unix, n);
            let c = CellPlan { scenario: s, concurrency: levels[k], shared_baseline: !(s is Streaming) };
            (exists|i: int| 0 <= i < n && scenarios[i] == s) && (!(s is ScriptStep) || unix) ==> cells.contains(c)
        }),
        forall|j: int|
            0 <= j < cells_of(scenarios, levels, unix, n).len() ==> {
                let c = #[trigger] cells_of(scenarios, levels, unix, n)[j];
                &&& c.shared_baseline <==> !(c.scenario is Streaming)
                &&& levels.contains(c.concurrency)
                &&& c.scenario is ScriptStep ==> unix
            },
    decreases n,
{
    let cells = cells_of(scenarios, levels, unix, n);
    let c = CellPlan { scenario: s, concurrency: levels[k], shared_baseline: !(s is Streaming) };
    if n > 0 {
        let m = (n - 1) as nat;
        lemma_cells(scenarios, levels, unix, m, s, k);
        let before = cells_of(scenarios, levels, unix, m);
        let added = crate::bench::cells_at(scenarios[m as int], levels, levels.len());
        if before.contains(c) {
            let j = choose|j: int| 0 <= j < before.len() && before[j] == c;
            assert(cells[j] == c);
        }
        if scenarios[m as int] == s && (!(s is ScriptStep) || unix) {
            assert(added[k] == c);
            assert(cells[before.len() + k] == c);
        }
        assert forall|j: int| 0 <= j < cells.len() implies {
            let c = #[trigger] cells[j];
            &&& c.shared_baseline <==> !(c.scenario is Streaming)
            &&& levels.contains(c.concurrency)
            &&& c.scenario is ScriptStep ==> unix
        } by {
            if j < before.len() {
                assert(cells[j] == before[j]);
            } else {
                assert(cells[j] == added[j - before.len()]);
                assert(levels[j - before.len()] == cells[j].concurrency);
            }
        }
    }
}

/// A run measures every scenario that can run at every level, scripts on Unix alone;
/// every scenario but streaming is set against the shared baseline.
pub proof fn law_every_scenario_is_measured(levels: Seq<usize>, unix: bool, s: Scenario, k: int)
    requires
        0 <= k < levels.len(),
    ensures
        ({
            let cells = cells_of(all_scenarios(), levels, unix, 5);
            let c = CellPlan { scenario: s, concurrency: levels[k], shared_baseline: !(s is Streaming) };
            &&& !(s is ScriptStep) || unix ==> cells.contains(c)
            &&& forall|j: int|
                0 <= j < cells.len() ==> {
                    let c = #[trigger] cells[j];
                    &&& c.shared_baseline <==> !(c.scenario is Streaming)
                    &&& levels.contains(c.concurrency)
                    &&& c.scenario is ScriptStep ==> unix
                }
        }),
{
    lemma_cells(all_scenarios(), levels, unix, 5, s, k);
    let all = all_scenarios();
    assert(all[0] is Passthrough && all[1] is Translation && all[2] is ScriptStep && all[3] is WasmStep
        && all[4] is Streaming);
}

/// The days are counted on from the first of January 1970: the day after any date has
/// the next number, at the end of a month and of a year too. Every fourth year has a
/// day more, but of the hundredth ones only every fourth.
pub proof fn law_days_are_counted(y: int, m: int, d: int)
    requires
        1 <= m <= 12,
    ensures
        day_number(1970, 1, 1) == 0,
        day_number(y, m, d + 1) == day_number(y, m, d) + 1,
        m < 12 ==> day_number(y, m + 1, 1) == day_number(y, m, month_len(y, m)) + 1,
        day_number(y + 1, 1, 1) == day_number(y, 12, 31) + 1,
        leap(y) <==> (y % 4 == 0 && y % 100 != 0) || y % 400 == 0,
        m == 4 || m == 6 || m == 9 || m == 11 ==> month_len(y, m) == 30,
        m == 1 || m == 3 || m == 5 || m == 7 || m == 8 || m == 10 || m == 12 ==> month_len(y, m) == 31,
        month_len(y, 2) == if leap(y) {
            29int
        } else {
            28
        },
{
    reveal_with_fuel(days_to_month, 13);
    assert(days_to_month(y, 12) == if leap(y) {
        335int
    } else {
        334
    });
}

/// A date is written with four digits for the year and two for the month and the day,
/// zeros in front, hyphens between.
pub proof fn law_dates_are_padded(n: nat, width: nat, y: nat, m: nat, d: nat)
    ensures
        decimal(n).len() >= width ==> zero_padded(n, width) == decimal(n),
        decimal(n).len() < width ==> zero_padded(n, width).len() == width && zero_padded(n, width).skip(
            width - decimal(n).len(),
        ) == decimal(n) && forall|i: int|
            0 <= i < width - decimal(n).len() ==> (#[trigger] zero_padded(n, width)[i]) == '0',
        date_text(y, m, d) == zero_padded(y, 4) + "-"@ + zero_padded(m, 2) + "-"@ + zero_padded(d, 2),
{
    assert(decimal(n).len() >= width ==> zero_padded(n, width) =~= decimal(n));
    if decimal(n).len() < width {
        assert(zero_padded(n, width).skip(width - decimal(n).len()) =~= decimal(n));
    }
}

/// The simulated upstream numbers its chunks and ends with the terminal; its whole
/// answer names the model.
pub proof fn law_simulated_answers(i: nat, chunks: nat, model: Seq<char>)
    ensures
        i == chunks ==> chunk_at(i, chunks) == "data: [DONE]\n\n"@,
        i != chunks ==> chunk_at(i, chunks) == "data: {\"i\":"@ + decimal(i) + "}\n\n"@,
        whole_answer(model) == "{\"id\":\"msg_bench\",\"type\":\"message\",\"role\":\"assistant\",\"model\":\""@ + model
            + "\",\"content\":[{\"type\":\"text\",\"text\":\"benchmark response\"}],\"stop_reason\":\"end_turn\",\"stop_sequence\":null,\"usage\":{\"input_tokens\":10,\"output_tokens\":5}}"@,
{
}

/// The configuration of a scenario: one route to the upstream at the address, with the
/// one thing that the scenario is about.
pub proof fn law_scenarios_are_configured(
    s: Scenario,
    upstream: Seq<char>,
    listen: Seq<char>,
    wasm: Seq<char>,
    script: Seq<char>,
    model: Seq<char>,
)
    ensures
        ({
            let text = config_file(s, upstream, listen, wasm, script, model);
            let route = "\"\n\n[[route]]\nid       = \"bench\"\nupstream = \"http://"@;
            match s {
                Scenario::Passthrough => text == "[gateway]\nlisten = \""@ + listen + route + upstream + "\"\n"@,
                Scenario::Streaming => text == "[gateway]\nlisten = \""@ + listen + route + upstream + "\"\n"@,
                Scenario::Translation => text == "[gateway]\nlisten = \""@ + listen + route + upstream
                    + "\"\n\n  [route.translate]\n  from  = \"openai\"\n  to    = \"anthropic\"\n  model = \""@ + model
                    + "\"\n"@,
                Scenario::ScriptStep => text == "[gateway]\nlisten        = \""@ + listen
                    + "\"\nallow_scripts = true\n\n[[route]]\nid       = \"bench\"\nupstream = \"http://"@ + upstream
                    + "\"\n\n  [[route.step]]\n  name = \"noop-script\"\n  type = \"script\"\n  hook = \"on_request\"\n  cmd  = [\"sh\", \""@
                    + script + "\"]\n  timeout_ms = 2000\n  on_error   = \"fail_closed\"\n"@,
                Scenario::WasmStep => text == "[gateway]\nlisten = \""@ + listen + route + upstream
                    + "\"\n\n  [[route.step]]\n  name = \"noop-wasm\"\n  type = \"wasm\"\n  hook = \"on_request\"\n  wasm = \""@
                    + wasm + "\"\n  timeout_ms = 2000\n  on_error   = \"fail_closed\"\n"@,
            }
        }),
{
}

} // verus!
