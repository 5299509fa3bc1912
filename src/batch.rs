//! Independent trials of one configuration, and their combination into one
//! averaged best-fitness curve with a verdict for the whole batch.
use crate::simulator::{Algorithm, RunMode, SimError, SimResult, Simulator};
use crate::termination::{stop_flag, stops_first_at_end, StopFlag};
use vstd::prelude::*;

verus! {

/// Steps `sim` until its run ends, and hands back the best fitness of every
/// generation of that run, in order.
pub fn run_trial<A: Algorithm>(sim: &mut Simulator<A>) -> (r: Result<Vec<u64>, SimError<A::Error>>)
    ensures
        final(sim).spec_termination() == old(sim).spec_termination(),
        r matches Ok(series) ==> {
            &&& final(sim).spec_run_mode() == RunMode::NotRunning
            &&& final(sim).spec_iteration() == old(sim).spec_iteration() + series.len()
            &&& stops_first_at_end(old(sim).spec_termination(), (old(sim).spec_iteration() + 1) as u64, series@)
        },
        old(sim).spec_run_mode() == RunMode::Loop ==> (r matches Err(e) && e is SimulationAlreadyRunning),
        r matches Err(e) && e is IterationsExhausted ==> final(sim).spec_iteration() == u64::MAX,
        r matches Err(e) ==> e is AlgorithmError || e is IterationsExhausted || (old(sim).spec_run_mode()
            == RunMode::Loop && e is SimulationAlreadyRunning),
        r matches Err(e) && e is AlgorithmError ==> final(sim).spec_run_mode() == RunMode::NotRunning,
{
    let mut series: Vec<u64> = Vec::new();
    let ghost first: int = old(sim).spec_iteration() + 1;
    loop
        invariant
            sim.spec_termination() == old(sim).spec_termination(),
            sim.spec_iteration() == old(sim).spec_iteration() + series.len(),
            series.len() > 0 ==> sim.spec_run_mode() == RunMode::Step,
            old(sim).spec_run_mode() == RunMode::Loop ==> series.len() == 0 && *sim == *old(sim),
            sim.spec_run_mode() == RunMode::Loop ==> old(sim).spec_run_mode() == RunMode::Loop,
            first == old(sim).spec_iteration() + 1,
            forall|k: int|
                0 <= k < series.len() ==> stop_flag(
                    sim.spec_termination(),
                    (first + k) as u64,
                    #[trigger] series[k],
                ) == StopFlag::Continue,
        decreases u64::MAX - sim.spec_iteration(),
    {
        match sim.step() {
            Ok(SimResult::Intermediate(state)) => {
                series.push(state.best_fitness);
            },
            Ok(SimResult::Final(state, _, _, _)) => {
                series.push(state.best_fitness);
                return Ok(series);
            },
            Err(error) => {
                return Err(error);
            },
        }
    }
}

/// The value of `series` at index `i`, or `optimum` past its end: a run that
/// has converged stays at the optimum.
pub open spec fn padded_at(series: Seq<u64>, i: int, optimum: u64) -> int {
    if i < series.len() {
        series[i] as int
    } else {
        optimum as int
    }
}

/// The sum, over all of `series`, of their padded values at index `i`.
pub open spec fn column_sum(series: Seq<Seq<u64>>, i: int, optimum: u64) -> int
    decreases series.len(),
{
    if series.len() == 0 {
        0
    } else {
        column_sum(series.drop_last(), i, optimum) + padded_at(series.last(), i, optimum)
    }
}

/// The length of the longest of `series`, `0` if there is none.
pub open spec fn longest(series: Seq<Seq<u64>>) -> nat
    decreases series.len(),
{
    if series.len() == 0 {
        0
    } else {
        let rest = longest(series.drop_last());
        if series.last().len() > rest {
            series.last().len()
        } else {
            rest
        }
    }
}

/// The sum of the lengths of all of `series`.
pub open spec fn total_length(series: Seq<Seq<u64>>) -> nat
    decreases series.len(),
{
    if series.len() == 0 {
        0
    } else {
        total_length(series.drop_last()) + series.last().len()
    }
}

/// The contents of each vector of `series`.
pub open spec fn views(series: Seq<Vec<u64>>) -> Seq<Seq<u64>> {
    series.map_values(|v: Vec<u64>| v@)
}

/// The sums of the series padded to a common length: index `i` holds the sum
/// of the padded values at `i`.
pub open spec fn padded_sums(series: Seq<Seq<u64>>, optimum: u64) -> Seq<int> {
    Seq::new(longest(series), |i: int| column_sum(series, i, optimum))
}

/// Pads every series with `optimum` to the length of the longest and sums
/// them index by index; the mean at index `i` is `sums[i] / series.len()`.
pub fn sum_padded_series(series: &Vec<Vec<u64>>, optimum: u64) -> (sums: Vec<u128>)
    ensures
        sums@.map_values(|x: u128| x as int) == padded_sums(views(series@), optimum),
{
    let mut max_len: usize = 0;
    let mut j: usize = 0;
    while j < series.len()
        invariant
            j <= series.len(),
            max_len == longest(views(series@.take(j as int))),
        decreases series.len() - j,
    {
        assert(views(series@.take(j + 1)).drop_last() =~= views(series@.take(j as int)));
        if series[j].len() > max_len {
            max_len = series[j].len();
        }
        j = j + 1;
    }
    assert(series@.take(series.len() as int) =~= series@);
    let mut sums: Vec<u128> = Vec::new();
    let mut i: usize = 0;
    while i < max_len
        invariant
            i <= max_len,
            max_len == longest(views(series@)),
            sums.len() == i,
            forall|k: int| 0 <= k < i ==> #[trigger] sums[k] == column_sum(views(series@), k, optimum),
        decreases max_len - i,
    {
        let total: u128 = column_total(series, i, optimum);
        sums.push(total);
        i = i + 1;
    }
    assert(sums@.map_values(|x: u128| x as int) =~= padded_sums(views(series@), optimum));
    sums
}

/// The sum of the padded values of all of `series` at index `i`.
fn column_total(series: &Vec<Vec<u64>>, i: usize, optimum: u64) -> (total: u128)
    ensures
        total == column_sum(views(series@), i as int, optimum),
{
    let mut total: u128 = 0;
    let mut j: usize = 0;
    while j < series.len()
        invariant
            j <= series.len(),
            total == column_sum(views(series@.take(j as int)), i as int, optimum),
            total <= j * (u64::MAX as int),
        decreases series.len() - j,
    {
        assert(views(series@.take(j + 1)).drop_last() =~= views(series@.take(j as int)));
        let value: u64 = if i < series[j].len() {
            series[j][i]
        } else {
            optimum
        };
        assert((j + 1) * (u64::MAX as int) <= u128::MAX) by (nonlinear_arith)
            requires
                j < u64::MAX,
        ;
        assert(total + value <= (j + 1) * (u64::MAX as int)) by (nonlinear_arith)
            requires
                total <= j * (u64::MAX as int),
                value <= u64::MAX,
        ;
        total = total + value as u128;
        j = j + 1;
    }
    assert(series@.take(series.len() as int) =~= series@);
    total
}

/// How one trial of a batch ended.
#[derive(Clone, Debug, PartialEq, Eq)]
pub enum TrialOutcome {
    /// The run ended; the best fitness of each of its generations.
    Completed(Vec<u64>),
    /// The algorithm failed during the run.
    Errored,
    /// The configuration was gone before the trial started; the trial did
    /// nothing.
    TornDown,
}

/// A series that ends at the optimum.
pub open spec fn converged(series: Seq<u64>, optimum: u64) -> bool {
    series.len() > 0 && series.last() == optimum
}

/// A trial that errored, or whose run ended away from the optimum, fails the
/// batch; one that was torn down does not.
pub open spec fn trial_failed(outcome: TrialOutcome, optimum: u64) -> bool {
    match outcome {
        TrialOutcome::Completed(series) => !converged(series@, optimum),
        TrialOutcome::Errored => true,
        TrialOutcome::TornDown => false,
    }
}

/// The series of the completed trials, in order.
pub open spec fn completed_series(outcomes: Seq<TrialOutcome>) -> Seq<Seq<u64>>
    decreases outcomes.len(),
{
    if outcomes.len() == 0 {
        Seq::empty()
    } else {
        let rest = completed_series(outcomes.drop_last());
        match outcomes.last() {
            TrialOutcome::Completed(series) => rest.push(series@),
            _ => rest,
        }
    }
}

/// Why a batch has no combined result.
#[derive(Clone, Copy, Debug, PartialEq, Eq, Structural)]
pub enum BatchError {
    /// The trial at this index errored or did not reach the optimum.
    TrialFailedToConverge(usize),
}

/// The combination of a batch in which every trial converged.
#[derive(Clone, Debug, PartialEq, Eq)]
pub struct BatchResult {
    /// Index by index, the sum of the contributed series, each padded with
    /// the optimum to the length of the longest.
    pub sums: Vec<u128>,
    /// The number of contributed series: the mean at index `i` is
    /// `sums[i] / series_count`.
    pub series_count: usize,
    /// The number of trials in the batch.
    pub trial_count: usize,
    /// The sum of the generations the contributed series took to converge:
    /// the mean is `generations_total / trial_count`.
    pub generations_total: u128,
}

/// Combines the outcomes of a batch of trials whose optimal fitness is
/// `optimum`. The batch fails, with the first failing trial, as soon as one
/// trial errored or ended away from the optimum; otherwise the series of the
/// completed trials are padded with the optimum and summed index by index.
pub fn aggregate_batch(outcomes: &Vec<TrialOutcome>, optimum: u64) -> (r: Result<BatchResult, BatchError>)
    ensures
        r is Ok <==> forall|j: int| 0 <= j < outcomes.len() ==> !trial_failed(#[trigger] outcomes[j], optimum),
        r matches Err(BatchError::TrialFailedToConverge(k)) ==> {
            &&& k < outcomes.len()
            &&& trial_failed(outcomes[k as int], optimum)
            &&& forall|j: int| 0 <= j < k ==> !trial_failed(#[trigger] outcomes[j], optimum)
        },
        r matches Ok(b) ==> {
            &&& b.sums@.map_values(|x: u128| x as int) == padded_sums(completed_series(outcomes@), optimum)
            &&& b.series_count == completed_series(outcomes@).len()
            &&& b.trial_count == outcomes.len()
            &&& b.generations_total == total_length(completed_series(outcomes@))
        },
{
    let mut k: usize = 0;
    while k < outcomes.len()
        invariant
            k <= outcomes.len(),
            forall|j: int| 0 <= j < k ==> !trial_failed(#[trigger] outcomes[j], optimum),
        decreases outcomes.len() - k,
    {
        let failed: bool = match &outcomes[k] {
            TrialOutcome::Completed(series) => series.len() == 0 || series[series.len() - 1] != optimum,
            TrialOutcome::Errored => true,
            TrialOutcome::TornDown => false,
        };
        if failed {
            return Err(BatchError::TrialFailedToConverge(k));
        }
        k = k + 1;
    }
    let mut completed: Vec<Vec<u64>> = Vec::new();
    let mut generations_total: u128 = 0;
    let mut j: usize = 0;
    while j < outcomes.len()
        invariant
            j <= outcomes.len(),
            completed.len() <= j,
            views(completed@) == completed_series(outcomes@.take(j as int)),
            generations_total == total_length(completed_series(outcomes@.take(j as int))),
            generations_total <= completed.len() * (u64::MAX as int),
        decreases outcomes.len() - j,
    {
        assert(outcomes@.take(j + 1).drop_last() =~= outcomes@.take(j as int));
        match &outcomes[j] {
            TrialOutcome::Completed(series) => {
                let copy: Vec<u64> = series.clone();
                assert(copy@ =~= series@);
                assert((completed.len() + 1) * (u64::MAX as int) <= u128::MAX) by (nonlinear_arith)
                    requires
                        completed.len() < u64::MAX,
                ;
                assert(generations_total + copy.len() <= (completed.len() + 1) * (u64::MAX as int))
                    by (nonlinear_arith)
                    requires
                        generations_total <= completed.len() * (u64::MAX as int),
                        copy.len() <= u64::MAX,
                ;
                generations_total = generations_total + copy.len() as u128;
                let ghost before = completed@;
                completed.push(copy);
                assert(views(completed@) =~= views(before).push(series@));
                proof {
                    let prev = completed_series(outcomes@.take(j as int));
                    assert(completed_series(outcomes@.take(j + 1)) == prev.push(series@));
                    assert(prev.push(series@).drop_last() =~= prev);
                }
            },
            _ => {},
        }
        j = j + 1;
    }
    assert(outcomes@.take(outcomes.len() as int) =~= outcomes@);
    let sums: Vec<u128> = sum_padded_series(&completed, optimum);
    Ok(BatchResult { sums, series_count: completed.len(), trial_count: outcomes.len(), generations_total })
}

} // verus!
