//! Conditions that end a simulation, evaluated after every generation.
use vstd::prelude::*;

verus! {

/// Why a simulation was stopped.
#[derive(Debug, PartialEq, Eq)]
pub enum StopReason {
    /// The generation with this number reached the generation limit.
    GenerationLimitReached(u64),
    /// A best fitness of this value reached the fitness target.
    FitnessLimitReached(u64),
    /// Both parts of a combined condition asked to stop.
    Both(Box<StopReason>, Box<StopReason>),
}

/// The verdict of a stop condition on one generation.
#[derive(Debug, PartialEq, Eq)]
pub enum StopFlag {
    Continue,
    StopNow(StopReason),
}

/// A stop condition: the two primitive limits and their combinations.
#[derive(Debug, PartialEq, Eq)]
pub enum Termination {
    /// Stop once the generation number is at least the limit.
    GenerationLimit(u64),
    /// Stop once the best fitness is at least the target.
    FitnessLimit(u64),
    /// Stop as soon as either condition asks to.
    Or(Box<Termination>, Box<Termination>),
    /// Stop only once both conditions ask to.
    And(Box<Termination>, Box<Termination>),
}

/// The reason for which `t` stops after generation `iteration` with best
/// fitness `fitness`, or `None` where it lets the simulation go on.
pub open spec fn stop_reason(t: Termination, iteration: u64, fitness: u64) -> Option<StopReason>
    decreases t,
{
    match t {
        Termination::GenerationLimit(limit) => if iteration >= limit {
            Some(StopReason::GenerationLimitReached(iteration))
        } else {
            None
        },
        Termination::FitnessLimit(target) => if fitness >= target {
            Some(StopReason::FitnessLimitReached(fitness))
        } else {
            None
        },
        Termination::Or(a, b) => match (stop_reason(*a, iteration, fitness), stop_reason(*b, iteration, fitness)) {
            (Some(ra), Some(rb)) => Some(StopReason::Both(Box::new(ra), Box::new(rb))),
            (Some(ra), None) => Some(ra),
            (None, Some(rb)) => Some(rb),
            (None, None) => None,
        },
        Termination::And(a, b) => match (stop_reason(*a, iteration, fitness), stop_reason(*b, iteration, fitness)) {
            (Some(ra), Some(rb)) => Some(StopReason::Both(Box::new(ra), Box::new(rb))),
            _ => None,
        },
    }
}

/// The flag that `t` raises after generation `iteration` with best fitness
/// `fitness`.
pub open spec fn stop_flag(t: Termination, iteration: u64, fitness: u64) -> StopFlag {
    match stop_reason(t, iteration, fitness) {
        Some(reason) => StopFlag::StopNow(reason),
        None => StopFlag::Continue,
    }
}

/// `series[k]` is the best fitness of the generation numbered `first + k`,
/// and the stop condition `t` fires on the last generation of the series and
/// on no earlier one.
pub open spec fn stops_first_at_end(t: Termination, first: u64, series: Seq<u64>) -> bool {
    &&& series.len() > 0
    &&& first + series.len() - 1 <= u64::MAX
    &&& forall|k: int|
        0 <= k < series.len() - 1 ==> stop_flag(t, (first + k) as u64, #[trigger] series[k])
            == StopFlag::Continue
    &&& stop_flag(t, (first + series.len() - 1) as u64, series.last()) is StopNow
}

/// A condition that stops at the first generation numbered `limit` or more.
pub fn generation_limit(limit: u64) -> (t: Termination)
    ensures
        t == Termination::GenerationLimit(limit),
{
    Termination::GenerationLimit(limit)
}

/// A condition that stops once the best fitness reaches `target`.
pub fn fitness_limit(target: u64) -> (t: Termination)
    ensures
        t == Termination::FitnessLimit(target),
{
    Termination::FitnessLimit(target)
}

/// A condition that stops as soon as `a` or `b` does.
pub fn or(a: Termination, b: Termination) -> (t: Termination)
    ensures
        t == Termination::Or(Box::new(a), Box::new(b)),
{
    Termination::Or(Box::new(a), Box::new(b))
}

/// A condition that stops once `a` and `b` both do.
pub fn and(a: Termination, b: Termination) -> (t: Termination)
    ensures
        t == Termination::And(Box::new(a), Box::new(b)),
{
    Termination::And(Box::new(a), Box::new(b))
}

impl Termination {
    /// Evaluates this condition on the generation numbered `iteration`, whose
    /// best fitness is `fitness`.
    pub fn evaluate(&self, iteration: u64, fitness: u64) -> (flag: StopFlag)
        ensures
            flag == stop_flag(*self, iteration, fitness),
        decreases self,
    {
        match self {
            Termination::GenerationLimit(limit) => if iteration >= *limit {
                StopFlag::StopNow(StopReason::GenerationLimitReached(iteration))
            } else {
                StopFlag::Continue
            },
            Termination::FitnessLimit(target) => if fitness >= *target {
                StopFlag::StopNow(StopReason::FitnessLimitReached(fitness))
            } else {
                StopFlag::Continue
            },
            Termination::Or(a, b) => {
                let fa = a.evaluate(iteration, fitness);
                let fb = b.evaluate(iteration, fitness);
                match (fa, fb) {
                    (StopFlag::StopNow(ra), StopFlag::StopNow(rb)) => StopFlag::StopNow(
                        StopReason::Both(Box::new(ra), Box::new(rb)),
                    ),
                    (StopFlag::StopNow(ra), StopFlag::Continue) => StopFlag::StopNow(ra),
                    (StopFlag::Continue, StopFlag::StopNow(rb)) => StopFlag::StopNow(rb),
                    (StopFlag::Continue, StopFlag::Continue) => StopFlag::Continue,
                }
            },
            Termination::And(a, b) => {
                let fa = a.evaluate(iteration, fitness);
                let fb = b.evaluate(iteration, fitness);
                match (fa, fb) {
                    (StopFlag::StopNow(ra), StopFlag::StopNow(rb)) => StopFlag::StopNow(
                        StopReason::Both(Box::new(ra), Box::new(rb)),
                    ),
                    _ => StopFlag::Continue,
                }
            },
        }
    }
}

/// A generation limit of `n` lets every generation before the `n`th go on,
/// whatever its fitness, and stops at generation `n`.
pub proof fn generation_limit_stops_exactly_at_limit(n: u64, iteration: u64, fitness: u64)
    ensures
        iteration < n ==> stop_flag(Termination::GenerationLimit(n), iteration, fitness)
            == StopFlag::Continue,
        stop_flag(Termination::GenerationLimit(n), n, fitness) == StopFlag::StopNow(
            StopReason::GenerationLimitReached(n),
        ),
{
}

/// "Or" stops exactly where at least one of its two conditions stops.
pub proof fn or_stops_when_either_stops(a: Termination, b: Termination, iteration: u64, fitness: u64)
    ensures
        stop_reason(Termination::Or(Box::new(a), Box::new(b)), iteration, fitness) is Some <==> (
        stop_reason(a, iteration, fitness) is Some || stop_reason(b, iteration, fitness) is Some),
{
}

/// "And" stops exactly where both of its conditions stop.
pub proof fn and_stops_when_both_stop(a: Termination, b: Termination, iteration: u64, fitness: u64)
    ensures
        stop_reason(Termination::And(Box::new(a), Box::new(b)), iteration, fitness) is Some <==> (
        stop_reason(a, iteration, fitness) is Some && stop_reason(b, iteration, fitness) is Some),
{
}

/// A fitness target `target` or'ed with a generation limit `n` stops at a
/// generation exactly when its best fitness is at least `target` or its
/// number is at least `n`.
pub proof fn fitness_or_generation_limit_stops(target: u64, n: u64, iteration: u64, fitness: u64)
    ensures
        stop_reason(
            Termination::Or(
                Box::new(Termination::FitnessLimit(target)),
                Box::new(Termination::GenerationLimit(n)),
            ),
            iteration,
            fitness,
        ) is Some <==> (fitness >= target || iteration >= n),
{
    reveal_with_fuel(stop_reason, 2);
}

/// Under a generation limit of `n`, a run whose generations are numbered
/// from 1 and whose stop condition fires first at its last generation has
/// exactly `n` generations (for `n` of at least 1).
pub proof fn generation_limit_run_length(n: u64, series: Seq<u64>)
    requires
        n >= 1,
        stops_first_at_end(Termination::GenerationLimit(n), 1, series),
    ensures
        series.len() == n,
{
    if series.len() > n {
        assert(stop_flag(Termination::GenerationLimit(n), (1 + (n - 1)) as u64, series[n - 1])
            == StopFlag::Continue);
    }
}

/// Under a fitness target `target` or'ed with a generation limit `n` (of at
/// least 1), a run whose generations are numbered from 1, whose best fitness
/// is 0 in the first generation and grows by one per generation, and whose
/// stop condition fires first at its last generation, has exactly
/// `min(n, target + 1)` generations.
pub proof fn fitness_or_generation_limit_run_length(target: u64, n: u64, series: Seq<u64>)
    requires
        n >= 1,
        forall|k: int| 0 <= k < series.len() ==> #[trigger] series[k] == k,
        stops_first_at_end(
            Termination::Or(
                Box::new(Termination::FitnessLimit(target)),
                Box::new(Termination::GenerationLimit(n)),
            ),
            1,
            series,
        ),
    ensures
        series.len() == if n <= target + 1 {
            n as int
        } else {
            target + 1
        },
{
    reveal_with_fuel(stop_reason, 2);
    let t = Termination::Or(
        Box::new(Termination::FitnessLimit(target)),
        Box::new(Termination::GenerationLimit(n)),
    );
    let m: int = if n <= target + 1 {
        n as int
    } else {
        target + 1
    };
    let len = series.len() as int;
    if len > m {
        assert(series[m - 1] == m - 1);
        assert(stop_flag(t, (1 + (m - 1)) as u64, series[m - 1]) == StopFlag::Continue);
    }
    if len < m {
        assert(series[len - 1] == len - 1);
        assert(series.last() == series[len - 1]);
    }
}

} // verus!
