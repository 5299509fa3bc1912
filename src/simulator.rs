//! The simulator: a state machine that advances an algorithm one generation
//! at a time, either in a loop until its stop condition fires (`run`) or one
//! generation per call (`step`).
use crate::clock::{millis_between, now_millis, span};
use crate::random::{entropy_rng, seeded_rng};
use crate::termination::{stop_flag, stops_first_at_end, StopFlag, StopReason, Termination};
use vstd::prelude::*;

verus! {

/// What the simulator drives: an algorithm that produces one generation per
/// call, reports the time it spent on its last generation, and can start over.
pub trait Algorithm {
    /// What one generation yields (population, best solution).
    type Output;
    /// What goes wrong in a generation.
    type Error;

    /// Produces generation number `iteration`.
    fn next(&mut self, iteration: u64, rng: &mut rand::rngs::StdRng) -> Result<Self::Output, Self::Error>;

    /// The best fitness found in a generation.
    fn best_fitness(output: &Self::Output) -> u64;

    /// The time, in nanoseconds, spent on the last generation.
    fn processing_time(&self) -> u64;

    /// Starts the algorithm over.
    fn reset(&mut self) -> Result<bool, Self::Error>;
}

/// Whether the simulation is running, and how it was started.
#[derive(Clone, Copy, Debug, PartialEq, Eq, Structural)]
pub enum RunMode {
    /// Started by `run`.
    Loop,
    /// Started by `step`.
    Step,
    /// Not running: `run` and `step` may start a run, `reset` may start over.
    NotRunning,
}

/// Why a command to the simulator failed.
#[derive(Clone, Debug, PartialEq, Eq)]
pub enum SimError<E> {
    /// The algorithm failed on a generation.
    AlgorithmError(E),
    /// `run` or `step` while the simulation runs in the other mode, which
    /// started at the given time (milliseconds since the epoch).
    SimulationAlreadyRunning(RunMode, i64),
    /// `reset` while the simulation runs in the given mode, which started at
    /// the given time.
    SimulationStillRunning(RunMode, i64),
    /// The generation counter has reached `u64::MAX`.
    IterationsExhausted,
}

/// A snapshot of one generation.
#[derive(Clone, Debug, PartialEq)]
pub struct State<O> {
    /// When the run started (milliseconds since the epoch).
    pub started_at: i64,
    /// The number of this generation, counted from 1.
    pub iteration: u64,
    /// The wall-clock time, in milliseconds, this generation took.
    pub duration: i64,
    /// The processing time, in nanoseconds, that the algorithm reported for
    /// all generations done up to this one.
    pub processing_time: u64,
    /// The best fitness of this generation.
    pub best_fitness: u64,
    /// What the algorithm produced.
    pub result: O,
}

/// The outcome of one step: the run goes on, or it has ended.
#[derive(Debug, PartialEq)]
pub enum SimResult<O> {
    Intermediate(State<O>),
    /// The last state, the total processing time (nanoseconds), the elapsed
    /// wall-clock time of the run (milliseconds) and why it stopped.
    Final(State<O>, u64, i64, StopReason),
}

/// Begins to build a simulator for `algorithm`.
pub fn simulate<A: Algorithm>(algorithm: A) -> (b: SimulatorBuilderWithAlgorithm<A>)
    ensures
        b.spec_algorithm() == algorithm,
{
    SimulatorBuilderWithAlgorithm { algorithm }
}

/// A simulator builder that has its algorithm and still needs a stop condition.
pub struct SimulatorBuilderWithAlgorithm<A: Algorithm> {
    algorithm: A,
}

impl<A: Algorithm> SimulatorBuilderWithAlgorithm<A> {
    pub closed spec fn spec_algorithm(&self) -> A {
        self.algorithm
    }

    /// Sets the condition on which the simulation stops.
    pub fn until(self, termination: Termination) -> (b: SimulatorBuilder<A>)
        ensures
            b.spec_algorithm() == self.spec_algorithm(),
            b.spec_termination() == termination,
    {
        SimulatorBuilder { algorithm: self.algorithm, termination }
    }
}

/// A simulator builder with an algorithm and a stop condition.
pub struct SimulatorBuilder<A: Algorithm> {
    algorithm: A,
    termination: Termination,
}

impl<A: Algorithm> SimulatorBuilder<A> {
    pub closed spec fn spec_algorithm(&self) -> A {
        self.algorithm
    }

    pub closed spec fn spec_termination(&self) -> Termination {
        self.termination
    }

    /// A fresh simulator whose random source is seeded by the system.
    pub fn build(self) -> (s: Simulator<A>)
        ensures
            s.is_fresh(self.spec_algorithm(), self.spec_termination()),
    {
        let rng = entropy_rng();
        self.build_with_rng(rng)
    }

    /// A fresh simulator whose random source is seeded with `seed`.
    pub fn build_with_seed(self, seed: u64) -> (s: Simulator<A>)
        ensures
            s.is_fresh(self.spec_algorithm(), self.spec_termination()),
    {
        let rng = seeded_rng(seed);
        self.build_with_rng(rng)
    }

    fn build_with_rng(self, rng: rand::rngs::StdRng) -> (s: Simulator<A>)
        ensures
            s.is_fresh(self.spec_algorithm(), self.spec_termination()),
    {
        Simulator {
            algorithm: self.algorithm,
            termination: self.termination,
            run_mode: RunMode::NotRunning,
            rng,
            started_at: now_millis(),
            iteration: 0,
            processing_time: 0,
        }
    }
}

/// Drives an algorithm generation by generation until its stop condition fires.
#[derive(Debug)]
pub struct Simulator<A: Algorithm> {
    algorithm: A,
    termination: Termination,
    run_mode: RunMode,
    rng: rand::rngs::StdRng,
    started_at: i64,
    iteration: u64,
    processing_time: u64,
}

impl<A: Algorithm> Simulator<A> {
    pub closed spec fn spec_algorithm(&self) -> A {
        self.algorithm
    }

    pub closed spec fn spec_termination(&self) -> Termination {
        self.termination
    }

    pub closed spec fn spec_run_mode(&self) -> RunMode {
        self.run_mode
    }

    pub closed spec fn spec_started_at(&self) -> i64 {
        self.started_at
    }

    pub closed spec fn spec_iteration(&self) -> u64 {
        self.iteration
    }

    pub closed spec fn spec_processing_time(&self) -> u64 {
        self.processing_time
    }

    /// Not running, with no generation done and no time spent yet.
    pub open spec fn is_fresh(&self, algorithm: A, termination: Termination) -> bool {
        &&& self.spec_algorithm() == algorithm
        &&& self.spec_termination() == termination
        &&& self.spec_run_mode() == RunMode::NotRunning
        &&& self.spec_iteration() == 0
        &&& self.spec_processing_time() == 0
    }

    /// The stop condition of this simulation.
    pub fn termination(&self) -> (t: &Termination)
        ensures
            *t == self.spec_termination(),
    {
        &self.termination
    }

    /// Whether, and how, the simulation is running.
    pub fn run_mode(&self) -> (m: RunMode)
        ensures
            m == self.spec_run_mode(),
    {
        self.run_mode
    }

    /// The number of generations done since the start or the last reset.
    pub fn iteration(&self) -> (i: u64)
        ensures
            i == self.spec_iteration(),
    {
        self.iteration
    }

    /// The processing time, in nanoseconds, summed over the generations done.
    pub fn processing_time(&self) -> (t: u64)
        ensures
            t == self.spec_processing_time(),
    {
        self.processing_time
    }

    /// When the current or last run started (milliseconds since the epoch).
    pub fn started_at(&self) -> (t: i64)
        ensures
            t == self.spec_started_at(),
    {
        self.started_at
    }

    /// Everything but the run mode is as in `other`.
    pub open spec fn same_but_run_mode(&self, other: &Self) -> bool {
        &&& self.spec_algorithm() == other.spec_algorithm()
        &&& self.spec_termination() == other.spec_termination()
        &&& self.spec_started_at() == other.spec_started_at()
        &&& self.spec_iteration() == other.spec_iteration()
        &&& self.spec_processing_time() == other.spec_processing_time()
    }

    /// Does one generation: counts it, has the algorithm produce it and adds
    /// the algorithm's processing time to the total.
    fn process_one_iteration(&mut self) -> (r: Result<State<A::Output>, SimError<A::Error>>)
        requires
            old(self).iteration < u64::MAX,
        ensures
            final(self).iteration == old(self).iteration + 1,
            final(self).termination == old(self).termination,
            final(self).run_mode == old(self).run_mode,
            final(self).started_at == old(self).started_at,
            final(self).processing_time >= old(self).processing_time,
            r matches Ok(state) ==> {
                &&& state.iteration == final(self).iteration
                &&& state.started_at == final(self).started_at
                &&& state.processing_time == final(self).processing_time
            },
            r matches Err(e) ==> e is AlgorithmError,
    {
        let loop_started_at = now_millis();
        self.iteration = self.iteration + 1;
        let result = self.algorithm.next(self.iteration, &mut self.rng);
        self.processing_time = self.processing_time.saturating_add(self.algorithm.processing_time());
        let loop_duration = millis_between(loop_started_at, now_millis());
        match result {
            Ok(result) => {
                let best_fitness = A::best_fitness(&result);
                Ok(
                    State {
                        started_at: self.started_at,
                        iteration: self.iteration,
                        duration: loop_duration,
                        processing_time: self.processing_time,
                        best_fitness,
                        result,
                    },
                )
            },
            Err(error) => Err(SimError::AlgorithmError(error)),
        }
    }

    /// Runs generations until the stop condition fires or the algorithm
    /// fails. Refused, with the simulator unchanged, while it already runs.
    /// The run ends at the first of its generations on which the stop
    /// condition fires: there is a series of the best fitnesses of the run's
    /// generations, ending with the final state's, on whose earlier
    /// generations the condition lets the run go on.
    pub fn run(&mut self) -> (r: Result<SimResult<A::Output>, SimError<A::Error>>)
        ensures
            old(self).spec_run_mode() != RunMode::NotRunning ==> r == Err::<
                SimResult<A::Output>,
                SimError<A::Error>,
            >(SimError::SimulationAlreadyRunning(old(self).spec_run_mode(), old(self).spec_started_at()))
                && *final(self) == *old(self),
            old(self).spec_run_mode() == RunMode::NotRunning ==> {
                &&& final(self).spec_run_mode() == RunMode::NotRunning
                &&& final(self).spec_termination() == old(self).spec_termination()
                &&& final(self).spec_iteration() >= old(self).spec_iteration()
                &&& final(self).spec_processing_time() >= old(self).spec_processing_time()
                &&& old(self).spec_iteration() == u64::MAX ==> r == Err::<
                    SimResult<A::Output>,
                    SimError<A::Error>,
                >(SimError::IterationsExhausted)
                &&& match r {
                    Ok(SimResult::Final(state, total, elapsed, reason)) => {
                        &&& state.iteration == final(self).spec_iteration()
                        &&& state.iteration > old(self).spec_iteration()
                        &&& state.started_at == final(self).spec_started_at()
                        &&& state.processing_time == final(self).spec_processing_time()
                        &&& stop_flag(final(self).spec_termination(), state.iteration, state.best_fitness)
                            == StopFlag::StopNow(reason)
                        &&& total == final(self).spec_processing_time()
                        &&& exists|fits: Seq<u64>|
                            #[trigger] stops_first_at_end(
                                old(self).spec_termination(),
                                (old(self).spec_iteration() + 1) as u64,
                                fits,
                            ) && fits.len() == state.iteration - old(self).spec_iteration()
                                && fits.last() == state.best_fitness
                    },
                    Ok(SimResult::Intermediate(_)) => false,
                    Err(SimError::AlgorithmError(_)) => final(self).spec_iteration() > old(self).spec_iteration(),
                    Err(SimError::IterationsExhausted) => final(self).spec_iteration() == u64::MAX,
                    Err(_) => false,
                }
            },
    {
        match self.run_mode {
            RunMode::Loop => {
                return Err(SimError::SimulationAlreadyRunning(RunMode::Loop, self.started_at));
            },
            RunMode::Step => {
                return Err(SimError::SimulationAlreadyRunning(RunMode::Step, self.started_at));
            },
            RunMode::NotRunning => {
                self.run_mode = RunMode::Loop;
                self.started_at = now_millis();
            },
        }
        let ghost mut fits: Seq<u64> = Seq::empty();
        loop
            invariant
                old(self).run_mode == RunMode::NotRunning,
                self.run_mode == RunMode::Loop,
                self.termination == old(self).termination,
                self.iteration == old(self).iteration + fits.len(),
                self.processing_time >= old(self).processing_time,
                forall|k: int|
                    0 <= k < fits.len() ==> stop_flag(
                        self.termination,
                        (old(self).iteration + 1 + k) as u64,
                        #[trigger] fits[k],
                    ) == StopFlag::Continue,
            decreases u64::MAX - self.iteration,
        {
            if self.iteration == u64::MAX {
                self.run_mode = RunMode::NotRunning;
                return Err(SimError::IterationsExhausted);
            }
            match self.process_one_iteration() {
                Ok(state) => {
                    match self.termination.evaluate(state.iteration, state.best_fitness) {
                        StopFlag::Continue => {
                            proof {
                                fits = fits.push(state.best_fitness);
                            }
                        },
                        StopFlag::StopNow(reason) => {
                            proof {
                                let prev = fits;
                                fits = fits.push(state.best_fitness);
                                assert forall|k: int| 0 <= k < fits.len() - 1 implies stop_flag(
                                    old(self).termination,
                                    ((old(self).iteration + 1) as u64 + k) as u64,
                                    #[trigger] fits[k],
                                ) == StopFlag::Continue by {
                                    assert(fits[k] == prev[k]);
                                }
                                assert(stops_first_at_end(
                                    old(self).termination,
                                    (old(self).iteration + 1) as u64,
                                    fits,
                                ));
                                assert(fits.len() == state.iteration - old(self).iteration);
                                assert(fits.last() == state.best_fitness);
                            }
                            let total = self.processing_time;
                            let elapsed = millis_between(self.started_at, now_millis());
                            self.run_mode = RunMode::NotRunning;
                            return Ok(SimResult::Final(state, total, elapsed, reason));
                        },
                    }
                },
                Err(error) => {
                    self.run_mode = RunMode::NotRunning;
                    return Err(error);
                },
            }
        }
    }

    /// Does one generation. A run in step mode starts with the first call and
    /// ends with the call whose generation fires the stop condition, or on
    /// an algorithm error. Refused, with the simulator unchanged, while a
    /// `run` is going on.
    pub fn step(&mut self) -> (r: Result<SimResult<A::Output>, SimError<A::Error>>)
        ensures
            old(self).spec_run_mode() == RunMode::Loop ==> r == Err::<
                SimResult<A::Output>,
                SimError<A::Error>,
            >(SimError::SimulationAlreadyRunning(RunMode::Loop, old(self).spec_started_at()))
                && *final(self) == *old(self),
            old(self).spec_run_mode() != RunMode::Loop && old(self).spec_iteration() == u64::MAX ==> r
                == Err::<SimResult<A::Output>, SimError<A::Error>>(SimError::IterationsExhausted)
                && *final(self) == *old(self),
            old(self).spec_run_mode() != RunMode::Loop && old(self).spec_iteration() < u64::MAX ==> {
                &&& final(self).spec_iteration() == old(self).spec_iteration() + 1
                &&& final(self).spec_termination() == old(self).spec_termination()
                &&& final(self).spec_processing_time() >= old(self).spec_processing_time()
                &&& old(self).spec_run_mode() == RunMode::Step ==> final(self).spec_started_at()
                    == old(self).spec_started_at()
                &&& match r {
                    Ok(SimResult::Intermediate(state)) => {
                        &&& state.iteration == final(self).spec_iteration()
                        &&& state.started_at == final(self).spec_started_at()
                        &&& stop_flag(final(self).spec_termination(), state.iteration, state.best_fitness)
                            == StopFlag::Continue
                        &&& final(self).spec_run_mode() == RunMode::Step
                    },
                    Ok(SimResult::Final(state, total, elapsed, reason)) => {
                        &&& state.iteration == final(self).spec_iteration()
                        &&& state.started_at == final(self).spec_started_at()
                        &&& stop_flag(final(self).spec_termination(), state.iteration, state.best_fitness)
                            == StopFlag::StopNow(reason)
                        &&& total == final(self).spec_processing_time()
                        &&& final(self).spec_run_mode() == RunMode::NotRunning
                    },
                    Err(e) => e is AlgorithmError && final(self).spec_run_mode() == RunMode::NotRunning,
                }
            },
    {
        match self.run_mode {
            RunMode::Loop => {
                return Err(SimError::SimulationAlreadyRunning(RunMode::Loop, self.started_at));
            },
            RunMode::Step => {},
            RunMode::NotRunning => {
                if self.iteration == u64::MAX {
                    return Err(SimError::IterationsExhausted);
                }
                self.run_mode = RunMode::Step;
                self.started_at = now_millis();
            },
        }
        if self.iteration == u64::MAX {
            return Err(SimError::IterationsExhausted);
        }
        match self.process_one_iteration() {
            Ok(state) => {
                match self.termination.evaluate(state.iteration, state.best_fitness) {
                    StopFlag::Continue => Ok(SimResult::Intermediate(state)),
                    StopFlag::StopNow(reason) => {
                        let total = self.processing_time;
                        let elapsed = millis_between(self.started_at, now_millis());
                        self.run_mode = RunMode::NotRunning;
                        Ok(SimResult::Final(state, total, elapsed, reason))
                    },
                }
            },
            Err(error) => {
                self.run_mode = RunMode::NotRunning;
                Err(error)
            },
        }
    }

    /// Ends a running simulation; reports whether one was running.
    pub fn stop(&mut self) -> (r: Result<bool, SimError<A::Error>>)
        ensures
            r == Ok::<bool, SimError<A::Error>>(old(self).spec_run_mode() != RunMode::NotRunning),
            final(self).spec_run_mode() == RunMode::NotRunning,
            final(self).same_but_run_mode(old(self)),
    {
        match self.run_mode {
            RunMode::Loop | RunMode::Step => {
                self.run_mode = RunMode::NotRunning;
                Ok(true)
            },
            RunMode::NotRunning => Ok(false),
        }
    }

    /// Sets the generation count and the processing time back to zero and has
    /// the algorithm start over. Refused, with the simulator unchanged, while
    /// the simulation runs.
    pub fn reset(&mut self) -> (r: Result<bool, SimError<A::Error>>)
        ensures
            old(self).spec_run_mode() != RunMode::NotRunning ==> r == Err::<bool, SimError<A::Error>>(
                SimError::SimulationStillRunning(old(self).spec_run_mode(), old(self).spec_started_at()),
            ) && *final(self) == *old(self),
            old(self).spec_run_mode() == RunMode::NotRunning ==> {
                &&& final(self).spec_run_mode() == RunMode::NotRunning
                &&& final(self).spec_iteration() == 0
                &&& final(self).spec_processing_time() == 0
                &&& final(self).spec_termination() == old(self).spec_termination()
                &&& final(self).spec_started_at() == old(self).spec_started_at()
                &&& r matches Err(e) ==> e is AlgorithmError
            },
    {
        match self.run_mode {
            RunMode::Loop => {
                return Err(SimError::SimulationStillRunning(RunMode::Loop, self.started_at));
            },
            RunMode::Step => {
                return Err(SimError::SimulationStillRunning(RunMode::Step, self.started_at));
            },
            RunMode::NotRunning => {},
        }
        self.processing_time = 0;
        self.iteration = 0;
        match self.algorithm.reset() {
            Ok(done) => Ok(done),
            Err(error) => Err(SimError::AlgorithmError(error)),
        }
    }
}

} // verus!
