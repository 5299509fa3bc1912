use genetic_sim::batch::run_trial;
use genetic_sim::simulator::{simulate, Algorithm, RunMode, SimError, SimResult, Simulator};
use genetic_sim::termination::{and, fitness_limit, generation_limit, or, StopFlag, StopReason, Termination};
use rand::rngs::StdRng;

/// A deterministic algorithm whose best fitness is 0 in the first generation
/// and grows by one in each further generation.
#[derive(Debug)]
struct Counter {
    next_fitness: u64,
    fail_at: Option<u64>,
}

impl Algorithm for Counter {
    type Output = u64;
    type Error = String;

    fn next(&mut self, iteration: u64, _rng: &mut StdRng) -> Result<u64, String> {
        if self.fail_at == Some(iteration) {
            return Err(format!("failed at {}", iteration));
        }
        let fitness = self.next_fitness;
        self.next_fitness += 1;
        Ok(fitness)
    }

    fn best_fitness(output: &u64) -> u64 {
        *output
    }

    fn processing_time(&self) -> u64 {
        5
    }

    fn reset(&mut self) -> Result<bool, String> {
        self.next_fitness = 0;
        Ok(true)
    }
}

fn counter_sim(termination: Termination) -> Simulator<Counter> {
    simulate(Counter { next_fitness: 0, fail_at: None }).until(termination).build_with_seed(1)
}

#[test]
fn generation_limit_stops_exactly_at_n() {
    let mut sim = counter_sim(generation_limit(5));
    for i in 1..5u64 {
        match sim.step() {
            Ok(SimResult::Intermediate(state)) => {
                assert_eq!(state.iteration, i);
                assert_eq!(state.best_fitness, i - 1);
                assert_eq!(sim.run_mode(), RunMode::Step);
            }
            other => panic!("generation {} ended early: {:?}", i, other),
        }
    }
    match sim.step() {
        Ok(SimResult::Final(state, total, _, reason)) => {
            assert_eq!(state.iteration, 5);
            assert_eq!(total, 25);
            assert_eq!(reason, StopReason::GenerationLimitReached(5));
        }
        other => panic!("expected the final generation, got {:?}", other),
    }
    assert_eq!(sim.run_mode(), RunMode::NotRunning);
}

#[test]
fn or_of_fitness_and_generation_limit_stops_at_fitness() {
    let mut sim = counter_sim(or(fitness_limit(3), generation_limit(10)));
    let mut last = None;
    for _ in 0..10 {
        match sim.step().unwrap() {
            SimResult::Intermediate(_) => {}
            SimResult::Final(state, _, _, reason) => {
                last = Some((state.iteration, state.best_fitness, reason));
                break;
            }
        }
    }
    assert_eq!(last, Some((4, 3, StopReason::FitnessLimitReached(3))));
}

#[test]
fn or_of_fitness_and_generation_limit_stops_at_generation() {
    let mut sim = counter_sim(or(fitness_limit(100), generation_limit(6)));
    match sim.run() {
        Ok(SimResult::Final(state, _, _, reason)) => {
            assert_eq!(state.iteration, 6);
            assert_eq!(reason, StopReason::GenerationLimitReached(6));
        }
        other => panic!("unexpected {:?}", other),
    }
}

#[test]
fn or_reports_both_when_both_fire() {
    let mut sim = counter_sim(or(fitness_limit(2), generation_limit(3)));
    match sim.run() {
        Ok(SimResult::Final(state, _, _, reason)) => {
            assert_eq!(state.iteration, 3);
            assert_eq!(
                reason,
                StopReason::Both(
                    Box::new(StopReason::FitnessLimitReached(2)),
                    Box::new(StopReason::GenerationLimitReached(3))
                )
            );
        }
        other => panic!("unexpected {:?}", other),
    }
}

#[test]
fn and_waits_for_both() {
    let t = and(fitness_limit(2), generation_limit(5));
    assert_eq!(t.evaluate(3, 2), StopFlag::Continue);
    assert_eq!(t.evaluate(5, 1), StopFlag::Continue);
    assert!(matches!(t.evaluate(5, 2), StopFlag::StopNow(StopReason::Both(_, _))));
}

#[test]
fn run_while_stepping_is_refused_and_changes_nothing() {
    let mut sim = counter_sim(generation_limit(10));
    assert!(matches!(sim.step(), Ok(SimResult::Intermediate(_))));
    let started = sim.started_at();
    let r = sim.run();
    assert_eq!(r, Err(SimError::SimulationAlreadyRunning(RunMode::Step, started)));
    assert_eq!(sim.run_mode(), RunMode::Step);
    assert_eq!(sim.iteration(), 1);
    assert_eq!(sim.started_at(), started);
    assert_eq!(sim.processing_time(), 5);
}

#[test]
fn run_goes_to_the_end() {
    let mut sim = counter_sim(generation_limit(7));
    match sim.run() {
        Ok(SimResult::Final(state, total, elapsed, reason)) => {
            assert_eq!(state.iteration, 7);
            assert_eq!(state.best_fitness, 6);
            assert_eq!(state.processing_time, 35);
            assert_eq!(total, 35);
            assert!(elapsed >= 0);
            assert_eq!(reason, StopReason::GenerationLimitReached(7));
        }
        other => panic!("unexpected {:?}", other),
    }
    assert_eq!(sim.run_mode(), RunMode::NotRunning);
    assert_eq!(sim.iteration(), 7);
}

#[test]
fn stop_reports_whether_running() {
    let mut sim = counter_sim(generation_limit(10));
    assert_eq!(sim.stop(), Ok(false));
    sim.step().unwrap();
    assert_eq!(sim.stop(), Ok(true));
    assert_eq!(sim.run_mode(), RunMode::NotRunning);
    assert_eq!(sim.iteration(), 1);
}

#[test]
fn reset_refused_while_running_then_zeroes() {
    let mut sim = counter_sim(generation_limit(10));
    sim.step().unwrap();
    sim.step().unwrap();
    let started = sim.started_at();
    assert_eq!(sim.reset(), Err(SimError::SimulationStillRunning(RunMode::Step, started)));
    assert_eq!(sim.iteration(), 2);
    sim.stop().unwrap();
    assert_eq!(sim.reset(), Ok(true));
    assert_eq!(sim.iteration(), 0);
    assert_eq!(sim.processing_time(), 0);
    match sim.step() {
        Ok(SimResult::Intermediate(state)) => {
            assert_eq!(state.iteration, 1);
            assert_eq!(state.best_fitness, 0);
        }
        other => panic!("unexpected {:?}", other),
    }
}

#[test]
fn algorithm_error_ends_the_step_run() {
    let mut sim = simulate(Counter { next_fitness: 0, fail_at: Some(2) })
        .until(generation_limit(10))
        .build();
    assert!(matches!(sim.step(), Ok(SimResult::Intermediate(_))));
    assert_eq!(sim.step(), Err(SimError::AlgorithmError("failed at 2".to_string())));
    assert_eq!(sim.run_mode(), RunMode::NotRunning);
}

#[test]
fn algorithm_error_ends_run() {
    let mut sim = simulate(Counter { next_fitness: 0, fail_at: Some(3) })
        .until(generation_limit(10))
        .build_with_seed(2);
    assert_eq!(sim.run(), Err(SimError::AlgorithmError("failed at 3".to_string())));
    assert_eq!(sim.run_mode(), RunMode::NotRunning);
}

#[test]
fn trial_collects_every_best_fitness() {
    let mut sim = counter_sim(generation_limit(4));
    assert_eq!(run_trial(&mut sim), Ok(vec![0, 1, 2, 3]));
    let mut sim = counter_sim(or(fitness_limit(2), generation_limit(50)));
    assert_eq!(run_trial(&mut sim), Ok(vec![0, 1, 2]));
    assert_eq!(sim.termination(), &or(fitness_limit(2), generation_limit(50)));
}

#[test]
fn trial_surfaces_algorithm_errors() {
    let mut sim = simulate(Counter { next_fitness: 0, fail_at: Some(2) })
        .until(generation_limit(10))
        .build_with_seed(3);
    assert_eq!(run_trial(&mut sim), Err(SimError::AlgorithmError("failed at 2".to_string())));
}

#[test]
fn states_carry_the_processing_time_so_far() {
    let mut sim = counter_sim(generation_limit(3));
    for i in 1..=3u64 {
        match sim.step().unwrap() {
            SimResult::Intermediate(state) => assert_eq!(state.processing_time, 5 * i),
            SimResult::Final(state, total, _, _) => {
                assert_eq!(state.processing_time, 15);
                assert_eq!(total, 15);
            }
        }
    }
}

#[test]
fn or_stops_at_the_first_limit_reached() {
    for (target, limit, expected) in [(3u64, 10u64, 4u64), (10, 5, 5), (0, 7, 1), (4, 5, 5)] {
        let mut sim = counter_sim(or(fitness_limit(target), generation_limit(limit)));
        match sim.run() {
            Ok(SimResult::Final(state, _, _, _)) => assert_eq!(state.iteration, expected),
            other => panic!("unexpected {:?}", other),
        }
        let mut sim = counter_sim(or(fitness_limit(target), generation_limit(limit)));
        let series = run_trial(&mut sim).unwrap();
        assert_eq!(series.len() as u64, expected);
    }
}
