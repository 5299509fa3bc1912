use genetic_sim::batch::{aggregate_batch, sum_padded_series, BatchError, TrialOutcome};

#[test]
fn padded_mean_of_two_trials() {
    let sums = sum_padded_series(&vec![vec![1, 2, 4], vec![1, 3]], 4);
    assert_eq!(sums, vec![2, 5, 8]);
    let means: Vec<f64> = sums.iter().map(|s| *s as f64 / 2.0).collect();
    assert_eq!(means, vec![1.0, 2.5, 4.0]);
}

#[test]
fn padding_of_no_series_is_empty() {
    assert_eq!(sum_padded_series(&vec![], 4), Vec::<u128>::new());
    assert_eq!(sum_padded_series(&vec![vec![], vec![]], 4), Vec::<u128>::new());
}

#[test]
fn converged_batch_is_combined() {
    let outcomes = vec![
        TrialOutcome::Completed(vec![1, 2, 4]),
        TrialOutcome::Completed(vec![1, 4]),
        TrialOutcome::TornDown,
    ];
    let result = aggregate_batch(&outcomes, 4).unwrap();
    assert_eq!(result.sums, vec![2, 6, 8]);
    assert_eq!(result.series_count, 2);
    assert_eq!(result.trial_count, 3);
    assert_eq!(result.generations_total, 5);
}

#[test]
fn one_unconverged_trial_fails_the_batch() {
    let outcomes = vec![
        TrialOutcome::Completed(vec![1, 2, 4]),
        TrialOutcome::Completed(vec![1, 2, 3]),
        TrialOutcome::Completed(vec![4]),
    ];
    assert_eq!(aggregate_batch(&outcomes, 4), Err(BatchError::TrialFailedToConverge(1)));
}

#[test]
fn errored_or_empty_trials_fail_the_batch() {
    let outcomes = vec![TrialOutcome::Completed(vec![4]), TrialOutcome::Errored];
    assert_eq!(aggregate_batch(&outcomes, 4), Err(BatchError::TrialFailedToConverge(1)));
    let outcomes = vec![TrialOutcome::Completed(vec![])];
    assert_eq!(aggregate_batch(&outcomes, 4), Err(BatchError::TrialFailedToConverge(0)));
}

#[test]
fn large_values_sum_without_overflow() {
    let sums = sum_padded_series(&vec![vec![u64::MAX], vec![u64::MAX, 1]], u64::MAX);
    assert_eq!(sums, vec![2 * u64::MAX as u128, u64::MAX as u128 + 1]);
}
