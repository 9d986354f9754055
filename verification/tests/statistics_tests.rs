use itmo_compmath::statistics::{distribution_function, statistical_series, variation_series};

#[test]
fn variation_series_sorts_keys_and_reports_positions() {
    let (order, sorted) = variation_series(&vec![4, -2, 4, 0, -2]);
    assert_eq!(order, vec![1, 4, 3, 0, 2]);
    assert_eq!(sorted, vec![-2, -2, 0, 4, 4]);
}

#[test]
fn statistical_series_counts_runs() {
    let (starts, counts) = statistical_series(&vec![-2, -2, 0, 4, 4, 4]);
    assert_eq!(starts, vec![0, 2, 3]);
    assert_eq!(counts, vec![2, 1, 3]);
}

#[test]
fn statistical_series_of_one_key() {
    let (starts, counts) = statistical_series(&vec![9]);
    assert_eq!(starts, vec![0]);
    assert_eq!(counts, vec![1]);
}

#[test]
fn statistical_series_groups_only_neighbours() {
    let (starts, counts) = statistical_series(&vec![1, 2, 1, 1]);
    assert_eq!(starts, vec![0, 1, 2]);
    assert_eq!(counts, vec![1, 1, 2]);
}

#[test]
fn frequencies_sum_to_sample_size() {
    let keys = vec![5, 1, 3, 1, 5, 5, 2];
    let (_, sorted) = variation_series(&keys);
    let (_, counts) = statistical_series(&sorted);
    assert_eq!(counts.iter().sum::<usize>(), keys.len());
}

#[test]
fn distribution_function_accumulates_counts() {
    assert_eq!(distribution_function(&vec![2, 1, 3]), vec![2, 3, 6]);
    assert_eq!(distribution_function(&vec![]), Vec::<usize>::new());
}

#[test]
fn distribution_function_counts_keys_at_most_each_value() {
    let keys = vec![5, 1, 3, 1, 5, 5, 2];
    let (_, sorted) = variation_series(&keys);
    let (starts, counts) = statistical_series(&sorted);
    let cumulative = distribution_function(&counts);
    for k in 0..starts.len() {
        let v = sorted[starts[k]];
        assert_eq!(cumulative[k], keys.iter().filter(|&&x| x <= v).count());
    }
    assert_eq!(*cumulative.last().unwrap(), keys.len());
}

#[test]
fn distinct_values_increase() {
    let (_, sorted) = variation_series(&vec![3, 3, -1, 8, 0, 8]);
    let (starts, _) = statistical_series(&sorted);
    let values: Vec<i64> = starts.iter().map(|&s| sorted[s]).collect();
    assert_eq!(values, vec![-1, 0, 3, 8]);
}
