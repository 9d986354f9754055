use itmo_compmath::ranking::{first_max_index, first_min_index, ordering_key, stable_sort_order};

fn key(x: f64) -> i64 {
    ordering_key(x.to_bits()).unwrap()
}

#[test]
fn first_min_takes_earliest_of_equal_minima() {
    assert_eq!(first_min_index(&vec![5, 3, 7, 3, 9]), 1);
    assert_eq!(first_min_index(&vec![4]), 0);
    assert_eq!(first_min_index(&vec![-1, -1]), 0);
}

#[test]
fn first_max_takes_earliest_of_equal_maxima() {
    assert_eq!(first_max_index(&vec![1, 9, 2, 9]), 1);
    assert_eq!(first_max_index(&vec![0, 0, 0]), 0);
    assert_eq!(first_max_index(&vec![]), 0);
}

#[test]
fn stable_sort_order_sorts_and_keeps_ties_in_place() {
    let keys = vec![3, 1, 2, 1, 3, 0];
    assert_eq!(stable_sort_order(&keys), vec![5, 1, 3, 2, 0, 4]);
    assert_eq!(stable_sort_order(&vec![]), Vec::<usize>::new());
    assert_eq!(stable_sort_order(&vec![7, 7, 7]), vec![0, 1, 2]);
}

#[test]
fn ordering_keys_follow_the_numbers() {
    let xs = [-1e300, -2.5, -1.0, -0.0, 0.0, 1e-300, 1.0, 2.5, f64::INFINITY];
    for i in 0..xs.len() {
        for j in 0..xs.len() {
            assert_eq!(key(xs[i]) < key(xs[j]), xs[i] < xs[j]);
            assert_eq!(key(xs[i]) == key(xs[j]), xs[i] == xs[j]);
        }
    }
    assert_eq!(key(f64::NEG_INFINITY) < key(-1e308), true);
    assert_eq!(key(0.0), 0);
    assert_eq!(key(-0.0), 0);
    assert_eq!(key(1.0), 0x3ff0_0000_0000_0000);
    assert_eq!(key(-1.0), -0x3ff0_0000_0000_0000);
}

#[test]
fn ordering_key_refuses_nan() {
    assert_eq!(ordering_key(f64::NAN.to_bits()), None);
    assert_eq!(ordering_key((-f64::NAN).to_bits()), None);
    assert_eq!(ordering_key(f64::INFINITY.to_bits()), Some(0x7ff0_0000_0000_0000));
}
