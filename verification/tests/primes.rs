use worker_pool::primes::find_intervals;
use worker_pool::primes::find_primes;
use worker_pool::primes::stretch;

#[test]
fn primes_below_fifty() {
    assert_eq!(
        find_primes(0, 50),
        vec![2, 3, 5, 7, 11, 13, 17, 19, 23, 29, 31, 37, 41, 43, 47]
    );
}

#[test]
fn range_end_is_left_out() {
    assert_eq!(find_primes(2, 3), vec![2]);
    assert_eq!(find_primes(2, 2), Vec::<i64>::new());
    assert_eq!(find_primes(7, 11), vec![7]);
    assert_eq!(find_primes(7, 12), vec![7, 11]);
}

#[test]
fn squares_of_primes_are_not_prime() {
    assert_eq!(find_primes(4, 5), Vec::<i64>::new());
    assert_eq!(find_primes(9, 10), Vec::<i64>::new());
    assert_eq!(find_primes(25, 26), Vec::<i64>::new());
    assert_eq!(find_primes(49, 50), Vec::<i64>::new());
    assert_eq!(find_primes(10201, 10202), Vec::<i64>::new());
}

#[test]
fn nothing_below_two_is_prime() {
    assert_eq!(find_primes(-10, 2), Vec::<i64>::new());
    assert_eq!(find_primes(-10, 4), vec![2, 3]);
    assert_eq!(find_primes(i64::MIN, i64::MIN + 3), Vec::<i64>::new());
}

#[test]
fn empty_and_reversed_ranges_hold_no_primes() {
    assert_eq!(find_primes(10, 10), Vec::<i64>::new());
    assert_eq!(find_primes(20, 3), Vec::<i64>::new());
}

#[test]
fn large_primes_are_found() {
    assert_eq!(find_primes(7900, 7920), vec![7901, 7907, 7919]);
    assert_eq!(find_primes(2147483640, 2147483648), vec![2147483647]);
}

#[test]
fn range_of_hundred_for_three_threads() {
    let mut intervals = Vec::new();
    find_intervals(&mut intervals, 0, 100, 3);
    assert_eq!(intervals, vec![33, 33, 33]);
}

#[test]
fn rest_is_halved_from_stretch_to_stretch() {
    let mut intervals = Vec::new();
    find_intervals(&mut intervals, 0, 107, 10);
    assert_eq!(intervals, vec![13, 11, 10, 10, 10, 10, 10, 10, 10, 10]);
}

#[test]
fn intervals_are_appended() {
    let mut intervals = vec![99];
    find_intervals(&mut intervals, 10, 21, 4);
    assert_eq!(intervals, vec![99, 3, 2, 2, 2]);
}

#[test]
fn one_thread_gets_the_whole_range() {
    let mut intervals = Vec::new();
    find_intervals(&mut intervals, 5, 25, 1);
    assert_eq!(intervals, vec![20]);
}

#[test]
fn reversed_range_gives_negative_lengths() {
    let mut intervals = Vec::new();
    find_intervals(&mut intervals, 107, 0, 10);
    assert_eq!(intervals, vec![-13, -11, -10, -10, -10, -10, -10, -10, -10, -10]);
}

#[test]
fn stretches_follow_one_another() {
    let intervals = vec![13, 11, 10];
    assert_eq!(stretch(&intervals, 100, 0), Some((100, 113)));
    assert_eq!(stretch(&intervals, 100, 1), Some((113, 124)));
    assert_eq!(stretch(&intervals, 100, 2), Some((124, 134)));
}

#[test]
fn stretch_without_an_interval_is_none() {
    let intervals = vec![13, 11, 10];
    assert_eq!(stretch(&intervals, 100, 3), None);
    assert_eq!(stretch(&Vec::new(), 0, 0), None);
}

#[test]
fn stretch_beyond_the_numbers_is_none() {
    let intervals = vec![i64::MAX, -i64::MAX, 5];
    assert_eq!(stretch(&intervals, 0, 0), Some((0, i64::MAX)));
    assert_eq!(stretch(&intervals, 1, 0), None);
    assert_eq!(stretch(&intervals, 1, 1), None);
    assert_eq!(stretch(&intervals, 1, 2), None);
    assert_eq!(stretch(&intervals, 0, 2), Some((0, 5)));
}

#[test]
fn stretches_of_a_split_range_are_searched() {
    let mut intervals = Vec::new();
    find_intervals(&mut intervals, 0, 30, 3);
    assert_eq!(intervals, vec![10, 10, 10]);
    let mut all = Vec::new();
    for index in 0..3 {
        let (low, high) = stretch(&intervals, 0, index).unwrap();
        all.extend(find_primes(low, high));
    }
    assert_eq!(all, vec![2, 3, 5, 7, 11, 13, 17, 19, 23, 29]);
}
