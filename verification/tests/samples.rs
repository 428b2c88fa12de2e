use std::collections::BTreeMap;
use watch_party::samples::{blend_order, Sample};

fn sample(rtt_nanos: u128, delta_nanos: u128) -> Sample {
    Sample { rtt_nanos, delta_nanos }
}

#[test]
fn longest_trip_first() {
    let samples = vec![sample(5, 1), sample(9, 2), sample(7, 3)];
    assert_eq!(blend_order(&samples), vec![sample(9, 2), sample(7, 3), sample(5, 1)]);
}

#[test]
fn of_equal_trips_the_later_counts() {
    let samples = vec![sample(5, 1), sample(9, 2), sample(5, 3)];
    assert_eq!(blend_order(&samples), vec![sample(9, 2), sample(5, 3)]);
}

#[test]
fn no_samples_no_order() {
    assert_eq!(blend_order(&vec![]), vec![]);
    assert_eq!(blend_order(&vec![sample(1, 2)]), vec![sample(1, 2)]);
}

#[test]
fn shortest_trip_last() {
    let samples: Vec<Sample> = (0u128..100).map(|i| sample(i * 37 % 41, i)).collect();
    let order = blend_order(&samples);
    assert_eq!(order.len(), 41);
    assert_eq!(order.last(), Some(&sample(0, 82)));
}

#[test]
fn order_is_that_of_a_reversed_map() {
    let samples: Vec<Sample> = (0u128..100).map(|i| sample(i * i * 7919 % 61, i * 13)).collect();
    let map: BTreeMap<u128, u128> = samples.iter().map(|s| (s.rtt_nanos, s.delta_nanos)).collect();
    let expected: Vec<Sample> = map.into_iter().rev().map(|(rtt, delta)| sample(rtt, delta)).collect();
    assert_eq!(blend_order(&samples), expected);
}
