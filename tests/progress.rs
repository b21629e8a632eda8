use dsp_worldgen::FindState;
use std::collections::HashSet;

fn state(start: i32) -> FindState {
    FindState { progress_start: start, progress_end: start, pending_seeds: HashSet::new(), running: 1 }
}

#[test]
fn in_order_completion_notifies_every_thousand() {
    let mut s = state(0);
    for seed in 0..999 {
        assert_eq!(s.add(seed), None);
    }
    assert_eq!(s.add(999), Some((0, 1000)));
    assert_eq!(s.progress_start, 1000);
    assert_eq!(s.progress_end, 1000);
}

#[test]
fn out_of_order_completion_waits_for_the_gap() {
    let mut s = state(10);
    assert_eq!(s.add(12), None);
    assert_eq!(s.add(11), None);
    assert_eq!(s.progress_end, 10);
    assert_eq!(s.pending_seeds.len(), 2);
    assert_eq!(s.add(10), None);
    assert_eq!(s.progress_end, 13);
    assert!(s.pending_seeds.is_empty());
}

#[test]
fn a_closed_gap_can_complete_a_batch() {
    let mut s = state(0);
    for seed in 1..1500 {
        assert_eq!(s.add(seed), None);
    }
    assert_eq!(s.add(0), Some((0, 1500)));
    assert_eq!(s.progress_start, 1500);
    assert!(s.pending_seeds.is_empty());
}

#[test]
fn scan_over_a_hundred_seeds_ends_at_the_range_end() {
    let mut s = state(0);
    let order: Vec<i32> = (0..100).rev().collect();
    for seed in order {
        s.add(seed);
    }
    assert_eq!(s.progress_end, 100);
    assert_eq!(s.progress_start, 0);
}
