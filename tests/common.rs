use client_rust_fix::common::{increment_seqnum, SequenceCounter};

#[test]
fn counter_seeded_at_one_counts_two_three_four() {
    let mut c = SequenceCounter::new(1);
    assert_eq!(c.increment(), 2);
    assert_eq!(c.increment(), 3);
    assert_eq!(c.increment(), 4);
    assert_eq!(c.current(), 4);
}

#[test]
fn increment_seqnum_advances_shared_counter() {
    let mut c = SequenceCounter::new(0);
    assert_eq!(increment_seqnum(&mut c), 1);
    assert_eq!(increment_seqnum(&mut c), 2);
    assert_eq!(c.current(), 2);
}

#[test]
fn successive_values_are_distinct() {
    let mut c = SequenceCounter::new(41);
    let mut seen: Vec<u32> = Vec::new();
    for _ in 0..100 {
        let v = c.increment();
        assert!(!seen.contains(&v));
        seen.push(v);
    }
    assert_eq!(seen[0], 42);
    assert_eq!(seen[99], 141);
}
