use prodcon::counter::{increment_counter, SharedCounter};

#[test]
fn counter_starts_at_zero() {
    assert_eq!(SharedCounter::new().counter, 0);
}

#[test]
fn counter_counts_each_increment() {
    let mut c = SharedCounter::new();
    for _ in 0..1000 {
        c.increment();
    }
    increment_counter(&mut c);
    assert_eq!(c.counter, 1001);
}
