use task_tracer::quantity::{square_of, QuantityStats};
use task_tracer::task_stats::{sleep_duration, Observation, TaskStats};

#[test]
fn new_quantity_is_empty() {
    let q = QuantityStats::new();
    assert_eq!(q.count, 0);
    assert_eq!(q.sum, 0);
    assert_eq!(q.sum_of_squares, 0);
    assert_eq!(q.min, u64::MAX);
    assert_eq!(q.max, 0);
    assert_eq!(q.mean_floor(), 0);
}

#[test]
fn quantity_update_accumulates() {
    let mut q = QuantityStats::new();
    for x in [4u64, 10, 1, 7] {
        q.update(x);
    }
    assert_eq!(q.count, 4);
    assert_eq!(q.sum, 22);
    assert_eq!(q.sum_of_squares, 16 + 100 + 1 + 49);
    assert_eq!(q.min, 1);
    assert_eq!(q.max, 10);
    assert_eq!(q.mean_floor(), 5);
}

#[test]
fn quantity_count_equals_number_of_updates() {
    let mut q = QuantityStats::new();
    for i in 0..1000u64 {
        q.update(i * 3);
        assert_eq!(q.count, i + 1);
    }
}

#[test]
fn quantity_bounds_enclose_every_sample() {
    let samples = [9u64, 0, 55, 3, 3, 1_000_000, 42];
    let mut q = QuantityStats::new();
    for x in samples {
        q.update(x);
    }
    for x in samples {
        assert!(q.min <= x && x <= q.max);
    }
    assert_eq!(q.min, 0);
    assert_eq!(q.max, 1_000_000);
}

#[test]
fn quantity_mean_matches_arithmetic_mean() {
    let samples = [1_000_000u64, 2_000_000, 3_000_000, 6_000_000];
    let mut q = QuantityStats::new();
    for x in samples {
        q.update(x);
    }
    assert_eq!(q.mean_floor(), 3_000_000);
    let mean = q.sum as f64 / q.count as f64;
    assert!((mean - 3_000_000.0).abs() < 1e-6);
    let variance = q.sum_of_squares as f64 / q.count as f64 - mean * mean;
    assert!(variance >= 0.0);
    assert!((variance - 3.5e12).abs() < 1.0);
}

#[test]
fn quantity_variance_numerator_is_not_negative() {
    let mut q = QuantityStats::new();
    for x in [5u64, 5, 5, 5, 6, 4, 1_000] {
        q.update(x);
        let lhs = (q.count as u128) * q.sum_of_squares;
        let rhs = (q.sum as u128) * (q.sum as u128);
        assert!(lhs >= rhs);
    }
}

#[test]
fn quantity_sum_saturates() {
    let mut q = QuantityStats::new();
    q.update(u64::MAX);
    q.update(5);
    assert_eq!(q.count, 2);
    assert_eq!(q.sum, u64::MAX);
    assert_eq!(q.min, 5);
    assert_eq!(q.max, u64::MAX);
    assert_eq!(
        q.sum_of_squares,
        (u64::MAX as u128) * (u64::MAX as u128) + 25
    );
}

#[test]
fn quantity_sum_of_squares_saturates() {
    let mut q = QuantityStats::new();
    q.update(u64::MAX);
    q.update(u64::MAX);
    assert_eq!(q.sum_of_squares, u128::MAX);
}

#[test]
fn square_of_largest_value() {
    assert_eq!(square_of(0), 0);
    assert_eq!(square_of(12), 144);
    assert_eq!(square_of(u64::MAX), (u64::MAX as u128) * (u64::MAX as u128));
}

#[test]
fn sleep_duration_of_windows() {
    assert_eq!(sleep_duration(100, 150), 50);
    assert_eq!(sleep_duration(100, 100), 0);
    assert_eq!(sleep_duration(100, 50), 0);
    assert_eq!(sleep_duration(0, 0), 0);
    assert_eq!(sleep_duration(5, 0), 0);
    assert_eq!(sleep_duration(0, u64::MAX), u64::MAX);
}

#[test]
fn new_task_stats_is_empty() {
    let s = TaskStats::new();
    assert_eq!(s.event_count, 0);
    assert_eq!(s.last_sleep_end, 0);
    assert_eq!(s.runtime, QuantityStats::new());
    assert_eq!(s.sleep, QuantityStats::new());
    assert_eq!(s.sleep_interval, QuantityStats::new());
}

#[test]
fn backwards_sleep_window_counts_only_the_event() {
    let mut s = TaskStats::new();
    s.observe(700, 100, 50);
    assert_eq!(s.event_count, 1);
    assert_eq!(s.runtime.count, 1);
    assert_eq!(s.runtime.sum, 700);
    assert_eq!(s.sleep.count, 0);
    assert_eq!(s.sleep.sum, 0);
    assert_eq!(s.sleep_interval.count, 0);
    assert_eq!(s.last_sleep_end, 0);
}

#[test]
fn zero_sleep_end_is_no_sleep() {
    let mut s = TaskStats::new();
    s.observe(1, 0, 0);
    s.observe(1, 10, 0);
    assert_eq!(s.event_count, 2);
    assert_eq!(s.sleep.count, 0);
    assert_eq!(s.sleep_interval.count, 0);
}

#[test]
fn two_sleeps_give_one_interval() {
    let mut s = TaskStats::new();
    s.observe(10, 900, 1000);
    assert_eq!(s.sleep_interval.count, 0);
    assert_eq!(s.last_sleep_end, 1000);
    s.observe(20, 1200, 1500);
    assert_eq!(s.sleep_interval.count, 1);
    assert_eq!(s.sleep_interval.sum, 500);
    assert_eq!(s.sleep_interval.min, 500);
    assert_eq!(s.sleep_interval.max, 500);
    assert_eq!(s.sleep_interval.sum_of_squares, 250_000);
    assert_eq!(s.sleep.count, 2);
    assert_eq!(s.sleep.sum, 100 + 300);
    assert_eq!(s.last_sleep_end, 1500);
    assert_eq!(s.event_count, 2);
}

#[test]
fn sleep_that_ends_earlier_gives_no_interval_but_moves_the_mark() {
    let mut s = TaskStats::new();
    s.observe(1, 900, 1000);
    s.observe(1, 100, 400);
    assert_eq!(s.sleep.count, 2);
    assert_eq!(s.sleep_interval.count, 0);
    assert_eq!(s.last_sleep_end, 400);
    s.observe(1, 450, 600);
    assert_eq!(s.sleep_interval.count, 1);
    assert_eq!(s.sleep_interval.sum, 200);
}

#[test]
fn event_without_sleep_keeps_the_mark() {
    let mut s = TaskStats::new();
    s.observe(1, 0, 1000);
    s.observe(1, 0, 0);
    assert_eq!(s.last_sleep_end, 1000);
    s.observe(1, 1100, 1300);
    assert_eq!(s.sleep_interval.count, 1);
    assert_eq!(s.sleep_interval.sum, 300);
    assert_eq!(s.event_count, 3);
}

#[test]
fn update_takes_the_sleep_length_as_given() {
    let mut a = TaskStats::new();
    a.update(10, 100, 1000);
    a.update(20, 0, 5000);
    a.update(30, 300, 1500);
    let mut b = TaskStats::new();
    b.observe(10, 900, 1000);
    b.observe(20, 6000, 5000);
    b.observe(30, 1200, 1500);
    assert_eq!(a, b);
    assert_eq!(a.sleep_interval.sum, 500);
}

#[test]
fn counts_follow_their_conditions() {
    let events = [
        Observation { runtime_ns: 5, sleep_start: 0, sleep_end: 0 },
        Observation { runtime_ns: 6, sleep_start: 10, sleep_end: 20 },
        Observation { runtime_ns: 7, sleep_start: 30, sleep_end: 25 },
        Observation { runtime_ns: 8, sleep_start: 30, sleep_end: 45 },
        Observation { runtime_ns: 9, sleep_start: 40, sleep_end: 44 },
        Observation { runtime_ns: 1, sleep_start: 50, sleep_end: 60 },
    ];
    let mut s = TaskStats::new();
    for e in events {
        s.observe(e.runtime_ns, e.sleep_start, e.sleep_end);
    }
    assert_eq!(s.event_count, 6);
    assert_eq!(s.runtime.count, 6);
    assert_eq!(s.runtime.sum, 36);
    assert_eq!(s.runtime.min, 1);
    assert_eq!(s.runtime.max, 9);
    assert_eq!(s.sleep.count, 4);
    assert_eq!(s.sleep.sum, 10 + 15 + 4 + 10);
    assert_eq!(s.sleep.min, 4);
    assert_eq!(s.sleep.max, 15);
    assert_eq!(s.sleep_interval.count, 2);
    assert_eq!(s.sleep_interval.sum, 25 + 16);
    assert_eq!(s.sleep_interval.min, 16);
    assert_eq!(s.sleep_interval.max, 25);
    assert!(s.sleep.count <= s.event_count);
    assert!(s.sleep_interval.count <= s.sleep.count);
}
