//! Tests for the tail history buffer and the rate-limited update.

use ribbon_tail::history::TAIL_LEN;
use ribbon_tail::update_history;
use ribbon_tail::HistoryBuffer;
use ribbon_tail::RateLimiter;
use ribbon_tail::Vec2I;

fn v(x: i64, y: i64) -> Vec2I {
    Vec2I::new(x, y)
}

#[test]
fn new_buffer_is_all_zero() {
    let b = HistoryBuffer::new();
    assert_eq!(b.len(), TAIL_LEN);
    for i in 0..b.len() {
        let node = b.sample(i);
        assert_eq!(node.pos, v(0, 0));
        assert_eq!(node.velocity, v(0, 0));
    }
}

#[test]
fn push_keeps_length() {
    let mut b = HistoryBuffer::with_len(4);
    for i in 0..10 {
        b.push_tail_node(v(10 * i, -10 * i));
        assert_eq!(b.len(), 4);
    }
}

#[test]
fn push_writes_head_and_shifts() {
    let mut b = HistoryBuffer::with_len(4);
    b.push_tail_node(v(0, 10));
    b.push_tail_node(v(10, 10));
    assert_eq!(b.sample(0).pos, v(10, 10));
    assert_eq!(b.sample(1).pos, v(0, 10));
    assert_eq!(b.sample(2).pos, v(0, 0));
    assert_eq!(b.sample(3).pos, v(0, 0));
}

#[test]
fn push_discards_oldest() {
    let mut b = HistoryBuffer::with_len(3);
    b.push_tail_node(v(10, 0));
    b.push_tail_node(v(20, 0));
    b.push_tail_node(v(30, 0));
    b.push_tail_node(v(40, 0));
    // (10, 0) fell off the tail end
    assert_eq!(b.sample(0).pos, v(40, 0));
    assert_eq!(b.sample(1).pos, v(30, 0));
    assert_eq!(b.sample(2).pos, v(20, 0));
}

#[test]
fn push_records_velocity() {
    let mut b = HistoryBuffer::with_len(4);
    b.push_tail_node(v(0, 10));
    assert_eq!(b.sample(0).velocity, v(0, 10));
    b.push_tail_node(v(30, -30));
    assert_eq!(b.sample(0).velocity, v(30, -40));
}

#[test]
fn jitter_below_threshold_keeps_velocity() {
    let mut b = HistoryBuffer::with_len(4);
    b.push_tail_node(v(100, 100));
    assert_eq!(b.sample(0).velocity, v(100, 100));
    // squared distance 1 is below the threshold of 2
    b.push_tail_node(v(100, 101));
    assert_eq!(b.sample(0).pos, v(100, 101));
    assert_eq!(b.sample(0).velocity, v(100, 100));
}

#[test]
fn jitter_at_threshold_takes_new_velocity() {
    let mut b = HistoryBuffer::with_len(4);
    b.push_tail_node(v(100, 100));
    // squared distance exactly 2 is not below the threshold
    b.push_tail_node(v(101, 101));
    assert_eq!(b.sample(0).velocity, v(1, 1));
}

#[test]
fn limiter_accumulates_below_interval() {
    let mut l = RateLimiter::new(10);
    assert!(!l.tick(3));
    assert!(!l.tick(3));
    assert!(!l.tick(3));
    assert_eq!(l.acc_ms(), 9);
    assert_eq!(l.interval_ms(), 10);
}

#[test]
fn limiter_fires_at_boundary() {
    let mut l = RateLimiter::new(10);
    assert!(!l.tick(5));
    assert!(l.tick(5));
    assert_eq!(l.acc_ms(), 0);
}

#[test]
fn limiter_carries_remainder() {
    let mut l = RateLimiter::new(10);
    assert!(l.tick(25));
    assert_eq!(l.acc_ms(), 5);
    assert!(l.tick(5));
    assert_eq!(l.acc_ms(), 0);
}

#[test]
fn update_history_pushes_only_when_fired() {
    let mut b = HistoryBuffer::with_len(4);
    let mut l = RateLimiter::new(10);
    update_history(&mut b, &mut l, v(50, 50), 3);
    update_history(&mut b, &mut l, v(60, 60), 3);
    update_history(&mut b, &mut l, v(70, 70), 3);
    // cumulative 9 ms < 10 ms: nothing sampled yet
    assert_eq!(b.sample(0).pos, v(0, 0));
    assert_eq!(l.acc_ms(), 9);
    update_history(&mut b, &mut l, v(80, 80), 1);
    // cumulative 10 ms reaches the interval: the fourth position is sampled
    assert_eq!(b.sample(0).pos, v(80, 80));
    assert_eq!(b.sample(1).pos, v(0, 0));
    assert_eq!(l.acc_ms(), 0);
}
