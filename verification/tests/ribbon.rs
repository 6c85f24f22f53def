//! Tests for the full ribbon mesh built from a history buffer.

use ribbon_tail::build_ribbon_mesh;
use ribbon_tail::update_history;
use ribbon_tail::HistoryBuffer;
use ribbon_tail::RateLimiter;
use ribbon_tail::Vec2I;

fn v(x: i64, y: i64) -> Vec2I {
    Vec2I::new(x, y)
}

#[test]
fn vertex_and_index_counts() {
    // 3n - 2 vertices and 9n - 12 indices, checked at the sizes the demo uses
    for n in [4usize, 18, 32] {
        let b = HistoryBuffer::with_len(n);
        let m = build_ribbon_mesh(&b);
        assert_eq!(m.positions.len(), 3 * n - 2);
        assert_eq!(m.weights.len(), 3 * n - 2);
        assert_eq!(m.indices.len(), 9 * n - 12);
    }
    let m = build_ribbon_mesh(&HistoryBuffer::new());
    assert_eq!(m.positions.len(), 94);
    assert_eq!(m.indices.len(), 276);
}

#[test]
fn fresh_buffer_builds_degenerate_but_defined_mesh() {
    // all samples coincide with zero velocity: every vertex is the origin,
    // nothing undefined
    let b = HistoryBuffer::with_len(4);
    let m = build_ribbon_mesh(&b);
    assert_eq!(m.positions.len(), 10);
    for p in m.positions.iter() {
        assert_eq!(*p, v(0, 0));
    }
}

#[test]
fn square_sweep_mesh() {
    let mut b = HistoryBuffer::with_len(4);
    b.push_tail_node(v(0, 10));
    b.push_tail_node(v(10, 10));
    b.push_tail_node(v(10, 0));
    b.push_tail_node(v(0, 0));
    let m = build_ribbon_mesh(&b);
    assert_eq!(m.positions.len(), 10);
    // centerline: the buffer's positions, newest first
    assert_eq!(m.positions[0], v(0, 0));
    assert_eq!(m.positions[1], v(10, 0));
    assert_eq!(m.positions[2], v(10, 10));
    assert_eq!(m.positions[3], v(0, 10));
    // offset vertices: each sample pushed 100 units along its unit normal,
    // interior samples once along the previous normal and once along their own
    assert_eq!(m.positions[4], v(0, -100));
    assert_eq!(m.positions[5], v(10, -100));
    assert_eq!(m.positions[6], v(110, 0));
    assert_eq!(m.positions[7], v(110, 10));
    assert_eq!(m.positions[8], v(10, 110));
    assert_eq!(m.positions[9], v(-100, 10));
    assert_eq!(
        m.indices,
        vec![0, 1, 4, 1, 4, 5, 1, 2, 6, 2, 6, 7, 2, 3, 8, 3, 8, 9, 1, 5, 6, 2, 7, 8]
    );
}

#[test]
fn weights_tag_centerline_vertices() {
    let b = HistoryBuffer::with_len(4);
    let m = build_ribbon_mesh(&b);
    assert_eq!(m.weights, vec![1, 1, 1, 1, 0, 0, 0, 0, 0, 0]);
}

#[test]
fn rebuild_without_update_is_identical() {
    let mut b = HistoryBuffer::with_len(6);
    b.push_tail_node(v(0, 10));
    b.push_tail_node(v(30, -20));
    b.push_tail_node(v(-40, 5));
    let m1 = build_ribbon_mesh(&b);
    let m2 = build_ribbon_mesh(&b);
    assert_eq!(m1, m2);
}

#[test]
fn driver_frame_loop_produces_mesh() {
    // a few frames of the per-frame control flow: update, then rebuild
    let mut b = HistoryBuffer::with_len(4);
    let mut l = RateLimiter::new(10);
    let path = [v(0, 10), v(10, 10), v(10, 0), v(0, 0)];
    for p in path.iter() {
        update_history(&mut b, &mut l, *p, 10);
        let m = build_ribbon_mesh(&b);
        assert_eq!(m.positions.len(), 10);
    }
    assert_eq!(b.sample(0).pos, v(0, 0));
    assert_eq!(b.sample(3).pos, v(0, 10));
}
