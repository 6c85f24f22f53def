//! Tests for the normal computation, the index topology and the quad mesh.

use ribbon_tail::get_normal;
use ribbon_tail::make_player_mesh;
use ribbon_tail::make_tail_indices;
use ribbon_tail::Vec2I;

fn v(x: i64, y: i64) -> Vec2I {
    Vec2I::new(x, y)
}

#[test]
fn normal_of_zero_is_zero() {
    assert_eq!(get_normal(v(0, 0)), v(0, 0));
}

#[test]
fn normal_of_axis_vectors() {
    // velocity (0, 3): rotate counter-clockwise to (-3, 0), normalize to
    // fixed-point length 1024
    assert_eq!(get_normal(v(0, 3)), v(-1024, 0));
    // velocity (3, 0): rotate counter-clockwise to (0, 3)
    assert_eq!(get_normal(v(3, 0)), v(0, 1024));
    assert_eq!(get_normal(v(0, -5)), v(1024, 0));
    assert_eq!(get_normal(v(-5, 0)), v(0, -1024));
}

#[test]
fn normal_of_3_4_5_triangle() {
    // length 5: components -4 * 1024 / 5 and 3 * 1024 / 5, truncated
    assert_eq!(get_normal(v(3, 4)), v(-819, 614));
    assert_eq!(get_normal(v(-3, -4)), v(819, -614));
}

#[test]
fn normal_components_never_exceed_unit() {
    let samples = [
        v(1, 0),
        v(1, 1),
        v(-1, 1),
        v(7, -13),
        v(2097152, 2097152),
        v(-2097152, 1),
    ];
    for s in samples.iter() {
        let n = get_normal(*s);
        assert!(-1024 <= n.x && n.x <= 1024);
        assert!(-1024 <= n.y && n.y <= 1024);
    }
}

#[test]
fn indices_for_two_samples() {
    let idx = make_tail_indices(2);
    assert_eq!(idx, vec![0, 1, 2, 1, 2, 3]);
}

#[test]
fn indices_for_three_samples() {
    let idx = make_tail_indices(3);
    assert_eq!(idx, vec![0, 1, 3, 1, 3, 4, 1, 2, 5, 2, 5, 6, 1, 4, 5]);
}

#[test]
fn index_count_formula() {
    for n in [2usize, 4, 18, 32] {
        let idx = make_tail_indices(n);
        assert_eq!(idx.len(), 9 * n - 12);
        // every index addresses one of the 3n - 2 vertices
        for &e in idx.iter() {
            assert!((e as usize) < 3 * n - 2);
        }
    }
}

#[test]
fn player_mesh_quad() {
    let (positions, indices) = make_player_mesh(100);
    assert_eq!(
        positions,
        vec![v(-50, -50), v(-50, 50), v(50, 50), v(50, -50)]
    );
    assert_eq!(indices, vec![0, 2, 1, 2, 0, 3]);
}

#[test]
fn player_mesh_odd_size_truncates() {
    let (positions, _) = make_player_mesh(7);
    assert_eq!(
        positions,
        vec![v(-3, -3), v(-3, 3), v(3, 3), v(3, -3)]
    );
}
