//! The ribbon mesh builder.
//!
//! A history buffer of `n` samples becomes a ribbon of width `2 * SIZE`: the
//! first `n` vertices are the centerline samples themselves, the next
//! `2 * (n - 1)` are offset vertices, each centerline sample pushed along its
//! local perpendicular.  Interior samples contribute a mitred pair — one
//! offset along the previous sample's normal and one along their own — so the
//! ribbon edge stays continuous across direction changes.  The triangle index
//! list is a pure function of `n`.
//!
//! Unit normals are held in fixed point: a vector of Euclidean length 1 is
//! represented with components scaled by [`UNIT`].  A zero velocity gets the
//! zero normal (the sample is not offset), so the builder is total: no
//! division by zero and no undefined vertex can arise.

use vstd::arithmetic::div_mod::lemma_div_is_ordered;
use vstd::arithmetic::div_mod::lemma_div_multiples_vanish;
use vstd::arithmetic::div_mod::lemma_div_nonincreasing;
use vstd::arithmetic::div_mod::lemma_div_pos_is_pos;
use vstd::arithmetic::div_mod::lemma_fundamental_div_mod_converse;
use vstd::arithmetic::div_mod::lemma_mod_bound;
use vstd::arithmetic::div_mod::lemma_multiply_divide_lt;
use vstd::prelude::*;

use crate::history::HistoryBuffer;
use crate::history::TailNode;
use crate::isqrt::isqrt;
use crate::isqrt::isqrt_spec;
use crate::isqrt::lemma_isqrt_spec_bounds;
use crate::vec2::in_coord_range;
use crate::vec2::in_vel_range;
use crate::vec2::Vec2I;
use crate::vec2::COORD_LIMIT;
use crate::vec2::VEL_LIMIT;

verus! {

/// Half-width of the ribbon: each offset vertex sits `SIZE` away from its
/// centerline sample (along the sample's unit normal).
pub const SIZE: i64 = 100;

/// Fixed-point one: a unit normal's components are scaled by this factor.
pub const UNIT: i64 = 1024;

/// Truncating division of `a` by a positive `d`: rounds toward zero, as
/// machine division does.
pub open spec fn sdiv_spec(a: int, d: int) -> int {
    if a >= 0 {
        a / d
    } else {
        -((-a) / d)
    }
}

/// Euclidean length of a velocity vector, rounded down.
pub open spec fn vel_len_spec(v: Vec2I) -> int {
    isqrt_spec(v.x * v.x + v.y * v.y)
}

/// The local normal of a sample with velocity `v`: `v` rotated a quarter
/// turn counter-clockwise to `(-y, x)`, normalized to length `UNIT` in fixed
/// point.  The zero velocity maps to the zero vector: nothing is undefined.
pub open spec fn normal_spec(v: Vec2I) -> Vec2I {
    if v.x == 0 && v.y == 0 {
        Vec2I::zero_spec()
    } else {
        Vec2I {
            x: sdiv_spec((-v.y) * UNIT, vel_len_spec(v)) as i64,
            y: sdiv_spec(v.x * UNIT, vel_len_spec(v)) as i64,
        }
    }
}

/// A centerline sample at `p`, pushed `SIZE` along the fixed-point unit
/// normal `nrm`.
pub open spec fn offset_spec(p: Vec2I, nrm: Vec2I) -> Vec2I {
    Vec2I {
        x: (p.x + sdiv_spec(nrm.x * SIZE, UNIT as int)) as i64,
        y: (p.y + sdiv_spec(nrm.y * SIZE, UNIT as int)) as i64,
    }
}

/// Truncating `(c * m) / d` for a signed `c` and non-negative `m`, computed
/// without overflow.
fn mul_div_trunc(c: i64, m: i64, d: i64) -> (r: i64)
    requires
        -2147483648 <= c <= 2147483648,
        0 <= m <= 2147483648,
        1 <= d,
    ensures
        r == sdiv_spec(c * m, d as int),
{
    if c >= 0 {
        proof {
            assert(0 <= c * m <= 2147483648 * 2147483648) by (nonlinear_arith)
                requires
                    0 <= c <= 2147483648,
                    0 <= m <= 2147483648,
            ;
        }
        let num: u64 = (c as u64) * (m as u64);
        let q: u64 = num / (d as u64);
        proof {
            lemma_div_nonincreasing(num as int, d as int);
            lemma_div_pos_is_pos(num as int, d as int);
        }
        q as i64
    } else {
        proof {
            assert((-c) * m == -(c * m) && 0 <= (-c) * m <= 2147483648 * 2147483648)
                by (nonlinear_arith)
                requires
                    -2147483648 <= c < 0,
                    0 <= m <= 2147483648,
            ;
        }
        let num: u64 = ((-c) as u64) * (m as u64);
        let q: u64 = num / (d as u64);
        proof {
            lemma_div_nonincreasing(num as int, d as int);
            lemma_div_pos_is_pos(num as int, d as int);
        }
        -(q as i64)
    }
}

/// Truncated scaling keeps bounds: a numerator no larger than the divisor
/// scales to no more than the factor.
proof fn lemma_sdiv_bound(c: int, m: int, d: int)
    requires
        -d <= c <= d,
        1 <= d,
        0 <= m,
    ensures
        -m <= sdiv_spec(c * m, d) <= m,
{
    if c >= 0 {
        assert(0 <= c * m <= d * m) by (nonlinear_arith)
            requires
                0 <= c <= d,
                0 <= m,
        ;
        lemma_div_is_ordered(c * m, d * m, d);
        lemma_div_multiples_vanish(m, d);
        lemma_div_pos_is_pos(c * m, d);
    } else {
        assert((-c) * m == -(c * m) && 0 <= (-c) * m <= d * m) by (nonlinear_arith)
            requires
                -d <= c < 0,
                0 <= m,
        ;
        lemma_div_is_ordered((-c) * m, d * m, d);
        lemma_div_multiples_vanish(m, d);
        lemma_div_pos_is_pos((-c) * m, d);
    }
}

/// No component of a vector is longer than the vector: `c * c <= sq` bounds
/// `c` by the integer square root of `sq`.
proof fn lemma_component_le_isqrt(c: int, sq: int)
    requires
        0 <= sq,
        c * c <= sq,
    ensures
        -isqrt_spec(sq) <= c <= isqrt_spec(sq),
{
    lemma_isqrt_spec_bounds(sq);
    let l = isqrt_spec(sq);
    if c > l {
        assert((l + 1) * (l + 1) <= c * c) by (nonlinear_arith)
            requires
                0 <= l + 1 <= c,
        ;
    }
    if c < -l {
        assert((l + 1) * (l + 1) <= c * c) by (nonlinear_arith)
            requires
                0 <= l + 1 <= -c,
        ;
    }
}

/// The local normal of velocity `v`: `(-v.y, v.x)` scaled to fixed-point unit
/// length.  A zero velocity yields the zero vector — never an undefined
/// value — and every component stays within `[-UNIT, UNIT]`.
pub fn get_normal(v: Vec2I) -> (n: Vec2I)
    requires
        in_vel_range(v),
    ensures
        n == normal_spec(v),
        -UNIT <= n.x <= UNIT,
        -UNIT <= n.y <= UNIT,
        v.x == 0 && v.y == 0 ==> n == Vec2I::zero_spec(),
{
    if v.x == 0 && v.y == 0 {
        Vec2I { x: 0, y: 0 }
    } else {
        let ax: u64 = if v.x >= 0 {
            v.x as u64
        } else {
            (-v.x) as u64
        };
        let ay: u64 = if v.y >= 0 {
            v.y as u64
        } else {
            (-v.y) as u64
        };
        proof {
            assert(ax * ax == v.x * v.x && ax * ax <= VEL_LIMIT * VEL_LIMIT) by (nonlinear_arith)
                requires
                    ax == v.x || ax as int == -(v.x as int),
                    -VEL_LIMIT <= v.x <= VEL_LIMIT,
            ;
            assert(ay * ay == v.y * v.y && ay * ay <= VEL_LIMIT * VEL_LIMIT) by (nonlinear_arith)
                requires
                    ay == v.y || ay as int == -(v.y as int),
                    -VEL_LIMIT <= v.y <= VEL_LIMIT,
            ;
        }
        let sq: u64 = ax * ax + ay * ay;
        proof {
            assert(sq >= 1) by (nonlinear_arith)
                requires
                    sq == ax * ax + ay * ay,
                    ax >= 1 || ay >= 1,
            ;
        }
        let l: u64 = isqrt(sq);
        proof {
            assert(l >= 1) by (nonlinear_arith)
                requires
                    1 <= sq,
                    (sq as int) < (l + 1) * (l + 1),
                    0 <= l,
            ;
            lemma_component_le_isqrt(v.y as int, sq as int);
            lemma_component_le_isqrt(v.x as int, sq as int);
            lemma_sdiv_bound(-(v.y as int), UNIT as int, l as int);
            lemma_sdiv_bound(v.x as int, UNIT as int, l as int);
        }
        let nx = mul_div_trunc(-v.y, UNIT, l as i64);
        let ny = mul_div_trunc(v.x, UNIT, l as i64);
        Vec2I { x: nx, y: ny }
    }
}

/// Offsets `p` by `SIZE` along the fixed-point unit normal `nrm`.
pub(crate) fn offset_vertex(p: Vec2I, nrm: Vec2I) -> (r: Vec2I)
    requires
        in_coord_range(p),
        -UNIT <= nrm.x <= UNIT,
        -UNIT <= nrm.y <= UNIT,
    ensures
        r == offset_spec(p, nrm),
{
    proof {
        lemma_sdiv_bound(nrm.x as int, SIZE as int, UNIT as int);
        lemma_sdiv_bound(nrm.y as int, SIZE as int, UNIT as int);
    }
    let dx = mul_div_trunc(nrm.x, SIZE, UNIT);
    let dy = mul_div_trunc(nrm.y, SIZE, UNIT);
    Vec2I { x: p.x + dx, y: p.y + dy }
}

/// The `j`-th entry of the ribbon's triangle index list for `n` centerline
/// samples.  The first `6 * (n - 1)` entries are the two triangles joining
/// each consecutive centerline pair to its offset vertices; the remaining
/// `3 * (n - 2)` close the seam at each interior sample's mitred pair.
pub open spec fn tail_index_at(n: int, j: int) -> u16 {
    if j < 6 * (n - 1) {
        let i = j / 6;
        let k = j % 6;
        if k == 0 {
            i as u16
        } else if k == 1 {
            (i + 1) as u16
        } else if k == 2 {
            (2 * i + n) as u16
        } else if k == 3 {
            (i + 1) as u16
        } else if k == 4 {
            (2 * i + n) as u16
        } else {
            (2 * i + n + 1) as u16
        }
    } else {
        let t = (j - 6 * (n - 1)) / 3;
        let k = (j - 6 * (n - 1)) % 3;
        if k == 0 {
            (t + 1) as u16
        } else if k == 1 {
            (2 * (t + 1) + n - 1) as u16
        } else {
            (2 * (t + 1) + n) as u16
        }
    }
}

/// The full triangle index list for `n` centerline samples:
/// `2 * (n - 1) + (n - 2)` triangles, so `9 * n - 12` entries.
pub open spec fn tail_indices_spec(n: int) -> Seq<u16> {
    Seq::new((9 * n - 12) as nat, |j: int| tail_index_at(n, j))
}

/// Every entry of the index list addresses one of the mesh's `3 * n - 2`
/// vertices.
pub proof fn lemma_tail_index_at_range(n: int, j: int)
    requires
        2 <= n <= crate::history::MAX_SAMPLES,
        0 <= j < 9 * n - 12,
    ensures
        tail_index_at(n, j) < 3 * n - 2,
{
    if j < 6 * (n - 1) {
        let i = j / 6;
        let k = j % 6;
        lemma_div_pos_is_pos(j, 6);
        lemma_multiply_divide_lt(j, 6, n - 1);
        lemma_mod_bound(j, 6);
        assert(0 <= i <= n - 2);
        assert(2 * i + n + 1 <= 3 * n - 3);
    } else {
        let jj = j - 6 * (n - 1);
        let t = jj / 3;
        let k = jj % 3;
        lemma_div_pos_is_pos(jj, 3);
        lemma_multiply_divide_lt(jj, 3, n - 2);
        lemma_mod_bound(jj, 3);
        assert(0 <= t <= n - 3);
        assert(2 * (t + 1) + n <= 3 * n - 4);
    }
}

/// The ribbon's triangle index list for `n` samples: two triangles per
/// consecutive centerline pair, then one seam triangle per interior sample.
/// Pure in `n`; independent of geometry, so a host may compute it once and
/// reuse it every frame.
pub fn make_tail_indices(n: usize) -> (idx: Vec<u16>)
    requires
        2 <= n <= crate::history::MAX_SAMPLES,
    ensures
        idx@ == tail_indices_spec(n as int),
        idx@.len() == 9 * n - 12,
        forall|j: int| 0 <= j < idx@.len() ==> (idx@[j] as int) < 3 * n - 2,
{
    let mut idx: Vec<u16> = Vec::new();
    let mut i: usize = 0;
    while i < n - 1
        invariant
            2 <= n <= crate::history::MAX_SAMPLES,
            i <= n - 1,
            idx@.len() == 6 * i,
            forall|j: int| 0 <= j < idx@.len() ==> idx@[j] == tail_index_at(n as int, j),
        decreases n - 1 - i,
    {
        let ghost base = idx@.len() as int;
        idx.push(i as u16);
        idx.push((i + 1) as u16);
        idx.push((2 * i + n) as u16);
        idx.push((i + 1) as u16);
        idx.push((2 * i + n) as u16);
        idx.push((2 * i + n + 1) as u16);
        proof {
            assert forall|j: int| 0 <= j < idx@.len() implies idx@[j] == tail_index_at(
                n as int,
                j,
            ) by {
                if j >= base {
                    lemma_fundamental_div_mod_converse(j, 6, i as int, j - base);
                    assert(j < 6 * ((n as int) - 1));
                }
            }
        }
        i = i + 1;
    }
    let mut s: usize = 1;
    while s < n - 1
        invariant
            2 <= n <= crate::history::MAX_SAMPLES,
            1 <= s <= n - 1,
            idx@.len() == 6 * (n - 1) + 3 * (s - 1),
            forall|j: int| 0 <= j < idx@.len() ==> idx@[j] == tail_index_at(n as int, j),
        decreases n - 1 - s,
    {
        let ghost base = idx@.len() as int;
        idx.push(s as u16);
        idx.push((2 * s + n - 1) as u16);
        idx.push((2 * s + n) as u16);
        proof {
            assert forall|j: int| 0 <= j < idx@.len() implies idx@[j] == tail_index_at(
                n as int,
                j,
            ) by {
                if j >= base {
                    assert(j >= 6 * ((n as int) - 1));
                    lemma_fundamental_div_mod_converse(
                        j - 6 * ((n as int) - 1),
                        3,
                        (s as int) - 1,
                        j - base,
                    );
                }
            }
        }
        s = s + 1;
    }
    proof {
        assert(idx@ =~= tail_indices_spec(n as int));
        assert forall|j: int| 0 <= j < idx@.len() implies (idx@[j] as int) < 3 * n - 2 by {
            lemma_tail_index_at_range(n as int, j);
        }
    }
    idx
}

/// The `k`-th offset vertex of a ribbon over samples `s`, for
/// `0 <= k < 2 * (s.len() - 1)`.  The tip contributes one vertex along its
/// own normal; each interior sample a mitred pair (previous normal, then its
/// own); the tail end one vertex along its own normal.
pub open spec fn sub_vertex_spec(s: Seq<TailNode>, k: int) -> Vec2I {
    let n = s.len() as int;
    if k == 2 * n - 3 {
        offset_spec(s[n - 1].pos, normal_spec(s[n - 1].velocity))
    } else if k % 2 == 0 {
        offset_spec(s[k / 2].pos, normal_spec(s[k / 2].velocity))
    } else {
        offset_spec(s[(k + 1) / 2].pos, normal_spec(s[(k + 1) / 2 - 1].velocity))
    }
}

/// The ribbon's vertex positions: the `n` centerline samples first, then the
/// `2 * (n - 1)` offset vertices.
pub open spec fn ribbon_positions_spec(s: Seq<TailNode>) -> Seq<Vec2I> {
    let n = s.len() as int;
    Seq::new(
        (3 * n - 2) as nat,
        |j: int|
            if j < n {
                s[j].pos
            } else {
                sub_vertex_spec(s, j - n)
            },
    )
}

/// The ribbon's per-vertex cross-section weights: 1 on the centerline, 0 on
/// the offset edges (a gradient tag; no effect on topology).
pub open spec fn ribbon_weights_spec(n: int) -> Seq<u8> {
    Seq::new(
        (3 * n - 2) as nat,
        |j: int|
            if j < n {
                1u8
            } else {
                0u8
            },
    )
}

/// A triangulated ribbon: vertex positions, per-vertex weights, and a
/// triangle index list.  Derived and disposable; fully regenerated from a
/// history buffer on every build.
#[derive(Debug, PartialEq, Eq)]
pub struct RibbonMesh {
    pub positions: Vec<Vec2I>,
    pub weights: Vec<u8>,
    pub indices: Vec<u16>,
}

/// How many offset vertices stand finished once the builder's loop has run
/// its first `i` iterations over `n` samples.
spec fn sub_done_spec(i: int, n: int) -> int {
    if i == 0 {
        0
    } else if i < n {
        2 * i - 1
    } else {
        2 * n - 2
    }
}

/// Builds the ribbon mesh for the buffer's current contents: exactly
/// `3 * n - 2` vertex positions (centerline first, then the offset
/// vertices), their weights, and the `9 * n - 12` triangle indices, every
/// index addressing a vertex.  Total: any well-formed buffer has a mesh, and
/// equal buffer contents give equal meshes.
pub fn build_ribbon_mesh(buffer: &HistoryBuffer) -> (m: RibbonMesh)
    requires
        buffer.wf(),
    ensures
        m.positions@ == ribbon_positions_spec(buffer@),
        m.weights@ == ribbon_weights_spec(buffer@.len() as int),
        m.indices@ == tail_indices_spec(buffer@.len() as int),
        m.positions@.len() == 3 * buffer@.len() - 2,
        m.weights@.len() == m.positions@.len(),
        m.indices@.len() == 9 * buffer@.len() - 12,
        forall|j: int| 0 <= j < m.indices@.len() ==> (m.indices@[j] as int) < m.positions@.len(),
{
    let n = buffer.len();
    let ghost s = buffer@;
    let mut positions: Vec<Vec2I> = Vec::new();
    let mut i: usize = 0;
    while i < n
        invariant
            buffer.wf(),
            s == buffer@,
            n == s.len(),
            i <= n,
            positions@.len() == i,
            forall|j: int| 0 <= j < i ==> positions@[j] == s[j].pos,
        decreases n - i,
    {
        positions.push(buffer.sample(i).pos);
        i = i + 1;
    }
    let mut sub: Vec<Vec2I> = Vec::new();
    let mut i: usize = 0;
    while i < n
        invariant
            buffer.wf(),
            s == buffer@,
            n == s.len(),
            i <= n,
            sub@.len() == sub_done_spec(i as int, n as int),
            forall|k: int| 0 <= k < sub@.len() ==> sub@[k] == sub_vertex_spec(s, k),
        decreases n - i,
    {
        let node = buffer.sample(i);
        let nrm = get_normal(node.velocity);
        if i == 0 {
            sub.push(offset_vertex(node.pos, nrm));
        } else if i < n - 1 {
            let prev = buffer.sample(i - 1);
            let nrm_last = get_normal(prev.velocity);
            let ghost k1 = 2 * (i as int) - 1;
            proof {
                lemma_fundamental_div_mod_converse(k1, 2, (i as int) - 1, 1);
                lemma_fundamental_div_mod_converse(k1 + 1, 2, i as int, 0);
                lemma_fundamental_div_mod_converse(2 * (i as int), 2, i as int, 0);
            }
            sub.push(offset_vertex(node.pos, nrm_last));
            sub.push(offset_vertex(node.pos, nrm));
        } else {
            sub.push(offset_vertex(node.pos, nrm));
        }
        i = i + 1;
    }
    positions.append(&mut sub);
    proof {
        assert(positions@ =~= ribbon_positions_spec(s));
    }
    let mut weights: Vec<u8> = Vec::new();
    let mut i: usize = 0;
    while i < n
        invariant
            2 <= n,
            i <= n,
            weights@.len() == i,
            forall|j: int| 0 <= j < i ==> weights@[j] == 1u8,
        decreases n - i,
    {
        weights.push(1u8);
        i = i + 1;
    }
    let mut i: usize = 0;
    while i < 2 * n - 2
        invariant
            2 <= n <= crate::history::MAX_SAMPLES,
            i <= 2 * n - 2,
            weights@.len() == n + i,
            forall|j: int| 0 <= j < n ==> weights@[j] == 1u8,
            forall|j: int| n <= j < weights@.len() ==> weights@[j] == 0u8,
        decreases 2 * n - 2 - i,
    {
        weights.push(0u8);
        i = i + 1;
    }
    proof {
        assert(weights@ =~= ribbon_weights_spec(n as int));
    }
    let indices = make_tail_indices(n);
    RibbonMesh { positions, weights, indices }
}

/// Rebuilding without an intervening update changes nothing: two ribbon
/// meshes built from the same history contents are identical, because the
/// builder's output is a function of those contents alone.
pub proof fn lemma_build_ribbon_mesh_deterministic(s: Seq<TailNode>, m1: RibbonMesh, m2: RibbonMesh)
    requires
        m1.positions@ == ribbon_positions_spec(s),
        m1.weights@ == ribbon_weights_spec(s.len() as int),
        m1.indices@ == tail_indices_spec(s.len() as int),
        m2.positions@ == ribbon_positions_spec(s),
        m2.weights@ == ribbon_weights_spec(s.len() as int),
        m2.indices@ == tail_indices_spec(s.len() as int),
    ensures
        m1.positions@ == m2.positions@,
        m1.weights@ == m2.weights@,
        m1.indices@ == m2.indices@,
{
}

/// The vertex positions of the square the tracked shape is drawn with: a
/// quad of side `size` centred on the origin.
pub open spec fn player_quad_spec(size: i64) -> Seq<Vec2I> {
    let h = (size as int) / 2;
    seq![
        Vec2I { x: (-h) as i64, y: (-h) as i64 },
        Vec2I { x: (-h) as i64, y: h as i64 },
        Vec2I { x: h as i64, y: h as i64 },
        Vec2I { x: h as i64, y: (-h) as i64 },
    ]
}

/// The quad mesh the tracked shape is drawn with: four corner positions and
/// the two triangles that fill them.
pub fn make_player_mesh(size: i64) -> (m: (Vec<Vec2I>, Vec<u16>))
    requires
        0 <= size <= COORD_LIMIT,
    ensures
        m.0@ == player_quad_spec(size),
        m.1@ == seq![0u16, 2u16, 1u16, 2u16, 0u16, 3u16],
{
    proof {
        lemma_div_pos_is_pos(size as int, 2);
        lemma_div_nonincreasing(size as int, 2);
    }
    let h = ((size as u64) / 2) as i64;
    let mut positions: Vec<Vec2I> = Vec::new();
    positions.push(Vec2I { x: -h, y: -h });
    positions.push(Vec2I { x: -h, y: h });
    positions.push(Vec2I { x: h, y: h });
    positions.push(Vec2I { x: h, y: -h });
    let mut indices: Vec<u16> = Vec::new();
    indices.push(0);
    indices.push(2);
    indices.push(1);
    indices.push(2);
    indices.push(0);
    indices.push(3);
    proof {
        assert(positions@ =~= player_quad_spec(size));
        assert(indices@ =~= seq![0u16, 2u16, 1u16, 2u16, 0u16, 3u16]);
    }
    (positions, indices)
}

} // verus!
