//! The tail history buffer and its rate-limited update.
//!
//! The buffer keeps a fixed number of samples, newest first.  A push shifts
//! every sample one slot toward the tail end, discards the oldest, and writes
//! the new sample at index 0; the O(n) shift is kept because the buffer stays
//! small.  Pushes are gated by a [`RateLimiter`] that the per-frame driver
//! advances by the elapsed time.

use vstd::prelude::*;

use crate::vec2::dist_sq;
use crate::vec2::dist_sq_spec;
use crate::vec2::in_coord_range;
use crate::vec2::in_vel_range;
use crate::vec2::sub_spec;
use crate::vec2::vec2_sub;
use crate::vec2::Vec2I;

verus! {

/// Number of samples a buffer made by [`HistoryBuffer::new`] holds.
pub const TAIL_LEN: usize = 32;

/// Anti-jitter guard: a push whose squared distance from the newest sample is
/// below this threshold keeps the previous velocity, so that a near-zero
/// velocity never reaches normalization.
pub const JITTER_THRESHOLD: i64 = 2;

/// Largest sample count a buffer may hold; keeps every ribbon vertex index
/// within `u16`.
pub const MAX_SAMPLES: usize = 21845;

/// Largest sampling interval a rate limiter may be set to, in milliseconds.
pub const INTERVAL_LIMIT: u64 = 4294967296;

/// Largest time step a rate limiter accepts, in milliseconds.
pub const DT_LIMIT: u64 = 4294967296;

/// One recorded tail point: where the tracked position was, and the direction
/// it travelled since the previous sample.
#[derive(Clone, Copy, Debug, PartialEq, Eq, Structural)]
pub struct TailNode {
    pub pos: Vec2I,
    pub velocity: Vec2I,
}

/// A sample whose position and velocity lie in the library's ranges.
pub open spec fn node_wf(n: TailNode) -> bool {
    &&& in_coord_range(n.pos)
    &&& in_vel_range(n.velocity)
}

/// The all-zero sample a fresh buffer is filled with.
pub open spec fn zero_node_spec() -> TailNode {
    TailNode { pos: Vec2I::zero_spec(), velocity: Vec2I::zero_spec() }
}

/// Fixed-capacity, ordered record of the most recent samples, newest first.
pub struct HistoryBuffer {
    samples: Vec<TailNode>,
}

impl View for HistoryBuffer {
    type V = Seq<TailNode>;

    closed spec fn view(&self) -> Seq<TailNode> {
        self.samples@
    }
}

/// Velocity the next push stores: the travel since the newest sample, or the
/// newest sample's own velocity when the move is below the jitter threshold.
pub open spec fn push_velocity_spec(s: Seq<TailNode>, pos: Vec2I) -> Vec2I {
    if dist_sq_spec(pos, s[0].pos) < JITTER_THRESHOLD {
        s[0].velocity
    } else {
        sub_spec(pos, s[0].pos)
    }
}

/// The buffer contents after pushing `pos`: same length, the new sample at
/// index 0, every old sample shifted down one slot, the oldest discarded.
pub open spec fn pushed_spec(s: Seq<TailNode>, pos: Vec2I) -> Seq<TailNode> {
    Seq::new(
        s.len(),
        |i: int|
            if i == 0 {
                TailNode { pos: pos, velocity: push_velocity_spec(s, pos) }
            } else {
                s[i - 1]
            },
    )
}

impl HistoryBuffer {
    /// The buffer always holds at least two and at most `MAX_SAMPLES`
    /// in-range samples.
    pub open spec fn wf(&self) -> bool {
        &&& 2 <= self@.len() <= MAX_SAMPLES
        &&& forall|i: int| 0 <= i < self@.len() ==> node_wf(#[trigger] self@[i])
    }

    /// A buffer of `n` all-zero samples.
    pub fn with_len(n: usize) -> (b: HistoryBuffer)
        requires
            2 <= n <= MAX_SAMPLES,
        ensures
            b.wf(),
            b@.len() == n,
            forall|i: int| 0 <= i < n ==> b@[i] == zero_node_spec(),
    {
        let mut samples: Vec<TailNode> = Vec::new();
        let mut i: usize = 0;
        while i < n
            invariant
                i <= n,
                samples@.len() == i,
                forall|j: int| 0 <= j < i ==> samples@[j] == zero_node_spec(),
            decreases n - i,
        {
            samples.push(TailNode { pos: Vec2I::zero(), velocity: Vec2I::zero() });
            i = i + 1;
        }
        HistoryBuffer { samples }
    }

    /// A buffer of `TAIL_LEN` all-zero samples.
    pub fn new() -> (b: HistoryBuffer)
        ensures
            b.wf(),
            b@.len() == TAIL_LEN,
            forall|i: int| 0 <= i < TAIL_LEN ==> b@[i] == zero_node_spec(),
    {
        HistoryBuffer::with_len(TAIL_LEN)
    }

    /// How many samples the buffer holds.
    pub fn len(&self) -> (n: usize)
        ensures
            n == self@.len(),
    {
        self.samples.len()
    }

    /// The sample at index `i`, index 0 being the newest.
    pub fn sample(&self, i: usize) -> (node: TailNode)
        requires
            i < self@.len(),
        ensures
            node == self@[i as int],
    {
        self.samples[i]
    }

    /// Records `pos` as the newest sample.  The stored velocity is the travel
    /// since the previous newest sample, except that a move below the jitter
    /// threshold keeps the previous velocity; all older samples shift one
    /// slot toward the tail and the oldest is discarded, so the length never
    /// changes.
    pub fn push_tail_node(&mut self, pos: Vec2I)
        requires
            old(self).wf(),
            in_coord_range(pos),
        ensures
            final(self).wf(),
            final(self)@ == pushed_spec(old(self)@, pos),
            final(self)@.len() == old(self)@.len(),
            final(self)@[0].pos == pos,
            final(self)@[0].velocity == push_velocity_spec(old(self)@, pos),
            forall|i: int| 1 <= i < old(self)@.len() ==> final(self)@[i] == old(self)@[i - 1],
    {
        let ghost snap = self.samples@;
        let head = self.samples[0];
        let d = dist_sq(pos, head.pos);
        let velocity = if d < JITTER_THRESHOLD {
            head.velocity
        } else {
            vec2_sub(pos, head.pos)
        };
        let node = TailNode { pos, velocity };
        let n = self.samples.len();
        let mut i: usize = n - 1;
        while i >= 1
            invariant
                i < n,
                n == snap.len(),
                self.samples@.len() == n,
                forall|j: int| 0 <= j <= i ==> self.samples@[j] == snap[j],
                forall|j: int| i < j < n ==> self.samples@[j] == snap[j - 1],
            decreases i,
        {
            self.samples[i] = self.samples[i - 1];
            i = i - 1;
        }
        self.samples[0] = node;
        proof {
            assert(self.samples@ =~= pushed_spec(snap, pos));
            assert forall|j: int| 0 <= j < n implies node_wf(#[trigger] self.samples@[j]) by {
                if j == 0 {
                    assert(node_wf(snap[0]));
                } else {
                    assert(node_wf(snap[j - 1]));
                }
            }
        }
    }
}

/// Throttles pushes: it accumulates elapsed time and fires once the
/// accumulated time reaches the sampling interval, carrying the remainder
/// over to the next period.
pub struct RateLimiter {
    interval_ms: u64,
    acc_ms: u64,
}

impl RateLimiter {
    /// The sampling interval, in milliseconds.
    pub closed spec fn interval(&self) -> u64 {
        self.interval_ms
    }

    /// Elapsed time accumulated since the limiter last fired, in
    /// milliseconds.
    pub closed spec fn acc(&self) -> u64 {
        self.acc_ms
    }

    /// The interval is positive and bounded, and the accumulator never
    /// reaches it between calls.
    pub open spec fn wf(&self) -> bool {
        &&& 1 <= self.interval() <= INTERVAL_LIMIT
        &&& self.acc() < self.interval()
    }

    /// Whether advancing by `dt_ms` reaches the interval, i.e. whether the
    /// next tick fires.  The boundary is inclusive: accumulating exactly the
    /// interval fires.
    pub open spec fn fires(&self, dt_ms: u64) -> bool {
        self.acc() + dt_ms >= self.interval()
    }

    /// A limiter with the given sampling interval and an empty accumulator.
    pub fn new(interval_ms: u64) -> (l: RateLimiter)
        requires
            1 <= interval_ms <= INTERVAL_LIMIT,
        ensures
            l.wf(),
            l.interval() == interval_ms,
            l.acc() == 0,
    {
        RateLimiter { interval_ms, acc_ms: 0 }
    }

    /// The sampling interval, in milliseconds.
    pub fn interval_ms(&self) -> (r: u64)
        ensures
            r == self.interval(),
    {
        self.interval_ms
    }

    /// The accumulated elapsed time, in milliseconds.
    pub fn acc_ms(&self) -> (r: u64)
        ensures
            r == self.acc(),
    {
        self.acc_ms
    }

    /// Advances the accumulator by `dt_ms`.  Returns true exactly when the
    /// accumulated time reaches the interval; the accumulator then restarts
    /// with the remainder past a whole number of intervals.
    pub fn tick(&mut self, dt_ms: u64) -> (fire: bool)
        requires
            old(self).wf(),
            dt_ms <= DT_LIMIT,
        ensures
            final(self).wf(),
            final(self).interval() == old(self).interval(),
            fire == old(self).fires(dt_ms),
            fire ==> final(self).acc() == (old(self).acc() + dt_ms) % (old(self).interval() as int),
            !fire ==> final(self).acc() == old(self).acc() + dt_ms,
    {
        let total = self.acc_ms + dt_ms;
        if total >= self.interval_ms {
            self.acc_ms = total % self.interval_ms;
            true
        } else {
            self.acc_ms = total;
            false
        }
    }
}

/// Advances the rate limiter by `dt_ms` and, exactly when it fires, pushes
/// `new_position` into the buffer; otherwise the buffer is unchanged.
pub fn update_history(
    buffer: &mut HistoryBuffer,
    limiter: &mut RateLimiter,
    new_position: Vec2I,
    dt_ms: u64,
)
    requires
        old(buffer).wf(),
        old(limiter).wf(),
        in_coord_range(new_position),
        dt_ms <= DT_LIMIT,
    ensures
        final(buffer).wf(),
        final(limiter).wf(),
        final(limiter).interval() == old(limiter).interval(),
        old(limiter).fires(dt_ms) ==> {
            &&& final(buffer)@ == pushed_spec(old(buffer)@, new_position)
            &&& final(limiter).acc() == (old(limiter).acc() + dt_ms) % (old(limiter).interval() as int)
        },
        !old(limiter).fires(dt_ms) ==> {
            &&& final(buffer)@ == old(buffer)@
            &&& final(limiter).acc() == old(limiter).acc() + dt_ms
        },
{
    let fire = limiter.tick(dt_ms);
    if fire {
        buffer.push_tail_node(new_position);
    }
}

} // verus!
