//! The jump cooldown: a countdown, in nanoseconds, that gates how often a
//! cube may jump.
use vstd::prelude::*;

use bevy_turborand::GlobalRng;

use crate::draw::{lemma_scaled_draw_bounds, scale_draw, scaled_draw};
use crate::rng::draw;

verus! {

/// Shortest cooldown, in nanoseconds (one second).
pub const MIN_COOLDOWN: u64 = 1_000_000_000;

/// Longest cooldown, in nanoseconds (five seconds).
pub const MAX_COOLDOWN: u64 = 5_000_000_000;

/// Cooldown length picked by a draw:
/// `MIN_COOLDOWN + draw / 2^32 * (MAX_COOLDOWN - MIN_COOLDOWN)`.
pub open spec fn cooldown_of(draw: nat) -> nat {
    scaled_draw(draw, MIN_COOLDOWN as nat, (MAX_COOLDOWN - MIN_COOLDOWN) as nat)
}

/// Whether a tick of `delta` makes a countdown with `remaining` time left
/// run out: it had not run out yet, and the tick covers what was left.
pub open spec fn fires(remaining: nat, delta: nat) -> bool {
    0 < remaining <= delta
}

/// Time left after a tick of `delta`; a countdown stops at zero.
pub open spec fn remaining_after_tick(remaining: nat, delta: nat) -> nat {
    if delta >= remaining {
        0
    } else {
        (remaining - delta) as nat
    }
}

/// A cube's countdown to its next jump.
#[derive(Clone, Copy, Debug, PartialEq, Eq, Structural)]
pub struct JumpCooldown {
    /// Time left before the next jump, in nanoseconds.
    pub remaining: u64,
    /// Length of the current countdown, in nanoseconds.
    pub total: u64,
}

impl JumpCooldown {
    /// The countdown's length lies in `[MIN_COOLDOWN, MAX_COOLDOWN]` and no
    /// more than that length is left.
    pub open spec fn wf(self) -> bool {
        &&& MIN_COOLDOWN <= self.total <= MAX_COOLDOWN
        &&& self.remaining <= self.total
    }

    /// A fresh countdown whose length is picked by `draw`.
    pub fn from_draw(draw: u32) -> (r: Self)
        ensures
            r.total == cooldown_of(draw as nat),
            r.remaining == r.total,
            r.wf(),
    {
        let total = scale_draw(draw, MIN_COOLDOWN, MAX_COOLDOWN - MIN_COOLDOWN);
        JumpCooldown { remaining: total, total }
    }

    /// A fresh countdown of random length.
    pub fn new(global_rng: &mut GlobalRng) -> (r: Self)
        ensures
            r.remaining == r.total,
            r.wf(),
    {
        let d = draw(global_rng);
        Self::from_draw(d)
    }

    /// Restarts the countdown with a fresh random length.
    pub fn new_timer(&mut self, global_rng: &mut GlobalRng)
        ensures
            final(self).remaining == final(self).total,
            final(self).wf(),
    {
        *self = Self::new(global_rng);
    }

    /// Advances the countdown by `delta` nanoseconds and tells whether it
    /// ran out on this tick.
    pub fn tick(&mut self, delta: u64) -> (fired: bool)
        requires
            old(self).wf(),
        ensures
            fired == fires(old(self).remaining as nat, delta as nat),
            final(self).remaining == remaining_after_tick(old(self).remaining as nat, delta as nat),
            final(self).total == old(self).total,
            final(self).wf(),
    {
        if self.remaining == 0 {
            false
        } else if delta >= self.remaining {
            self.remaining = 0;
            true
        } else {
            self.remaining = self.remaining - delta;
            false
        }
    }
}

/// Every cooldown length that a draw can pick lies in
/// `[MIN_COOLDOWN, MAX_COOLDOWN]`.
pub proof fn lemma_cooldown_in_range(draw: u32)
    ensures
        MIN_COOLDOWN <= cooldown_of(draw as nat) <= MAX_COOLDOWN,
{
    lemma_scaled_draw_bounds(
        draw as nat,
        MIN_COOLDOWN as nat,
        (MAX_COOLDOWN - MIN_COOLDOWN) as nat,
    );
}

/// Time left after `n` ticks of `delta` each.
pub open spec fn remaining_after(remaining: nat, delta: nat, n: nat) -> nat
    decreases n,
{
    if n == 0 {
        remaining
    } else {
        remaining_after_tick(remaining_after(remaining, delta, (n - 1) as nat), delta)
    }
}

proof fn lemma_remaining_after(total: nat, delta: nat, n: nat)
    ensures
        n * delta < total ==> remaining_after(total, delta, n) == total - n * delta,
        n * delta >= total ==> remaining_after(total, delta, n) == 0,
    decreases n,
{
    if n > 0 {
        lemma_remaining_after(total, delta, (n - 1) as nat);
        assert(n * delta == (n - 1) * delta + delta) by (nonlinear_arith)
            requires
                n > 0,
        ;
        assert((n - 1) * delta <= n * delta) by (nonlinear_arith)
            requires
                n > 0,
        ;
    }
}

/// With ticks of a fixed size `delta`, a countdown of `total` runs out on
/// tick `n` (counting from one) exactly when the time elapsed over the first
/// `n` ticks reaches `total` and that over the first `n - 1` ticks does not:
/// on no earlier tick, and on no later one.
pub proof fn lemma_fires_once(total: nat, delta: nat, n: nat)
    requires
        n >= 1,
    ensures
        fires(remaining_after(total, delta, (n - 1) as nat), delta) <==> (n - 1) * delta < total
            <= n * delta,
{
    lemma_remaining_after(total, delta, (n - 1) as nat);
    assert(n * delta == (n - 1) * delta + delta) by (nonlinear_arith)
        requires
            n >= 1,
    ;
}

} // verus!
