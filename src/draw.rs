//! Uniform random draws, and how a draw is mapped onto a range.
//!
//! A draw is a `u32` read as the fraction `draw / 2^32` of the unit interval
//! `[0, 1)`; scaling it onto `[lo, lo + span)` gives `lo + draw * span / 2^32`.
use vstd::prelude::*;

verus! {

/// Number of distinct draws: a draw `d` stands for the fraction `d / DRAW_RANGE`.
pub const DRAW_RANGE: u64 = 0x1_0000_0000;

/// The value that `draw` picks out of `[lo, lo + span)`.
pub open spec fn scaled_draw(draw: nat, lo: nat, span: nat) -> nat {
    lo + draw * span / (DRAW_RANGE as nat)
}

/// Every draw lands in `[lo, lo + span]`, and below `lo + span` when `span > 0`.
pub proof fn lemma_scaled_draw_bounds(draw: nat, lo: nat, span: nat)
    requires
        draw < DRAW_RANGE,
    ensures
        lo <= scaled_draw(draw, lo, span) <= lo + span,
        span > 0 ==> scaled_draw(draw, lo, span) < lo + span,
{
    let q = draw * span / (DRAW_RANGE as nat);
    assert(q <= span && (span > 0 ==> q < span)) by (nonlinear_arith)
        requires
            draw < 0x1_0000_0000,
            q == draw * span / 0x1_0000_0000,
    ;
}

/// Maps `draw` onto `[lo, lo + span)`.
pub fn scale_draw(draw: u32, lo: u64, span: u64) -> (r: u64)
    requires
        span <= DRAW_RANGE,
        lo + span <= u64::MAX,
    ensures
        r == scaled_draw(draw as nat, lo as nat, span as nat),
        lo <= r <= lo + span,
        span > 0 ==> r < lo + span,
{
    proof {
        lemma_scaled_draw_bounds(draw as nat, lo as nat, span as nat);
    }
    let d: u64 = draw as u64;
    assert(d * span <= 0xffff_ffff * 0x1_0000_0000) by (nonlinear_arith)
        requires
            d <= 0xffff_ffff,
            span <= 0x1_0000_0000,
    ;
    lo + d * span / DRAW_RANGE
}

} // verus!
