//! Positions, velocities and the jump velocity towards a target.
use vstd::prelude::*;

use crate::draw::{scale_draw, scaled_draw, lemma_scaled_draw_bounds};

verus! {

/// Largest magnitude of a coordinate, in millimetres (about 536 km).
pub const MAX_COORD: i64 = 0x2000_0000;

/// Horizontal speed of a jump, in millimetres per second.
pub const MAX_SPEED: i64 = 5000;

/// The largest integer whose square does not exceed `n`.
pub open spec fn floor_sqrt(n: nat) -> nat
    decreases n,
{
    if n == 0 {
        0
    } else {
        let r = floor_sqrt((n - 1) as nat);
        if (r + 1) * (r + 1) <= n {
            r + 1
        } else {
            r
        }
    }
}

/// `r` is the integer square root of `n`, rounded down.
pub open spec fn is_floor_sqrt(n: nat, r: nat) -> bool {
    r * r <= n < (r + 1) * (r + 1)
}

proof fn lemma_floor_sqrt(n: nat)
    ensures
        is_floor_sqrt(n, floor_sqrt(n)),
    decreases n,
{
    if n == 0 {
        assert(floor_sqrt(0) == 0);
        assert(is_floor_sqrt(0, 0)) by (nonlinear_arith);
    } else {
        lemma_floor_sqrt((n - 1) as nat);
        let r = floor_sqrt((n - 1) as nat);
        assert(r * r <= n);
        if (r + 1) * (r + 1) <= n {
            assert(floor_sqrt(n) == r + 1);
            assert((r + 1) * (r + 1) == n) by (nonlinear_arith)
                requires
                    (r + 1) * (r + 1) <= n,
                    n - 1 < (r + 1) * (r + 1),
            ;
            assert(is_floor_sqrt(n, r + 1)) by (nonlinear_arith)
                requires
                    (r + 1) * (r + 1) == n,
            ;
        } else {
            assert(floor_sqrt(n) == r);
            assert(is_floor_sqrt(n, r));
        }
    }
}

/// The square root rounded down is the only value that meets `is_floor_sqrt`.
pub proof fn lemma_floor_sqrt_unique(n: nat, r: nat)
    requires
        is_floor_sqrt(n, r),
    ensures
        r == floor_sqrt(n),
{
    lemma_floor_sqrt(n);
    let s = floor_sqrt(n);
    if r < s {
        assert((r + 1) * (r + 1) <= s * s) by (nonlinear_arith)
            requires
                r + 1 <= s,
        ;
    } else if r > s {
        assert((s + 1) * (s + 1) <= r * r) by (nonlinear_arith)
            requires
                s + 1 <= r,
        ;
    }
}

/// Integer square root, rounded down, by bisection.
pub fn isqrt(n: u64) -> (r: u64)
    ensures
        r == floor_sqrt(n as nat),
{
    let mut lo: u64 = 0;
    let mut hi: u64 = 0x1_0000_0000;
    assert(hi * hi > n) by (nonlinear_arith)
        requires
            hi == 0x1_0000_0000u64,
            n < 0x1_0000_0000_0000_0000,
    ;
    while hi - lo > 1
        invariant
            lo < hi <= 0x1_0000_0000,
            lo * lo <= n,
            n < hi * hi,
        decreases hi - lo,
    {
        let mid: u64 = lo + (hi - lo) / 2;
        assert(mid * mid < 0x1_0000_0000_0000_0000) by (nonlinear_arith)
            requires
                mid < 0x1_0000_0000,
        ;
        if mid * mid <= n {
            lo = mid;
        } else {
            hi = mid;
        }
    }
    proof {
        lemma_floor_sqrt_unique(n as nat, lo as nat);
    }
    lo
}

/// Smallest upward push of a jump, in millimetres per second.
pub const MIN_FORCE: u64 = 1000;

/// Largest upward push of a jump, in millimetres per second.
pub const MAX_FORCE: u64 = 10000;

/// A point in space, in millimetres.
#[derive(Clone, Copy, Debug, PartialEq, Eq, Structural)]
pub struct Position {
    pub x: i64,
    pub y: i64,
    pub z: i64,
}

impl Position {
    /// Every coordinate lies within `MAX_COORD` of the origin.
    pub open spec fn in_bounds(self) -> bool {
        &&& -MAX_COORD <= self.x <= MAX_COORD
        &&& -MAX_COORD <= self.y <= MAX_COORD
        &&& -MAX_COORD <= self.z <= MAX_COORD
    }
}

/// A linear velocity, in millimetres per second.
#[derive(Clone, Copy, Debug, PartialEq, Eq, Structural)]
pub struct Velocity {
    pub x: i64,
    pub y: i64,
    pub z: i64,
}

/// Upward push picked by a draw: `MIN_FORCE + draw / 2^32 * (MAX_FORCE - MIN_FORCE)`.
pub open spec fn force_of(draw: nat) -> nat {
    scaled_draw(draw, MIN_FORCE as nat, (MAX_FORCE - MIN_FORCE) as nat)
}

/// The upward push of a jump for a given draw.
pub fn jump_force(draw: u32) -> (r: i64)
    ensures
        r == force_of(draw as nat),
        MIN_FORCE <= r <= MAX_FORCE,
{
    scale_draw(draw, MIN_FORCE, MAX_FORCE - MIN_FORCE) as i64
}

/// Every jump force lies between `MIN_FORCE` and `MAX_FORCE`.
pub proof fn lemma_force_in_range(draw: u32)
    ensures
        MIN_FORCE <= force_of(draw as nat) <= MAX_FORCE,
{
    lemma_scaled_draw_bounds(draw as nat, MIN_FORCE as nat, (MAX_FORCE - MIN_FORCE) as nat);
}

/// Squared distance between two points.
pub open spec fn dist_sq(from: Position, to: Position) -> nat {
    let dx = to.x - from.x;
    let dy = to.y - from.y;
    let dz = to.z - from.z;
    (dx * dx + dy * dy + dz * dz) as nat
}

/// Square of the horizontal jump speed.
pub open spec fn max_speed_sq() -> int {
    MAX_SPEED * MAX_SPEED
}

/// One component `d` of an offset whose squared length is `sq`, rescaled so
/// that the whole offset has length `MAX_SPEED`, and rounded towards zero;
/// zero for an offset of length zero.
///
/// Its magnitude is the largest integer whose square does not exceed
/// `(d * MAX_SPEED)^2 / sq`, which is `|d| * MAX_SPEED / sqrt(sq)` rounded
/// down.
pub open spec fn scaled_component(d: int, sq: nat) -> int {
    if sq == 0 {
        0
    } else {
        let m = floor_sqrt((d * d * max_speed_sq() / sq as int) as nat);
        if d >= 0 {
            m as int
        } else {
            -m
        }
    }
}

/// Velocity of a jump from `from` towards `to` with upward push `force`.
///
/// The horizontal part points along the offset to the target, normalised in
/// all three dimensions and scaled to `MAX_SPEED`, each component rounded
/// towards zero. Where the two points coincide there is no direction, and
/// the jump goes straight up.
pub open spec fn jump_velocity_of(from: Position, to: Position, force: int) -> (int, int, int) {
    let sq = dist_sq(from, to);
    (scaled_component(to.x - from.x, sq), force, scaled_component(to.z - from.z, sq))
}

/// The horizontal part of a velocity is no faster than `MAX_SPEED` and
/// heads the same way as the offset `(dx, dz)` along each axis.
pub open spec fn heads_along(v: Velocity, dx: int, dz: int) -> bool {
    &&& v.x * v.x + v.z * v.z <= max_speed_sq()
    &&& v.x * dx >= 0
    &&& v.z * dz >= 0
}

fn scale_component(d: i64, sq: u64) -> (r: i64)
    requires
        0 < sq <= 0x4000_0000_0000_0000,
        -0x8000_0000 <= d <= 0x8000_0000,
        d * d <= sq,
    ensures
        r == scaled_component(d as int, sq as nat),
        -MAX_SPEED <= r <= MAX_SPEED,
        r * r * sq <= d * d * max_speed_sq(),
        r * d >= 0,
{
    let m: u64 = if d >= 0 {
        d as u64
    } else {
        (-d) as u64
    };
    assert(m * m == d * d) by (nonlinear_arith)
        requires
            m == d || m == -d,
    ;
    let speed_sq: u128 = 25_000_000;
    assert(speed_sq == max_speed_sq());
    assert(m * m * speed_sq <= 0x4000_0000_0000_0000 * 25_000_000) by (nonlinear_arith)
        requires
            m * m <= 0x4000_0000_0000_0000,
            speed_sq == 25_000_000,
    ;
    let num: u128 = (m as u128) * (m as u128) * speed_sq;
    let q: u128 = num / (sq as u128);
    assert(q <= speed_sq && q * sq <= num) by (nonlinear_arith)
        requires
            m * m <= sq,
            sq > 0,
            num == m * m * speed_sq,
            q as int == num as int / sq as int,
    ;
    let s: u64 = isqrt(q as u64);
    proof {
        lemma_floor_sqrt(q as nat);
        assert(s <= MAX_SPEED) by (nonlinear_arith)
            requires
                s * s <= q,
                q <= 25_000_000,
        ;
        assert(s * s * sq <= num) by (nonlinear_arith)
            requires
                s * s <= q,
                q * sq <= num,
        ;
    }
    if d >= 0 {
        s as i64
    } else {
        assert((-s) * (-s) == s * s && (-s) * d >= 0) by (nonlinear_arith)
            requires
                d < 0,
        ;
        -(s as i64)
    }
}

proof fn lemma_speed_bounded(x: int, z: int, dx: int, dz: int, sq: int)
    requires
        sq > 0,
        dx * dx + dz * dz <= sq,
        x * x * sq <= dx * dx * max_speed_sq(),
        z * z * sq <= dz * dz * max_speed_sq(),
    ensures
        x * x + z * z <= max_speed_sq(),
{
    let k = max_speed_sq();
    let xx = x * x;
    let zz = z * z;
    let ddx = dx * dx;
    let ddz = dz * dz;
    assert((xx + zz) * sq == xx * sq + zz * sq) by (nonlinear_arith);
    assert(ddx * k + ddz * k == (ddx + ddz) * k) by (nonlinear_arith);
    assert((ddx + ddz) * k <= sq * k) by (nonlinear_arith)
        requires
            ddx + ddz <= sq,
            k >= 0,
    ;
    assert(xx + zz <= k) by (nonlinear_arith)
        requires
            (xx + zz) * sq <= k * sq,
            sq > 0,
    ;
}

/// The velocity that a jump from `from` towards `to` with upward push `force` sets.
pub fn jump_velocity(from: Position, to: Position, force: i64) -> (r: Velocity)
    requires
        from.in_bounds(),
        to.in_bounds(),
    ensures
        (r.x as int, r.y as int, r.z as int) == jump_velocity_of(from, to, force as int),
        heads_along(r, to.x - from.x, to.z - from.z),
{
    let dx: i64 = to.x - from.x;
    let dy: i64 = to.y - from.y;
    let dz: i64 = to.z - from.z;
    assert(dx * dx <= 0x1000_0000_0000_0000 && dy * dy <= 0x1000_0000_0000_0000 && dz * dz
        <= 0x1000_0000_0000_0000) by (nonlinear_arith)
        requires
            -0x4000_0000 <= dx <= 0x4000_0000,
            -0x4000_0000 <= dy <= 0x4000_0000,
            -0x4000_0000 <= dz <= 0x4000_0000,
    ;
    assert(dx * dx >= 0 && dy * dy >= 0 && dz * dz >= 0) by (nonlinear_arith);
    let sq: u64 = (dx * dx + dy * dy + dz * dz) as u64;
    if sq == 0 {
        Velocity { x: 0, y: force, z: 0 }
    } else {
        let x = scale_component(dx, sq);
        let z = scale_component(dz, sq);
        proof {
            lemma_speed_bounded(x as int, z as int, dx as int, dz as int, sq as int);
        }
        Velocity { x, y: force, z }
    }
}

/// A jump towards a target straight along the x axis from the cube moves at
/// full speed along x, towards the target, and not at all along z, whatever
/// the upward push.
pub proof fn lemma_jump_along_x(from: Position, to: Position, force: int)
    requires
        to.y == from.y,
        to.z == from.z,
        to.x != from.x,
    ensures
        jump_velocity_of(from, to, force) == (
            if to.x < from.x {
                -MAX_SPEED
            } else {
                MAX_SPEED as int
            },
            force,
            0int,
        ),
{
    let dx: int = to.x - from.x;
    let a: nat = if dx >= 0 {
        dx as nat
    } else {
        (-dx) as nat
    };
    let k = max_speed_sq();
    assert(dx * dx == a * a && a * a > 0) by (nonlinear_arith)
        requires
            a == dx || a == -dx,
            dx != 0,
    ;
    assert(dist_sq(from, to) == a * a);
    vstd::arithmetic::div_mod::lemma_div_multiples_vanish(k, (a * a) as int);
    assert(dx * dx * k == (a * a) * k) by (nonlinear_arith)
        requires
            dx * dx == a * a,
    ;
    assert(is_floor_sqrt(k as nat, MAX_SPEED as nat)) by (nonlinear_arith)
        requires
            k == 5000 * 5000,
    ;
    lemma_floor_sqrt_unique(k as nat, MAX_SPEED as nat);
    assert(floor_sqrt(0) == 0);
}

/// A cube that sits exactly on the target has no direction to jump in: its
/// jump goes straight up, with the given upward push.
pub proof fn lemma_jump_in_place(p: Position, force: int)
    ensures
        jump_velocity_of(p, p, force) == (0int, force, 0int),
{
    assert(dist_sq(p, p) == 0);
}

} // verus!
