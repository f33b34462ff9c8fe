//! Cubes that jump towards a target, and the grid they start in.
use vstd::prelude::*;

use bevy_turborand::GlobalRng;

use crate::cooldown::{cooldown_of, fires, remaining_after_tick, JumpCooldown};
use crate::motion::{
    force_of, heads_along, jump_force, jump_velocity, jump_velocity_of, Position, Velocity,
    MAX_COORD, MAX_FORCE, MIN_FORCE,
};
use crate::rng::draw;

verus! {

/// A jumping cube: where it is, how it moves, and when it jumps next.
#[derive(Clone, Copy, Debug, PartialEq, Eq, Structural)]
pub struct Cube {
    pub position: Position,
    pub velocity: Velocity,
    pub cooldown: JumpCooldown,
}

/// The velocity as a triple, in the shape that `jump_velocity_of` gives.
pub open spec fn velocity_of(v: Velocity) -> (int, int, int) {
    (v.x as int, v.y as int, v.z as int)
}

/// What one tick of `delta` nanoseconds may do to a cube, given the target.
///
/// The cube does not move here (the physics engine moves it). If its
/// cooldown does not run out on this tick, only the cooldown advances and
/// the velocity is kept. If it runs out, the cooldown restarts at full
/// length and the velocity becomes a jump towards the target, whose upward
/// push lies in `[MIN_FORCE, MAX_FORCE]` and whose horizontal part is no
/// faster than `MAX_SPEED`.
pub open spec fn jump_step(before: Cube, after: Cube, target: Position, delta: nat) -> bool {
    &&& after.position == before.position
    &&& after.cooldown.wf()
    &&& if fires(before.cooldown.remaining as nat, delta) {
        &&& after.cooldown.remaining == after.cooldown.total
        &&& MIN_FORCE <= after.velocity.y <= MAX_FORCE
        &&& velocity_of(after.velocity) == jump_velocity_of(
            before.position,
            target,
            after.velocity.y as int,
        )
        &&& heads_along(after.velocity, target.x - before.position.x, target.z - before.position.z)
    } else {
        &&& after.velocity == before.velocity
        &&& after.cooldown.total == before.cooldown.total
        &&& after.cooldown.remaining == remaining_after_tick(
            before.cooldown.remaining as nat,
            delta,
        )
    }
}

impl Cube {
    /// The cube lies within bounds and its cooldown is well formed.
    pub open spec fn wf(self) -> bool {
        self.position.in_bounds() && self.cooldown.wf()
    }

    /// Jumps towards `target`: the cooldown restarts with the length that
    /// `cooldown_draw` picks, and the velocity becomes a jump whose upward
    /// push `force_draw` picks.
    pub fn jump(&mut self, target: Position, cooldown_draw: u32, force_draw: u32)
        requires
            old(self).position.in_bounds(),
            target.in_bounds(),
        ensures
            final(self).position == old(self).position,
            final(self).cooldown.total == cooldown_of(cooldown_draw as nat),
            final(self).cooldown.remaining == final(self).cooldown.total,
            final(self).cooldown.wf(),
            velocity_of(final(self).velocity) == jump_velocity_of(
                old(self).position,
                target,
                force_of(force_draw as nat) as int,
            ),
            heads_along(
                final(self).velocity,
                target.x - old(self).position.x,
                target.z - old(self).position.z,
            ),
    {
        self.cooldown = JumpCooldown::from_draw(cooldown_draw);
        let force = jump_force(force_draw);
        self.velocity = jump_velocity(self.position, target, force);
    }
}

/// Advances every cube's cooldown by `delta` nanoseconds; each cube whose
/// cooldown runs out jumps towards `target`, drawing first its next
/// cooldown and then its upward push from `global_rng`. Tells, cube by
/// cube, which ones jumped.
pub fn cubes_jump(
    cubes: &mut Vec<Cube>,
    target: Position,
    delta: u64,
    global_rng: &mut GlobalRng,
) -> (jumped: Vec<bool>)
    requires
        forall|i: int| 0 <= i < old(cubes)@.len() ==> (#[trigger] old(cubes)@[i]).wf(),
        target.in_bounds(),
    ensures
        final(cubes)@.len() == old(cubes)@.len(),
        forall|i: int|
            0 <= i < final(cubes)@.len() ==> jump_step(
                old(cubes)@[i],
                #[trigger] final(cubes)@[i],
                target,
                delta as nat,
            ),
        jumped@.len() == old(cubes)@.len(),
        forall|i: int|
            0 <= i < jumped@.len() ==> #[trigger] jumped@[i] == fires(
                old(cubes)@[i].cooldown.remaining as nat,
                delta as nat,
            ),
{
    let ghost before = cubes@;
    let mut jumped: Vec<bool> = Vec::new();
    let mut i: usize = 0;
    while i < cubes.len()
        invariant
            cubes@.len() == before.len(),
            i <= cubes@.len(),
            target.in_bounds(),
            forall|j: int| 0 <= j < before.len() ==> (#[trigger] before[j]).wf(),
            forall|j: int| i <= j < cubes@.len() ==> #[trigger] cubes@[j] == before[j],
            forall|j: int|
                0 <= j < i ==> jump_step(before[j], #[trigger] cubes@[j], target, delta as nat),
            jumped@.len() == i,
            forall|j: int|
                0 <= j < i ==> #[trigger] jumped@[j] == fires(
                    before[j].cooldown.remaining as nat,
                    delta as nat,
                ),
        decreases cubes@.len() - i,
    {
        let mut cube = cubes[i];
        let fired = cube.cooldown.tick(delta);
        if fired {
            let cooldown_draw = draw(global_rng);
            let force_draw = draw(global_rng);
            cube.jump(target, cooldown_draw, force_draw);
            proof {
                crate::motion::lemma_force_in_range(force_draw);
            }
        }
        cubes[i] = cube;
        jumped.push(fired);
        i = i + 1;
    }
    jumped
}

/// Total time taken by a run of ticks.
pub open spec fn elapsed(deltas: Seq<nat>) -> nat
    decreases deltas.len(),
{
    if deltas.len() == 0 {
        0
    } else {
        elapsed(deltas.drop_last()) + deltas.last()
    }
}

/// Ticks that together take less time than a cube has left on its cooldown
/// never change its velocity: along any run of steps that `cubes_jump`
/// allows, with those ticks, the velocity stays as it was, and the cooldown
/// has gone down by exactly the time elapsed.
pub proof fn lemma_quiet_ticks(states: Seq<Cube>, target: Position, deltas: Seq<nat>)
    requires
        states.len() == deltas.len() + 1,
        forall|i: int|
            0 <= i < deltas.len() ==> #[trigger] jump_step(
                states[i],
                states[i + 1],
                target,
                deltas[i],
            ),
        elapsed(deltas) < states[0].cooldown.remaining,
    ensures
        forall|i: int| 0 <= i < states.len() ==> #[trigger] states[i].velocity == states[0].velocity,
        states.last().cooldown.remaining == states[0].cooldown.remaining - elapsed(deltas),
    decreases deltas.len(),
{
    if deltas.len() > 0 {
        let n = deltas.len() - 1;
        let prefix = states.drop_last();
        let ds = deltas.drop_last();
        assert forall|i: int| 0 <= i < ds.len() implies #[trigger] jump_step(
            prefix[i],
            prefix[i + 1],
            target,
            ds[i],
        ) by {
            assert(jump_step(states[i], states[i + 1], target, deltas[i]));
        }
        lemma_quiet_ticks(prefix, target, ds);
        assert(prefix.last() == states[n]);
        assert(jump_step(states[n], states[n + 1], target, deltas[n]));
        assert(!fires(states[n].cooldown.remaining as nat, deltas[n]));
        assert forall|i: int| 0 <= i < states.len() implies #[trigger] states[i].velocity
            == states[0].velocity by {
            if i < states.len() - 1 {
                assert(states[i] == prefix[i]);
            }
        }
    }
}

/// Where the jump target stands: x, in millimetres.
pub const TARGET_X: i64 = -20000;

/// Where the jump target stands: y, in millimetres.
pub const TARGET_Y: i64 = 2000;

/// Where the jump target stands: z, in millimetres.
pub const TARGET_Z: i64 = 0;

/// Side of a cube, in millimetres.
pub const CUBE_SIZE: i64 = 1000;

/// Gap between neighbouring cubes of the grid, in millimetres.
pub const CUBE_SPACING: i64 = 100;

/// Height of the grid's bottom layer, in millimetres.
pub const GRID_LIFT: i64 = 1000;

/// The coordinates of a position, as a triple.
pub open spec fn position_of(p: Position) -> (int, int, int) {
    (p.x as int, p.y as int, p.z as int)
}

/// Where the `idx`-th cube of a grid with `n` cubes to a side starts.
///
/// Cubes are laid out layer by layer along x, then along y, then along z:
/// cube `idx` sits in column `i = idx / n^2` along x, row `j = (idx / n) % n`
/// along y and column `k = idx % n` along z, one cube size plus one spacing
/// apart, with the bottom layer raised by `GRID_LIFT`.
pub open spec fn grid_position(n: nat, idx: nat) -> (int, int, int) {
    let pitch = CUBE_SIZE + CUBE_SPACING;
    let i = idx / (n * n);
    let j = (idx / n) % n;
    let k = idx % n;
    (i * pitch, j * pitch + GRID_LIFT, k * pitch)
}

proof fn lemma_grid_slot_bounds(n: nat, idx: nat)
    requires
        idx < n * n * n,
    ensures
        n > 0,
        idx / (n * n) < n,
        (idx / n) % n < n,
        idx % n < n,
{
    assert(n > 0) by (nonlinear_arith)
        requires
            idx < n * n * n,
    ;
    assert(n * n > 0) by (nonlinear_arith)
        requires
            n > 0,
    ;
    vstd::arithmetic::div_mod::lemma_multiply_divide_lt(idx as int, (n * n) as int, n as int);
}

/// Spawns a grid of `num_cubes` cubes to a side, at rest, each with a fresh
/// random cooldown.
pub fn spawn_cubes(num_cubes: usize, global_rng: &mut GlobalRng) -> (r: Vec<Cube>)
    requires
        num_cubes * num_cubes * num_cubes <= usize::MAX,
        num_cubes * (CUBE_SIZE + CUBE_SPACING) + GRID_LIFT <= MAX_COORD,
    ensures
        r@.len() == num_cubes * num_cubes * num_cubes,
        forall|idx: int|
            0 <= idx < r@.len() ==> {
                &&& (#[trigger] r@[idx]).wf()
                &&& position_of(r@[idx].position) == grid_position(num_cubes as nat, idx as nat)
                &&& r@[idx].velocity == (Velocity { x: 0, y: 0, z: 0 })
                &&& r@[idx].cooldown.remaining == r@[idx].cooldown.total
            },
{
    let n = num_cubes;
    assert(n * n <= n * n * n || n == 0) by (nonlinear_arith);
    let side2: usize = n * n;
    let count: usize = side2 * n;
    let pitch: i64 = CUBE_SIZE + CUBE_SPACING;
    let mut cubes: Vec<Cube> = Vec::new();
    let mut idx: usize = 0;
    while idx < count
        invariant
            side2 == n * n,
            count == n * n * n,
            n * (CUBE_SIZE + CUBE_SPACING) + GRID_LIFT <= MAX_COORD,
            pitch == CUBE_SIZE + CUBE_SPACING,
            idx <= count,
            cubes@.len() == idx,
            forall|p: int|
                0 <= p < idx ==> {
                    &&& (#[trigger] cubes@[p]).wf()
                    &&& position_of(cubes@[p].position) == grid_position(n as nat, p as nat)
                    &&& cubes@[p].velocity == (Velocity { x: 0, y: 0, z: 0 })
                    &&& cubes@[p].cooldown.remaining == cubes@[p].cooldown.total
                },
        decreases count - idx,
    {
        proof {
            lemma_grid_slot_bounds(n as nat, idx as nat);
        }
        let i: usize = idx / side2;
        let j: usize = (idx / n) % n;
        let k: usize = idx % n;
        assert(i * pitch <= n * pitch && j * pitch <= n * pitch && k * pitch <= n * pitch)
            by (nonlinear_arith)
            requires
                i < n,
                j < n,
                k < n,
                pitch == 1100,
        ;
        let position = Position {
            x: i as i64 * pitch,
            y: j as i64 * pitch + GRID_LIFT,
            z: k as i64 * pitch,
        };
        let cooldown = JumpCooldown::new(global_rng);
        cubes.push(Cube { position, velocity: Velocity { x: 0, y: 0, z: 0 }, cooldown });
        idx = idx + 1;
    }
    cubes
}

} // verus!
