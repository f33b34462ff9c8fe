use bevy_turborand::GlobalRng;
use cube_jump::cooldown::{JumpCooldown, MAX_COOLDOWN, MIN_COOLDOWN};
use cube_jump::cube::{cubes_jump, spawn_cubes, Cube, TARGET_X, TARGET_Y, TARGET_Z};
use cube_jump::draw::scale_draw;
use cube_jump::motion::{
    isqrt, jump_force, jump_velocity, Position, Velocity, MAX_FORCE, MAX_SPEED, MIN_FORCE,
};

const TENTH: u64 = 100_000_000;

fn pos(x: i64, y: i64, z: i64) -> Position {
    Position { x, y, z }
}

fn cube_at(position: Position, remaining: u64, total: u64) -> Cube {
    Cube {
        position,
        velocity: Velocity { x: 1, y: 2, z: 3 },
        cooldown: JumpCooldown { remaining, total },
    }
}

#[test]
fn isqrt_rounds_down() {
    assert_eq!(isqrt(0), 0);
    assert_eq!(isqrt(1), 1);
    assert_eq!(isqrt(15), 3);
    assert_eq!(isqrt(16), 4);
    assert_eq!(isqrt(400_000_000), 20_000);
    assert_eq!(isqrt(u64::MAX), 4_294_967_295);
}

#[test]
fn scale_draw_maps_the_unit_interval() {
    assert_eq!(scale_draw(0, 7, 100), 7);
    assert_eq!(scale_draw(0x8000_0000, 7, 100), 57);
    assert_eq!(scale_draw(u32::MAX, 7, 100), 106);
}

#[test]
fn cooldown_lengths_from_draws() {
    let low = JumpCooldown::from_draw(0);
    assert_eq!(low, JumpCooldown { remaining: 1_000_000_000, total: 1_000_000_000 });
    let mid = JumpCooldown::from_draw(0x8000_0000);
    assert_eq!(mid.total, 3_000_000_000);
    let high = JumpCooldown::from_draw(u32::MAX);
    assert_eq!(high.total, 4_999_999_999);
    assert_eq!(high.remaining, high.total);
}

#[test]
fn drawn_cooldowns_stay_in_range() {
    let mut rng = GlobalRng::with_seed(7);
    let mut totals = Vec::new();
    for _ in 0..1000 {
        let c = JumpCooldown::new(&mut rng);
        assert!(MIN_COOLDOWN <= c.total && c.total <= MAX_COOLDOWN);
        assert_eq!(c.remaining, c.total);
        totals.push(c.total);
    }
    assert!(totals.iter().any(|&t| t != totals[0]));
}

#[test]
fn new_timer_restarts_the_countdown() {
    let mut rng = GlobalRng::with_seed(11);
    let mut c = JumpCooldown { remaining: 0, total: 2_000_000_000 };
    c.new_timer(&mut rng);
    assert!(MIN_COOLDOWN <= c.total && c.total <= MAX_COOLDOWN);
    assert_eq!(c.remaining, c.total);
}

#[test]
fn jump_forces_stay_in_range() {
    assert_eq!(jump_force(0), 1000);
    assert_eq!(jump_force(0x8000_0000), 5500);
    assert_eq!(jump_force(u32::MAX), 9999);
    let mut d: u32 = 0;
    for _ in 0..1000 {
        let f = jump_force(d);
        assert!(MIN_FORCE as i64 <= f && f <= MAX_FORCE as i64);
        d = d.wrapping_add(4_294_967);
    }
}

#[test]
fn tick_counts_down_and_fires_once() {
    let mut c = JumpCooldown { remaining: 300, total: 1_000_000_000 };
    assert!(!c.tick(100));
    assert_eq!(c.remaining, 200);
    assert!(c.tick(200));
    assert_eq!(c.remaining, 0);
    assert!(!c.tick(500));
    assert_eq!(c.remaining, 0);
    assert_eq!(c.total, 1_000_000_000);
}

#[test]
fn fires_on_tenth_tenth_of_a_second() {
    let mut c = JumpCooldown { remaining: 1_000_000_000, total: 1_000_000_000 };
    for _ in 0..9 {
        assert!(!c.tick(TENTH));
    }
    assert_eq!(c.remaining, TENTH);
    assert!(c.tick(TENTH));
}

#[test]
fn fires_when_elapsed_first_reaches_total() {
    let mut c = JumpCooldown { remaining: 1_050_000_000, total: 2_000_000_000 };
    let mut fired_on = Vec::new();
    for n in 1..=20 {
        if c.tick(TENTH) {
            fired_on.push(n);
        }
    }
    assert_eq!(fired_on, vec![11]);
}

#[test]
fn quiet_ticks_keep_the_velocity() {
    let mut rng = GlobalRng::with_seed(3);
    let target = pos(-20_000, 0, 0);
    let mut cubes = vec![cube_at(pos(0, 0, 0), 1_000_000_000, 1_000_000_000)];
    for _ in 0..9 {
        cubes_jump(&mut cubes, target, TENTH, &mut rng);
        assert_eq!(cubes[0].velocity, Velocity { x: 1, y: 2, z: 3 });
        assert_eq!(cubes[0].position, pos(0, 0, 0));
    }
    assert_eq!(cubes[0].cooldown, JumpCooldown { remaining: TENTH, total: 1_000_000_000 });
}

#[test]
fn cubes_jump_fires_on_tick_ten() {
    let mut rng = GlobalRng::with_seed(5);
    let target = pos(-20_000, 0, 0);
    let mut cubes = vec![cube_at(pos(0, 0, 0), 1_000_000_000, 1_000_000_000)];
    for _ in 0..9 {
        assert_eq!(cubes_jump(&mut cubes, target, TENTH, &mut rng), vec![false]);
    }
    assert_eq!(cubes[0].velocity, Velocity { x: 1, y: 2, z: 3 });
    assert_eq!(cubes_jump(&mut cubes, target, TENTH, &mut rng), vec![true]);
    let v = cubes[0].velocity;
    assert_eq!((v.x, v.z), (-MAX_SPEED, 0));
    assert!(MIN_FORCE as i64 <= v.y && v.y <= MAX_FORCE as i64);
    let c = cubes[0].cooldown;
    assert!(MIN_COOLDOWN <= c.total && c.total <= MAX_COOLDOWN);
    assert_eq!(c.remaining, c.total);
}

#[test]
fn jump_heads_for_the_target_along_x() {
    let v = jump_velocity(pos(0, 0, 0), pos(-20_000, 0, 0), 4321);
    assert_eq!(v, Velocity { x: -5000, y: 4321, z: 0 });
    let w = jump_velocity(pos(0, 0, 0), pos(-20_000, 0, 0), 1000);
    assert_eq!(w, Velocity { x: -5000, y: 1000, z: 0 });
    let u = jump_velocity(pos(100, 7, 9), pos(300, 7, 9), 2000);
    assert_eq!(u, Velocity { x: 5000, y: 2000, z: 0 });
}

#[test]
fn jump_on_the_target_goes_straight_up() {
    let v = jump_velocity(pos(1234, -50, 77), pos(1234, -50, 77), 3000);
    assert_eq!(v, Velocity { x: 0, y: 3000, z: 0 });
}

#[test]
fn jump_direction_is_normalised_in_three_dimensions() {
    let v = jump_velocity(pos(0, 0, 0), pos(3000, 0, 4000), 1000);
    assert_eq!(v, Velocity { x: 3000, y: 1000, z: 4000 });
    let w = jump_velocity(pos(0, 0, 0), pos(-3000, 0, -4000), 1000);
    assert_eq!(w, Velocity { x: -3000, y: 1000, z: -4000 });
    let u = jump_velocity(pos(0, 0, 0), pos(3000, 12_000, 4000), 1000);
    assert_eq!(u, Velocity { x: 1153, y: 1000, z: 1538 });
    let only_up = jump_velocity(pos(0, 0, 0), pos(0, 9000, 0), 1000);
    assert_eq!(only_up, Velocity { x: 0, y: 1000, z: 0 });
}

#[test]
fn diagonal_jumps_keep_to_the_speed_limit() {
    let v = jump_velocity(pos(0, 0, 0), pos(1, 0, 1), 1000);
    assert_eq!(v, Velocity { x: 3535, y: 1000, z: 3535 });
    let w = jump_velocity(pos(0, 0, 0), pos(1000, 0, -1000), 1000);
    assert_eq!(w, Velocity { x: 3535, y: 1000, z: -3535 });
    for (dx, dz) in [(1, 1), (2, 3), (-7, 5), (1000, 999), (-40_000, -1)] {
        let v = jump_velocity(pos(0, 0, 0), pos(dx, 0, dz), 1000);
        assert!(v.x * v.x + v.z * v.z <= MAX_SPEED * MAX_SPEED);
        assert!(v.x * dx >= 0 && v.z * dz >= 0);
    }
}

#[test]
fn cubes_jump_reports_which_cubes_jumped() {
    let mut rng = GlobalRng::with_seed(4);
    let target = pos(-20_000, 0, 0);
    let mut cubes = vec![
        cube_at(pos(0, 0, 0), TENTH, 1_000_000_000),
        cube_at(pos(0, 0, 0), 3 * TENTH, 1_000_000_000),
        cube_at(pos(0, 0, 0), 0, 1_000_000_000),
    ];
    let jumped = cubes_jump(&mut cubes, target, TENTH, &mut rng);
    assert_eq!(jumped, vec![true, false, false]);
    assert_eq!(cubes[1].velocity, Velocity { x: 1, y: 2, z: 3 });
    assert_eq!(cubes[2].velocity, Velocity { x: 1, y: 2, z: 3 });
    assert_eq!((cubes[0].velocity.x, cubes[0].velocity.z), (-MAX_SPEED, 0));
}

#[test]
fn cube_jump_uses_both_draws() {
    let mut cube = cube_at(pos(0, 0, 0), 0, 1_000_000_000);
    cube.jump(pos(-20_000, 0, 0), 0x8000_0000, 0);
    assert_eq!(cube.cooldown, JumpCooldown { remaining: 3_000_000_000, total: 3_000_000_000 });
    assert_eq!(cube.velocity, Velocity { x: -5000, y: 1000, z: 0 });
    assert_eq!(cube.position, pos(0, 0, 0));
}

#[test]
fn spawn_cubes_fills_the_grid() {
    let mut rng = GlobalRng::with_seed(9);
    let cubes = spawn_cubes(5, &mut rng);
    assert_eq!(cubes.len(), 125);
    assert_eq!(cubes[0].position, pos(0, 1000, 0));
    assert_eq!(cubes[1].position, pos(0, 1000, 1100));
    assert_eq!(cubes[5].position, pos(0, 2100, 0));
    assert_eq!(cubes[25].position, pos(1100, 1000, 0));
    assert_eq!(cubes[124].position, pos(4400, 5400, 4400));
    for c in &cubes {
        assert_eq!(c.velocity, Velocity { x: 0, y: 0, z: 0 });
        assert!(MIN_COOLDOWN <= c.cooldown.total && c.cooldown.total <= MAX_COOLDOWN);
        assert_eq!(c.cooldown.remaining, c.cooldown.total);
    }
}

#[test]
fn spawn_no_cubes() {
    let mut rng = GlobalRng::with_seed(1);
    assert!(spawn_cubes(0, &mut rng).is_empty());
}

#[test]
fn grid_cubes_jump_towards_the_target() {
    let mut rng = GlobalRng::with_seed(2);
    let target = pos(TARGET_X, TARGET_Y, TARGET_Z);
    let mut cubes = spawn_cubes(2, &mut rng);
    for _ in 0..60 {
        cubes_jump(&mut cubes, target, TENTH, &mut rng);
    }
    for c in &cubes {
        let v = c.velocity;
        assert!(v.x < 0 && v.x >= -MAX_SPEED);
        assert!(v.z <= 0 && v.z >= -MAX_SPEED);
        assert!(MIN_FORCE as i64 <= v.y && v.y <= MAX_FORCE as i64);
    }
}
