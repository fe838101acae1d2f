//! The world, the scheduler and the solvers on concrete scenes.

use xpbd2d::{
    Body, BoxCollider, CircleCollider, DynamicBoxBundle, Fx, Gravity, Mass, ParticleBundle,
    Restitution, Rot, StaticBoxBundle, StaticCircleBundle, Vec2, World, DELTA_TIME, FX_ONE,
    NUM_SUBSTEPS, SUB_DT,
};

fn fx(millionths: i64) -> Fx {
    Fx::from_raw(millionths)
}

fn v(x: i64, y: i64) -> Vec2 {
    Vec2::new(fx(x), fx(y))
}

fn particle_at(world: &mut World, x: i64, y: i64, vx: i64, vy: i64) -> usize {
    world.push_body(Body::from_particle(ParticleBundle::new_with_pos_and_vel(
        v(x, y),
        v(vx, vy),
    )))
}

fn static_circle_at(world: &mut World, x: i64, y: i64) -> usize {
    world.push_body(Body::from_static_circle(StaticCircleBundle {
        pos: xpbd2d::Pos(v(x, y)),
        rot: Rot::identity(),
        collider: CircleCollider { radius: fx(500_000) },
        restitution: Restitution(fx(300_000)),
    }))
}

#[test]
fn defaults_match_configuration() {
    assert_eq!(Mass::default().0.raw(), FX_ONE);
    assert_eq!(CircleCollider::default().radius.raw(), 500_000);
    assert_eq!(BoxCollider::default().size.x.raw(), FX_ONE);
    assert_eq!(Restitution::default().0.raw(), 300_000);
    assert_eq!(Gravity::default().0.y.raw(), -9_810_000);
    assert_eq!(Gravity::default().0.x.raw(), 0);
    assert_eq!(DELTA_TIME, NUM_SUBSTEPS as i64 * SUB_DT);
}

#[test]
fn particle_bundle_back_projects_previous_position() {
    let bundle = ParticleBundle::new_with_pos_and_vel(v(0, 0), v(1_000_000, 0));
    assert_eq!(bundle.prev_pos.0.x.raw(), -SUB_DT);
    assert_eq!(bundle.prev_pos.0.y.raw(), 0);
}

#[test]
fn box_inertia_formula_exact() {
    // A unit square of unit mass: 12 / (1 + 1) = 6.
    let collider = BoxCollider { size: v(FX_ONE, FX_ONE) };
    assert_eq!(collider.inertia_inv_from_mass_inv(fx(FX_ONE)).raw(), 6_000_000);
}

#[test]
fn aabb_overlap_boundary() {
    let a = xpbd2d::Aabb { min: v(0, 0), max: v(1_000_000, 1_000_000) };
    let touching = xpbd2d::Aabb { min: v(1_000_000, 0), max: v(2_000_000, 1_000_000) };
    let apart = xpbd2d::Aabb { min: v(1_000_001, 0), max: v(2_000_000, 1_000_000) };
    assert!(a.intersects(&touching));
    assert!(!a.intersects(&apart));
}

#[test]
fn accumulator_drains_whole_frames() {
    let mut world = World::new();
    world.tick(fx(10_000));
    assert_eq!(world.substep_count, 0);
    assert_eq!(world.loop_state.accumulator.raw(), 10_000);
    world.tick(fx(10_000));
    // 20000 microseconds of time holds one whole frame of 16670.
    assert_eq!(world.substep_count, NUM_SUBSTEPS as u64);
    assert_eq!(world.loop_state.accumulator.raw(), 20_000 - DELTA_TIME);
    world.tick(fx(3 * DELTA_TIME));
    assert_eq!(world.substep_count, 4 * NUM_SUBSTEPS as u64);
    assert_eq!(world.loop_state.accumulator.raw(), 20_000 - DELTA_TIME);
}

#[test]
fn paused_scheduler_runs_nothing() {
    let mut world = World::new();
    world.pause();
    world.tick(fx(10 * DELTA_TIME));
    assert_eq!(world.substep_count, 0);
    assert_eq!(world.loop_state.accumulator.raw(), 0);
}

#[test]
fn manual_step_honored_while_paused() {
    let mut world = World::new();
    world.pause();
    world.step();
    world.tick(fx(0));
    assert_eq!(world.substep_count, NUM_SUBSTEPS as u64);
    assert!(world.loop_state.paused);
    // The queue is consumed: the next tick runs nothing further.
    world.tick(fx(0));
    assert_eq!(world.substep_count, NUM_SUBSTEPS as u64);
}

#[test]
fn resume_continues_from_empty_accumulator() {
    let mut world = World::new();
    world.pause();
    world.tick(fx(10 * DELTA_TIME));
    world.resume();
    world.tick(fx(DELTA_TIME));
    assert_eq!(world.substep_count, NUM_SUBSTEPS as u64);
}

#[test]
fn gravity_pulls_dynamic_body_down() {
    let mut world = World::new();
    let body = particle_at(&mut world, 0, 0, 0, 0);
    world.tick(fx(DELTA_TIME));
    assert!(world.bodies[body].pos.0.y.raw() < 0);
    assert!(world.bodies[body].vel.0.y.raw() < 0);
    assert_eq!(world.bodies[body].pos.0.x.raw(), 0);
}

#[test]
fn static_body_never_moves() {
    let mut world = World::new();
    // A dynamic particle dropped straight onto a static circle.
    let dynamic = particle_at(&mut world, 0, 900_000, 0, -500_000);
    let fixed = static_circle_at(&mut world, 0, 0);
    let before = world.bodies[fixed];
    for _ in 0..60 {
        world.tick(fx(DELTA_TIME));
    }
    let after = world.bodies[fixed];
    assert_eq!(after.pos.0.x.raw(), before.pos.0.x.raw());
    assert_eq!(after.pos.0.y.raw(), before.pos.0.y.raw());
    assert_eq!(after.rot.cos().raw(), before.rot.cos().raw());
    assert_eq!(after.rot.sin().raw(), before.rot.sin().raw());
    assert_eq!(after.vel.0.x.raw(), 0);
    assert_eq!(after.vel.0.y.raw(), 0);
    // The dynamic body was kept out of the static one.
    assert!(world.bodies[dynamic].pos.0.y.raw() > 0);
}

#[test]
fn restitution_never_amplifies_approach_speed() {
    let mut world = World::new();
    // Two equal particles closing head on; restitution defaults to 0.3.
    let left = particle_at(&mut world, -600_000, 0, 2_000_000, 0);
    let right = particle_at(&mut world, 600_000, 0, -2_000_000, 0);
    let approach = world.bodies[left].vel.0.x.raw() - world.bodies[right].vel.0.x.raw();
    for _ in 0..30 {
        world.tick(fx(DELTA_TIME));
    }
    let separation = world.bodies[right].vel.0.x.raw() - world.bodies[left].vel.0.x.raw();
    assert!(world.bodies[left].vel.0.x.raw() <= 0);
    assert!(world.bodies[right].vel.0.x.raw() >= 0);
    // Never more separating speed than restitution times the approach speed,
    // up to solver truncation.
    assert!(separation <= 300_000 * approach / 1_000_000 + 10);
}

#[test]
fn transforms_written_once_per_frame() {
    let mut world = World::new();
    particle_at(&mut world, 250_000, 0, 0, 0);
    world.tick(fx(1_000));
    // No frame has elapsed: the sync boundary has not run.
    assert_eq!(world.transforms.len(), 0);
    world.tick(fx(DELTA_TIME));
    assert_eq!(world.transforms.len(), 1);
    assert_eq!(world.transforms[0].translation.x.raw(), world.bodies[0].pos.0.x.raw());
    assert_eq!(world.transforms[0].rotation.cos().raw(), world.bodies[0].rot.cos().raw());
}

#[test]
fn dynamic_box_rests_on_static_box() {
    let mut world = World::new();
    let falling = world.push_body(Body::from_dynamic_box(
        DynamicBoxBundle::new_with_pos_and_vel_and_rot_and_ang_vel(
            v(0, 1_200_000),
            v(0, 0),
            Rot::identity(),
            fx(0),
        ),
    ));
    world.push_body(Body::from_static_box(StaticBoxBundle {
        pos: xpbd2d::Pos(v(0, 0)),
        rot: Rot::identity(),
        collider: BoxCollider { size: v(4_000_000, 1_000_000) },
        restitution: Restitution(fx(0)),
    }));
    for _ in 0..120 {
        world.tick(fx(DELTA_TIME));
    }
    // The box fell and came to rest near the platform surface instead of
    // passing through: centers half a height plus half a side apart.
    let y = world.bodies[falling].pos.0.y.raw();
    assert!(y > 900_000, "box fell through: y = {}", y);
    assert!(y < 1_100_000, "box did not settle: y = {}", y);
}

#[test]
fn colliding_particles_exchange_momentum() {
    let mut world = World::new();
    // The heavier particle keeps more of its direction after the hit.
    let heavy = world.push_body({
        let mut b = Body::from_particle(ParticleBundle::new_with_pos_and_vel(
            v(-2_000_000, 0),
            v(2_000_000, 0),
        ));
        b.inv_mass = Fx::one().div(fx(3_000_000));
        b
    });
    let light = particle_at(&mut world, 2_000_000, 0, -2_000_000, 0);
    for _ in 0..90 {
        world.tick(fx(DELTA_TIME));
    }
    // After the collision the light particle moves right faster than the
    // heavy one, and the pair separates.
    assert!(world.bodies[light].vel.0.x.raw() > world.bodies[heavy].vel.0.x.raw());
    assert!(world.bodies[light].pos.0.x.raw() > world.bodies[heavy].pos.0.x.raw());
}
