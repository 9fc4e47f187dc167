use castle_game::ai::{select_target, turret_solve, Melee, MeleeSystem, Turret, TurretSystem};
use castle_game::frame::run_frame;
use castle_game::geom::{BoundingBox, Point};
use castle_game::physics::{
    DeltaTime, Gravity, MaskId, ParticleSystem, PixelParticle, Velocity,
};
use castle_game::store::{Components, Store};
use castle_game::terrain::{MaskBuffer, Terrain, EMPTY_COLOR};
use castle_game::unit::{
    reduce_unit_health, Destination, Faction, Health, UnitFallSystem, UnitState, Walk,
    WalkSystem,
};

const SOLID: u32 = 0xFF112233;

fn unit_box() -> BoundingBox {
    BoundingBox::new(Point::new(0, 0), Point::new(2000, 2000))
}

fn terrain_with_row(w: usize, h: usize, row: usize) -> Terrain {
    let mut t = Terrain::new((w, h));
    let mut x = 0;
    while x < w {
        t.draw_pixel((x, row), SOLID);
        x += 1;
    }
    t
}

fn walker(x: i64, y: i64, speed: i64, dest: i64) -> Components {
    let mut c = Components::new();
    c.pos = Some(Point::new(x, y));
    c.walk = Some(Walk::new(unit_box(), speed));
    c.dest = Some(Destination(dest));
    c.state = Some(UnitState::Walk);
    c
}

#[test]
fn store_lookup_follows_liveness() {
    let mut store = Store::new();
    let mut c = Components::new();
    c.health = Some(Health(5000));
    let e = store.create_now(c);
    assert_eq!(store.get(e).unwrap().health, Some(Health(5000)));
    assert!(store.is_live(e));
}

#[test]
fn deleted_handle_reads_absent_after_barrier() {
    let mut store = Store::new();
    let mut c = Components::new();
    c.health = Some(Health(5000));
    let e = store.create_now(c);
    store.delete_later(e);
    // Until the barrier the entity is still observable.
    assert!(store.is_live(e));
    store.apply_deferred();
    assert!(!store.is_live(e));
    assert!(store.get(e).is_none());

    // The slot may be reused, under a fresh generation; the stale handle
    // still reads absent, never the new entity's data.
    let mut c2 = Components::new();
    c2.health = Some(Health(777));
    let e2 = store.create_now(c2);
    assert_eq!(e2.index, e.index);
    assert_ne!(e2.gen, e.gen);
    assert!(store.get(e).is_none());
    assert_eq!(store.get(e2).unwrap().health, Some(Health(777)));
}

#[test]
fn double_delete_is_idempotent() {
    let mut store = Store::new();
    let mut c = Components::new();
    c.health = Some(Health(5000));
    let e = store.create_now(c);
    let keep = store.create_now(Components::new());
    store.delete_later(e);
    store.delete_later(e);
    store.apply_deferred();
    assert!(store.get(e).is_none());
    assert!(store.is_live(keep));
}

#[test]
fn health_reduction_monotone_and_deletes_once() {
    let mut store = Store::new();
    let mut c = Components::new();
    c.health = Some(Health(10000));
    let e = store.create_now(c);

    let died = reduce_unit_health(&mut store, e, 3000);
    assert!(!died);
    assert_eq!(store.get(e).unwrap().health, Some(Health(7000)));
    assert_eq!(store.pending_delete.len(), 0);

    let died = reduce_unit_health(&mut store, e, 8000);
    assert!(died);
    assert_eq!(store.get(e).unwrap().health, Some(Health(-1000)));
    assert_eq!(store.pending_delete.len(), 1);

    store.apply_deferred();
    assert!(store.get(e).is_none());
}

#[test]
fn health_reduction_skips_entities_without_health() {
    let mut store = Store::new();
    let e = store.create_now(Components::new());
    let died = reduce_unit_health(&mut store, e, 3000);
    assert!(!died);
    assert_eq!(store.pending_delete.len(), 0);
}

#[test]
fn walker_advances_toward_destination() {
    let terrain = Terrain::new((100, 100));
    let mut store = Store::new();
    let e = store.create_now(walker(10000, 47000, 2000, 50000));
    let mut system = WalkSystem;
    system.run(DeltaTime::new(500), &terrain, &mut store);
    let c = store.get(e).unwrap();
    // speed 2 units/s for half a second: one unit to the right.
    assert_eq!(c.pos, Some(Point::new(11000, 47000)));
    assert_eq!(c.state, Some(UnitState::Walk));

    // Walking back when the destination lies to the left.
    let e2 = store.create_now(walker(10000, 47000, 2000, 0));
    system.run(DeltaTime::new(500), &terrain, &mut store);
    assert_eq!(store.get(e2).unwrap().pos, Some(Point::new(9000, 47000)));
}

#[test]
fn walker_blocked_at_head_height_starts_climbing() {
    let mut terrain = Terrain::new((100, 100));
    terrain.draw_pixel((10, 47), SOLID);
    let mut store = Store::new();
    let e = store.create_now(walker(10000, 47000, 2000, 50000));
    let mut system = WalkSystem;
    system.run(DeltaTime::new(500), &terrain, &mut store);
    let c = store.get(e).unwrap();
    assert_eq!(c.state, Some(UnitState::Climb));
    assert_eq!(c.pos, Some(Point::new(10000, 47000)));
}

#[test]
fn frozen_states_do_not_move() {
    let terrain = Terrain::new((100, 100));
    let mut store = Store::new();
    let mut c = walker(10000, 47000, 2000, 50000);
    c.state = Some(UnitState::Wait);
    let e = store.create_now(c);
    let mut system = WalkSystem;
    system.run(DeltaTime::new(500), &terrain, &mut store);
    assert_eq!(store.get(e).unwrap().pos, Some(Point::new(10000, 47000)));
}

#[test]
fn falling_unit_settles_on_the_surface() {
    let terrain = terrain_with_row(100, 100, 50);
    let mut store = Store::new();
    // Hanging in the air two units above rest: falls one unit per frame.
    let e = store.create_now(walker(10000, 46000, 0, 10000));
    let mut system = UnitFallSystem;
    system.run(&terrain, &mut store);
    assert_eq!(store.get(e).unwrap().pos, Some(Point::new(10000, 47000)));
    system.run(&terrain, &mut store);
    // At rest: the box's bottom row sits just above the solid row.
    assert_eq!(store.get(e).unwrap().pos, Some(Point::new(10000, 47000)));
}

#[test]
fn melee_pair_trades_damage_exactly_once() {
    let mut store = Store::new();
    let mut ally = Components::new();
    ally.pos = Some(Point::new(0, 0));
    ally.bb = Some(unit_box());
    ally.health = Some(Health(10000));
    ally.melee = Some(Melee::new(2000, 3000));
    ally.faction = Some(Faction::Ally);
    let a = store.create_now(ally);

    let mut enemy = Components::new();
    enemy.pos = Some(Point::new(1000, 0));
    enemy.bb = Some(unit_box());
    enemy.health = Some(Health(10000));
    enemy.melee = Some(Melee::new(1500, 4000));
    enemy.faction = Some(Faction::Enemy);
    let b = store.create_now(enemy);

    let mut system = MeleeSystem;
    system.run(DeltaTime::new(16), &mut store);

    let ca = store.get(a).unwrap();
    let cb = store.get(b).unwrap();
    // Each side struck exactly once and reset its own cooldown.
    assert_eq!(cb.health, Some(Health(8000)));
    assert_eq!(ca.health, Some(Health(8500)));
    assert_eq!(ca.melee.unwrap().cooldown, 3000);
    assert_eq!(cb.melee.unwrap().cooldown, 4000);
    // One blood particle per blow was queued.
    assert_eq!(store.pending_create.len(), 2);
    assert_eq!(store.pending_delete.len(), 0);
}

#[test]
fn melee_out_of_reach_only_no_exchange() {
    let mut store = Store::new();
    let mut ally = Components::new();
    ally.pos = Some(Point::new(0, 0));
    ally.bb = Some(unit_box());
    ally.health = Some(Health(10000));
    ally.melee = Some(Melee::new(2000, 3000));
    ally.faction = Some(Faction::Ally);
    let a = store.create_now(ally);

    let mut enemy = Components::new();
    enemy.pos = Some(Point::new(50000, 0));
    enemy.bb = Some(unit_box());
    enemy.health = Some(Health(10000));
    enemy.melee = Some(Melee::new(1500, 4000));
    enemy.faction = Some(Faction::Enemy);
    let b = store.create_now(enemy);

    let mut system = MeleeSystem;
    system.run(DeltaTime::new(16), &mut store);
    assert_eq!(store.get(a).unwrap().health, Some(Health(10000)));
    assert_eq!(store.get(b).unwrap().health, Some(Health(10000)));
    // Out of contact the cooldown does not even tick.
    assert_eq!(store.get(a).unwrap().melee.unwrap().cooldown, 0);
}

#[test]
fn turret_targets_the_nearest_predicted_candidate() {
    let mut store = Store::new();
    let mut near = Components::new();
    near.pos = Some(Point::new(5000, 0));
    near.walk = Some(Walk::new(unit_box(), 0));
    near.faction = Some(Faction::Ally);
    store.create_now(near);

    let mut far = Components::new();
    far.pos = Some(Point::new(10000, 0));
    far.walk = Some(Walk::new(unit_box(), 0));
    far.faction = Some(Faction::Ally);
    store.create_now(far);

    // Predicted distances 5 and 10: the distance-5 candidate wins.
    let picked = select_target(&store, Faction::Ally, Point::new(0, 0), 2000);
    assert_eq!(picked, (5000, 0));
}

#[test]
fn target_prediction_uses_walk_speed_times_flight_time() {
    let mut store = Store::new();
    let mut runner = Components::new();
    runner.pos = Some(Point::new(5000, 0));
    // 3 units/s over a 2 s flight: predicted 6 units ahead.
    runner.walk = Some(Walk::new(unit_box(), 3000));
    runner.faction = Some(Faction::Ally);
    store.create_now(runner);
    let picked = select_target(&store, Faction::Ally, Point::new(0, 0), 2000);
    assert_eq!(picked, (11000, 0));
}

#[test]
fn ballistic_solve_matches_the_closed_form() {
    // flight_time 2 s, delta (100, 0), gravity 98.1, no variation:
    // vx = 100/2 = 50, vy = (0 + 98.1/2 * 4) / 2 = 98.1.
    let v = turret_solve(100000, 0, 98100, 2000, 0, 0);
    assert_eq!(v, (50000, 98100));
}

#[test]
fn turret_fires_only_feasible_shots() {
    let dt = DeltaTime::new(16);
    let grav = Gravity(98100);

    let mut store = Store::new();
    let mut ally = Components::new();
    ally.pos = Some(Point::new(100000, 0));
    ally.walk = Some(Walk::new(unit_box(), 0));
    ally.faction = Some(Faction::Ally);
    store.create_now(ally);

    let mut tur = Components::new();
    tur.pos = Some(Point::new(0, 0));
    tur.faction = Some(Faction::Enemy);
    tur.bb = Some(unit_box());
    tur.damage = Some(castle_game::physics::Damage(1000));
    tur.mask = Some(MaskId(0));
    tur.sprite = Some(0);
    tur.turret = Some(Turret::new(5000, 210000, 0, 2000));
    let t = store.create_now(tur);

    let mut system = TurretSystem;
    system.run(dt, grav, &mut store);

    // |v| = sqrt(50^2 + 98.1^2) ~ 110.1 < 210: the turret fires.
    assert_eq!(store.pending_create.len(), 1);
    let proj = &store.pending_create[0];
    assert!(proj.projectile);
    assert_eq!(proj.vel, Some(Velocity::new(50000, 98100)));
    assert_eq!(proj.pos, Some(Point::new(0, 0)));
    assert_eq!(store.get(t).unwrap().turret.unwrap().delay_left, 5000);

    // The same shot against a 100-unit cap is held back, and the delay
    // stays expired so the turret retries at once.
    let mut store2 = Store::new();
    let mut ally2 = Components::new();
    ally2.pos = Some(Point::new(100000, 0));
    ally2.walk = Some(Walk::new(unit_box(), 0));
    ally2.faction = Some(Faction::Ally);
    store2.create_now(ally2);
    let mut tur2 = Components::new();
    tur2.pos = Some(Point::new(0, 0));
    tur2.faction = Some(Faction::Enemy);
    tur2.bb = Some(unit_box());
    tur2.damage = Some(castle_game::physics::Damage(1000));
    tur2.mask = Some(MaskId(0));
    tur2.sprite = Some(0);
    tur2.turret = Some(Turret::new(5000, 100000, 0, 2000));
    let t2 = store2.create_now(tur2);
    system.run(dt, grav, &mut store2);
    assert_eq!(store2.pending_create.len(), 0);
    assert_eq!(store2.get(t2).unwrap().turret.unwrap().delay_left, -16);
}

#[test]
fn projectile_craters_terrain_and_dies_in_the_frame() {
    let mut terrain = terrain_with_row(100, 100, 50);
    let masks = vec![MaskBuffer { cells: vec![EMPTY_COLOR], width: 1, height: 1 }];
    let mut store = Store::new();

    let mut proj = Components::new();
    proj.pos = Some(Point::new(10000, 48000));
    proj.vel = Some(Velocity::new(0, 5000));
    proj.projectile = true;
    proj.mask = Some(MaskId(0));
    let e = store.create_now(proj);

    run_frame(
        DeltaTime::new(1000),
        Gravity(0),
        &mut terrain,
        &masks,
        &mut store,
    );

    // Launched straight down at 5 units/s for one second, the projectile
    // crossed the solid row and is gone by the end of the frame.
    assert!(store.get(e).is_none());
    assert_eq!(store.pending_delete.len(), 0);
    // The crater erased the terrain cell at the impact coordinate.
    assert_eq!(terrain.buffer[50 * 100 + 10], EMPTY_COLOR);
    // Either side of the crater the row is still solid.
    assert_eq!(terrain.buffer[50 * 100 + 9], SOLID);
    assert_eq!(terrain.buffer[50 * 100 + 11], SOLID);
}

#[test]
fn particle_marks_terrain_where_it_lands() {
    let mut terrain = terrain_with_row(100, 100, 50);
    let mut store = Store::new();
    let mut par = Components::new();
    par.pos = Some(Point::new(10000, 48000));
    par.vel = Some(Velocity::new(0, 5000));
    par.particle = Some(PixelParticle::new(0xFF0000, 10000, Point::new(10000, 48000)));
    let e = store.create_now(par);

    let mut system = ParticleSystem;
    system.run(DeltaTime::new(1000), Gravity(0), &mut terrain, &mut store);

    // The particle crossed the solid row and left its color there.
    assert_eq!(terrain.buffer[50 * 100 + 10], 0xFF0000);
    assert_eq!(store.pending_delete.len(), 1);
    store.apply_deferred();
    assert!(store.get(e).is_none());
}

#[test]
fn particle_expires_by_lifetime() {
    let mut terrain = Terrain::new((100, 100));
    let mut store = Store::new();
    let mut par = Components::new();
    par.pos = Some(Point::new(10000, 10000));
    par.vel = Some(Velocity::new(0, 0));
    par.particle = Some(PixelParticle::new(0xFF0000, 500, Point::new(10000, 10000)));
    let e = store.create_now(par);

    let mut system = ParticleSystem;
    system.run(DeltaTime::new(1000), Gravity(0), &mut terrain, &mut store);
    // life 0.5 s minus a 1 s frame: expired without touching terrain.
    assert_eq!(store.pending_delete.len(), 1);
    store.apply_deferred();
    assert!(store.get(e).is_none());
}

#[test]
fn stock_turret_configuration() {
    let t = Turret::default();
    assert_eq!(t.delay, 5000);
    assert_eq!(t.max_strength, 210000);
    assert_eq!(t.flight_time, 3000);
    assert_eq!(t.strength_variation, 10000);
    assert_eq!(t.delay_left, 0);
}

#[test]
fn turret_idles_while_delay_is_positive() {
    let mut store = Store::new();
    let mut ally = Components::new();
    ally.pos = Some(Point::new(100000, 0));
    ally.walk = Some(Walk::new(unit_box(), 0));
    ally.faction = Some(Faction::Ally);
    store.create_now(ally);

    let mut tur = Components::new();
    tur.pos = Some(Point::new(0, 0));
    tur.faction = Some(Faction::Enemy);
    tur.bb = Some(unit_box());
    tur.damage = Some(castle_game::physics::Damage(1000));
    tur.mask = Some(MaskId(0));
    tur.sprite = Some(0);
    let mut t = Turret::new(5000, 210000, 0, 2000);
    t.delay_left = 3000;
    tur.turret = Some(t);
    let e = store.create_now(tur);

    let mut system = TurretSystem;
    system.run(DeltaTime::new(16), Gravity(98100), &mut store);
    // Still waiting: only the delay ticked, nothing was fired.
    assert_eq!(store.pending_create.len(), 0);
    assert_eq!(store.get(e).unwrap().turret.unwrap().delay_left, 2984);
}

#[test]
fn exempt_projectile_passes_through_terrain() {
    let mut terrain = terrain_with_row(100, 100, 50);
    let masks: Vec<MaskBuffer> = vec![];
    let mut store = Store::new();

    let mut proj = Components::new();
    proj.pos = Some(Point::new(10000, 48000));
    proj.vel = Some(Velocity::new(0, 5000));
    proj.projectile = true;
    proj.ignore_collision = true;
    let e = store.create_now(proj);

    run_frame(DeltaTime::new(1000), Gravity(0), &mut terrain, &masks, &mut store);

    // The flag exempts it from every collision check: it moved through
    // the solid row and survived the frame.
    let c = store.get(e).expect("projectile survives");
    assert_eq!(c.pos, Some(Point::new(10000, 53000)));
    assert_eq!(terrain.buffer[50 * 100 + 10], SOLID);
}

#[test]
fn gravity_integration_is_explicit_euler() {
    let mut terrain = Terrain::new((100, 100));
    let mut store = Store::new();
    let mut par = Components::new();
    par.pos = Some(Point::new(10000, 10000));
    par.vel = Some(Velocity::new(2000, 1000));
    par.particle = Some(PixelParticle::new(0xFF0000, 60000, Point::new(10000, 10000)));
    let e = store.create_now(par);

    let mut system = ParticleSystem;
    system.run(DeltaTime::new(500), Gravity(10000), &mut terrain, &mut store);

    let c = store.get(e).unwrap();
    // Position advances by the old velocity; only then gravity raises
    // the vertical velocity: p += v*dt, then v.y += g*dt.
    assert_eq!(c.pos, Some(Point::new(11000, 10500)));
    assert_eq!(c.vel, Some(Velocity::new(2000, 6000)));
}
