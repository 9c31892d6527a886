use invaders_core::{
    clamp_to, fire_from, integrate, placement, player_start, Craft, sine, spawn_hostile_at, spawn_span, travel_of,
    try_spawn_hostile, turn, FireGate, FixedStep, Input, Role, Side, Simulation, Transform,
    Velocity, World, WorldBounds, ENEMY_MAX, SPRITE_LAYER, SPRITE_SCALE_PCT,
};

fn bounds() -> WorldBounds {
    WorldBounds { width: 600, height: 400 }
}

fn at(x: i64, y: i64) -> Transform {
    Transform { x, y, z: SPRITE_LAYER, heading: 0, flipped: false, scale_pct: SPRITE_SCALE_PCT }
}

const IDLE: Input = Input { left: false, right: false, up: false };

#[test]
fn fixed_step_counts_whole_periods_and_carries_rest() {
    let mut s = FixedStep::new(1000);
    assert_eq!(s.advance(2500), 2);
    assert_eq!(s.accumulated, 500);
    assert_eq!(s.advance(499), 0);
    assert_eq!(s.accumulated, 999);
    assert_eq!(s.advance(1), 1);
    assert_eq!(s.accumulated, 0);
    assert_eq!(s.advance(0), 0);
}

#[test]
fn fixed_step_large_elapsed_does_not_overflow() {
    let mut s = FixedStep::new(3);
    s.advance(2);
    assert_eq!(s.advance(u64::MAX), (u64::MAX - 1) / 3 + 1);
    assert_eq!(s.accumulated, ((u64::MAX % 3) + 2) % 3);
}

#[test]
fn spawn_span_subtracts_margin() {
    assert_eq!(spawn_span(600), 200);
    assert_eq!(spawn_span(400), 100);
    assert_eq!(spawn_span(200), 0);
    assert_eq!(spawn_span(150), 0);
}

#[test]
fn spawn_stops_at_ceiling() {
    let mut count: u32 = 0;
    let a = spawn_hostile_at(&mut count, 2, 1, 2).unwrap();
    assert_eq!(a.role, Role::Hostile);
    assert_eq!(a.transform, at(1, 2));
    assert!(spawn_hostile_at(&mut count, 2, 3, 4).is_some());
    assert_eq!(count, 2);
    assert!(spawn_hostile_at(&mut count, 2, 5, 6).is_none());
    assert_eq!(count, 2);
}

#[test]
fn random_spawns_stay_in_area() {
    for _ in 0..2000 {
        let mut count: u32 = 0;
        let e = try_spawn_hostile(&mut count, ENEMY_MAX, bounds()).unwrap();
        assert_eq!(count, 1);
        assert!(e.transform.x.abs() <= 200);
        assert!(e.transform.y.abs() <= 100);
        assert_eq!(e.transform.z, 10);
        assert_eq!(e.role, Role::Hostile);
    }
}

#[test]
fn random_spawn_covers_area() {
    let mut seen_left = false;
    let mut seen_right = false;
    for _ in 0..2000 {
        let mut count: u32 = 0;
        let e = try_spawn_hostile(&mut count, 1, bounds()).unwrap();
        seen_left |= e.transform.x < 0;
        seen_right |= e.transform.x > 0;
    }
    assert!(seen_left && seen_right);
}

#[test]
fn degenerate_world_spawns_at_centre() {
    let mut count: u32 = 0;
    let e = try_spawn_hostile(&mut count, 1, WorldBounds { width: 100, height: 150 }).unwrap();
    assert_eq!((e.transform.x, e.transform.y), (0, 0));
    assert!(try_spawn_hostile(&mut count, 1, bounds()).is_none());
}

#[test]
fn fire_from_offsets_each_projectile() {
    let shots = fire_from(&vec![at(10, 20), at(-5, 30)]);
    assert_eq!(shots.len(), 2);
    assert_eq!((shots[0].transform.x, shots[0].transform.y), (10, 5));
    assert_eq!((shots[1].transform.x, shots[1].transform.y), (-5, 15));
    for p in &shots {
        assert_eq!(p.role, Role::Projectile);
        assert_eq!(p.origin, Some(Side::Hostile));
        assert_eq!(p.velocity, Some(Velocity { x: 0, y: -1 }));
        assert!(p.auto_expire);
        assert!(p.transform.flipped);
        assert_eq!(p.transform.z, 10);
    }
    assert!(fire_from(&vec![]).is_empty());
}

#[test]
fn end_to_end_population_and_fire() {
    let mut w = World::new(2, bounds());
    for expected in 0..2usize {
        let id = w.spawn_pass().unwrap();
        assert_eq!(id, expected);
        let t = w.get(id).unwrap().transform;
        assert!(t.x.abs() <= 200 && t.y.abs() <= 100);
    }
    assert_eq!(w.hostile_count(), 2);
    assert!(w.spawn_pass().is_none());
    assert_eq!(w.hostile_count(), 2);
    assert_eq!(w.len(), 2);

    let mut w = World::new(2, bounds());
    assert_eq!(w.spawn_at(10, 20), Some(0));
    assert_eq!(w.spawn_at(-5, 30), Some(1));
    assert_eq!(w.spawn_at(0, 0), None);
    assert_eq!(w.fire_pass(true), 2);
    assert_eq!(w.len(), 4);
    let a = w.get(2).unwrap();
    let b = w.get(3).unwrap();
    assert_eq!((a.transform.x, a.transform.y), (10, 5));
    assert_eq!((b.transform.x, b.transform.y), (-5, 15));
    for p in [a, b] {
        assert_eq!(p.role, Role::Projectile);
        assert_eq!(p.origin, Some(Side::Hostile));
        assert_eq!(p.velocity, Some(Velocity { x: 0, y: -1 }));
    }
    assert_eq!(w.hostile_count(), 2);
}

#[test]
fn failed_gate_fires_nothing() {
    let mut w = World::new(2, bounds());
    w.spawn_at(0, 0);
    assert_eq!(w.fire_pass(false), 0);
    assert_eq!(w.len(), 1);
    assert_eq!(w.fire_gated(&FireGate { numerator: 0, denominator: 5 }), 0);
    assert_eq!(w.fire_gated(&FireGate { numerator: 5, denominator: 5 }), 1);
    assert_eq!(w.len(), 2);
}

#[test]
fn destroy_frees_a_place_under_the_ceiling() {
    let mut w = World::new(1, bounds());
    assert_eq!(w.spawn_at(0, 0), Some(0));
    assert_eq!(w.spawn_at(1, 1), None);
    assert!(w.destroy(0));
    assert_eq!(w.hostile_count(), 0);
    assert!(w.get(0).is_none());
    assert!(!w.destroy(0));
    assert!(!w.destroy(7));
    assert_eq!(w.spawn_at(1, 1), Some(1));
    assert_eq!(w.hostile_count(), 1);
}

#[test]
fn destroying_a_projectile_keeps_the_count() {
    let mut w = World::new(1, bounds());
    w.spawn_at(0, 0);
    w.fire_pass(true);
    assert!(w.destroy(1));
    assert_eq!(w.hostile_count(), 1);
    assert_eq!(w.hostile_transforms(), vec![at(0, 0)]);
}

#[test]
fn gate_extremes() {
    let never = FireGate { numerator: 0, denominator: 60 };
    let always = FireGate { numerator: 60, denominator: 60 };
    for _ in 0..1000 {
        assert!(!never.trial());
        assert!(always.trial());
    }
}

#[test]
fn gate_frequency_matches_chance() {
    let gate = FireGate::standard();
    let mut passed: u32 = 0;
    for _ in 0..600_000 {
        if gate.trial() {
            passed += 1;
        }
    }
    assert!(passed > 9_500 && passed < 10_500, "passed {}", passed);
}

#[test]
fn sine_values() {
    assert_eq!(sine(0), 0);
    assert_eq!(sine(30), 500);
    assert_eq!(sine(90), 1000);
    assert_eq!(sine(180), 0);
    assert_eq!(sine(270), -1000);
    assert_eq!(sine(210), -500);
}

#[test]
fn travel_rounds_toward_zero() {
    assert_eq!(travel_of(1000, 1_000_000), 500_000);
    assert_eq!(travel_of(-500, 1_000_000), -250_000);
    assert_eq!(travel_of(1000, 16_667), 8_333);
    assert_eq!(travel_of(1, 1_000), 0);
    assert_eq!(travel_of(-1, 1_000), 0);
}

#[test]
fn clamp_holds_to_limit() {
    assert_eq!(clamp_to(250, 200), 200);
    assert_eq!(clamp_to(-250, 200), -200);
    assert_eq!(clamp_to(7, 200), 7);
}

#[test]
fn turning() {
    let left = Input { left: true, right: false, up: false };
    let right = Input { left: false, right: true, up: false };
    let both = Input { left: true, right: true, up: false };
    assert_eq!(turn(0, left, 1_000_000), 180);
    assert_eq!(turn(0, right, 500_000), 270);
    assert_eq!(turn(350, left, 100_000), 8);
    assert_eq!(turn(45, both, 1_000_000), 45);
    assert_eq!(turn(45, IDLE, 1_000_000), 45);
}

#[test]
fn idle_step_keeps_craft() {
    let start = Craft { x: 120_000, y: -80_000, heading: 33 };
    let mut c = start;
    integrate(&mut c, IDLE, 16_667, bounds());
    assert_eq!(c, start);
}

#[test]
fn forward_step_stops_at_edge() {
    let up = Input { left: false, right: false, up: true };
    let mut c = Craft { x: 0, y: 150_000, heading: 0 };
    integrate(&mut c, up, 1_000_000, bounds());
    assert_eq!((c.x, c.y), (0, 200_000));
    integrate(&mut c, up, 1_000_000, bounds());
    assert_eq!(c.y, 200_000);

    let mut c = Craft { x: 0, y: 0, heading: 0 };
    integrate(&mut c, up, 100_000, bounds());
    assert_eq!((c.x, c.y), (0, 50_000));

    let mut c = Craft { x: -250_000, y: 0, heading: 90 };
    integrate(&mut c, up, 1_000_000, bounds());
    assert_eq!((c.x, c.y), (-300_000, 0));
}

#[test]
fn slanted_step_keeps_sideways_motion() {
    let up = Input { left: false, right: false, up: true };
    let mut c = Craft { x: 0, y: 0, heading: 1 };
    integrate(&mut c, up, 16_667, bounds());
    assert_eq!((c.x, c.y), (-141, 8_325));
}

#[test]
fn opposite_keys_cancel_turning() {
    let mut c = Craft { x: 0, y: 0, heading: 77 };
    integrate(&mut c, Input { left: true, right: true, up: false }, 1_000_000, bounds());
    assert_eq!(c, Craft { x: 0, y: 0, heading: 77 });
}

#[test]
fn placement_rounds_to_nearest_unit() {
    let t = placement(&Craft { x: 1_500, y: -1_500, heading: 10 });
    assert_eq!((t.x, t.y, t.z, t.heading), (2, -2, 10, 10));
    assert!(!t.flipped);
    let t = placement(&Craft { x: 499, y: -499, heading: 0 });
    assert_eq!((t.x, t.y), (0, 0));
    let t = placement(&Craft { x: 1_499, y: -2_500, heading: 0 });
    assert_eq!((t.x, t.y), (1, -3));
}

#[test]
fn player_starts_near_bottom() {
    let c = player_start(bounds());
    assert_eq!(c, Craft { x: 0, y: -176_250, heading: 0 });
    let window = WorldBounds { width: 598, height: 676 };
    let c = player_start(window);
    assert_eq!(c.y, -314_250);
    assert_eq!(placement(&c).y, -314);
    let tiny = player_start(WorldBounds { width: 10, height: 10 });
    assert_eq!(tiny.y, 5_000);
}

#[test]
fn simulation_update_runs_the_passes_in_order() {
    let quiet = FireGate { numerator: 0, denominator: 60 };
    let mut s = Simulation::new(2, bounds(), quiet);
    assert_eq!(s.player, player_start(bounds()));
    assert_eq!(s.update(3_500_000, IDLE), 0);
    assert_eq!(s.world.hostile_count(), 2);
    assert_eq!(s.world.len(), 2);
    assert_eq!(s.spawn_clock.accumulated, 500_000);
    assert_eq!(s.player, player_start(bounds()));

    let mut s = Simulation::new(2, bounds(), FireGate { numerator: 1, denominator: 1 });
    assert_eq!(s.update(1_000_000, IDLE), 1);
    assert_eq!(s.world.len(), 2);
    assert_eq!(s.world.get(0).unwrap().role, Role::Hostile);
    assert_eq!(s.world.get(1).unwrap().role, Role::Projectile);
    let up = Input { left: false, right: false, up: true };
    s.update(2 * 16_667, up);
    assert_eq!(s.player.y, -176_250 + 2 * 8_333);
}

#[test]
fn one_microsecond_completes_a_spawn_step() {
    let mut s = Simulation::new(2, bounds(), FireGate { numerator: 0, denominator: 1 });
    assert_eq!(s.update(999_999, IDLE), 0);
    assert_eq!(s.world.len(), 0);
    assert_eq!(s.update(1, IDLE), 0);
    assert_eq!(s.world.hostile_count(), 1);
    assert_eq!(s.world.len(), 1);
    assert_eq!(s.move_clock.accumulated, 1_000_000 % 16_667);
}

#[test]
fn insert_and_filter_by_role() {
    let mut w = World::new(2, bounds());
    w.spawn_at(1, 1);
    let shot = fire_from(&vec![at(0, 0)]).pop().unwrap();
    assert_eq!(w.insert(shot), 1);
    w.spawn_at(2, 2);
    assert_eq!(w.insert(shot), 3);
    assert_eq!(w.hostile_count(), 2);
    assert_eq!(w.ids_with_role(Role::Hostile), vec![0, 2]);
    assert_eq!(w.ids_with_role(Role::Projectile), vec![1, 3]);
    assert!(w.ids_with_role(Role::PlayerControlled).is_empty());
    w.destroy(2);
    assert_eq!(w.ids_with_role(Role::Hostile), vec![0]);
    assert_eq!(w.ceiling(), 2);
    assert_eq!(w.bounds(), bounds());
}
