use arcade_sim::components::{
    Acceleration, Collision, CollisionDamage, CollisionEvent, CollisionType, Contact, Entity,
    Health, Marker, MovingObjectBundle, Roll, Rotation, Transform, Velocity,
};
use arcade_sim::despawn::DESPAWN_DISTANCE;
use arcade_sim::frame::run_frame;
use arcade_sim::geometry::{advance, advance_angle, distance_squared, Vec3, FULL_TURN, NANOS_PER_UNIT, POSITION_LIMIT};
use arcade_sim::ship::{Controls, HEADING_SCALE, MISSILE_RADIUS, SPACESHIP_SPEED, STARTING_Z};
use arcade_sim::spawning::{
    scale_direction, SpawnTimer, DIRECTION_SCALE, ROCK_HEALTH, ROCK_RANGE_X, ROCK_RANGE_Z,
    ROCK_SPAWN_TIME_MS,
};
use arcade_sim::state::{GameState, GameStates};
use arcade_sim::world::World;

const U: i64 = NANOS_PER_UNIT;

fn bundle(at: Vec3, radius: i64, kind: CollisionType) -> MovingObjectBundle {
    MovingObjectBundle {
        velocity: Velocity::new(Vec3::zero()),
        rotation: Rotation::new(0),
        roll: Roll::new(0),
        acceleration: Acceleration::new(Vec3::zero()),
        collision: Collision::new(radius, kind),
        transform: Transform::from_translation(at),
    }
}

fn no_keys() -> Controls {
    Controls {
        forward: false,
        backward: false,
        turn_left: false,
        turn_right: false,
        roll_left: false,
        roll_right: false,
        shield: false,
        fire_just_pressed: false,
        pause_just_pressed: false,
    }
}

fn health_of(w: &World, id: u64) -> Option<i64> {
    let p = w.index_of(id)?;
    w.entities[p].health.map(|h| h.value)
}

fn contact_of(w: &World, id: u64) -> Option<Contact> {
    let p = w.index_of(id).unwrap();
    w.entities[p].collision.unwrap().collisions
}

#[test]
fn missile_hits_rock_once() {
    let mut w = World::new();
    let missile = w.spawn(
        bundle(Vec3::new(0, 0, 0), U, CollisionType::Missile),
        Marker::SpaceshipMissile,
        Health::new(10),
        CollisionDamage::new(10),
    );
    let rock = w.spawn(
        bundle(Vec3::new(U, 0, 0), U, CollisionType::Rock),
        Marker::Rock,
        Health::new(30),
        CollisionDamage::new(10),
    );
    w.check_collisions();
    assert_eq!(contact_of(&w, missile), Some(Contact { other: rock, other_type: CollisionType::Rock }));
    assert_eq!(contact_of(&w, rock), Some(Contact { other: missile, other_type: CollisionType::Missile }));
    let events = w.handle_collisions(Marker::Rock);
    assert_eq!(events, vec![CollisionEvent::new(rock, missile, CollisionType::Missile)]);
    w.apply_collision_damage(&events);
    assert_eq!(health_of(&w, rock), Some(20));
    assert_eq!(health_of(&w, missile), Some(10));
}

#[test]
fn far_entity_without_health_is_removed() {
    let mut w = World { entities: vec![Entity::bare(0, Transform::from_translation(Vec3::new(0, 0, 200 * U)))], next_id: 1 };
    w.despawn_stage();
    assert_eq!(w.len(), 0);
}

#[test]
fn touching_volumes_do_not_overlap() {
    let mut w = World::new();
    let a = w.spawn(bundle(Vec3::new(0, 0, 0), U, CollisionType::Rock), Marker::Rock, Health::new(30), CollisionDamage::new(10));
    let b = w.spawn(bundle(Vec3::new(2 * U, 0, 0), U, CollisionType::Rock), Marker::Rock, Health::new(30), CollisionDamage::new(10));
    w.check_collisions();
    assert_eq!(contact_of(&w, a), None);
    assert_eq!(contact_of(&w, b), None);
}

#[test]
fn last_overlap_in_scan_order_wins() {
    let mut w = World::new();
    let a = w.spawn(bundle(Vec3::new(0, 0, 0), U, CollisionType::Spaceship), Marker::Spaceship, Health::new(100), CollisionDamage::new(10));
    let _b = w.spawn(bundle(Vec3::new(U, 0, 0), U, CollisionType::Rock), Marker::Rock, Health::new(30), CollisionDamage::new(10));
    let c = w.spawn(bundle(Vec3::new(-U, 0, 0), U, CollisionType::Missile), Marker::SpaceshipMissile, Health::new(10), CollisionDamage::new(10));
    w.check_collisions();
    assert_eq!(contact_of(&w, a), Some(Contact { other: c, other_type: CollisionType::Missile }));
}

#[test]
fn stale_collisions_are_cleared() {
    let mut w = World::new();
    let a = w.spawn(bundle(Vec3::new(0, 0, 0), U, CollisionType::Rock), Marker::Rock, Health::new(30), CollisionDamage::new(10));
    let b = w.spawn(bundle(Vec3::new(U, 0, 0), U, CollisionType::Rock), Marker::Rock, Health::new(30), CollisionDamage::new(10));
    w.check_collisions();
    assert!(contact_of(&w, a).is_some());
    let p = w.index_of(b).unwrap();
    w.entities[p].transform.translation = Vec3::new(50 * U, 0, 0);
    w.check_collisions();
    assert_eq!(contact_of(&w, a), None);
    assert_eq!(contact_of(&w, b), None);
}

#[test]
fn partners_do_not_depend_on_earlier_results() {
    let mut w = World::new();
    let a = w.spawn(bundle(Vec3::new(0, 0, 0), U, CollisionType::Rock), Marker::Rock, Health::new(30), CollisionDamage::new(10));
    let b = w.spawn(bundle(Vec3::new(5 * U, 0, 0), U, CollisionType::Rock), Marker::Rock, Health::new(30), CollisionDamage::new(10));
    let mut stale = World { entities: w.entities.clone(), next_id: w.next_id };
    let mut c = stale.entities[0].collision.unwrap();
    c.collisions = Some(Contact { other: b, other_type: CollisionType::Missile });
    stale.entities[0].collision = Some(c);
    w.check_collisions();
    stale.check_collisions();
    assert_eq!(w.entities, stale.entities);
    assert_eq!(contact_of(&stale, a), None);
}

#[test]
fn damage_sums_over_events() {
    let mut w = World::new();
    let rock = w.spawn(bundle(Vec3::new(0, 0, 0), U, CollisionType::Rock), Marker::Rock, Health::new(30), CollisionDamage::new(7));
    let ev = CollisionEvent::new(rock, 99, CollisionType::Missile);
    let other = CollisionEvent::new(42, rock, CollisionType::Rock);
    w.apply_collision_damage(&vec![ev, other, ev, ev]);
    assert_eq!(health_of(&w, rock), Some(9));
    w.apply_collision_damage(&vec![ev, ev]);
    assert_eq!(health_of(&w, rock), Some(-5));
}

#[test]
fn damage_needs_health_and_damage() {
    let mut w = World { entities: vec![Entity::bare(3, Transform::from_translation(Vec3::zero()))], next_id: 4 };
    w.entities[0].health = Some(Health::new(5));
    w.apply_collision_damage(&vec![CollisionEvent::new(3, 1, CollisionType::Rock)]);
    assert_eq!(health_of(&w, 3), Some(5));
}

#[test]
fn dead_entities_are_removed() {
    let mut w = World::new();
    let a = w.spawn(bundle(Vec3::new(0, 0, 0), U, CollisionType::Rock), Marker::Rock, Health::new(0), CollisionDamage::new(10));
    let b = w.spawn(bundle(Vec3::new(0, 0, 10 * U), U, CollisionType::Rock), Marker::Rock, Health::new(1), CollisionDamage::new(10));
    let c = w.spawn(bundle(Vec3::new(0, 0, 20 * U), U, CollisionType::Rock), Marker::Rock, Health::new(-4), CollisionDamage::new(10));
    w.despawn_dead_entities();
    assert_eq!(w.index_of(a), None);
    assert!(w.index_of(b).is_some());
    assert_eq!(w.index_of(c), None);
}

#[test]
fn despawn_radius_is_strict() {
    let mut w = World::new();
    let on = w.spawn(bundle(Vec3::new(DESPAWN_DISTANCE, 0, 0), U, CollisionType::Rock), Marker::Rock, Health::new(30), CollisionDamage::new(10));
    let past = w.spawn(bundle(Vec3::new(0, -DESPAWN_DISTANCE - 1, 0), U, CollisionType::Rock), Marker::Rock, Health::new(30), CollisionDamage::new(10));
    let diagonal = w.spawn(bundle(Vec3::new(80 * U, 0, 80 * U), U, CollisionType::Rock), Marker::Rock, Health::new(30), CollisionDamage::new(10));
    w.despawn_entities();
    assert!(w.index_of(on).is_some());
    assert_eq!(w.index_of(past), None);
    assert_eq!(w.index_of(diagonal), None);
}

#[test]
fn kinematics_integrate_exactly() {
    let mut w = World::new();
    let mut b = bundle(Vec3::new(0, 0, 0), U, CollisionType::Rock);
    b.velocity = Velocity::new(Vec3::new(1_000_000, 0, -2_000_000));
    b.acceleration = Acceleration::new(Vec3::new(0, 0, 1_000));
    b.rotation = Rotation::new(1000);
    let id = w.spawn(b, Marker::Rock, Health::new(30), CollisionDamage::new(10));
    w.update_velocity(500);
    w.update_positions(500);
    let e = w.entities[w.index_of(id).unwrap()];
    assert_eq!(e.velocity.unwrap().value, Vec3::new(1_000_000, 0, -1_500_000));
    assert_eq!(e.transform.translation, Vec3::new(500_000_000, 0, -750_000_000));
    assert_eq!(e.transform.yaw, 500_000);
    w.rotate_rocks(100);
    let e = w.entities[w.index_of(id).unwrap()];
    assert_eq!(e.transform.roll, 250_000);
}

#[test]
fn positions_saturate_at_limit() {
    let r = advance(Vec3::new(POSITION_LIMIT - 1, 0, 0), Vec3::new(1_000_000, 0, -5), 1000, POSITION_LIMIT);
    assert_eq!(r, Vec3::new(POSITION_LIMIT, 0, -5000));
}

#[test]
fn angles_wrap_both_ways() {
    assert_eq!(advance_angle(FULL_TURN - 1, 1, 3), 2);
    assert_eq!(advance_angle(0, -1, 3), FULL_TURN - 3);
    assert_eq!(advance_angle(5, -1, 5), 0);
}

#[test]
fn squared_distance_is_exact() {
    assert_eq!(distance_squared(Vec3::new(1, 2, 3), Vec3::new(4, 6, 3)), 25);
}

#[test]
fn directions_scale_to_length() {
    assert_eq!(scale_direction(3, 4, 5_000_000), Vec3::new(3_000_000, 0, 4_000_000));
    assert_eq!(scale_direction(-3, -4, 5), Vec3::new(-3, 0, -4));
    assert_eq!(scale_direction(0, 0, 5), Vec3::zero());
    assert_eq!(scale_direction(1, 1, 1000), Vec3::new(707, 0, 707));
    assert_eq!(scale_direction(1, 1, 5_000_000), Vec3::new(3_535_533, 0, 3_535_533));
    assert_eq!(scale_direction(-1000, 1, 1000), Vec3::new(-999, 0, 0));
    for (dx, dz) in [(1, 1), (1, 2), (-7, 3), (999, -998), (-1000, -1000), (0, -5)] {
        let v = scale_direction(dx, dz, 5_000_000);
        let len2 = (v.x as i128) * (v.x as i128) + (v.z as i128) * (v.z as i128);
        assert!(len2 <= 5_000_000i128 * 5_000_000);
        assert!(len2 >= 4_999_998i128 * 4_999_998);
        assert_eq!(v.y, 0);
    }
    assert_eq!(scale_direction(10, 0, 1000), Vec3::new(1000, 0, 0));
}

#[test]
fn timer_fires_and_keeps_remainder() {
    let mut t = SpawnTimer::new(1000);
    assert!(!t.tick(600));
    assert!(t.tick(600));
    assert_eq!(t.elapsed_ms, 200);
    assert!(t.tick(2800));
    assert_eq!(t.elapsed_ms, 0);
}

#[test]
fn rocks_spawn_in_the_spawn_area() {
    let mut w = World::new();
    let mut t = SpawnTimer::new(ROCK_SPAWN_TIME_MS);
    assert_eq!(w.spawn_rock(&mut t, 10), None);
    assert_eq!(w.len(), 0);
    let mut xs = Vec::new();
    for _ in 0..20 {
        let id = w.spawn_rock(&mut t, 1000).unwrap();
        let e = w.entities[w.index_of(id).unwrap()];
        let p = e.transform.translation;
        assert!(-ROCK_RANGE_X <= p.x && p.x < ROCK_RANGE_X);
        assert!(0 <= p.z && p.z < ROCK_RANGE_Z);
        assert_eq!(p.y, 0);
        assert_eq!(e.health, Some(Health::new(ROCK_HEALTH)));
        let v = e.velocity.unwrap().value;
        let speed2 = (v.x as i128) * (v.x as i128) + (v.z as i128) * (v.z as i128);
        assert!(speed2 == 0 || (4_999_998i128 * 4_999_998 <= speed2 && speed2 <= 5_000_000i128 * 5_000_000));
        assert_eq!(v.y, 0);
        let a = e.acceleration.unwrap().value;
        assert!(a.x.abs() <= DIRECTION_SCALE && a.z.abs() <= DIRECTION_SCALE);
        xs.push(p.x);
    }
    assert!(xs.iter().any(|x| *x != xs[0]));
    assert!(xs.iter().any(|x| *x != -ROCK_RANGE_X));
}

#[test]
fn ship_steers_along_heading() {
    let mut w = World::new();
    let ship = w.spawn_spaceship();
    let mut c = no_keys();
    c.forward = true;
    c.backward = true;
    c.turn_right = true;
    c.roll_left = true;
    w.spaceship_movement_controls(c, Vec3::new(0, 0, HEADING_SCALE));
    let e = w.entities[w.index_of(ship).unwrap()];
    assert_eq!(e.velocity.unwrap().value, Vec3::new(0, 0, -SPACESHIP_SPEED * HEADING_SCALE));
    assert_eq!(e.rotation.unwrap().value, -2500);
    assert_eq!(e.roll.unwrap().value, 2500);
    assert_eq!(e.transform.translation, Vec3::new(0, 0, STARTING_Z));
}

#[test]
fn fire_spawns_missile_ahead() {
    let mut w = World::new();
    w.spawn_spaceship();
    let mut c = no_keys();
    assert_eq!(w.spaceship_weapon_controls(c, Vec3::new(0, 0, HEADING_SCALE)), None);
    c.fire_just_pressed = true;
    let id = w.spaceship_weapon_controls(c, Vec3::new(0, 0, HEADING_SCALE)).unwrap();
    let m = w.entities[w.index_of(id).unwrap()];
    assert_eq!(m.transform.translation, Vec3::new(0, 0, STARTING_Z + 10 * U));
    assert_eq!(m.velocity.unwrap().value, Vec3::new(0, 0, 40_000_000));
    assert_eq!(m.collision.unwrap().radius, MISSILE_RADIUS);
    assert_eq!(m.marker, Some(Marker::SpaceshipMissile));
}

#[test]
fn controls_need_exactly_one_ship() {
    let mut w = World::new();
    let mut c = no_keys();
    c.fire_just_pressed = true;
    c.shield = true;
    assert_eq!(w.spaceship_weapon_controls(c, Vec3::zero()), None);
    let a = w.spawn_spaceship();
    w.spawn_spaceship();
    assert_eq!(w.single_ship(), None);
    assert_eq!(w.spaceship_weapon_controls(c, Vec3::zero()), None);
    w.spaceship_shield_controls(c);
    assert!(!w.entities[w.index_of(a).unwrap()].shielded);
}

#[test]
fn shield_key_raises_shield() {
    let mut w = World::new();
    let a = w.spawn_spaceship();
    let mut c = no_keys();
    w.spaceship_shield_controls(c);
    assert!(!w.entities[w.index_of(a).unwrap()].shielded);
    c.shield = true;
    w.spaceship_shield_controls(c);
    assert!(w.entities[w.index_of(a).unwrap()].shielded);
}

#[test]
fn pause_freezes_the_world() {
    let mut w = World::new();
    let mut b = bundle(Vec3::new(0, 0, 0), U, CollisionType::Rock);
    b.velocity = Velocity::new(Vec3::new(1_000_000, 0, 0));
    w.spawn(b, Marker::Rock, Health::new(30), CollisionDamage::new(10));
    let mut s = GameStates::new();
    let mut t = SpawnTimer::new(ROCK_SPAWN_TIME_MS);
    let mut c = no_keys();
    c.pause_just_pressed = true;
    run_frame(&mut w, &mut s, &mut t, 100, c, Vec3::zero());
    assert_eq!(s.get(), GameState::Running);
    assert_eq!(w.entities[0].transform.translation.x, 100_000_000);
    let frozen = w.entities.clone();
    let timer = t;
    c.pause_just_pressed = false;
    run_frame(&mut w, &mut s, &mut t, 5000, c, Vec3::zero());
    assert_eq!(s.get(), GameState::Paused);
    run_frame(&mut w, &mut s, &mut t, 5000, c, Vec3::zero());
    assert_eq!(w.entities, frozen);
    assert_eq!(t, timer);
    c.pause_just_pressed = true;
    run_frame(&mut w, &mut s, &mut t, 100, c, Vec3::zero());
    assert_eq!(w.entities, frozen);
    c.pause_just_pressed = false;
    run_frame(&mut w, &mut s, &mut t, 100, c, Vec3::zero());
    assert_eq!(s.get(), GameState::Running);
    assert_eq!(w.entities[0].transform.translation.x, 200_000_000);
}

#[test]
fn game_over_returns_to_running() {
    let mut w = World::new();
    let mut s = GameStates::new();
    s.set(GameState::GameOver);
    let mut t = SpawnTimer::new(ROCK_SPAWN_TIME_MS);
    let mut c = no_keys();
    c.pause_just_pressed = true;
    run_frame(&mut w, &mut s, &mut t, 16, c, Vec3::zero());
    assert_eq!(s.get(), GameState::GameOver);
    assert_eq!(s.next, Some(GameState::Running));
    s.apply_transition();
    assert_eq!(s.get(), GameState::Running);
}

#[test]
fn frame_runs_damage_then_despawn() {
    let mut w = World::new();
    let missile = w.spawn(bundle(Vec3::new(0, 0, 0), U, CollisionType::Missile), Marker::SpaceshipMissile, Health::new(10), CollisionDamage::new(10));
    let rock = w.spawn(bundle(Vec3::new(U, 0, 0), U, CollisionType::Rock), Marker::Rock, Health::new(30), CollisionDamage::new(10));
    let mut s = GameStates::new();
    let mut t = SpawnTimer::new(ROCK_SPAWN_TIME_MS);
    run_frame(&mut w, &mut s, &mut t, 0, no_keys(), Vec3::zero());
    assert_eq!(health_of(&w, rock), Some(30));
    run_frame(&mut w, &mut s, &mut t, 0, no_keys(), Vec3::zero());
    assert_eq!(health_of(&w, rock), Some(20));
    assert_eq!(w.index_of(missile), None);
}

#[test]
fn default_state_is_running() {
    assert_eq!(GameState::default(), GameState::Running);
    let mut s = GameStates::new();
    s.game_state_input_events(true);
    assert_eq!(s.next, Some(GameState::Paused));
    s.apply_transition();
    s.game_state_input_events(false);
    assert_eq!(s.next, None);
    s.transition_to_running();
    assert_eq!(s.next, Some(GameState::Running));
}
