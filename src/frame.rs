use vstd::prelude::*;

use crate::collision::{collision_step, damage_step, events_of};
use crate::components::{CollisionEvent, Entity, EntityId, Marker};
use crate::despawn::{dead, out_of_bounds, retained};
use crate::geometry::{within, Vec3};
use crate::ship::{missile_entity, sole_ship, steered, Controls, HEADING_SCALE};
use crate::spawning::{direction_draw, rock_entity, SpawnTimer, ROCK_RANGE_X, ROCK_RANGE_Z};
use crate::state::{applied, state_systems, GameState, GameStates};
use crate::world::{position_step, rock_spin_step, velocity_step, World};

verus! {

/// `s` after steering: the one ship, if there is exactly one, takes the
/// velocity and rates that the keys choose.
pub open spec fn steer(s: Seq<Entity>, c: Controls, heading: Vec3) -> Seq<Entity> {
    if exists|p: int| sole_ship(s, p) {
        let p = choose|p: int| sole_ship(s, p);
        s.update(p, steered(s[p], c, heading))
    } else {
        s
    }
}

/// The missile that fire spawns under `id` from the one ship of `s`, if
/// fire was pressed and there is exactly one ship.
pub open spec fn missile_of(s: Seq<Entity>, c: Controls, heading: Vec3, id: EntityId) -> Option<Entity> {
    if c.fire_just_pressed && exists|p: int| sole_ship(s, p) {
        let p = choose|p: int| sole_ship(s, p);
        Some(missile_entity(id, s[p].transform.translation, heading))
    } else {
        None
    }
}

/// `s` after the shield key: the one ship, if there is exactly one and the
/// key is held, is shielded.
pub open spec fn shield_up(s: Seq<Entity>, c: Controls) -> Seq<Entity> {
    if c.shield && exists|p: int| sole_ship(s, p) {
        let p = choose|p: int| sole_ship(s, p);
        s.update(p, Entity { shielded: true, ..s[p] })
    } else {
        s
    }
}

/// `s` with `e` appended, if there is one.
pub open spec fn with_spawn(s: Seq<Entity>, e: Option<Entity>) -> Seq<Entity> {
    match e {
        Some(x) => s.push(x),
        None => s,
    }
}

/// The events of one frame: rocks, then the ship, then missiles.
pub open spec fn frame_events(s: Seq<Entity>) -> Seq<CollisionEvent> {
    events_of(s, Marker::Rock, s.len() as int) + events_of(s, Marker::Spaceship, s.len() as int)
        + events_of(s, Marker::SpaceshipMissile, s.len() as int)
}

/// The despawn stage: out-of-bounds entities go, then dead ones.
pub open spec fn despawned(s: Seq<Entity>) -> Seq<Entity> {
    let mid = retained(s, s.len() as int, |e: Entity| !out_of_bounds(e));
    retained(mid, mid.len() as int, |e: Entity| !dead(e))
}

/// The entities after the gameplay phases of one frame, from `s` with next
/// identifier `next`, where the timer hands over `rock` (or nothing) as the
/// spawned rock.
pub open spec fn gameplay(
    s: Seq<Entity>,
    next: EntityId,
    dt: u32,
    c: Controls,
    heading: Vec3,
    rock: Option<Entity>,
) -> Seq<Entity> {
    let s1 = steer(s, c, heading);
    let s2 = with_spawn(s1, missile_of(s1, c, heading, next));
    let s3 = shield_up(s2, c);
    let s4 = Seq::new(s3.len(), |i: int| velocity_step(s3[i], dt));
    let s5 = Seq::new(s4.len(), |i: int| position_step(s4[i], dt));
    let s6 = with_spawn(s5, rock);
    let s7 = Seq::new(s6.len(), |i: int| rock_spin_step(s6[i], dt));
    let ev = frame_events(s7);
    let s8 = Seq::new(s7.len(), |i: int| damage_step(s7[i], ev, ev.len() as int));
    let s9 = Seq::new(s8.len(), |i: int| collision_step(s8, i));
    despawned(s9)
}

/// Identifier of the rock spawned this frame: after the missile, if one
/// was fired.
pub open spec fn rock_id(s: Seq<Entity>, next: EntityId, c: Controls, heading: Vec3) -> EntityId {
    if missile_of(steer(s, c, heading), c, heading, next) is Some {
        (next + 1) as EntityId
    } else {
        next
    }
}

impl World {
    /// The despawn stage: out-of-bounds entities, then dead ones.
    pub fn despawn_stage(&mut self)
        requires
            old(self).wf(),
        ensures
            final(self).wf(),
            final(self).next_id == old(self).next_id,
            final(self).entities@ == despawned(old(self).entities@),
    {
        self.despawn_entities();
        self.despawn_dead_entities();
    }

    /// The collision events of one frame: rocks, then the ship, then
    /// missiles.
    pub fn collect_collision_events(&self) -> (r: Vec<CollisionEvent>)
        ensures
            r@ == events_of(self.entities@, Marker::Rock, self.entities@.len() as int)
                + events_of(self.entities@, Marker::Spaceship, self.entities@.len() as int)
                + events_of(self.entities@, Marker::SpaceshipMissile, self.entities@.len() as int),
    {
        let mut events = self.handle_collisions(Marker::Rock);
        let mut ship = self.handle_collisions(Marker::Spaceship);
        let mut missiles = self.handle_collisions(Marker::SpaceshipMissile);
        events.append(&mut ship);
        events.append(&mut missiles);
        events
    }
}

impl World {
    /// The gameplay phases of one frame, in order: steering, firing and
    /// shield; velocity, position, rock spawn and spin, collision events
    /// and damage; collision detection; despawn. The rock, if the timer
    /// fires, comes from random draws within the spawn area.
    pub fn gameplay_phases(&mut self, timer: &mut SpawnTimer, dt: u32, controls: Controls, heading: Vec3)
        requires
            old(self).wf(),
            old(self).next_id < u64::MAX - 1,
            old(timer).wf(),
            within(heading, HEADING_SCALE as int),
        ensures
            final(self).wf(),
            final(timer).wf(),
            forall|i: int|
                0 <= i < final(self).entities@.len() ==> !dead(#[trigger] final(self).entities@[i])
                    && !out_of_bounds(final(self).entities@[i]),
            final(timer).duration_ms == old(timer).duration_ms,
            final(timer).elapsed_ms == (old(timer).elapsed_ms + dt) % (old(timer).duration_ms as int),
            old(timer).elapsed_ms + dt < old(timer).duration_ms ==> final(self).entities@ == gameplay(
                old(self).entities@,
                old(self).next_id,
                dt,
                controls,
                heading,
                None,
            ),
            old(timer).elapsed_ms + dt >= old(timer).duration_ms ==> exists|x: int, z: int, vdx: int, vdz: int, adx: int, adz: int|
                -ROCK_RANGE_X <= x < ROCK_RANGE_X && 0 <= z < ROCK_RANGE_Z
                && direction_draw(vdx) && direction_draw(vdz)
                && direction_draw(adx) && direction_draw(adz)
                && final(self).entities@ == gameplay(
                    old(self).entities@,
                    old(self).next_id,
                    dt,
                    controls,
                    heading,
                    Some(#[trigger] rock_entity(
                        rock_id(old(self).entities@, old(self).next_id, controls, heading),
                        Vec3 { x: x as i64, y: 0, z: z as i64 },
                        vdx,
                        vdz,
                        adx,
                        adz,
                    )),
                ),
    {
        let ghost s0 = self.entities@;
        let ghost n0 = self.next_id;
        self.spaceship_movement_controls(controls, heading);
        let ghost s1 = self.entities@;
        proof {
            if exists|p: int| sole_ship(s0, p) {
                let p = choose|p: int| sole_ship(s0, p);
                assert(s1 == s0.update(p, steered(s0[p], controls, heading)));
            }
            assert(s1 == steer(s0, controls, heading));
            assert forall|p: int| sole_ship(s1, p) <==> sole_ship(s0, p) by {
                if exists|q: int| sole_ship(s0, q) {
                    let q = choose|q: int| sole_ship(s0, q);
                    assert forall|i: int| 0 <= i < s0.len() implies #[trigger] s1[i].marker == s0[i].marker by {}
                    if sole_ship(s1, p) {
                        assert forall|k: int| 0 <= k < s0.len() && k != p implies !crate::ship::is_ship(#[trigger] s0[k]) by {
                            assert(s1[k].marker == s0[k].marker);
                        }
                    }
                    if sole_ship(s0, p) {
                        assert forall|k: int| 0 <= k < s1.len() && k != p implies !crate::ship::is_ship(#[trigger] s1[k]) by {
                            assert(s1[k].marker == s0[k].marker);
                        }
                        assert(s1[p].marker == s0[p].marker);
                    }
                }
            }
        }
        let fired = self.spaceship_weapon_controls(controls, heading);
        let ghost s2 = self.entities@;
        proof {
            let m = missile_of(s1, controls, heading, n0);
            match fired {
                Some(id) => {
                    let p = choose|p: int| sole_ship(s1, p);
                    assert(s2 == s1.push(missile_entity(id, s1[p].transform.translation, heading)));
                },
                None => {},
            }
            assert(s2 == with_spawn(s1, m));
        }
        self.spaceship_shield_controls(controls);
        let ghost s3 = self.entities@;
        proof {
            if controls.shield && exists|p: int| sole_ship(s2, p) {
                let p = choose|p: int| sole_ship(s2, p);
                assert(s3 == s2.update(p, Entity { shielded: true, ..s2[p] }));
            }
            assert(s3 == shield_up(s2, controls));
        }
        self.update_velocity(dt);
        let ghost s4 = self.entities@;
        assert(s4 =~= Seq::new(s3.len(), |i: int| velocity_step(s3[i], dt)));
        self.update_positions(dt);
        let ghost s5 = self.entities@;
        assert(s5 =~= Seq::new(s4.len(), |i: int| position_step(s4[i], dt)));
        let ghost n5 = self.next_id;
        assert(n5 == rock_id(s0, n0, controls, heading));
        let spawned = self.spawn_rock(timer, dt);
        let ghost s6 = self.entities@;
        self.rotate_rocks(dt);
        let ghost s7 = self.entities@;
        let events = self.collect_collision_events();
        assert(events@ == frame_events(s7));
        self.apply_collision_damage(&events);
        let ghost s8 = self.entities@;
        assert(s8 =~= Seq::new(s7.len(), |i: int| damage_step(s7[i], events@, events@.len() as int)));
        self.check_collisions();
        let ghost s9 = self.entities@;
        assert(s9 =~= Seq::new(s8.len(), |i: int| collision_step(s8, i)));
        let ghost n9 = self.next_id;
        self.despawn_stage();
        proof {
            assert(self.entities@ == despawned(s9));
            crate::laws::lemma_despawn_clears(s9, n9);
            assert forall|i: int| 0 <= i < self.entities@.len() implies !dead(#[trigger] self.entities@[i])
                && !out_of_bounds(self.entities@[i]) by {
                assert(self.entities@.contains(self.entities@[i]));
            }
            match spawned {
                None => {
                    assert(s6 == with_spawn(s5, None));
                    assert(s7 =~= Seq::new(s6.len(), |i: int| rock_spin_step(s6[i], dt)));
                    assert(self.entities@ == gameplay(s0, n0, dt, controls, heading, None));
                },
                Some(id) => {
                    let (x, z, vdx, vdz, adx, adz) = choose|x: int, z: int, vdx: int, vdz: int, adx: int, adz: int|
                        -ROCK_RANGE_X <= x < ROCK_RANGE_X && 0 <= z < ROCK_RANGE_Z
                        && direction_draw(vdx) && direction_draw(vdz)
                        && direction_draw(adx) && direction_draw(adz)
                        && s6 == s5.push(
                            #[trigger] rock_entity(id, Vec3 { x: x as i64, y: 0, z: z as i64 }, vdx, vdz, adx, adz),
                        );
                    let r = rock_entity(id, Vec3 { x: x as i64, y: 0, z: z as i64 }, vdx, vdz, adx, adz);
                    assert(s6 == with_spawn(s5, Some(r)));
                    assert(s7 =~= Seq::new(s6.len(), |i: int| rock_spin_step(s6[i], dt)));
                    assert(self.entities@ == gameplay(s0, n0, dt, controls, heading, Some(r)));
                },
            }
        }
    }
}

/// One frame. At the frame boundary the pending state request takes effect;
/// while the game then runs, the gameplay phases run in order (see
/// `gameplay_phases`); in any other state the world and the timer stay as
/// they are. Last, the state systems read the pause key and ask to leave
/// GameOver.
pub fn run_frame(
    world: &mut World,
    states: &mut GameStates,
    timer: &mut SpawnTimer,
    dt_ms: u32,
    controls: Controls,
    heading: Vec3,
)
    requires
        old(world).wf(),
        old(world).next_id < u64::MAX - 1,
        old(timer).wf(),
        within(heading, HEADING_SCALE as int),
    ensures
        *final(states) == state_systems(applied(*old(states)), controls.pause_just_pressed),
        final(world).wf(),
        final(timer).wf(),
        applied(*old(states)).current != GameState::Running ==> *final(world) == *old(world)
            && *final(timer) == *old(timer),
        applied(*old(states)).current == GameState::Running ==> {
            &&& final(timer).duration_ms == old(timer).duration_ms
            &&& final(timer).elapsed_ms == (old(timer).elapsed_ms + dt_ms) % (old(timer).duration_ms as int)
            &&& forall|i: int|
                0 <= i < final(world).entities@.len() ==> !dead(#[trigger] final(world).entities@[i])
                    && !out_of_bounds(final(world).entities@[i])
            &&& old(timer).elapsed_ms + dt_ms < old(timer).duration_ms ==> final(world).entities@ == gameplay(
                old(world).entities@,
                old(world).next_id,
                dt_ms,
                controls,
                heading,
                None,
            )
            &&& old(timer).elapsed_ms + dt_ms >= old(timer).duration_ms ==> exists|x: int, z: int, vdx: int, vdz: int, adx: int, adz: int|
                -ROCK_RANGE_X <= x < ROCK_RANGE_X && 0 <= z < ROCK_RANGE_Z
                && direction_draw(vdx) && direction_draw(vdz)
                && direction_draw(adx) && direction_draw(adz)
                && final(world).entities@ == gameplay(
                    old(world).entities@,
                    old(world).next_id,
                    dt_ms,
                    controls,
                    heading,
                    Some(#[trigger] rock_entity(
                        rock_id(old(world).entities@, old(world).next_id, controls, heading),
                        Vec3 { x: x as i64, y: 0, z: z as i64 },
                        vdx,
                        vdz,
                        adx,
                        adz,
                    )),
                )
        },
{
    states.apply_transition();
    if states.get() == GameState::Running {
        world.gameplay_phases(timer, dt_ms, controls, heading);
    }
    states.run_state_systems(controls.pause_just_pressed);
}

} // verus!
