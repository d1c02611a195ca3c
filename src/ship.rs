use vstd::prelude::*;

use crate::components::{
    Acceleration, Collision, CollisionDamage, CollisionType, Entity, EntityId, Health, Marker,
    MovingObjectBundle, Roll, Rotation, Transform, Velocity,
};
use crate::geometry::{advance, advanced, within, Vec3, POSITION_LIMIT};
use crate::spawning::{spawned, still_bundle};
use crate::world::World;

verus! {

/// Where the ship starts: 20 units behind the origin.
pub const STARTING_Z: i64 = -20_000_000_000;

/// Headings are unit vectors scaled by this.
pub const HEADING_SCALE: i64 = 1000;

/// Ship speed per heading step: 25 units per second over `HEADING_SCALE`.
pub const SPACESHIP_SPEED: i64 = 25_000;

/// Ship turn and roll rates, in milli-radians per second.
pub const SPACESHIP_ROTATION_SPEED: i64 = 2500;

pub const SPACESHIP_ROLL_SPEED: i64 = 2500;

pub const SPACESHIP_HEALTH: i64 = 100;

pub const SPACESHIP_DAMAGE: u32 = 10;

/// Ship radius: 5.5 units.
pub const SPACESHIP_RADIUS: i64 = 5_500_000_000;

/// How far ahead of the ship a missile appears, per heading step (10 units
/// over `HEADING_SCALE`, in nano-units).
pub const MISSILE_SPAWN_SCALAR: u32 = 10_000_000;

/// Missile speed per heading step: 40 units per second over `HEADING_SCALE`.
pub const MISSILE_SPEED: i64 = 40_000;

/// Missile radius: 0.5 units.
pub const MISSILE_RADIUS: i64 = 500_000_000;

pub const MISSILE_HEALTH: i64 = 10;

pub const MISSILE_DAMAGE: u32 = 10;

/// The keys read in one frame: held keys for steering and shield, presses
/// for fire and pause.
#[derive(Clone, Copy, Debug, PartialEq, Eq, Structural)]
pub struct Controls {
    pub forward: bool,
    pub backward: bool,
    pub turn_left: bool,
    pub turn_right: bool,
    pub roll_left: bool,
    pub roll_right: bool,
    pub shield: bool,
    pub fire_just_pressed: bool,
    pub pause_just_pressed: bool,
}

/// The entity is tagged as the ship.
pub open spec fn is_ship(e: Entity) -> bool {
    e.marker == Some(Marker::Spaceship)
}

/// `s[p]` is the one ship of `s`.
pub open spec fn sole_ship(s: Seq<Entity>, p: int) -> bool {
    &&& 0 <= p < s.len()
    &&& is_ship(s[p])
    &&& forall|q: int| 0 <= q < s.len() && q != p ==> !is_ship(#[trigger] s[q])
}

/// Speed along the heading: backward wins over forward.
pub open spec fn movement_rate(c: Controls) -> int {
    if c.backward {
        -SPACESHIP_SPEED
    } else if c.forward {
        SPACESHIP_SPEED as int
    } else {
        0
    }
}

/// Turn rate: left wins over right.
pub open spec fn rotation_rate(c: Controls) -> int {
    if c.turn_left {
        SPACESHIP_ROTATION_SPEED as int
    } else if c.turn_right {
        -SPACESHIP_ROTATION_SPEED
    } else {
        0
    }
}

/// Roll rate: left wins over right.
pub open spec fn roll_rate(c: Controls) -> int {
    if c.roll_left {
        SPACESHIP_ROLL_SPEED as int
    } else if c.roll_right {
        -SPACESHIP_ROLL_SPEED
    } else {
        0
    }
}

/// `v * k` per coordinate.
pub open spec fn scaled(v: Vec3, k: int) -> Vec3 {
    Vec3 { x: (v.x * k) as i64, y: (v.y * k) as i64, z: (v.z * k) as i64 }
}

/// The ship after steering: its velocity along `heading` at the chosen
/// speed, and its turn and roll rates, where it carries them.
pub open spec fn steered(e: Entity, c: Controls, heading: Vec3) -> Entity {
    if e.velocity is Some && e.rotation is Some && e.roll is Some {
        Entity {
            velocity: Some(Velocity { value: scaled(heading, movement_rate(c)) }),
            rotation: Some(Rotation { value: rotation_rate(c) as i64 }),
            roll: Some(Roll { value: roll_rate(c) as i64 }),
            ..e
        }
    } else {
        e
    }
}

/// The missile fired by a ship at `ship_at` facing `heading`.
pub open spec fn missile_entity(id: EntityId, ship_at: Vec3, heading: Vec3) -> Entity {
    spawned(
        id,
        still_bundle(
            advanced(ship_at, heading, MISSILE_SPAWN_SCALAR, POSITION_LIMIT as int),
            scaled(heading, MISSILE_SPEED as int),
            Vec3 { x: 0, y: 0, z: 0 },
            MISSILE_RADIUS,
            CollisionType::Missile,
        ),
        Marker::SpaceshipMissile,
        Health { value: MISSILE_HEALTH },
        CollisionDamage { amount: MISSILE_DAMAGE },
    )
}

/// The ship as spawned.
pub open spec fn ship_entity(id: EntityId) -> Entity {
    spawned(
        id,
        still_bundle(
            Vec3 { x: 0, y: 0, z: STARTING_Z },
            Vec3 { x: 0, y: 0, z: 0 },
            Vec3 { x: 0, y: 0, z: 0 },
            SPACESHIP_RADIUS,
            CollisionType::Spaceship,
        ),
        Marker::Spaceship,
        Health { value: SPACESHIP_HEALTH },
        CollisionDamage { amount: SPACESHIP_DAMAGE },
    )
}

fn scale_heading(heading: Vec3, k: i64) -> (r: Vec3)
    requires
        within(heading, HEADING_SCALE as int),
        -1_000_000 <= k <= 1_000_000,
    ensures
        r == scaled(heading, k as int),
{
    assert(-1_000_000_000 <= heading.x * k <= 1_000_000_000) by (nonlinear_arith)
        requires -1000 <= heading.x <= 1000, -1_000_000 <= k <= 1_000_000;
    assert(-1_000_000_000 <= heading.y * k <= 1_000_000_000) by (nonlinear_arith)
        requires -1000 <= heading.y <= 1000, -1_000_000 <= k <= 1_000_000;
    assert(-1_000_000_000 <= heading.z * k <= 1_000_000_000) by (nonlinear_arith)
        requires -1000 <= heading.z <= 1000, -1_000_000 <= k <= 1_000_000;
    Vec3 { x: heading.x * k, y: heading.y * k, z: heading.z * k }
}

impl World {
    /// The position of the one ship, if there is exactly one.
    pub fn single_ship(&self) -> (r: Option<usize>)
        ensures
            r matches Some(p) ==> sole_ship(self.entities@, p as int),
            r is None ==> forall|p: int| !sole_ship(self.entities@, p),
    {
        let s = Ghost(self.entities@);
        let mut found: Option<usize> = None;
        let mut many: bool = false;
        let ghost mut other: int = 0;
        let mut i: usize = 0;
        while i < self.entities.len()
            invariant
                s@ == self.entities@,
                i <= s@.len(),
                !many && found is None ==> forall|q: int| 0 <= q < i ==> !is_ship(#[trigger] s@[q]),
                !many ==> (found matches Some(p) ==> p < i && is_ship(s@[p as int])
                    && forall|q: int| 0 <= q < i && q != p ==> !is_ship(#[trigger] s@[q])),
                many ==> (found matches Some(p) && p < i && 0 <= other < i && other != p
                    && is_ship(s@[p as int]) && is_ship(s@[other])),
            decreases s@.len() - i,
        {
            if !many && self.entities[i].marker == Some(Marker::Spaceship) {
                match found {
                    None => {
                        found = Some(i);
                    },
                    Some(_) => {
                        many = true;
                        proof {
                            other = i as int;
                        }
                    },
                }
            }
            i += 1;
        }
        if many {
            None
        } else {
            found
        }
    }

    /// Spawns the ship at its starting point, at rest.
    pub fn spawn_spaceship(&mut self) -> (id: EntityId)
        requires
            old(self).wf(),
            old(self).next_id < u64::MAX,
        ensures
            final(self).wf(),
            id == old(self).next_id,
            final(self).next_id == old(self).next_id + 1,
            final(self).entities@ == old(self).entities@.push(ship_entity(id)),
    {
        let bundle = MovingObjectBundle {
            velocity: Velocity::new(Vec3::zero()),
            rotation: Rotation::new(0),
            roll: Roll::new(0),
            acceleration: Acceleration::new(Vec3::zero()),
            collision: Collision::new(SPACESHIP_RADIUS, CollisionType::Spaceship),
            transform: Transform::from_translation(Vec3::new(0, 0, STARTING_Z)),
        };
        self.spawn(bundle, Marker::Spaceship, Health::new(SPACESHIP_HEALTH), CollisionDamage::new(SPACESHIP_DAMAGE))
    }

    /// Steers the one ship, if there is exactly one: velocity along
    /// `heading` (its forward direction, scaled by `HEADING_SCALE`) at the
    /// speed the keys choose, and the turn and roll rates they choose.
    pub fn spaceship_movement_controls(&mut self, controls: Controls, heading: Vec3)
        requires
            old(self).wf(),
            within(heading, HEADING_SCALE as int),
        ensures
            final(self).wf(),
            final(self).next_id == old(self).next_id,
            forall|p: int| sole_ship(old(self).entities@, p) ==> final(self).entities@ == old(self).entities@.update(
                p,
                steered(old(self).entities@[p], controls, heading),
            ),
            (forall|p: int| !sole_ship(old(self).entities@, p)) ==> *final(self) == *old(self),
    {
        match self.single_ship() {
            Some(p) => {
                let mut e = self.entities[p];
                match (e.velocity, e.rotation, e.roll) {
                    (Some(_), Some(_), Some(_)) => {
                        let movement: i64 = if controls.backward {
                            -SPACESHIP_SPEED
                        } else if controls.forward {
                            SPACESHIP_SPEED
                        } else {
                            0
                        };
                        let rotation: i64 = if controls.turn_left {
                            SPACESHIP_ROTATION_SPEED
                        } else if controls.turn_right {
                            -SPACESHIP_ROTATION_SPEED
                        } else {
                            0
                        };
                        let roll: i64 = if controls.roll_left {
                            SPACESHIP_ROLL_SPEED
                        } else if controls.roll_right {
                            -SPACESHIP_ROLL_SPEED
                        } else {
                            0
                        };
                        e.velocity = Some(Velocity::new(scale_heading(heading, movement)));
                        e.rotation = Some(Rotation::new(rotation));
                        e.roll = Some(Roll::new(roll));
                    },
                    _ => {},
                }
                self.entities.set(p, e);
                proof {
                    assert forall|q: int| sole_ship(old(self).entities@, q) implies q == p by {
                        if q != p {
                            assert(!is_ship(old(self).entities@[q]));
                        }
                    }
                    assert forall|i: int| 0 <= i < self.entities@.len() implies (#[trigger] self.entities@[i]).valid() && self.entities@[i].id == old(self).entities@[i].id by {
                        assert(old(self).entities@[i].valid());
                    }
                }
            },
            None => {},
        }
    }

    /// Fires a missile from the one ship, if there is exactly one and fire
    /// was pressed: it appears ahead of the ship along `heading` and flies
    /// along it. Returns the missile's identifier.
    pub fn spaceship_weapon_controls(&mut self, controls: Controls, heading: Vec3) -> (r: Option<EntityId>)
        requires
            old(self).wf(),
            old(self).next_id < u64::MAX,
            within(heading, HEADING_SCALE as int),
        ensures
            final(self).wf(),
            r is Some <==> controls.fire_just_pressed && exists|p: int| sole_ship(old(self).entities@, p),
            r is None ==> *final(self) == *old(self),
            r matches Some(id) ==> id == old(self).next_id && final(self).next_id == old(self).next_id + 1
                && forall|p: int| sole_ship(old(self).entities@, p) ==> final(self).entities@ == old(self).entities@.push(
                    missile_entity(id, old(self).entities@[p].transform.translation, heading),
                ),
    {
        match self.single_ship() {
            Some(p) => {
                if !controls.fire_just_pressed {
                    return None;
                }
                let at = self.entities[p].transform.translation;
                let bundle = MovingObjectBundle {
                    velocity: Velocity::new(scale_heading(heading, MISSILE_SPEED)),
                    rotation: Rotation::new(0),
                    roll: Roll::new(0),
                    acceleration: Acceleration::new(Vec3::zero()),
                    collision: Collision::new(MISSILE_RADIUS, CollisionType::Missile),
                    transform: Transform::from_translation(advance(at, heading, MISSILE_SPAWN_SCALAR, POSITION_LIMIT)),
                };
                proof {
                    assert forall|q: int| sole_ship(old(self).entities@, q) implies q == p by {
                        if q != p {
                            assert(!is_ship(old(self).entities@[q]));
                        }
                    }
                }
                let id = self.spawn(
                    bundle,
                    Marker::SpaceshipMissile,
                    Health::new(MISSILE_HEALTH),
                    CollisionDamage::new(MISSILE_DAMAGE),
                );
                Some(id)
            },
            None => None,
        }
    }

    /// Raises the shield of the one ship, if there is exactly one and the
    /// shield key is held.
    pub fn spaceship_shield_controls(&mut self, controls: Controls)
        requires
            old(self).wf(),
        ensures
            final(self).wf(),
            final(self).next_id == old(self).next_id,
            forall|p: int| sole_ship(old(self).entities@, p) && controls.shield ==> final(self).entities@ == old(self).entities@.update(
                p,
                Entity { shielded: true, ..old(self).entities@[p] },
            ),
            (forall|p: int| !sole_ship(old(self).entities@, p)) || !controls.shield ==> *final(self) == *old(self),
    {
        match self.single_ship() {
            Some(p) => {
                if controls.shield {
                    let mut e = self.entities[p];
                    e.shielded = true;
                    self.entities.set(p, e);
                    proof {
                        assert forall|q: int| sole_ship(old(self).entities@, q) implies q == p by {
                            if q != p {
                                assert(!is_ship(old(self).entities@[q]));
                            }
                        }
                        assert forall|i: int| 0 <= i < self.entities@.len() implies (#[trigger] self.entities@[i]).valid() && self.entities@[i].id == old(self).entities@[i].id by {
                            assert(old(self).entities@[i].valid());
                        }
                    }
                }
            },
            None => {},
        }
    }
}

} // verus!
