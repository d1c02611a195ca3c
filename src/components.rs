use vstd::prelude::*;

use crate::geometry::{within, Vec3, POSITION_LIMIT};

verus! {

/// Identifier of a simulated entity.
pub type EntityId = u64;

/// The kind of a collision volume.
#[derive(Clone, Copy, Debug, PartialEq, Eq, Structural)]
pub enum CollisionType {
    Spaceship,
    Rock,
    Missile,
}

/// The partner of a detected overlap and the partner's kind.
#[derive(Clone, Copy, Debug, PartialEq, Eq, Structural)]
pub struct Contact {
    pub other: EntityId,
    pub other_type: CollisionType,
}

/// A spherical collision volume. `collisions` holds the partner found by the
/// most recent collision pass, with the partner's kind.
#[derive(Clone, Copy, Debug, PartialEq, Eq, Structural)]
pub struct Collision {
    pub collisions: Option<Contact>,
    pub radius: i64,
    pub collision_type: CollisionType,
}

impl Collision {
    /// A volume of `radius` nano-units with no recorded partner.
    pub fn new(radius: i64, collision_type: CollisionType) -> (r: Collision)
        requires
            0 <= radius <= POSITION_LIMIT,
        ensures
            r == (Collision { collisions: None, radius, collision_type }),
    {
        Collision { collisions: None, radius, collision_type }
    }
}

/// Damage that an entity takes each time one of its collisions is handled.
#[derive(Clone, Copy, Debug, PartialEq, Eq, Structural)]
pub struct CollisionDamage {
    pub amount: u32,
}

impl CollisionDamage {
    pub fn new(amount: u32) -> (r: CollisionDamage)
        ensures
            r.amount == amount,
    {
        CollisionDamage { amount }
    }
}

/// `entity` overlapped `collided_with`, of kind `collided_type`.
#[derive(Clone, Copy, Debug, PartialEq, Eq, Structural)]
pub struct CollisionEvent {
    pub entity: EntityId,
    pub collided_with: EntityId,
    pub collided_type: CollisionType,
}

impl CollisionEvent {
    pub fn new(entity: EntityId, collided_with: EntityId, collided_type: CollisionType) -> (r:
        CollisionEvent)
        ensures
            r == (CollisionEvent { entity, collided_with, collided_type }),
    {
        CollisionEvent { entity, collided_with, collided_type }
    }
}

/// Linear velocity, in micro-units per second.
#[derive(Clone, Copy, Debug, PartialEq, Eq, Structural)]
pub struct Velocity {
    pub value: Vec3,
}

impl Velocity {
    pub fn new(value: Vec3) -> (r: Velocity)
        ensures
            r.value == value,
    {
        Velocity { value }
    }
}

/// Linear acceleration, in milli-units per second squared.
#[derive(Clone, Copy, Debug, PartialEq, Eq, Structural)]
pub struct Acceleration {
    pub value: Vec3,
}

impl Acceleration {
    pub fn new(value: Vec3) -> (r: Acceleration)
        ensures
            r.value == value,
    {
        Acceleration { value }
    }
}

/// Turn rate about the vertical axis, in milli-radians per second.
#[derive(Clone, Copy, Debug, PartialEq, Eq, Structural)]
pub struct Rotation {
    pub value: i64,
}

impl Rotation {
    pub fn new(value: i64) -> (r: Rotation)
        ensures
            r.value == value,
    {
        Rotation { value }
    }
}

/// Turn rate about the local forward axis, in milli-radians per second.
#[derive(Clone, Copy, Debug, PartialEq, Eq, Structural)]
pub struct Roll {
    pub value: i64,
}

impl Roll {
    pub fn new(value: i64) -> (r: Roll)
        ensures
            r.value == value,
    {
        Roll { value }
    }
}

/// Hit points; an entity at zero or below is dead.
#[derive(Clone, Copy, Debug, PartialEq, Eq, Structural)]
pub struct Health {
    pub value: i64,
}

impl Health {
    pub fn new(value: i64) -> (r: Health)
        ensures
            r.value == value,
    {
        Health { value }
    }
}

/// The tag that selects which per-kind routines see an entity.
#[derive(Clone, Copy, Debug, PartialEq, Eq, Structural)]
pub enum Marker {
    Spaceship,
    Rock,
    SpaceshipMissile,
}

/// Position and orientation. The orientation is a turn of `yaw` about the
/// vertical axis after a turn of `roll` about the local forward axis, both in
/// micro-radians within one full turn.
#[derive(Clone, Copy, Debug, PartialEq, Eq, Structural)]
pub struct Transform {
    pub translation: Vec3,
    pub yaw: i64,
    pub roll: i64,
}

impl Transform {
    /// At `translation`, with no turn.
    pub fn from_translation(translation: Vec3) -> (r: Transform)
        ensures
            r == (Transform { translation, yaw: 0, roll: 0 }),
    {
        Transform { translation, yaw: 0, roll: 0 }
    }
}

/// The motion and collision data that every moving object is spawned with.
#[derive(Clone, Copy, Debug, PartialEq, Eq, Structural)]
pub struct MovingObjectBundle {
    pub velocity: Velocity,
    pub rotation: Rotation,
    pub roll: Roll,
    pub acceleration: Acceleration,
    pub collision: Collision,
    pub transform: Transform,
}

/// One entity of the store with the data attached to it; absent data is
/// `None`.
#[derive(Clone, Copy, Debug, PartialEq, Eq, Structural)]
pub struct Entity {
    pub id: EntityId,
    pub transform: Transform,
    pub velocity: Option<Velocity>,
    pub acceleration: Option<Acceleration>,
    pub rotation: Option<Rotation>,
    pub roll: Option<Roll>,
    pub collision: Option<Collision>,
    pub damage: Option<CollisionDamage>,
    pub health: Option<Health>,
    pub marker: Option<Marker>,
    pub shielded: bool,
}

impl Entity {
    /// The position lies within the representable volume and the collision
    /// radius, if any, is non-negative and within it too.
    pub open spec fn valid(self) -> bool {
        &&& within(self.transform.translation, POSITION_LIMIT as int)
        &&& (self.collision matches Some(c) ==> 0 <= c.radius <= POSITION_LIMIT)
    }

    /// An entity with only `id` and `transform`.
    pub fn bare(id: EntityId, transform: Transform) -> (r: Entity)
        ensures
            r == (Entity {
                id,
                transform,
                velocity: None,
                acceleration: None,
                rotation: None,
                roll: None,
                collision: None,
                damage: None,
                health: None,
                marker: None,
                shielded: false,
            }),
    {
        Entity {
            id,
            transform,
            velocity: None,
            acceleration: None,
            rotation: None,
            roll: None,
            collision: None,
            damage: None,
            health: None,
            marker: None,
            shielded: false,
        }
    }
}

} // verus!
