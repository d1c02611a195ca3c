use vstd::prelude::*;

use crate::components::{Entity, EntityId, Marker, Transform, Velocity};
use crate::geometry::{advance, advance_angle, advanced, turned, POSITION_LIMIT, VELOCITY_LIMIT};

verus! {

/// Spin rate of every rock about its forward axis, in milli-radians per second.
pub const ROCK_ROTATION_SPEED: i64 = 2500;

/// The entity store: entities in spawn order, and the identifier the next
/// spawn will get.
pub struct World {
    pub entities: Vec<Entity>,
    pub next_id: EntityId,
}

/// Identifiers strictly increase along `s` and stay below `next`.
pub open spec fn ids_ordered(s: Seq<Entity>, next: u64) -> bool {
    &&& forall|i: int, j: int| 0 <= i < j < s.len() ==> s[i].id < s[j].id
    &&& forall|i: int| 0 <= i < s.len() ==> s[i].id < next
}

/// The velocity update of one entity: `velocity += acceleration * dt` where
/// both are attached.
pub open spec fn velocity_step(e: Entity, dt: u32) -> Entity {
    match (e.velocity, e.acceleration) {
        (Some(v), Some(a)) => Entity {
            velocity: Some(Velocity { value: advanced(v.value, a.value, dt, VELOCITY_LIMIT as int) }),
            ..e
        },
        _ => e,
    }
}

/// The position update of one entity: where velocity, rotation and roll are
/// attached, `translation += velocity * dt`, then the yaw and roll angles
/// turn by their rates times `dt`.
pub open spec fn position_step(e: Entity, dt: u32) -> Entity {
    match (e.velocity, e.rotation, e.roll) {
        (Some(v), Some(rot), Some(rl)) => Entity {
            transform: Transform {
                translation: advanced(e.transform.translation, v.value, dt, POSITION_LIMIT as int),
                yaw: turned(e.transform.yaw as int, rot.value * dt) as i64,
                roll: turned(e.transform.roll as int, rl.value * dt) as i64,
            },
            ..e
        },
        _ => e,
    }
}

/// The spin of one rock about its forward axis.
pub open spec fn rock_spin_step(e: Entity, dt: u32) -> Entity {
    if e.marker == Some(Marker::Rock) {
        Entity {
            transform: Transform {
                roll: turned(e.transform.roll as int, ROCK_ROTATION_SPEED * dt) as i64,
                ..e.transform
            },
            ..e
        }
    } else {
        e
    }
}

impl World {
    /// Identifiers are ordered and every entity is valid.
    pub open spec fn wf(&self) -> bool {
        &&& ids_ordered(self.entities@, self.next_id)
        &&& forall|i: int| 0 <= i < self.entities@.len() ==> (#[trigger] self.entities@[i]).valid()
    }

    /// An empty store.
    pub fn new() -> (r: World)
        ensures
            r.wf(),
            r.entities@ == Seq::<Entity>::empty(),
            r.next_id == 0,
    {
        World { entities: Vec::new(), next_id: 0 }
    }

    /// Number of entities in the store.
    pub fn len(&self) -> (r: usize)
        ensures
            r == self.entities@.len(),
    {
        self.entities.len()
    }

    /// Position of the entity with identifier `id`, if it is in the store.
    pub fn index_of(&self, id: EntityId) -> (r: Option<usize>)
        ensures
            r matches Some(p) ==> p < self.entities@.len() && self.entities@[p as int].id == id,
            r is None ==> forall|i: int| 0 <= i < self.entities@.len() ==> self.entities@[i].id != id,
    {
        let mut i: usize = 0;
        while i < self.entities.len()
            invariant
                i <= self.entities@.len(),
                forall|k: int| 0 <= k < i ==> self.entities@[k].id != id,
            decreases self.entities@.len() - i,
        {
            if self.entities[i].id == id {
                return Some(i);
            }
            i += 1;
        }
        None
    }

    /// Adds `velocity += acceleration * dt` to every entity that has both.
    pub fn update_velocity(&mut self, dt: u32)
        requires
            old(self).wf(),
        ensures
            final(self).wf(),
            final(self).next_id == old(self).next_id,
            final(self).entities@.len() == old(self).entities@.len(),
            forall|i: int|
                0 <= i < old(self).entities@.len() ==> final(self).entities@[i] == velocity_step(
                    old(self).entities@[i],
                    dt,
                ),
    {
        let n = self.entities.len();
        let mut i: usize = 0;
        while i < n
            invariant
                n == self.entities@.len(),
                n == old(self).entities@.len(),
                i <= n,
                self.next_id == old(self).next_id,
                forall|k: int| 0 <= k < i ==> self.entities@[k] == velocity_step(old(self).entities@[k], dt),
                forall|k: int| i <= k < n ==> self.entities@[k] == old(self).entities@[k],
            decreases n - i,
        {
            let mut e = self.entities[i];
            match (e.velocity, e.acceleration) {
                (Some(v), Some(a)) => {
                    e.velocity = Some(Velocity { value: advance(v.value, a.value, dt, VELOCITY_LIMIT) });
                },
                _ => {},
            }
            self.entities.set(i, e);
            i += 1;
        }
    }

    /// Moves every entity that has velocity, rotation and roll by
    /// `velocity * dt` and turns it by its rates times `dt`.
    pub fn update_positions(&mut self, dt: u32)
        requires
            old(self).wf(),
        ensures
            final(self).wf(),
            final(self).next_id == old(self).next_id,
            final(self).entities@.len() == old(self).entities@.len(),
            forall|i: int|
                0 <= i < old(self).entities@.len() ==> final(self).entities@[i] == position_step(
                    old(self).entities@[i],
                    dt,
                ),
    {
        let n = self.entities.len();
        let mut i: usize = 0;
        while i < n
            invariant
                n == self.entities@.len(),
                n == old(self).entities@.len(),
                i <= n,
                self.next_id == old(self).next_id,
                forall|k: int| 0 <= k < i ==> self.entities@[k] == position_step(old(self).entities@[k], dt),
                forall|k: int| i <= k < n ==> self.entities@[k] == old(self).entities@[k],
            decreases n - i,
        {
            let mut e = self.entities[i];
            match (e.velocity, e.rotation, e.roll) {
                (Some(v), Some(rot), Some(rl)) => {
                    e.transform = Transform {
                        translation: advance(e.transform.translation, v.value, dt, POSITION_LIMIT),
                        yaw: advance_angle(e.transform.yaw, rot.value, dt),
                        roll: advance_angle(e.transform.roll, rl.value, dt),
                    };
                },
                _ => {},
            }
            self.entities.set(i, e);
            i += 1;
        }
    }

    /// Spins every rock about its forward axis at `ROCK_ROTATION_SPEED`.
    pub fn rotate_rocks(&mut self, dt: u32)
        requires
            old(self).wf(),
        ensures
            final(self).wf(),
            final(self).next_id == old(self).next_id,
            final(self).entities@.len() == old(self).entities@.len(),
            forall|i: int|
                0 <= i < old(self).entities@.len() ==> final(self).entities@[i] == rock_spin_step(
                    old(self).entities@[i],
                    dt,
                ),
    {
        let n = self.entities.len();
        let mut i: usize = 0;
        while i < n
            invariant
                n == self.entities@.len(),
                n == old(self).entities@.len(),
                i <= n,
                self.next_id == old(self).next_id,
                forall|k: int| 0 <= k < i ==> self.entities@[k] == rock_spin_step(old(self).entities@[k], dt),
                forall|k: int| i <= k < n ==> self.entities@[k] == old(self).entities@[k],
            decreases n - i,
        {
            let mut e = self.entities[i];
            if e.marker == Some(Marker::Rock) {
                e.transform.roll = advance_angle(e.transform.roll, ROCK_ROTATION_SPEED, dt);
            }
            self.entities.set(i, e);
            i += 1;
        }
    }
}

} // verus!
