use vstd::prelude::*;

use crate::components::{Collision, CollisionEvent, Contact, Entity, EntityId, Marker};
use crate::geometry::{dist_sq, distance_squared};
use crate::world::World;

verus! {

/// Both entities carry a collision volume and the distance between them is
/// less than the sum of their radii (compared squared, radii being
/// non-negative).
pub open spec fn overlaps(a: Entity, b: Entity) -> bool {
    match (a.collision, b.collision) {
        (Some(ca), Some(cb)) => dist_sq(a.transform.translation, b.transform.translation) < (ca.radius
            + cb.radius) * (ca.radius + cb.radius),
        _ => false,
    }
}

/// The last entity among the first `n` of `s`, other than `s[i]`, that
/// overlaps `s[i]`, with its kind.
pub open spec fn last_contact(s: Seq<Entity>, i: int, n: int) -> Option<Contact>
    decreases n,
{
    if n <= 0 {
        None
    } else if s[n - 1].id != s[i].id && overlaps(s[i], s[n - 1]) {
        Some(Contact { other: s[n - 1].id, other_type: s[n - 1].collision.unwrap().collision_type })
    } else {
        last_contact(s, i, n - 1)
    }
}

/// `s[i]` after a collision pass over `s`: its recorded partner is replaced by
/// the last overlapping entity in scan order, or by none.
pub open spec fn collision_step(s: Seq<Entity>, i: int) -> Entity {
    match s[i].collision {
        Some(c) => Entity {
            collision: Some(Collision { collisions: last_contact(s, i, s.len() as int), ..c }),
            ..s[i]
        },
        None => s[i],
    }
}

/// The events that one kind's handler emits from the first `n` entities of
/// `s`: one per entity of that marker with a recorded partner, in order.
pub open spec fn events_of(s: Seq<Entity>, marker: Marker, n: int) -> Seq<CollisionEvent>
    decreases n,
{
    if n <= 0 {
        Seq::empty()
    } else {
        let prev = events_of(s, marker, n - 1);
        let e = s[n - 1];
        if e.marker == Some(marker) && e.collision is Some && e.collision.unwrap().collisions is Some {
            let c = e.collision.unwrap().collisions.unwrap();
            prev.push(CollisionEvent { entity: e.id, collided_with: c.other, collided_type: c.other_type })
        } else {
            prev
        }
    }
}

/// How many of the first `n` events name `id` as the entity hit.
pub open spec fn hits(events: Seq<CollisionEvent>, id: EntityId, n: int) -> nat
    decreases n,
{
    if n <= 0 {
        0
    } else {
        hits(events, id, n - 1) + if events[n - 1].entity == id { 1nat } else { 0nat }
    }
}

/// `v`, but no lower than the least `i64`.
pub open spec fn floor_i64(v: int) -> int {
    if v < i64::MIN {
        i64::MIN as int
    } else {
        v
    }
}

/// `e` after the first `n` events: where it carries health and damage, its
/// health drops by its damage once per event that names it.
pub open spec fn damage_step(e: Entity, events: Seq<CollisionEvent>, n: int) -> Entity {
    match (e.health, e.damage) {
        (Some(h), Some(d)) => Entity {
            health: Some(
                crate::components::Health {
                    value: floor_i64(h.value - d.amount * hits(events, e.id, n)) as i64,
                },
            ),
            ..e
        },
        _ => e,
    }
}

proof fn lemma_floor_step(h: int, d: int, c: int)
    requires
        d >= 0,
        c >= 0,
        h <= i64::MAX,
    ensures
        floor_i64(floor_i64(h - d * c) - d) == floor_i64(h - d * (c + 1)),
{
    assert(d * (c + 1) == d * c + d) by (nonlinear_arith);
    assert(d * c >= 0) by (nonlinear_arith)
        requires
            d >= 0,
            c >= 0,
    ;
}

impl World {
    /// All-pairs overlap scan. Every entity with a collision volume gets as
    /// its recorded partner the last overlapping entity in scan order, or
    /// none; results of earlier passes are dropped.
    pub fn check_collisions(&mut self)
        requires
            old(self).wf(),
        ensures
            final(self).wf(),
            final(self).next_id == old(self).next_id,
            final(self).entities@.len() == old(self).entities@.len(),
            forall|i: int|
                0 <= i < old(self).entities@.len() ==> final(self).entities@[i] == collision_step(
                    old(self).entities@,
                    i,
                ),
    {
        let n = self.entities.len();
        let mut found: Vec<Option<Contact>> = Vec::new();
        let mut i: usize = 0;
        while i < n
            invariant
                n == self.entities@.len(),
                self.wf(),
                i <= n,
                found@.len() == i,
                forall|k: int| 0 <= k < i ==> found@[k] == last_contact(self.entities@, k, n as int),
            decreases n - i,
        {
            let a = self.entities[i];
            let mut latest: Option<Contact> = None;
            let mut j: usize = 0;
            while j < n
                invariant
                    n == self.entities@.len(),
                    self.wf(),
                    i < n,
                    j <= n,
                    a == self.entities@[i as int],
                    latest == last_contact(self.entities@, i as int, j as int),
                decreases n - j,
            {
                let b = self.entities[j];
                if a.id != b.id {
                    match (a.collision, b.collision) {
                        (Some(ca), Some(cb)) => {
                            assert(a.valid() && b.valid());
                            let d = distance_squared(a.transform.translation, b.transform.translation);
                            let reach: i128 = ca.radius as i128 + cb.radius as i128;
                            assert(0 <= reach * reach <= 4_000_000_000_000_000_000_000_000) by (nonlinear_arith)
                                requires 0 <= reach <= 2_000_000_000_000;
                            if d < reach * reach {
                                latest = Some(Contact { other: b.id, other_type: cb.collision_type });
                            }
                        },
                        _ => {},
                    }
                }
                j += 1;
            }
            found.push(latest);
            i += 1;
        }
        let ghost before = self.entities@;
        let mut i: usize = 0;
        while i < n
            invariant
                n == self.entities@.len(),
                n == before.len(),
                before == old(self).entities@,
                self.next_id == old(self).next_id,
                i <= n,
                found@.len() == n,
                forall|k: int| 0 <= k < n ==> found@[k] == last_contact(before, k, n as int),
                forall|k: int| 0 <= k < i ==> self.entities@[k] == collision_step(before, k),
                forall|k: int| i <= k < n ==> self.entities@[k] == before[k],
            decreases n - i,
        {
            let mut e = self.entities[i];
            match e.collision {
                Some(c) => {
                    e.collision = Some(Collision { collisions: found[i], ..c });
                },
                None => {},
            }
            self.entities.set(i, e);
            i += 1;
        }
        proof {
            assert forall|k: int| 0 <= k < n implies self.entities@[k].id == before[k].id
                && (#[trigger] self.entities@[k]).valid() by {
                assert(old(self).entities@[k].valid());
                assert(self.entities@[k] == collision_step(before, k));
            }
        }
    }

    /// The collision events of every entity tagged `marker` that has a
    /// recorded partner, in store order.
    pub fn handle_collisions(&self, marker: Marker) -> (r: Vec<CollisionEvent>)
        ensures
            r@ == events_of(self.entities@, marker, self.entities@.len() as int),
    {
        let mut out: Vec<CollisionEvent> = Vec::new();
        let mut i: usize = 0;
        while i < self.entities.len()
            invariant
                i <= self.entities@.len(),
                out@ == events_of(self.entities@, marker, i as int),
            decreases self.entities@.len() - i,
        {
            let e = self.entities[i];
            if e.marker == Some(marker) {
                match e.collision {
                    Some(c) => match c.collisions {
                        Some(hit) => {
                            out.push(CollisionEvent::new(e.id, hit.other, hit.other_type));
                        },
                        None => {},
                    },
                    None => {},
                }
            }
            i += 1;
        }
        out
    }

    /// For each event, the entity it names loses its own collision damage
    /// from its health, if it carries both; other events are ignored.
    pub fn apply_collision_damage(&mut self, events: &Vec<CollisionEvent>)
        requires
            old(self).wf(),
        ensures
            final(self).wf(),
            final(self).next_id == old(self).next_id,
            final(self).entities@.len() == old(self).entities@.len(),
            forall|i: int|
                0 <= i < old(self).entities@.len() ==> final(self).entities@[i] == damage_step(
                    old(self).entities@[i],
                    events@,
                    events@.len() as int,
                ),
    {
        let n = self.entities.len();
        proof {
            assert forall|i: int| 0 <= i < n implies self.entities@[i] == damage_step(
                old(self).entities@[i],
                events@,
                0,
            ) by {
                let o = old(self).entities@[i];
                match (o.health, o.damage) {
                    (Some(h0), Some(d0)) => {
                        assert(hits(events@, o.id, 0) == 0);
                        assert(d0.amount * hits(events@, o.id, 0) == 0) by (nonlinear_arith)
                            requires hits(events@, o.id, 0) == 0;
                    },
                    _ => {},
                }
            }
        }
        let mut k: usize = 0;
        while k < events.len()
            invariant
                n == self.entities@.len(),
                n == old(self).entities@.len(),
                k <= events@.len(),
                old(self).wf(),
                self.next_id == old(self).next_id,
                forall|i: int|
                    0 <= i < n ==> self.entities@[i] == damage_step(
                        old(self).entities@[i],
                        events@,
                        k as int,
                    ),
            decreases events@.len() - k,
        {
            let ev = events[k];
            let ghost prev = self.entities@;
            match self.index_of(ev.entity) {
                Some(p) => {
                    let mut e = self.entities[p];
                    match (e.health, e.damage) {
                        (Some(h), Some(d)) => {
                            let lowered: i128 = h.value as i128 - d.amount as i128;
                            let value: i64 = if lowered < i64::MIN as i128 { i64::MIN } else { lowered as i64 };
                            e.health = Some(crate::components::Health { value });
                        },
                        _ => {},
                    }
                    self.entities.set(p, e);
                    proof {
                        assert forall|i: int| 0 <= i < n implies self.entities@[i] == damage_step(
                            old(self).entities@[i],
                            events@,
                            k + 1,
                        ) by {
                            let o = old(self).entities@[i];
                            assert(o.id == prev[i].id);
                            if i != p {
                                assert(o.id != ev.entity) by {
                                    if i < p {
                                        assert(old(self).entities@[i].id < old(self).entities@[p as int].id);
                                    } else {
                                        assert(old(self).entities@[p as int].id < old(self).entities@[i].id);
                                    }
                                }
                            } else {
                                match (o.health, o.damage) {
                                    (Some(h0), Some(d0)) => {
                                        lemma_floor_step(h0.value as int, d0.amount as int, hits(events@, o.id, k as int) as int);
                                    },
                                    _ => {},
                                }
                            }
                        }
                    }
                },
                None => {
                    proof {
                        assert forall|i: int| 0 <= i < n implies self.entities@[i] == damage_step(
                            old(self).entities@[i],
                            events@,
                            k + 1,
                        ) by {
                            assert(old(self).entities@[i].id == prev[i].id);
                        }
                    }
                },
            }
            k += 1;
        }
        proof {
            assert forall|i: int| 0 <= i < n implies (#[trigger] self.entities@[i]).valid() by {
                assert(old(self).entities@[i].valid());
            }
        }
    }
}

} // verus!
