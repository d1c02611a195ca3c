use vstd::prelude::*;

use crate::components::Entity;
use crate::geometry::{dist_sq, distance_squared, Vec3, NANOS_PER_UNIT};
use crate::world::{ids_ordered, World};

verus! {

/// Entities farther than this from the origin are despawned: 100 world units,
/// in nano-units.
pub const DESPAWN_DISTANCE: i64 = 100 * NANOS_PER_UNIT;

/// The entity lies strictly farther than `DESPAWN_DISTANCE` from the origin.
pub open spec fn out_of_bounds(e: Entity) -> bool {
    dist_sq(e.transform.translation, Vec3 { x: 0, y: 0, z: 0 }) > DESPAWN_DISTANCE * DESPAWN_DISTANCE
}

/// The entity carries health and it is zero or below.
pub open spec fn dead(e: Entity) -> bool {
    e.health matches Some(h) && h.value <= 0
}

/// The entities among the first `n` of `s` that satisfy `keep`, in order.
pub open spec fn retained(s: Seq<Entity>, n: int, keep: spec_fn(Entity) -> bool) -> Seq<Entity>
    decreases n,
{
    if n <= 0 {
        Seq::empty()
    } else if keep(s[n - 1]) {
        retained(s, n - 1, keep).push(s[n - 1])
    } else {
        retained(s, n - 1, keep)
    }
}

/// What `retained` keeps is exactly what satisfies `keep`, each taken from
/// an earlier position, so identifier order carries over.
pub proof fn lemma_retained(s: Seq<Entity>, n: int, keep: spec_fn(Entity) -> bool, next: u64)
    requires
        0 <= n <= s.len(),
        ids_ordered(s, next),
    ensures
        forall|x: Entity| retained(s, n, keep).contains(x) <==> (exists|k: int| 0 <= k < n && s[k] == x) && keep(x),
        forall|j: int| 0 <= j < retained(s, n, keep).len() ==> exists|k: int| 0 <= k < n && s[k] == #[trigger] retained(s, n, keep)[j],
        ids_ordered(retained(s, n, keep), next),
    decreases n,
{
    if n > 0 {
        lemma_retained(s, n - 1, keep, next);
        let prev = retained(s, n - 1, keep);
        let cur = retained(s, n, keep);
        assert forall|x: Entity| cur.contains(x) <==> (exists|k: int| 0 <= k < n && s[k] == x) && keep(x) by {
            if cur.contains(x) {
                let j = choose|j: int| 0 <= j < cur.len() && cur[j] == x;
                if j < prev.len() {
                    assert(prev[j] == x);
                    assert(prev.contains(x));
                    let k = choose|k: int| 0 <= k < n - 1 && s[k] == x;
                    assert(0 <= k < n && s[k] == x);
                } else {
                    assert(0 <= n - 1 < n && s[n - 1] == x);
                }
            }
            if (exists|k: int| 0 <= k < n && s[k] == x) && keep(x) {
                let k = choose|k: int| 0 <= k < n && s[k] == x;
                if k < n - 1 {
                    assert(prev.contains(x));
                    let j = choose|j: int| 0 <= j < prev.len() && prev[j] == x;
                    assert(cur[j] == x);
                } else {
                    assert(cur[cur.len() - 1] == x);
                }
            }
        }
        assert forall|j: int| 0 <= j < cur.len() implies exists|k: int| 0 <= k < n && s[k] == #[trigger] cur[j] by {
            if j < prev.len() {
                assert(cur[j] == prev[j]);
                let k = choose|k: int| 0 <= k < n - 1 && s[k] == prev[j];
                assert(0 <= k < n && s[k] == cur[j]);
            } else {
                assert(s[n - 1] == cur[j]);
            }
        }
        assert forall|a: int, b: int| 0 <= a < b < cur.len() implies cur[a].id < cur[b].id by {
            let ka = choose|k: int| 0 <= k < n && s[k] == cur[a];
            let kb = choose|k: int| 0 <= k < n && s[k] == cur[b];
            if b < prev.len() {
                assert(cur[a] == prev[a] && cur[b] == prev[b]);
            } else {
                assert(cur[a] == prev[a]);
                let k2 = choose|k: int| 0 <= k < n - 1 && s[k] == prev[a];
                assert(s[k2].id < s[n - 1].id);
            }
        }
        assert forall|j: int| 0 <= j < cur.len() implies cur[j].id < next by {
            let k = choose|k: int| 0 <= k < n && s[k] == cur[j];
        }
    }
}

/// Whether `e` lies farther than `DESPAWN_DISTANCE` from the origin.
pub fn is_out_of_bounds(e: &Entity) -> (r: bool)
    requires
        e.valid(),
    ensures
        r == out_of_bounds(*e),
{
    let d = distance_squared(e.transform.translation, Vec3::zero());
    let limit: i128 = DESPAWN_DISTANCE as i128;
    d > limit * limit
}

/// Whether `e` carries health at zero or below.
pub fn is_dead(e: &Entity) -> (r: bool)
    ensures
        r == dead(*e),
{
    match e.health {
        Some(h) => h.value <= 0,
        None => false,
    }
}

impl World {
    /// Removes every entity farther than `DESPAWN_DISTANCE` from the origin;
    /// the others keep their order.
    pub fn despawn_entities(&mut self)
        requires
            old(self).wf(),
        ensures
            final(self).wf(),
            final(self).next_id == old(self).next_id,
            final(self).entities@ == retained(
                old(self).entities@,
                old(self).entities@.len() as int,
                |e: Entity| !out_of_bounds(e),
            ),
    {
        let ghost keep = |e: Entity| !out_of_bounds(e);
        let mut kept: Vec<Entity> = Vec::new();
        let mut i: usize = 0;
        while i < self.entities.len()
            invariant
                self.wf(),
                self.entities@ == old(self).entities@,
                i <= self.entities@.len(),
                kept@ == retained(self.entities@, i as int, keep),
                keep == (|e: Entity| !out_of_bounds(e)),
            decreases self.entities@.len() - i,
        {
            let e = self.entities[i];
            assert(self.entities@[i as int].valid());
            assert(keep(e) == !out_of_bounds(e));
            assert(retained(self.entities@, i + 1, keep) == if keep(e) {
                retained(self.entities@, i as int, keep).push(e)
            } else {
                retained(self.entities@, i as int, keep)
            });
            if !is_out_of_bounds(&e) {
                kept.push(e);
            }
            i += 1;
        }
        proof {
            lemma_retained(self.entities@, self.entities@.len() as int, keep, self.next_id);
            assert forall|j: int| 0 <= j < kept@.len() implies (#[trigger] kept@[j]).valid() by {
                let k = choose|k: int| 0 <= k < self.entities@.len() && self.entities@[k] == kept@[j];
                assert(self.entities@[k].valid());
            }
        }
        self.entities = kept;
    }

    /// Removes every entity whose health is zero or below; the others keep
    /// their order.
    pub fn despawn_dead_entities(&mut self)
        requires
            old(self).wf(),
        ensures
            final(self).wf(),
            final(self).next_id == old(self).next_id,
            final(self).entities@ == retained(
                old(self).entities@,
                old(self).entities@.len() as int,
                |e: Entity| !dead(e),
            ),
    {
        let ghost keep = |e: Entity| !dead(e);
        let mut kept: Vec<Entity> = Vec::new();
        let mut i: usize = 0;
        while i < self.entities.len()
            invariant
                self.wf(),
                self.entities@ == old(self).entities@,
                i <= self.entities@.len(),
                kept@ == retained(self.entities@, i as int, keep),
                keep == (|e: Entity| !dead(e)),
            decreases self.entities@.len() - i,
        {
            let e = self.entities[i];
            assert(keep(e) == !dead(e));
            assert(retained(self.entities@, i + 1, keep) == if keep(e) {
                retained(self.entities@, i as int, keep).push(e)
            } else {
                retained(self.entities@, i as int, keep)
            });
            if !is_dead(&e) {
                kept.push(e);
            }
            i += 1;
        }
        proof {
            lemma_retained(self.entities@, self.entities@.len() as int, keep, self.next_id);
            assert forall|j: int| 0 <= j < kept@.len() implies (#[trigger] kept@[j]).valid() by {
                let k = choose|k: int| 0 <= k < self.entities@.len() && self.entities@[k] == kept@[j];
                assert(self.entities@[k].valid());
            }
        }
        self.entities = kept;
    }
}

} // verus!
