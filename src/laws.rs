use vstd::prelude::*;

use crate::collision::{collision_step, damage_step, hits, last_contact, overlaps};
use crate::components::{CollisionEvent, Entity};
use crate::despawn::{dead, lemma_retained, out_of_bounds, retained};
use crate::state::{applied, state_systems, GameState, GameStates};
use crate::world::ids_ordered;

verus! {

/// Overlap is symmetric: `a` overlaps `b` exactly when `b` overlaps `a`.
/// Both sides compare the squared distance with the squared sum of radii;
/// the two being non-negative, that is the distance against the sum.
pub proof fn lemma_overlap_symmetric(a: Entity, b: Entity)
    ensures
        overlaps(a, b) == overlaps(b, a),
{
    assert(crate::geometry::dist_sq(a.transform.translation, b.transform.translation)
        == crate::geometry::dist_sq(b.transform.translation, a.transform.translation)) by (nonlinear_arith);
}

/// A recorded partner is always another entity that overlaps.
pub proof fn lemma_contact_overlaps(s: Seq<Entity>, i: int, n: int)
    requires
        0 <= i < s.len(),
        0 <= n <= s.len(),
    ensures
        last_contact(s, i, n) matches Some(c) ==> exists|j: int|
            0 <= j < n && #[trigger] s[j].id == c.other && s[j].id != s[i].id && overlaps(s[i], s[j]),
    decreases n,
{
    if n > 0 {
        lemma_contact_overlaps(s, i, n - 1);
        if s[n - 1].id != s[i].id && overlaps(s[i], s[n - 1]) {
            assert(s[n - 1].id == last_contact(s, i, n).unwrap().other);
        }
    }
}

/// An entity that overlaps some other entity among the first `n` gets a
/// partner.
pub proof fn lemma_overlap_gives_contact(s: Seq<Entity>, i: int, j: int, n: int)
    requires
        0 <= i < s.len(),
        0 <= j < n <= s.len(),
        s[j].id != s[i].id,
        overlaps(s[i], s[j]),
    ensures
        last_contact(s, i, n) is Some,
    decreases n,
{
    if j < n - 1 && !(s[n - 1].id != s[i].id && overlaps(s[i], s[n - 1])) {
        lemma_overlap_gives_contact(s, i, j, n - 1);
    }
}

/// Detection is mutual: when two distinct entities overlap, both get a
/// partner from the pass, though last-write-wins may give either another
/// one.
pub proof fn lemma_contact_mutual(s: Seq<Entity>, i: int, j: int)
    requires
        0 <= i < s.len(),
        0 <= j < s.len(),
        s[i].id != s[j].id,
        overlaps(s[i], s[j]),
    ensures
        last_contact(s, i, s.len() as int) is Some,
        last_contact(s, j, s.len() as int) is Some,
{
    lemma_overlap_symmetric(s[i], s[j]);
    lemma_overlap_gives_contact(s, i, j, s.len() as int);
    lemma_overlap_gives_contact(s, j, i, s.len() as int);
}

/// An entity that overlaps no other entity this pass records no partner,
/// whatever it recorded before.
pub proof fn lemma_no_overlap_no_contact(s: Seq<Entity>, i: int, n: int)
    requires
        0 <= i < s.len(),
        0 <= n <= s.len(),
        forall|j: int| 0 <= j < n && s[j].id != s[i].id ==> !overlaps(s[i], #[trigger] s[j]),
    ensures
        last_contact(s, i, n) is None,
    decreases n,
{
    if n > 0 {
        lemma_no_overlap_no_contact(s, i, n - 1);
    }
}

/// The two entities agree on everything but the partner recorded by an
/// earlier collision pass.
pub open spec fn same_but_partner(a: Entity, b: Entity) -> bool {
    match (a.collision, b.collision) {
        (Some(ca), Some(cb)) => a == Entity {
            collision: Some(crate::components::Collision { collisions: ca.collisions, ..cb }),
            ..b
        },
        (None, None) => a == b,
        _ => false,
    }
}

/// The partners found by a pass depend on identifiers, positions, radii and
/// kinds alone: two stores that differ only in earlier partners come out
/// the same.
pub proof fn lemma_partners_ignore_previous(s: Seq<Entity>, t: Seq<Entity>)
    requires
        s.len() == t.len(),
        forall|i: int| 0 <= i < s.len() ==> same_but_partner(#[trigger] s[i], t[i]),
    ensures
        forall|i: int| 0 <= i < s.len() ==> collision_step(s, i) == #[trigger] collision_step(t, i),
{
    assert forall|i: int| 0 <= i < s.len() implies collision_step(s, i) == #[trigger] collision_step(t, i) by {
        lemma_contact_same(s, t, i, s.len() as int);
        assert(same_but_partner(s[i], t[i]));
    }
}

proof fn lemma_contact_same(s: Seq<Entity>, t: Seq<Entity>, i: int, n: int)
    requires
        s.len() == t.len(),
        0 <= i < s.len(),
        0 <= n <= s.len(),
        forall|k: int| 0 <= k < s.len() ==> same_but_partner(#[trigger] s[k], t[k]),
    ensures
        last_contact(s, i, n) == last_contact(t, i, n),
    decreases n,
{
    if n > 0 {
        assert(same_but_partner(s[n - 1], t[n - 1]));
        assert(same_but_partner(s[i], t[i]));
        lemma_contact_same(s, t, i, n - 1);
    }
}

/// Damage never raises health, and lowers it by exactly the entity's damage
/// times the number of events naming it, unless that would pass the least
/// `i64`.
pub proof fn lemma_damage_exact(e: Entity, events: Seq<CollisionEvent>)
    requires
        e.health is Some,
        e.damage is Some,
    ensures
        ({
            let h = e.health.unwrap().value as int;
            let total = e.damage.unwrap().amount * hits(events, e.id, events.len() as int);
            let after = damage_step(e, events, events.len() as int).health.unwrap().value as int;
            &&& after <= h
            &&& h - total >= i64::MIN ==> after == h - total
            &&& total > 0 && h > i64::MIN ==> after < h
            &&& total == 0 ==> after == h
        }),
{
    let d = e.damage.unwrap().amount as int;
    let c = hits(events, e.id, events.len() as int) as int;
    assert(d * c >= 0) by (nonlinear_arith)
        requires
            d >= 0,
            c >= 0,
    ;
}

/// After the despawn stage no survivor is out of bounds or dead, and every
/// entity that was neither is still there.
pub proof fn lemma_despawn_clears(s: Seq<Entity>, next: u64)
    requires
        ids_ordered(s, next),
    ensures
        ({
            let mid = retained(s, s.len() as int, |e: Entity| !out_of_bounds(e));
            let fin = retained(mid, mid.len() as int, |e: Entity| !dead(e));
            &&& forall|x: Entity| fin.contains(x) ==> !dead(x) && !out_of_bounds(x)
            &&& forall|k: int| 0 <= k < s.len() && !dead(s[k]) && !out_of_bounds(s[k]) ==> fin.contains(
                #[trigger] s[k],
            )
        }),
{
    let k1 = |e: Entity| !out_of_bounds(e);
    let k2 = |e: Entity| !dead(e);
    let mid = retained(s, s.len() as int, k1);
    let fin = retained(mid, mid.len() as int, k2);
    lemma_retained(s, s.len() as int, k1, next);
    lemma_retained(mid, mid.len() as int, k2, next);
    assert forall|x: Entity| fin.contains(x) implies !dead(x) && !out_of_bounds(x) by {
        assert(k2(x));
        let k = choose|k: int| 0 <= k < mid.len() && mid[k] == x;
        assert(mid.contains(x));
        assert(k1(x));
    }
    assert forall|k: int| 0 <= k < s.len() && !dead(s[k]) && !out_of_bounds(s[k]) implies fin.contains(
        #[trigger] s[k],
    ) by {
        let x = s[k];
        assert(k1(x));
        assert(mid.contains(x));
        let j = choose|j: int| 0 <= j < mid.len() && mid[j] == x;
        assert(k2(x));
    }
}

/// Pause round trip: from Running, a press asks for Paused; after the next
/// boundary the game is paused and stays so over frames without a press;
/// a press while paused brings back Running at the following boundary.
pub proof fn lemma_pause_round_trip(s: GameStates)
    requires
        applied(s).current == GameState::Running,
    ensures
        ({
            let paused = applied(state_systems(applied(s), true));
            let idle = applied(state_systems(paused, false));
            let resumed = applied(state_systems(idle, true));
            &&& paused.current == GameState::Paused
            &&& idle == paused
            &&& resumed.current == GameState::Running
        }),
{
}

/// The states after one frame per entry of `presses`, each entry saying
/// whether the pause key was pressed in that frame.
pub open spec fn after_frames(s: GameStates, presses: Seq<bool>) -> GameStates
    decreases presses.len(),
{
    if presses.len() == 0 {
        s
    } else {
        state_systems(applied(after_frames(s, presses.drop_last())), presses.last())
    }
}

/// Once paused, the game stays paused over any run of frames without a
/// press of the pause key: at every frame boundary the state in force is
/// Paused, so the gameplay phases, and with them every position,
/// velocity, health and the spawn timer, stand still (see `run_frame`).
pub proof fn lemma_pause_holds(s: GameStates, presses: Seq<bool>)
    requires
        applied(s).current == GameState::Paused,
        forall|i: int| 0 <= i < presses.len() ==> !presses[i],
    ensures
        forall|j: int| 0 <= j <= presses.len() ==> #[trigger] applied(after_frames(s, presses.take(j))).current
            == GameState::Paused,
{
    assert forall|j: int| 0 <= j <= presses.len() implies #[trigger] applied(after_frames(s, presses.take(j))).current
        == GameState::Paused by {
        lemma_pause_holds_upto(s, presses, j);
    }
}

proof fn lemma_pause_holds_upto(s: GameStates, presses: Seq<bool>, j: int)
    requires
        applied(s).current == GameState::Paused,
        forall|i: int| 0 <= i < presses.len() ==> !presses[i],
        0 <= j <= presses.len(),
    ensures
        applied(after_frames(s, presses.take(j))).current == GameState::Paused,
    decreases j,
{
    if j > 0 {
        lemma_pause_holds_upto(s, presses, j - 1);
        let p = presses.take(j);
        assert(p.drop_last() =~= presses.take(j - 1));
        assert(p.last() == presses[j - 1]);
    }
}

/// From GameOver, one frame later the game is Running again, whatever the
/// pause key does.
pub proof fn lemma_game_over_recovers(s: GameStates, pause_pressed: bool)
    requires
        applied(s).current == GameState::GameOver,
    ensures
        applied(state_systems(applied(s), pause_pressed)).current == GameState::Running,
{
}

} // verus!
