use vstd::prelude::*;

use rand::Rng;

use crate::components::{
    Acceleration, Collision, CollisionDamage, CollisionType, Entity, EntityId, Health, Marker,
    MovingObjectBundle, Roll, Rotation, Transform, Velocity,
};
use crate::geometry::{within, Vec3, POSITION_LIMIT};
use crate::world::World;

verus! {

/// Time between rock spawns, in milliseconds.
pub const ROCK_SPAWN_TIME_MS: u64 = 1000;

/// Rocks appear with x in `[-ROCK_RANGE_X, ROCK_RANGE_X)` (25 units).
pub const ROCK_RANGE_X: i64 = 25_000_000_000;

/// Rocks appear with z in `[0, ROCK_RANGE_Z)` (50 units).
pub const ROCK_RANGE_Z: i64 = 50_000_000_000;

/// Rock speed: 5 units per second, in micro-units per second.
pub const ROCK_VELOCITY_SCALAR: i64 = 5_000_000;

/// Rock acceleration: 1 unit per second squared, in milli-units.
pub const ROCK_ACCELERATION_SCALAR: i64 = 1_000;

pub const ROCK_HEALTH: i64 = 30;

pub const ROCK_DAMAGE: u32 = 10;

/// Rock radius: 2.5 units.
pub const ROCK_RADIUS: i64 = 2_500_000_000;

/// Random directions are drawn per coordinate from `[-DIRECTION_SCALE,
/// DIRECTION_SCALE)`, standing for `[-1, 1)`.
pub const DIRECTION_SCALE: i64 = 1000;

/// A repeating timer over whole milliseconds.
#[derive(Clone, Copy, Debug, PartialEq, Eq, Structural)]
pub struct SpawnTimer {
    pub elapsed_ms: u64,
    pub duration_ms: u64,
}

impl SpawnTimer {
    /// The period is positive and the elapsed time lies within it.
    pub open spec fn wf(&self) -> bool {
        0 < self.duration_ms && self.elapsed_ms < self.duration_ms
    }

    /// A timer that fires every `duration_ms` milliseconds.
    pub fn new(duration_ms: u64) -> (r: SpawnTimer)
        requires
            duration_ms > 0,
        ensures
            r.wf(),
            r == (SpawnTimer { elapsed_ms: 0, duration_ms }),
    {
        SpawnTimer { elapsed_ms: 0, duration_ms }
    }

    /// Advances by `dt` milliseconds; says whether the period was completed,
    /// and keeps what is left over past it.
    pub fn tick(&mut self, dt: u32) -> (finished: bool)
        requires
            old(self).wf(),
        ensures
            final(self).wf(),
            final(self).duration_ms == old(self).duration_ms,
            finished == (old(self).elapsed_ms + dt >= old(self).duration_ms),
            final(self).elapsed_ms == (old(self).elapsed_ms + dt) % (old(self).duration_ms as int),
    {
        let total: u128 = self.elapsed_ms as u128 + dt as u128;
        let duration: u128 = self.duration_ms as u128;
        self.elapsed_ms = (total % duration) as u64;
        total >= duration
    }
}

/// Fixed-point factor under which direction lengths are taken, so that the
/// rounding of the length stays far below one step of the result.
pub const LENGTH_PRECISION: i128 = 2_000_000_000;

/// `r` is the square root of `n` rounded up.
pub open spec fn is_ceil_root(r: int, n: int) -> bool {
    1 <= r && (r - 1) * (r - 1) < n <= r * r
}

/// The square root of a positive `n`, rounded up.
pub open spec fn ceil_root(n: int) -> int {
    choose|r: int| is_ceil_root(r, n)
}

proof fn lemma_ceil_root_unique(a: int, b: int, n: int)
    requires
        is_ceil_root(a, n),
        is_ceil_root(b, n),
    ensures
        a == b,
{
    if a < b {
        assert(a * a <= (b - 1) * (b - 1)) by (nonlinear_arith)
            requires
                1 <= a <= b - 1,
        ;
    } else if b < a {
        assert(b * b <= (a - 1) * (a - 1)) by (nonlinear_arith)
            requires
                1 <= b <= a - 1,
        ;
    }
}

/// Square root rounded up, by bisection.
fn ceil_sqrt(n: i128) -> (r: i128)
    requires
        1 <= n <= 0x80_0000_0000_0000_0000_0000,
    ensures
        is_ceil_root(r as int, n as int),
        r == ceil_root(n as int),
{
    let mut lo: i128 = 0;
    let mut hi: i128 = 0x1000_0000_0000;
    assert(hi * hi == 0x100_0000_0000_0000_0000_0000);
    while hi - lo > 1
        invariant
            0 <= lo < hi <= 0x1000_0000_0000,
            lo * lo < n <= hi * hi,
        decreases hi - lo,
    {
        let mid: i128 = lo + (hi - lo) / 2;
        assert(0 <= mid * mid <= 0x100_0000_0000_0000_0000_0000) by (nonlinear_arith)
            requires
                0 <= mid <= 0x1000_0000_0000,
        ;
        if mid * mid < n {
            lo = mid;
        } else {
            hi = mid;
        }
    }
    proof {
        lemma_ceil_root_unique(hi as int, ceil_root(n as int), n as int);
    }
    hi
}

/// `a / b` rounded toward zero.
pub open spec fn trunc_div(a: int, b: int) -> int {
    if a >= 0 {
        a / b
    } else {
        -((-a) / b)
    }
}

/// The direction `(dx, 0, dz)` brought to length `scalar`: each coordinate
/// is `d * scalar / length`, rounded toward zero, with the length taken to
/// `LENGTH_PRECISION` and rounded up, so the result is never longer than
/// `scalar` and falls short of it by less than two. The zero vector stays
/// zero.
pub open spec fn scaled_direction(dx: int, dz: int, scalar: int) -> Vec3 {
    let n = dx * dx + dz * dz;
    if n == 0 {
        Vec3 { x: 0, y: 0, z: 0 }
    } else {
        let len = ceil_root(n * LENGTH_PRECISION * LENGTH_PRECISION);
        Vec3 {
            x: trunc_div(dx * scalar * LENGTH_PRECISION, len) as i64,
            y: 0,
            z: trunc_div(dz * scalar * LENGTH_PRECISION, len) as i64,
        }
    }
}

/// Magnitude of `d`.
pub open spec fn magnitude(d: int) -> int {
    if d >= 0 {
        d
    } else {
        -d
    }
}

/// The scaled coordinate in magnitude, with the two facts of integer
/// division it rests on.
proof fn lemma_scaled_coord(d: int, scalar: int, len: int) -> (q: int)
    requires
        len >= 1,
        scalar >= 0,
    ensures
        q >= 0,
        q * len <= magnitude(d) * scalar * LENGTH_PRECISION < (q + 1) * len,
        trunc_div(d * scalar * LENGTH_PRECISION, len) == if d >= 0 { q } else { -q },
{
    let k = LENGTH_PRECISION as int;
    let a = magnitude(d) * scalar * k;
    assert(a >= 0) by (nonlinear_arith)
        requires
            scalar >= 0,
            magnitude(d) >= 0,
            k > 0,
            a == magnitude(d) * scalar * k,
    ;
    let q = a / len;
    vstd::arithmetic::div_mod::lemma_fundamental_div_mod(a, len);
    vstd::arithmetic::div_mod::lemma_mod_bound(a, len);
    vstd::arithmetic::div_mod::lemma_div_pos_is_pos(a, len);
    assert((q + 1) * len == q * len + len) by (nonlinear_arith);
    if d < 0 {
        assert(-(d * scalar * LENGTH_PRECISION) == a) by (nonlinear_arith)
            requires
                d < 0,
                a == magnitude(d) * scalar * LENGTH_PRECISION,
        ;
    } else {
        assert(d * scalar * LENGTH_PRECISION == a);
    }
    q
}

/// A scaled direction points the way of the draw, in the horizontal plane,
/// and its length lies within rounding of `scalar`: never longer, and
/// short by less than two.
pub proof fn lemma_direction_length(dx: int, dz: int, scalar: int)
    requires
        -DIRECTION_SCALE <= dx <= DIRECTION_SCALE,
        -DIRECTION_SCALE <= dz <= DIRECTION_SCALE,
        0 <= scalar <= 1_000_000_000,
        dx != 0 || dz != 0,
    ensures
        ({
            let r = scaled_direction(dx, dz, scalar);
            &&& r.y == 0
            &&& (dx >= 0 ==> r.x >= 0) && (dx <= 0 ==> r.x <= 0)
            &&& (dz >= 0 ==> r.z >= 0) && (dz <= 0 ==> r.z <= 0)
            &&& r.x * r.x + r.z * r.z <= scalar * scalar
            &&& scalar >= 2 ==> (scalar - 2) * (scalar - 2) <= r.x * r.x + r.z * r.z
            &&& r.x == trunc_div(dx * scalar * LENGTH_PRECISION, ceil_root((dx * dx + dz * dz) * LENGTH_PRECISION * LENGTH_PRECISION))
            &&& r.z == trunc_div(dz * scalar * LENGTH_PRECISION, ceil_root((dx * dx + dz * dz) * LENGTH_PRECISION * LENGTH_PRECISION))
        }),
{
    let k = LENGTH_PRECISION as int;
    let n = dx * dx + dz * dz;
    assert(1 <= n <= 2_000_000) by (nonlinear_arith)
        requires
            -1000 <= dx <= 1000,
            -1000 <= dz <= 1000,
            dx != 0 || dz != 0,
            n == dx * dx + dz * dz,
    ;
    let big = n * k * k;
    assert(k * k <= big) by (nonlinear_arith)
        requires
            n >= 1,
            big == n * k * k,
    ;
    assert(big <= 0x80_0000_0000_0000_0000_0000) by (nonlinear_arith)
        requires
            n <= 2_000_000,
            big == n * k * k,
            k == 2_000_000_000,
    ;
    let len = ceil_root(big);
    lemma_ceil_root_exists(big);
    assert(is_ceil_root(len, big));
    assert(len >= k) by {
        if len < k {
            assert(len * len < k * k) by (nonlinear_arith)
                requires
                    1 <= len < k,
            ;
        }
    }
    let ax = magnitude(dx);
    let az = magnitude(dz);
    let qx = lemma_scaled_coord(dx, scalar, len);
    let qz = lemma_scaled_coord(dz, scalar, len);
    let r = scaled_direction(dx, dz, scalar);
    let ax_ = ax * scalar * k;
    let az_ = az * scalar * k;
    assert(ax * ax == dx * dx) by {
        if dx < 0 {
            assert(ax * ax == dx * dx) by (nonlinear_arith)
                requires
                    ax == -dx,
            ;
        }
    }
    assert(az * az == dz * dz) by {
        if dz < 0 {
            assert(az * az == dz * dz) by (nonlinear_arith)
                requires
                    az == -dz,
            ;
        }
    }
    assert(ax * ax + az * az == n);
    let t = scalar * k;
    assert(ax_ == ax * t && az_ == az * t) by (nonlinear_arith)
        requires
            ax_ == ax * scalar * k,
            az_ == az * scalar * k,
            t == scalar * k,
    ;
    assert(ax_ * ax_ == (ax * ax) * (t * t)) by (nonlinear_arith)
        requires
            ax_ == ax * t,
    ;
    assert(az_ * az_ == (az * az) * (t * t)) by (nonlinear_arith)
        requires
            az_ == az * t,
    ;
    assert(ax_ * ax_ + az_ * az_ == n * (t * t)) by (nonlinear_arith)
        requires
            ax_ * ax_ == (ax * ax) * (t * t),
            az_ * az_ == (az * az) * (t * t),
            ax * ax + az * az == n,
    ;
    assert(n * (t * t) == scalar * scalar * big) by (nonlinear_arith)
        requires
            t == scalar * k,
            big == n * k * k,
    ;
    // never longer than `scalar`
    assert((qx * len) * (qx * len) <= ax_ * ax_) by (nonlinear_arith)
        requires
            0 <= qx * len <= ax_,
    ;
    assert((qz * len) * (qz * len) <= az_ * az_) by (nonlinear_arith)
        requires
            0 <= qz * len <= az_,
    ;
    assert(scalar * scalar * big <= scalar * scalar * (len * len)) by (nonlinear_arith)
        requires
            big <= len * len,
    ;
    assert(qx * qx + qz * qz <= scalar * scalar) by (nonlinear_arith)
        requires
            (qx * len) * (qx * len) + (qz * len) * (qz * len) <= scalar * scalar * (len * len),
            len >= 1,
    ;
    assert(r.x == (if dx >= 0 { qx } else { -qx }) && r.z == (if dz >= 0 { qz } else { -qz })) by {
        assert(qx * qx <= scalar * scalar) by (nonlinear_arith)
            requires
                qx * qx + qz * qz <= scalar * scalar,
                qz * qz >= 0,
        ;
        assert(qz * qz <= scalar * scalar) by (nonlinear_arith)
            requires
                qx * qx + qz * qz <= scalar * scalar,
                qx * qx >= 0,
        ;
        assert(qx <= scalar) by (nonlinear_arith)
            requires
                qx * qx <= scalar * scalar,
                qx >= 0,
                scalar >= 0,
        ;
        assert(qz <= scalar) by (nonlinear_arith)
            requires
                qz * qz <= scalar * scalar,
                qz >= 0,
                scalar >= 0,
        ;
    }
    if dx == 0 {
        assert(qx == 0) by (nonlinear_arith)
            requires
                0 <= qx * len <= 0,
                qx >= 0,
                len >= 1,
        ;
    }
    if dz == 0 {
        assert(qz == 0) by (nonlinear_arith)
            requires
                0 <= qz * len <= 0,
                qz >= 0,
                len >= 1,
        ;
    }
    assert(r.x * r.x == qx * qx) by (nonlinear_arith)
        requires
            r.x == qx || r.x == -qx,
    ;
    assert(r.z * r.z == qz * qz) by (nonlinear_arith)
        requires
            r.z == qz || r.z == -qz,
    ;
    // short by less than two
    if scalar >= 2 {
        let m = scalar - 2;
        if qx * qx + qz * qz < m * m {
            assert(2 * (qx + qz) < 3 * m) by (nonlinear_arith)
                requires
                    qx * qx + qz * qz < m * m,
                    qx >= 0,
                    qz >= 0,
                    m >= 0,
            ;
            let up = (qx + 1) * (qx + 1) + (qz + 1) * (qz + 1);
            assert(up < m * m + 3 * m + 2) by (nonlinear_arith)
                requires
                    up == (qx + 1) * (qx + 1) + (qz + 1) * (qz + 1),
                    qx * qx + qz * qz < m * m,
                    2 * (qx + qz) < 3 * m,
            ;
            assert(ax_ * ax_ <= ((qx + 1) * len) * ((qx + 1) * len)) by (nonlinear_arith)
                requires
                    0 <= ax_ < (qx + 1) * len,
            ;
            assert(az_ * az_ <= ((qz + 1) * len) * ((qz + 1) * len)) by (nonlinear_arith)
                requires
                    0 <= az_ < (qz + 1) * len,
            ;
            assert(scalar * scalar * big <= up * (len * len)) by (nonlinear_arith)
                requires
                    ax_ * ax_ + az_ * az_ == scalar * scalar * big,
                    ax_ * ax_ <= ((qx + 1) * len) * ((qx + 1) * len),
                    az_ * az_ <= ((qz + 1) * len) * ((qz + 1) * len),
                    up == (qx + 1) * (qx + 1) + (qz + 1) * (qz + 1),
            ;
            assert(scalar * scalar * ((len - 1) * (len - 1)) < scalar * scalar * big) by (nonlinear_arith)
                requires
                    (len - 1) * (len - 1) < big,
                    scalar >= 2,
            ;
            assert(len >= 2 * scalar);
            assert((m * m + 3 * m + 2) * (len * len) <= scalar * scalar * ((len - 1) * (len - 1)))
                by (nonlinear_arith)
                requires
                    scalar == m + 2,
                    m >= 0,
                    len >= 2 * scalar,
            ;
            assert(up * (len * len) < (m * m + 3 * m + 2) * (len * len)) by (nonlinear_arith)
                requires
                    up < m * m + 3 * m + 2,
                    len >= 1,
            ;
            assert(false);
        }
    }
}

/// A positive number below the bisection bound has a rounded-up root.
proof fn lemma_ceil_root_exists(n: int)
    requires
        1 <= n,
    ensures
        exists|r: int| #[trigger] is_ceil_root(r, n),
{
    assert(n <= n * n) by (nonlinear_arith)
        requires
            n >= 1,
    ;
    lemma_ceil_root_below(n, n);
}

proof fn lemma_ceil_root_below(n: int, hi: int)
    requires
        1 <= n <= hi * hi,
        1 <= hi,
    ensures
        exists|r: int| #[trigger] is_ceil_root(r, n),
    decreases hi,
{
    if (hi - 1) * (hi - 1) < n {
        assert(is_ceil_root(hi, n));
    } else {
        assert(hi - 1 >= 1) by (nonlinear_arith)
            requires
                (hi - 1) * (hi - 1) >= n,
                n >= 1,
                hi >= 1,
        ;
        lemma_ceil_root_below(n, hi - 1);
    }
}

fn div_toward_zero(a: i128, b: i128) -> (r: i128)
    requires
        b > 0,
        -0x1_0000_0000_0000_0000_0000_0000 <= a <= 0x1_0000_0000_0000_0000_0000_0000,
    ensures
        r == trunc_div(a as int, b as int),
{
    if a >= 0 {
        a / b
    } else {
        -((-a) / b)
    }
}

/// `(dx, 0, dz)` brought to length `scalar` (see `scaled_direction`).
pub fn scale_direction(dx: i64, dz: i64, scalar: i64) -> (r: Vec3)
    requires
        -DIRECTION_SCALE <= dx <= DIRECTION_SCALE,
        -DIRECTION_SCALE <= dz <= DIRECTION_SCALE,
        0 <= scalar <= 1_000_000_000,
    ensures
        r == scaled_direction(dx as int, dz as int, scalar as int),
        dx == 0 && dz == 0 ==> r == (Vec3 { x: 0, y: 0, z: 0 }),
        dx != 0 || dz != 0 ==> {
            &&& r.y == 0
            &&& (dx >= 0 ==> r.x >= 0) && (dx <= 0 ==> r.x <= 0)
            &&& (dz >= 0 ==> r.z >= 0) && (dz <= 0 ==> r.z <= 0)
            &&& r.x * r.x + r.z * r.z <= scalar * scalar
            &&& scalar >= 2 ==> (scalar - 2) * (scalar - 2) <= r.x * r.x + r.z * r.z
        },
{
    assert(0 <= dx * dx <= 1_000_000) by (nonlinear_arith)
        requires
            -1000 <= dx <= 1000,
    ;
    assert(0 <= dz * dz <= 1_000_000) by (nonlinear_arith)
        requires
            -1000 <= dz <= 1000,
    ;
    let n: i128 = (dx * dx + dz * dz) as i128;
    if n == 0 {
        assert(dx == 0 && dz == 0) by (nonlinear_arith)
            requires
                dx * dx + dz * dz == 0,
        ;
        return Vec3::zero();
    }
    assert(dx != 0 || dz != 0) by (nonlinear_arith)
        requires
            dx * dx + dz * dz != 0,
    ;
    proof {
        lemma_direction_length(dx as int, dz as int, scalar as int);
    }
    let k: i128 = LENGTH_PRECISION;
    assert(1 <= n * k * k <= 0x80_0000_0000_0000_0000_0000) by (nonlinear_arith)
        requires
            1 <= n <= 2_000_000,
            k == 2_000_000_000,
    ;
    let len = ceil_sqrt(n * k * k);
    assert(-0x1_0000_0000_0000_0000_0000_0000 <= (dx as i128) * (scalar as i128) * k <= 0x1_0000_0000_0000_0000_0000_0000)
        by (nonlinear_arith)
        requires
            -1000 <= dx <= 1000,
            0 <= scalar <= 1_000_000_000,
            k == 2_000_000_000,
    ;
    assert(-0x1_0000_0000_0000_0000_0000_0000 <= (dz as i128) * (scalar as i128) * k <= 0x1_0000_0000_0000_0000_0000_0000)
        by (nonlinear_arith)
        requires
            -1000 <= dz <= 1000,
            0 <= scalar <= 1_000_000_000,
            k == 2_000_000_000,
    ;
    let x = div_toward_zero((dx as i128) * (scalar as i128) * k, len);
    let z = div_toward_zero((dz as i128) * (scalar as i128) * k, len);
    Vec3 { x: x as i64, y: 0, z: z as i64 }
}

/// Relies on rand::Rng::gen_range over `lo..hi` on the thread-local
/// generator: a value in `[lo, hi)`. It panics on an empty range, which
/// `requires` leaves out.
#[verifier::external_body]
fn random_in(lo: i64, hi: i64) -> (r: i64)
    requires
        lo < hi,
    ensures
        lo <= r < hi,
{
    rand::thread_rng().gen_range(lo..hi)
}

/// The entity that a spawn of `bundle` with the given tag, health and damage
/// creates under identifier `id`.
pub open spec fn spawned(
    id: EntityId,
    bundle: MovingObjectBundle,
    marker: Marker,
    health: Health,
    damage: CollisionDamage,
) -> Entity {
    Entity {
        id,
        transform: bundle.transform,
        velocity: Some(bundle.velocity),
        acceleration: Some(bundle.acceleration),
        rotation: Some(bundle.rotation),
        roll: Some(bundle.roll),
        collision: Some(bundle.collision),
        damage: Some(damage),
        health: Some(health),
        marker: Some(marker),
        shielded: false,
    }
}

/// A motionless, unturned moving object at `translation`.
pub open spec fn still_bundle(translation: Vec3, velocity: Vec3, acceleration: Vec3, radius: i64, kind: CollisionType) -> MovingObjectBundle {
    MovingObjectBundle {
        velocity: Velocity { value: velocity },
        rotation: Rotation { value: 0 },
        roll: Roll { value: 0 },
        acceleration: Acceleration { value: acceleration },
        collision: Collision { collisions: None, radius, collision_type: kind },
        transform: Transform { translation, yaw: 0, roll: 0 },
    }
}

/// The rock that `place_rock` creates from these draws.
pub open spec fn rock_entity(id: EntityId, translation: Vec3, vdx: int, vdz: int, adx: int, adz: int) -> Entity {
    spawned(
        id,
        still_bundle(
            translation,
            scaled_direction(vdx, vdz, ROCK_VELOCITY_SCALAR as int),
            scaled_direction(adx, adz, ROCK_ACCELERATION_SCALAR as int),
            ROCK_RADIUS,
            CollisionType::Rock,
        ),
        Marker::Rock,
        Health { value: ROCK_HEALTH },
        CollisionDamage { amount: ROCK_DAMAGE },
    )
}

/// `v` lies in the horizontal plane and its length is within rounding of
/// `scalar` (never longer, short by less than two), or it is zero.
pub open spec fn rounded_length(v: Vec3, scalar: int) -> bool {
    ||| v == Vec3 { x: 0, y: 0, z: 0 }
    ||| v.y == 0 && (scalar - 2) * (scalar - 2) <= v.x * v.x + v.z * v.z <= scalar * scalar
}

/// A direction coordinate within the drawing range.
pub open spec fn direction_draw(d: int) -> bool {
    -DIRECTION_SCALE <= d < DIRECTION_SCALE
}

impl World {
    /// Appends an entity built from `bundle`, tagged `marker`, under the next
    /// identifier, and returns that identifier.
    pub fn spawn(&mut self, bundle: MovingObjectBundle, marker: Marker, health: Health, damage: CollisionDamage) -> (id: EntityId)
        requires
            old(self).wf(),
            old(self).next_id < u64::MAX,
            within(bundle.transform.translation, POSITION_LIMIT as int),
            0 <= bundle.collision.radius <= POSITION_LIMIT,
        ensures
            final(self).wf(),
            id == old(self).next_id,
            final(self).next_id == old(self).next_id + 1,
            final(self).entities@ == old(self).entities@.push(spawned(id, bundle, marker, health, damage)),
    {
        let id = self.next_id;
        let e = Entity {
            id,
            transform: bundle.transform,
            velocity: Some(bundle.velocity),
            acceleration: Some(bundle.acceleration),
            rotation: Some(bundle.rotation),
            roll: Some(bundle.roll),
            collision: Some(bundle.collision),
            damage: Some(damage),
            health: Some(health),
            marker: Some(marker),
            shielded: false,
        };
        self.entities.push(e);
        self.next_id = id + 1;
        proof {
            assert forall|i: int| 0 <= i < self.entities@.len() implies (#[trigger] self.entities@[i]).valid() by {
                if i < old(self).entities@.len() {
                    assert(old(self).entities@[i].valid());
                }
            }
        }
        id
    }

    /// Spawns a rock at `translation` whose velocity and acceleration point
    /// along the drawn directions, scaled to the rock's speed and
    /// acceleration.
    pub fn place_rock(&mut self, translation: Vec3, vdx: i64, vdz: i64, adx: i64, adz: i64) -> (id: EntityId)
        requires
            old(self).wf(),
            old(self).next_id < u64::MAX,
            within(translation, POSITION_LIMIT as int),
            direction_draw(vdx as int),
            direction_draw(vdz as int),
            direction_draw(adx as int),
            direction_draw(adz as int),
        ensures
            final(self).wf(),
            id == old(self).next_id,
            final(self).next_id == old(self).next_id + 1,
            final(self).entities@ == old(self).entities@.push(rock_entity(id, translation, vdx as int, vdz as int, adx as int, adz as int)),
            rounded_length(final(self).entities@.last().velocity.unwrap().value, ROCK_VELOCITY_SCALAR as int),
            rounded_length(final(self).entities@.last().acceleration.unwrap().value, ROCK_ACCELERATION_SCALAR as int),
    {
        let velocity = scale_direction(vdx, vdz, ROCK_VELOCITY_SCALAR);
        let acceleration = scale_direction(adx, adz, ROCK_ACCELERATION_SCALAR);
        let bundle = MovingObjectBundle {
            velocity: Velocity::new(velocity),
            rotation: Rotation::new(0),
            roll: Roll::new(0),
            acceleration: Acceleration::new(acceleration),
            collision: Collision::new(ROCK_RADIUS, CollisionType::Rock),
            transform: Transform::from_translation(translation),
        };
        self.spawn(bundle, Marker::Rock, Health::new(ROCK_HEALTH), CollisionDamage::new(ROCK_DAMAGE))
    }

    /// Ticks `timer` by `dt`; when it fires, spawns a rock at a random point
    /// of the spawn area, moving and accelerating in random directions.
    pub fn spawn_rock(&mut self, timer: &mut SpawnTimer, dt: u32) -> (r: Option<EntityId>)
        requires
            old(self).wf(),
            old(self).next_id < u64::MAX,
            old(timer).wf(),
        ensures
            final(self).wf(),
            final(timer).wf(),
            final(timer).duration_ms == old(timer).duration_ms,
            final(timer).elapsed_ms == (old(timer).elapsed_ms + dt) % (old(timer).duration_ms as int),
            (old(timer).elapsed_ms + dt >= old(timer).duration_ms) == (r is Some),
            r is None ==> *final(self) == *old(self),
            r matches Some(id) ==> {
                &&& id == old(self).next_id
                &&& rounded_length(final(self).entities@.last().velocity.unwrap().value, ROCK_VELOCITY_SCALAR as int)
                &&& rounded_length(final(self).entities@.last().acceleration.unwrap().value, ROCK_ACCELERATION_SCALAR as int)
                &&& final(self).next_id == old(self).next_id + 1
                &&& exists|x: int, z: int, vdx: int, vdz: int, adx: int, adz: int|
                    -ROCK_RANGE_X <= x < ROCK_RANGE_X && 0 <= z < ROCK_RANGE_Z
                    && direction_draw(vdx) && direction_draw(vdz)
                    && direction_draw(adx) && direction_draw(adz)
                    && final(self).entities@ == old(self).entities@.push(
                        #[trigger] rock_entity(id, Vec3 { x: x as i64, y: 0, z: z as i64 }, vdx, vdz, adx, adz),
                    )
            },
    {
        if !timer.tick(dt) {
            return None;
        }
        let x = random_in(-ROCK_RANGE_X, ROCK_RANGE_X);
        let z = random_in(0, ROCK_RANGE_Z);
        let vdx = random_in(-DIRECTION_SCALE, DIRECTION_SCALE);
        let vdz = random_in(-DIRECTION_SCALE, DIRECTION_SCALE);
        let adx = random_in(-DIRECTION_SCALE, DIRECTION_SCALE);
        let adz = random_in(-DIRECTION_SCALE, DIRECTION_SCALE);
        let translation = Vec3::new(x, 0, z);
        let id = self.place_rock(translation, vdx, vdz, adx, adz);
        proof {
            let (xi, zi, a, b, c, d) = (x as int, z as int, vdx as int, vdz as int, adx as int, adz as int);
            assert(translation == Vec3 { x: xi as i64, y: 0, z: zi as i64 });
            assert(-ROCK_RANGE_X <= xi < ROCK_RANGE_X && 0 <= zi < ROCK_RANGE_Z
                && direction_draw(a) && direction_draw(b) && direction_draw(c) && direction_draw(d)
                && self.entities@ == old(self).entities@.push(
                    rock_entity(id, Vec3 { x: xi as i64, y: 0, z: zi as i64 }, a, b, c, d)));
            assert(exists|x: int, z: int, vdx: int, vdz: int, adx: int, adz: int|
                    -ROCK_RANGE_X <= x < ROCK_RANGE_X && 0 <= z < ROCK_RANGE_Z
                    && direction_draw(vdx) && direction_draw(vdz)
                    && direction_draw(adx) && direction_draw(adz)
                    && self.entities@ == old(self).entities@.push(
                        #[trigger] rock_entity(id, Vec3 { x: x as i64, y: 0, z: z as i64 }, vdx, vdz, adx, adz),
                    ));
            assert(id == old(self).next_id);
            assert(self.next_id == old(self).next_id + 1);
        }
        Some(id)
    }
}

} // verus!
