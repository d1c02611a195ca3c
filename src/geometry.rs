use vstd::prelude::*;

verus! {

/// Nano-units in one world unit.
pub const NANOS_PER_UNIT: i64 = 1_000_000_000;

/// Largest magnitude a position coordinate takes: 1000 world units. Positions
/// saturate there; anything that far out is already past the despawn radius.
pub const POSITION_LIMIT: i64 = 1_000_000_000_000;

/// Largest magnitude a velocity coordinate takes (micro-units per second).
pub const VELOCITY_LIMIT: i64 = 1_000_000_000_000;

/// One full turn in micro-radians; angles are kept in `[0, FULL_TURN)`.
pub const FULL_TURN: i64 = 6_283_185;

/// A vector of three fixed-point coordinates.
#[derive(Clone, Copy, Debug, PartialEq, Eq, Structural)]
pub struct Vec3 {
    pub x: i64,
    pub y: i64,
    pub z: i64,
}

impl Vec3 {
    pub fn new(x: i64, y: i64, z: i64) -> (r: Vec3)
        ensures
            r == (Vec3 { x, y, z }),
    {
        Vec3 { x, y, z }
    }

    pub fn zero() -> (r: Vec3)
        ensures
            r == (Vec3 { x: 0, y: 0, z: 0 }),
    {
        Vec3 { x: 0, y: 0, z: 0 }
    }
}

/// `v` saturated into `[-limit, limit]`.
pub open spec fn clamp(v: int, limit: int) -> int {
    if v > limit {
        limit
    } else if v < -limit {
        -limit
    } else {
        v
    }
}

/// Every coordinate of `v` lies within `[-limit, limit]`.
pub open spec fn within(v: Vec3, limit: int) -> bool {
    -limit <= v.x <= limit && -limit <= v.y <= limit && -limit <= v.z <= limit
}

/// `base + rate * dt`, coordinate by coordinate, saturated at `limit`.
pub open spec fn advanced(base: Vec3, rate: Vec3, dt: u32, limit: int) -> Vec3 {
    Vec3 {
        x: clamp(base.x + rate.x * dt, limit) as i64,
        y: clamp(base.y + rate.y * dt, limit) as i64,
        z: clamp(base.z + rate.z * dt, limit) as i64,
    }
}

/// Squared Euclidean distance between two points.
pub open spec fn dist_sq(a: Vec3, b: Vec3) -> int {
    (a.x - b.x) * (a.x - b.x) + (a.y - b.y) * (a.y - b.y) + (a.z - b.z) * (a.z - b.z)
}

/// `angle + delta` brought into `[0, FULL_TURN)`.
pub open spec fn turned(angle: int, delta: int) -> int {
    (angle + delta) % (FULL_TURN as int)
}

fn advance_coord(base: i64, rate: i64, dt: u32, limit: i64) -> (r: i64)
    requires
        limit >= 0,
    ensures
        r == clamp(base + rate * dt, limit as int),
{
    proof {
        assert(-0x8000_0000_0000_0000_0000_0000 <= rate * dt <= 0x8000_0000_0000_0000_0000_0000)
            by (nonlinear_arith)
            requires
                -0x8000_0000_0000_0000 <= rate < 0x8000_0000_0000_0000,
                0 <= dt < 0x1_0000_0000,
        ;
    }
    let t: i128 = base as i128 + (rate as i128) * (dt as i128);
    if t > limit as i128 {
        limit
    } else if t < -(limit as i128) {
        -limit
    } else {
        t as i64
    }
}

/// `base + rate * dt` per coordinate, saturated at `limit`.
pub fn advance(base: Vec3, rate: Vec3, dt: u32, limit: i64) -> (r: Vec3)
    requires
        limit >= 0,
    ensures
        r == advanced(base, rate, dt, limit as int),
        within(r, limit as int),
{
    Vec3 {
        x: advance_coord(base.x, rate.x, dt, limit),
        y: advance_coord(base.y, rate.y, dt, limit),
        z: advance_coord(base.z, rate.z, dt, limit),
    }
}

/// Squared distance between two points that lie within the position limit.
pub fn distance_squared(a: Vec3, b: Vec3) -> (r: i128)
    requires
        within(a, POSITION_LIMIT as int),
        within(b, POSITION_LIMIT as int),
    ensures
        r == dist_sq(a, b),
{
    let dx: i128 = a.x as i128 - b.x as i128;
    let dy: i128 = a.y as i128 - b.y as i128;
    let dz: i128 = a.z as i128 - b.z as i128;
    proof {
        assert(0 <= dx * dx <= 0x10_0000_0000_0000_0000_0000_0000) by (nonlinear_arith)
            requires -2_000_000_000_000 <= dx <= 2_000_000_000_000;
        assert(0 <= dy * dy <= 0x10_0000_0000_0000_0000_0000_0000) by (nonlinear_arith)
            requires -2_000_000_000_000 <= dy <= 2_000_000_000_000;
        assert(0 <= dz * dz <= 0x10_0000_0000_0000_0000_0000_0000) by (nonlinear_arith)
            requires -2_000_000_000_000 <= dz <= 2_000_000_000_000;
    }
    dx * dx + dy * dy + dz * dz
}

/// Turns `angle` by `rate * dt` and brings the result into `[0, FULL_TURN)`.
pub fn advance_angle(angle: i64, rate: i64, dt: u32) -> (r: i64)
    ensures
        r == turned(angle as int, rate * dt),
        0 <= r < FULL_TURN,
{
    proof {
        assert(-0x8000_0000_0000_0000_0000_0000 <= rate * dt <= 0x8000_0000_0000_0000_0000_0000)
            by (nonlinear_arith)
            requires
                -0x8000_0000_0000_0000 <= rate < 0x8000_0000_0000_0000,
                0 <= dt < 0x1_0000_0000,
        ;
    }
    let t: i128 = angle as i128 + (rate as i128) * (dt as i128);
    let turn: i128 = FULL_TURN as i128;
    if t >= 0 {
        let m: i128 = t % turn;
        m as i64
    } else {
        let u: i128 = -t;
        let m: i128 = u % turn;
        proof {
            vstd::arithmetic::div_mod::lemma_fundamental_div_mod(u as int, turn as int);
            vstd::arithmetic::div_mod::lemma_fundamental_div_mod(t as int, turn as int);
            vstd::arithmetic::div_mod::lemma_mod_bound(t as int, turn as int);
            vstd::arithmetic::div_mod::lemma_mod_bound(u as int, turn as int);
            let q = u as int / turn as int;
            if m == 0 {
                assert(t as int == (-q) * turn as int + 0);
                vstd::arithmetic::div_mod::lemma_fundamental_div_mod_converse(t as int, turn as int, -q, 0);
            } else {
                assert(t as int == (-q - 1) * turn as int + (turn - m)) by (nonlinear_arith)
                    requires u == q * turn + m, t == -u;
                vstd::arithmetic::div_mod::lemma_fundamental_div_mod_converse(t as int, turn as int, -q - 1, (turn - m) as int);
            }
        }
        if m == 0 {
            0
        } else {
            (turn - m) as i64
        }
    }
}

} // verus!
