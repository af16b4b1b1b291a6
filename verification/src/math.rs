//! Fixed-point spatial arithmetic.
//!
//! Coordinates are signed 32-bit integers in thousandths of a world unit
//! (milli-units), so 8.0 units is the value 8000.  Distances are compared as
//! squared magnitudes; direction vectors are scaled so that a unit vector has
//! magnitude about 1000.  All intermediate arithmetic is widened far enough
//! that no operation can overflow.

use vstd::prelude::*;

verus! {

/// A position or displacement in milli-units.
#[derive(Clone, Copy, PartialEq, Eq, Structural, Debug)]
pub struct Vec3 {
    pub x: i32,
    pub y: i32,
    pub z: i32,
}

/// A horizontal direction, scaled so a unit direction has magnitude about
/// 1000; the vertical component is dropped.
#[derive(Clone, Copy, PartialEq, Eq, Structural, Debug)]
pub struct Dir2 {
    pub x: i64,
    pub z: i64,
}

impl Vec3 {
    pub open spec fn zero_spec() -> Vec3 {
        Vec3 { x: 0, y: 0, z: 0 }
    }

    pub fn zero() -> (r: Vec3)
        ensures
            r == Vec3::zero_spec(),
    {
        Vec3 { x: 0, y: 0, z: 0 }
    }
}

/// The square of an integer.
pub open spec fn sq(v: int) -> int {
    v * v
}

/// Squared straight-line distance between two positions.
pub open spec fn dist_sq_spec(a: Vec3, b: Vec3) -> int {
    sq(a.x - b.x) + sq(a.y - b.y) + sq(a.z - b.z)
}

/// Squared horizontal (ground-plane) distance between two positions.
pub open spec fn dist_sq_horizontal_spec(a: Vec3, b: Vec3) -> int {
    sq(a.x - b.x) + sq(a.z - b.z)
}

/// The floor of the square root of a non-negative integer.
pub open spec fn sqrt_floor(n: int) -> int {
    choose|r: int| 0 <= r && #[trigger] sq(r) <= n < sq(r + 1)
}

/// A square is never negative.
pub proof fn lemma_sq_nonneg(v: int)
    ensures
        sq(v) >= 0,
{
    assert(v * v >= 0) by (nonlinear_arith);
}

/// Squaring is monotonic on non-negative integers.
proof fn lemma_sq_monotonic(a: int, b: int)
    requires
        0 <= a <= b,
    ensures
        sq(a) <= sq(b),
{
    assert(a * a <= b * b) by (nonlinear_arith)
        requires
            0 <= a <= b,
    ;
}

/// Every non-negative integer has a square-root floor.
proof fn lemma_sqrt_floor_exists(n: int)
    requires
        n >= 0,
    ensures
        0 <= sqrt_floor(n) && sq(sqrt_floor(n)) <= n < sq(sqrt_floor(n) + 1),
    decreases n,
{
    if n == 0 {
        assert(0 <= 0 && sq(0int) <= 0 < sq(1int));
    } else {
        lemma_sqrt_floor_exists(n - 1);
        let r = sqrt_floor(n - 1);
        if sq(r + 1) <= n {
            // The root steps up only when n is itself the next perfect square.
            assert(n == sq(r + 1));
            assert(sq(r + 1) < sq(r + 2)) by (nonlinear_arith)
                requires
                    r >= 0,
            ;
            assert(0 <= r + 1 && sq(r + 1) <= n < sq(r + 2));
        } else {
            assert(0 <= r && sq(r) <= n < sq(r + 1));
        }
    }
}

/// The square-root floor is the only value within its defining bounds.
proof fn lemma_sqrt_floor_unique(n: int, r: int)
    requires
        n >= 0,
        0 <= r,
        sq(r) <= n < sq(r + 1),
    ensures
        sqrt_floor(n) == r,
{
    lemma_sqrt_floor_exists(n);
    let s = sqrt_floor(n);
    if s < r {
        lemma_sq_monotonic(s + 1, r);
    }
    if r < s {
        lemma_sq_monotonic(r + 1, s);
    }
}

/// Saturating subtraction on 64-bit integers, clamped to the representable
/// range.
pub open spec fn sat_sub_spec(a: int, b: int) -> int {
    if a - b > i64::MAX {
        i64::MAX as int
    } else if a - b < i64::MIN {
        i64::MIN as int
    } else {
        a - b
    }
}

/// Subtract `b` from `a`, clamping at the ends of the 64-bit range.
pub fn sat_sub_i64(a: i64, b: i64) -> (r: i64)
    ensures
        r == sat_sub_spec(a as int, b as int),
{
    let wide: i128 = a as i128 - b as i128;
    if wide > i64::MAX as i128 {
        i64::MAX
    } else if wide < i64::MIN as i128 {
        i64::MIN
    } else {
        wide as i64
    }
}

/// Addition on a coordinate, clamped to the 32-bit coordinate range.
pub open spec fn clamp_add_spec(a: int, b: int) -> int {
    if a + b > i32::MAX {
        i32::MAX as int
    } else if a + b < i32::MIN {
        i32::MIN as int
    } else {
        a + b
    }
}

/// Add a displacement to a coordinate, clamping at the edge of the world.
pub fn clamp_add_i32(a: i32, b: i32) -> (r: i32)
    ensures
        r == clamp_add_spec(a as int, b as int),
{
    let wide: i64 = a as i64 + b as i64;
    if wide > i32::MAX as i64 {
        i32::MAX
    } else if wide < i32::MIN as i64 {
        i32::MIN
    } else {
        wide as i32
    }
}

/// A position displaced by a knockback vector, component-wise and clamped.
pub open spec fn knockback_spec(p: Vec3, k: Vec3) -> Vec3 {
    Vec3 {
        x: clamp_add_spec(p.x as int, k.x as int) as i32,
        y: clamp_add_spec(p.y as int, k.y as int) as i32,
        z: clamp_add_spec(p.z as int, k.z as int) as i32,
    }
}

/// Displace a position by a knockback vector.
pub fn apply_knockback(p: Vec3, k: Vec3) -> (r: Vec3)
    ensures
        r == knockback_spec(p, k),
{
    Vec3 {
        x: clamp_add_i32(p.x, k.x),
        y: clamp_add_i32(p.y, k.y),
        z: clamp_add_i32(p.z, k.z),
    }
}

/// Squared straight-line distance between two positions.
pub fn dist_sq(a: Vec3, b: Vec3) -> (r: u128)
    ensures
        r == dist_sq_spec(a, b),
{
    let dx: i128 = a.x as i128 - b.x as i128;
    let dy: i128 = a.y as i128 - b.y as i128;
    let dz: i128 = a.z as i128 - b.z as i128;
    proof {
        lemma_sq_nonneg(dx as int);
        lemma_sq_nonneg(dy as int);
        lemma_sq_nonneg(dz as int);
        lemma_sq_bounded(dx as int);
        lemma_sq_bounded(dy as int);
        lemma_sq_bounded(dz as int);
    }
    (dx * dx + dy * dy + dz * dz) as u128
}

/// Squared horizontal distance between two positions.
pub fn dist_sq_horizontal(a: Vec3, b: Vec3) -> (r: u128)
    ensures
        r == dist_sq_horizontal_spec(a, b),
{
    let dx: i128 = a.x as i128 - b.x as i128;
    let dz: i128 = a.z as i128 - b.z as i128;
    proof {
        lemma_sq_nonneg(dx as int);
        lemma_sq_nonneg(dz as int);
        lemma_sq_bounded(dx as int);
        lemma_sq_bounded(dz as int);
    }
    (dx * dx + dz * dz) as u128
}

/// The square of a coordinate difference stays far below the 128-bit range.
proof fn lemma_sq_bounded(v: int)
    requires
        -0x1_0000_0000 <= v <= 0x1_0000_0000,
    ensures
        sq(v) <= 0x1_0000_0000_0000_0000,
{
    assert(v * v <= 0x1_0000_0000 * 0x1_0000_0000) by (nonlinear_arith)
        requires
            -0x1_0000_0000 <= v <= 0x1_0000_0000,
    ;
}

/// Integer square root: the floor of the square root of `n`.
pub fn isqrt(n: u128) -> (r: u64)
    ensures
        r == sqrt_floor(n as int),
        sq(r as int) <= n < sq(r as int + 1),
{
    let mut lo: u64 = 0;
    let mut hi: u64 = u64::MAX;
    proof {
        assert(sq(u64::MAX as int + 1) > n as int) by (nonlinear_arith)
            requires
                n <= u128::MAX,
        ;
    }
    while lo < hi
        invariant
            sq(lo as int) <= n as int,
            (n as int) < sq(hi as int + 1),
            lo <= hi,
        decreases hi - lo,
    {
        let mid: u64 = lo + (hi - lo) / 2 + 1;
        proof {
            assert((mid as int) * (mid as int) <= (u64::MAX as int) * (u64::MAX as int))
                by (nonlinear_arith)
                requires
                    mid <= u64::MAX,
            ;
        }
        let m2: u128 = (mid as u128) * (mid as u128);
        if m2 <= n {
            lo = mid;
        } else {
            hi = mid - 1;
        }
    }
    proof {
        lemma_sqrt_floor_unique(n as int, lo as int);
    }
    lo
}

/// A direction component scaled to milli-units: the coordinate difference
/// times 1000, divided by the vector's length, with the sign of the
/// difference.
pub open spec fn scale_component(c: int, len: int) -> int {
    if c >= 0 {
        (c * 1000) / len
    } else {
        -((-c * 1000) / len)
    }
}

/// The horizontal direction from `from` towards `to`, scaled so that a unit
/// direction has magnitude about 1000.  The zero vector maps to the zero
/// direction.
#[verifier::opaque]
pub open spec fn chase_direction_spec(from: Vec3, to: Vec3) -> Dir2 {
    let dx = to.x - from.x;
    let dz = to.z - from.z;
    let len = sqrt_floor(sq(dx) + sq(dz));
    if len == 0 {
        Dir2 { x: 0, z: 0 }
    } else {
        Dir2 { x: scale_component(dx, len) as i64, z: scale_component(dz, len) as i64 }
    }
}

/// Scale one non-negative component; shared by both axes of
/// `chase_direction`.
fn scale_magnitude(mag: u64, len: u64) -> (r: u64)
    requires
        len > 0,
        mag <= 0x1_0000_0000,
    ensures
        r == (mag as int * 1000) / (len as int),
{
    let wide: u128 = (mag as u128) * 1000 / (len as u128);
    proof {
        assert((mag as int) * 1000 <= 0x1_0000_0000 * 1000) by (nonlinear_arith)
            requires
                mag <= 0x1_0000_0000,
        ;
    }
    wide as u64
}

/// Compute the normalized (milli-scaled) horizontal direction from `from`
/// towards `to`.
pub fn chase_direction(from: Vec3, to: Vec3) -> (r: Dir2)
    ensures
        r == chase_direction_spec(from, to),
{
    proof {
        reveal(chase_direction_spec);
    }
    let dx: i64 = to.x as i64 - from.x as i64;
    let dz: i64 = to.z as i64 - from.z as i64;
    let ax: u64 = if dx < 0 {
        (-dx) as u64
    } else {
        dx as u64
    };
    let az: u64 = if dz < 0 {
        (-dz) as u64
    } else {
        dz as u64
    };
    proof {
        lemma_sq_nonneg(dx as int);
        lemma_sq_nonneg(dz as int);
        lemma_sq_bounded(dx as int);
        lemma_sq_bounded(dz as int);
        assert(sq(ax as int) == sq(dx as int) && sq(az as int) == sq(dz as int))
            by (nonlinear_arith)
            requires
                ax == if dx < 0 { -(dx as int) } else { dx as int },
                az == if dz < 0 { -(dz as int) } else { dz as int },
        ;
    }
    let sq_sum: u128 = (ax as u128) * (ax as u128) + (az as u128) * (az as u128);
    proof {
        assert((ax as int) * (ax as int) == sq(ax as int));
        assert((az as int) * (az as int) == sq(az as int));
    }
    let len: u64 = isqrt(sq_sum);
    if len == 0 {
        proof {
            if dx != 0 || dz != 0 {
                assert(sq(dx as int) + sq(dz as int) >= 1) by (nonlinear_arith)
                    requires
                        dx != 0 || dz != 0,
                ;
            }
        }
        Dir2 { x: 0, z: 0 }
    } else {
        let qx: u64 = scale_magnitude(ax, len);
        let qz: u64 = scale_magnitude(az, len);
        proof {
            assert((ax as int) * 1000 / (len as int) <= (0x1_0000_0000 * 1000) / 1)
                by (nonlinear_arith)
                requires
                    ax <= 0x1_0000_0000,
                    len >= 1,
            ;
            assert((az as int) * 1000 / (len as int) <= (0x1_0000_0000 * 1000) / 1)
                by (nonlinear_arith)
                requires
                    az <= 0x1_0000_0000,
                    len >= 1,
            ;
        }
        let rx: i64 = if dx < 0 {
            -(qx as i64)
        } else {
            qx as i64
        };
        let rz: i64 = if dz < 0 {
            -(qz as i64)
        } else {
            qz as i64
        };
        Dir2 { x: rx, z: rz }
    }
}

} // verus!
