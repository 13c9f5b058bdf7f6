//! The look transform: an eye, the target it looks at, an optional up hint
//! and an optional zoom scale, all in raw fixed-point coordinates, together
//! with the derivation of a renderable view pose from it.

use vstd::prelude::*;
use vstd::arithmetic::mul::lemma_mul_inequality;
use crate::fixed::{bounded, div_trunc, div_trunc_i64, SCALE};

verus! {

/// A three-component vector of raw fixed-point scalars.
#[derive(Clone, Copy, Debug, PartialEq, Eq, Structural)]
pub struct Vec3 {
    pub x: i64,
    pub y: i64,
    pub z: i64,
}

/// Every component within the library's coordinate bound.
pub open spec fn vec3_bounded(v: Vec3) -> bool {
    bounded(v.x as int) && bounded(v.y as int) && bounded(v.z as int)
}

impl Vec3 {
    /// Build a vector from raw components.
    pub fn new(x: i64, y: i64, z: i64) -> (r: Vec3)
        ensures
            r == (Vec3 { x, y, z }),
    {
        Vec3 { x, y, z }
    }
}

/// The world-up direction, a unit vector along positive `y`.
pub fn world_up() -> (r: Vec3)
    ensures
        r == world_up_spec(),
{
    Vec3 { x: 0, y: SCALE, z: 0 }
}

/// The world-up direction as a value.
pub open spec fn world_up_spec() -> Vec3 {
    Vec3 { x: 0, y: SCALE as i64, z: 0 }
}

/// Componentwise difference, as a value.
pub open spec fn vec3_sub_spec(a: Vec3, b: Vec3) -> Vec3 {
    Vec3 { x: (a.x - b.x) as i64, y: (a.y - b.y) as i64, z: (a.z - b.z) as i64 }
}

/// Componentwise sum, as a value.
pub open spec fn vec3_add_spec(a: Vec3, b: Vec3) -> Vec3 {
    Vec3 { x: (a.x + b.x) as i64, y: (a.y + b.y) as i64, z: (a.z + b.z) as i64 }
}

/// Componentwise sum of bounded vectors.
pub fn vec3_add(a: Vec3, b: Vec3) -> (r: Vec3)
    requires
        vec3_bounded(a),
        vec3_bounded(b),
    ensures
        r == vec3_add_spec(a, b),
{
    Vec3 { x: a.x + b.x, y: a.y + b.y, z: a.z + b.z }
}

/// Squared length of the offset from `b` to `a`, in raw squared units.
pub open spec fn dist_sq(a: Vec3, b: Vec3) -> int {
    (a.x - b.x) * (a.x - b.x) + (a.y - b.y) * (a.y - b.y) + (a.z - b.z) * (a.z - b.z)
}

/// `r` is the floor of the square root of `n`.
pub open spec fn is_sqrt_floor(n: int, r: int) -> bool {
    0 <= r && r * r <= n && n < (r + 1) * (r + 1)
}

/// The floor of the square root, as a value.
pub open spec fn sqrt_floor(n: int) -> int {
    choose|r: int| is_sqrt_floor(n, r)
}

/// The floor square root is unique, so a witness pins `sqrt_floor`.
pub proof fn lemma_sqrt_floor_unique(n: int, r: int)
    requires
        is_sqrt_floor(n, r),
    ensures
        r == sqrt_floor(n),
{
    let c = sqrt_floor(n);
    assert(is_sqrt_floor(n, c));
    if c < r {
        lemma_mul_inequality(c + 1, r, c + 1);
        lemma_mul_inequality(c + 1, r, r);
        assert(false);
    }
    if r < c {
        lemma_mul_inequality(r + 1, c, r + 1);
        lemma_mul_inequality(r + 1, c, c);
        assert(false);
    }
}

/// Integer square root by bisection.
pub fn isqrt_u64(n: u64) -> (r: u64)
    requires
        n < 16_000_000_000_000_000_000,
    ensures
        is_sqrt_floor(n as int, r as int),
        r as int == sqrt_floor(n as int),
{
    let mut lo: u64 = 0;
    let mut hi: u64 = 4_000_000_000;
    while lo + 1 < hi
        invariant
            lo < hi,
            hi <= 4_000_000_000,
            lo * lo <= n,
            (n as int) < (hi as int) * (hi as int),
        decreases hi - lo,
    {
        let mid = lo + (hi - lo) / 2;
        proof {
            assert(mid * mid < 16_000_000_000_000_000_000) by (nonlinear_arith)
                requires
                    0 <= mid < 4_000_000_000,
            ;
        }
        if mid * mid <= n {
            lo = mid;
        } else {
            hi = mid;
        }
    }
    proof {
        lemma_sqrt_floor_unique(n as int, lo as int);
    }
    lo
}

/// An eye and the target it looks at, with an optional up hint and an
/// optional zoom scale. This is the state the smoother damps and the orbit
/// controller drives; a host renderer keeps its own transform in sync with
/// the pose derived from it.
#[derive(Clone, Copy, Debug, PartialEq)]
pub struct LookTransform {
    pub eye: Vec3,
    pub target: Vec3,
    pub up: Option<Vec3>,
    pub scale: Option<i64>,
}

/// All coordinates of a look transform within the library's bounds.
pub open spec fn look_transform_bounded(t: LookTransform) -> bool {
    &&& vec3_bounded(t.eye)
    &&& vec3_bounded(t.target)
    &&& (t.up matches Some(u) ==> vec3_bounded(u))
    &&& (t.scale matches Some(s) ==> bounded(s as int))
}

impl LookTransform {
    /// A look transform with no up hint and no scale.
    pub fn new(eye: Vec3, target: Vec3) -> (r: LookTransform)
        ensures
            r == (LookTransform { eye, target, up: None::<Vec3>, scale: None::<i64> }),
    {
        LookTransform { eye, target, up: None, scale: None }
    }

    /// A look transform that also tracks an explicit zoom scale.
    pub fn new_with_scale(eye: Vec3, target: Vec3, scale: i64) -> (r: LookTransform)
        ensures
            r == (LookTransform { eye, target, up: None::<Vec3>, scale: Some(scale) }),
    {
        LookTransform { eye, target, up: None, scale: Some(scale) }
    }

    /// Raw distance from the eye to the target: the floor square root of the
    /// squared offset.
    pub fn radius(&self) -> (r: i64)
        requires
            vec3_bounded(self.eye),
            vec3_bounded(self.target),
        ensures
            r as int == sqrt_floor(dist_sq(self.target, self.eye)),
            is_sqrt_floor(dist_sq(self.target, self.eye), r as int),
    {
        let dx: i64 = self.target.x - self.eye.x;
        let dy: i64 = self.target.y - self.eye.y;
        let dz: i64 = self.target.z - self.eye.z;
        proof {
            lemma_square_bound(dx as int);
            lemma_square_bound(dy as int);
            lemma_square_bound(dz as int);
        }
        let sq: u64 = (dx * dx) as u64 + (dy * dy) as u64 + (dz * dz) as u64;
        let r = isqrt_u64(sq);
        proof {
            lemma_sqrt_root_bound(sq as int, r as int);
        }
        r as i64
    }

    /// The unit vector from the eye toward the target, in raw fixed-point
    /// form, or nothing when the two coincide.
    pub fn look_direction(&self) -> (r: Option<Vec3>)
        requires
            vec3_bounded(self.eye),
            vec3_bounded(self.target),
        ensures
            r == look_direction_spec(*self),
    {
        let dx: i64 = self.target.x - self.eye.x;
        let dy: i64 = self.target.y - self.eye.y;
        let dz: i64 = self.target.z - self.eye.z;
        if dx == 0 && dy == 0 && dz == 0 {
            None
        } else {
            proof {
                lemma_square_bound(dx as int);
                lemma_square_bound(dy as int);
                lemma_square_bound(dz as int);
            }
            let sq: u64 = (dx * dx) as u64 + (dy * dy) as u64 + (dz * dz) as u64;
            proof {
                assert(sq >= 1) by (nonlinear_arith)
                    requires
                        sq == dx * dx + dy * dy + dz * dz,
                        !(dx == 0 && dy == 0 && dz == 0),
                ;
            }
            let len = isqrt_u64(sq);
            proof {
                lemma_sqrt_pos(sq as int, len as int);
                lemma_sqrt_root_bound(sq as int, len as int);
            }
            Some(
                Vec3 {
                    x: div_trunc_i64(dx * SCALE, len as i64),
                    y: div_trunc_i64(dy * SCALE, len as i64),
                    z: div_trunc_i64(dz * SCALE, len as i64),
                },
            )
        }
    }
}

/// The look direction as a value: each raw component of the offset is scaled
/// by `SCALE` and divided by the floor-square-root length.
pub open spec fn look_direction_spec(t: LookTransform) -> Option<Vec3> {
    let d = vec3_sub_spec(t.target, t.eye);
    if d.x == 0 && d.y == 0 && d.z == 0 {
        None
    } else {
        let len = sqrt_floor(dist_sq(t.target, t.eye));
        Some(
            Vec3 {
                x: div_trunc(d.x * SCALE as int, len) as i64,
                y: div_trunc(d.y * SCALE as int, len) as i64,
                z: div_trunc(d.z * SCALE as int, len) as i64,
            },
        )
    }
}

proof fn lemma_square_bound(d: int)
    requires
        -2_000_000_000 <= d <= 2_000_000_000,
    ensures
        0 <= d * d <= 4_000_000_000_000_000_000,
{
    assert(0 <= d * d <= 4_000_000_000_000_000_000) by (nonlinear_arith)
        requires
            -2_000_000_000 <= d <= 2_000_000_000,
    ;
}

proof fn lemma_sqrt_pos(n: int, r: int)
    requires
        is_sqrt_floor(n, r),
        n >= 1,
    ensures
        r >= 1,
{
    if r == 0 {
        assert(n < 1);
    }
}

proof fn lemma_sqrt_root_bound(n: int, r: int)
    requires
        is_sqrt_floor(n, r),
        n <= 16_000_000_000_000_000_000,
    ensures
        r <= 4_000_000_000,
{
    if r > 4_000_000_000 {
        lemma_mul_inequality(4_000_000_001, r, 4_000_000_001);
        lemma_mul_inequality(4_000_000_001, r, r);
        assert(false);
    }
}

/// The renderable pose derived from a look transform: where the camera sits,
/// the point one unit ahead of it along the look direction, and the up hint
/// to build the orientation from.
#[derive(Clone, Copy, Debug, PartialEq, Eq, Structural)]
pub struct ViewPose {
    pub position: Vec3,
    pub look_at: Vec3,
    pub up: Vec3,
}

/// The forward direction used when eye and target coincide: straight down
/// the negative `z` axis, the conventional camera forward.
pub open spec fn fallback_forward_spec() -> Vec3 {
    Vec3 { x: 0, y: 0, z: (-SCALE) as i64 }
}

/// The pose a look transform yields, as a value: the eye, the eye advanced
/// one unit along the look direction (or along the fallback forward when the
/// direction is undefined), and the up hint or world up.
pub open spec fn view_pose_spec(t: LookTransform) -> ViewPose {
    let dir = match look_direction_spec(t) {
        Some(d) => d,
        None => fallback_forward_spec(),
    };
    ViewPose {
        position: t.eye,
        look_at: vec3_add_spec(t.eye, dir),
        up: match t.up {
            Some(u) => u,
            None => world_up_spec(),
        },
    }
}

/// Derive the renderable pose from a look transform. When the eye sits on
/// the target the look direction is undefined; the pose then degrades to a
/// fixed forward direction instead of failing.
pub fn eye_look_at_target_pose(t: &LookTransform) -> (r: ViewPose)
    requires
        look_transform_bounded(*t),
    ensures
        r == view_pose_spec(*t),
{
    let dir = match t.look_direction() {
        Some(d) => d,
        None => Vec3 { x: 0, y: 0, z: -SCALE },
    };
    proof {
        lemma_look_direction_bounded(*t);
    }
    let look_at = vec3_add(t.eye, dir);
    let up = match t.up {
        Some(u) => u,
        None => world_up(),
    };
    ViewPose { position: t.eye, look_at, up }
}

/// Each component of a look direction is a unit-scaled quotient, so it stays
/// within the coordinate bound.
pub proof fn lemma_look_direction_bounded(t: LookTransform)
    requires
        vec3_bounded(t.eye),
        vec3_bounded(t.target),
    ensures
        look_direction_spec(t) matches Some(d) ==> vec3_bounded(d),
{
    let dv = vec3_sub_spec(t.target, t.eye);
    if !(dv.x == 0 && dv.y == 0 && dv.z == 0) {
        let n = dist_sq(t.target, t.eye);
        assert(0 <= n <= 12_000_000_000_000_000_000) by (nonlinear_arith)
            requires
                n == (t.target.x - t.eye.x) * (t.target.x - t.eye.x) + (t.target.y - t.eye.y) * (
                t.target.y - t.eye.y) + (t.target.z - t.eye.z) * (t.target.z - t.eye.z),
                -2_000_000_000 <= t.target.x - t.eye.x <= 2_000_000_000,
                -2_000_000_000 <= t.target.y - t.eye.y <= 2_000_000_000,
                -2_000_000_000 <= t.target.z - t.eye.z <= 2_000_000_000,
        ;
        let len = sqrt_floor(n);
        assert(is_sqrt_floor(n, len)) by {
            lemma_sqrt_exists(n);
        }
        lemma_component_quotient_bounded(dv.x as int, dv.y as int, dv.z as int, len);
        lemma_component_quotient_bounded(dv.y as int, dv.x as int, dv.z as int, len);
        lemma_component_quotient_bounded(dv.z as int, dv.x as int, dv.y as int, len);
    }
}

/// A floor square root exists for every nonnegative argument below the
/// library's working range.
pub proof fn lemma_sqrt_exists(n: int)
    requires
        0 <= n <= 16_000_000_000_000_000_000,
    ensures
        is_sqrt_floor(n, sqrt_floor(n)),
    decreases n,
{
    if n == 0 {
        assert(is_sqrt_floor(0, 0));
        assert(is_sqrt_floor(n, sqrt_floor(n))) by {
            assert(exists|r: int| is_sqrt_floor(n, r));
        }
    } else {
        lemma_sqrt_exists(n - 1);
        let p = sqrt_floor(n - 1);
        if (p + 1) * (p + 1) <= n {
            assert(n - 1 < (p + 1) * (p + 1));
            assert(n < (p + 2) * (p + 2)) by (nonlinear_arith)
                requires
                    p >= 0,
                    n <= (p + 1) * (p + 1),
            ;
            assert(is_sqrt_floor(n, p + 1));
        } else {
            assert(is_sqrt_floor(n, p));
        }
        assert(exists|r: int| is_sqrt_floor(n, r));
    }
}

/// With a length at least the magnitude of one component, the unit-scaled
/// quotient of that component stays within one `SCALE` of zero, hence within
/// the coordinate bound.
proof fn lemma_component_quotient_bounded(c: int, o1: int, o2: int, len: int)
    requires
        is_sqrt_floor(c * c + o1 * o1 + o2 * o2, len) || is_sqrt_floor(
            o1 * o1 + c * c + o2 * o2,
            len,
        ) || is_sqrt_floor(o1 * o1 + o2 * o2 + c * c, len),
        !(c == 0 && o1 == 0 && o2 == 0),
    ensures
        bounded(div_trunc(c * SCALE as int, len)),
{
    let n = if is_sqrt_floor(c * c + o1 * o1 + o2 * o2, len) {
        c * c + o1 * o1 + o2 * o2
    } else if is_sqrt_floor(o1 * o1 + c * c + o2 * o2, len) {
        o1 * o1 + c * c + o2 * o2
    } else {
        o1 * o1 + o2 * o2 + c * c
    };
    assert(n == c * c + o1 * o1 + o2 * o2) by (nonlinear_arith)
        requires
            n == c * c + o1 * o1 + o2 * o2 || n == o1 * o1 + c * c + o2 * o2 || n == o1 * o1 + o2
                * o2 + c * c,
    ;
    assert(o1 * o1 >= 0 && o2 * o2 >= 0 && c * c >= 0) by (nonlinear_arith);
    assert(n >= 1) by (nonlinear_arith)
        requires
            n == c * c + o1 * o1 + o2 * o2,
            !(c == 0 && o1 == 0 && o2 == 0),
    ;
    assert(len >= 1) by {
        lemma_sqrt_pos(n, len);
    }
    let m = if c >= 0 {
        c
    } else {
        -c
    };
    assert(m * m <= n) by (nonlinear_arith)
        requires
            n == c * c + o1 * o1 + o2 * o2,
            m == c || m == -c,
    ;
    assert(m <= len) by {
        if m > len {
            lemma_mul_inequality(len + 1, m, len + 1);
            lemma_mul_inequality(len + 1, m, m);
        }
    }
    assert(div_trunc(m * SCALE as int, len) <= SCALE as int) by {
        lemma_mul_inequality(m, len, SCALE as int);
        assert(m * SCALE as int == SCALE as int * m && len * SCALE as int == SCALE as int
            * len) by (nonlinear_arith);
        vstd::arithmetic::div_mod::lemma_div_is_ordered(
            m * SCALE as int,
            len * SCALE as int,
            len,
        );
        assert((len * SCALE as int) / len == SCALE as int) by {
            vstd::arithmetic::div_mod::lemma_div_by_multiple(SCALE as int, len);
            assert(SCALE as int * len == len * SCALE as int) by (nonlinear_arith);
        }
        assert(m * SCALE as int >= 0) by (nonlinear_arith)
            requires
                m >= 0,
        ;
    }
    crate::fixed::lemma_div_trunc_mag(c * SCALE as int, len);
    assert(c * SCALE as int == -(m * SCALE as int) || c * SCALE as int == m
        * SCALE as int) by (nonlinear_arith)
        requires
            m == c || m == -c,
    ;
    assert(div_trunc(c * SCALE as int, len) == -div_trunc(m * SCALE as int, len) || div_trunc(
        c * SCALE as int,
        len,
    ) == div_trunc(m * SCALE as int, len));
    assert(div_trunc(m * SCALE as int, len) >= 0) by {
        crate::fixed::lemma_div_trunc_mag(m * SCALE as int, len);
        assert(m * SCALE as int >= 0) by (nonlinear_arith)
            requires
                m >= 0,
        ;
    }
}

} // verus!
