//! The orbit controller: accumulates per-frame rotate, pan and zoom deltas
//! into a spherical camera state (yaw and pitch around a target at a
//! radius), with the pitch held away from the poles and the radius clamped,
//! and derives the resulting look transform through fixed-point trigonometry.

use vstd::prelude::*;
use vstd::arithmetic::div_mod::{lemma_div_is_ordered, lemma_fundamental_div_mod};
use crate::fixed::{clamp_spec, clamp_i64, div_trunc, div_trunc_i64, lemma_div_trunc_mag, SCALE};
use crate::look_transform::{LookTransform, Vec3};
use crate::projection::Vec2;

verus! {

/// Half a turn, in raw fixed-point radians.
pub const PI_FX: i64 = 3142;

/// A quarter turn, in raw fixed-point radians.
pub const HALF_PI_FX: i64 = 1571;

/// A full turn, in raw fixed-point radians.
pub const TWO_PI_FX: i64 = 6284;

/// How close to a pole the pitch may come, in raw radians.
pub const POLE_EPS: i64 = 10;

/// Largest pitch magnitude: a quarter turn short of the pole margin.
pub const PITCH_LIMIT: i64 = 1561;

/// An angle wrapped into one full turn, as a value.
pub open spec fn wrap_angle_spec(a: int) -> int {
    a % (TWO_PI_FX as int)
}

/// Wrap an accumulated angle into `[0, TWO_PI_FX)`.
pub fn wrap_angle(a: i64) -> (r: i64)
    requires
        -1_000_000_000 <= a <= 1_000_000_000,
    ensures
        r == wrap_angle_spec(a as int),
        0 <= r < TWO_PI_FX,
{
    if a >= 0 {
        a % TWO_PI_FX
    } else {
        let m: i64 = (-a - 1) % TWO_PI_FX;
        proof {
            lemma_negative_mod(a as int, TWO_PI_FX as int);
        }
        TWO_PI_FX - 1 - m
    }
}

/// For a negative value, the Euclidean remainder is one full turn short of
/// the remainder of its reflection about minus one.
proof fn lemma_negative_mod(a: int, m: int)
    requires
        a < 0,
        m > 0,
    ensures
        a % m == m - 1 - ((-a - 1) % m),
{
    let k = -a - 1;
    lemma_fundamental_div_mod(k, m);
    let q = k / m;
    let r = k % m;
    assert(a == -(m * q + r + 1));
    assert(a == (-q - 1) * m + (m - r - 1)) by (nonlinear_arith)
        requires
            a == -(m * q + r + 1),
    ;
    vstd::arithmetic::div_mod::lemma_fundamental_div_mod_converse(
        a,
        m,
        -q - 1,
        m - r - 1,
    );
}

/// The rational sine approximation on a half turn, as a value: exact at
/// zero, the quarter turn and the half turn, and within a fraction of a
/// percent between them.
pub open spec fn bhaskara_spec(x: int) -> int
    recommends
        0 <= x <= PI_FX as int,
{
    div_trunc(
        16 * (x * (PI_FX as int - x)) * (SCALE as int),
        5 * (PI_FX as int) * (PI_FX as int) - 4 * (x * (PI_FX as int - x)),
    )
}

/// Sine of a wrapped angle, as a value: the half-turn approximation, odd
/// around the half turn.
pub open spec fn sin_spec(x: int) -> int
    recommends
        0 <= x < TWO_PI_FX as int,
{
    if x <= PI_FX as int {
        bhaskara_spec(x)
    } else {
        -bhaskara_spec(x - PI_FX as int)
    }
}

/// Cosine of a wrapped angle, as a value: sine a quarter turn ahead.
pub open spec fn cos_spec(x: int) -> int
    recommends
        0 <= x < TWO_PI_FX as int,
{
    sin_spec(wrap_angle_spec(x + HALF_PI_FX as int))
}

/// The half-turn sine approximation stays within one unit.
pub proof fn lemma_bhaskara_bounds(x: int)
    requires
        0 <= x <= PI_FX as int,
    ensures
        0 <= bhaskara_spec(x) <= SCALE as int,
{
    let p = PI_FX as int;
    let t = x * (p - x);
    assert(0 <= t && 4 * t <= p * p) by (nonlinear_arith)
        requires
            t == x * (p - x),
            0 <= x <= p,
    ;
    let num = 16 * t * (SCALE as int);
    let den = 5 * p * p - 4 * t;
    assert(den >= 4 * p * p);
    assert(num >= 0);
    lemma_div_trunc_mag(num, den);
    assert(num <= (SCALE as int) * den) by (nonlinear_arith)
        requires
            num == 16 * t * (SCALE as int),
            den == 5 * p * p - 4 * t,
            4 * t <= p * p,
            t >= 0,
    ;
    lemma_div_is_ordered(num, (SCALE as int) * den, den);
    vstd::arithmetic::div_mod::lemma_div_by_multiple(SCALE as int, den);
    assert((SCALE as int) * den == den * (SCALE as int)) by (nonlinear_arith);
}

/// The sine of any wrapped angle stays within one unit either way.
pub proof fn lemma_sin_bounds(x: int)
    requires
        0 <= x < TWO_PI_FX as int,
    ensures
        -(SCALE as int) <= sin_spec(x) <= SCALE as int,
{
    if x <= PI_FX as int {
        lemma_bhaskara_bounds(x);
    } else {
        lemma_bhaskara_bounds(x - PI_FX as int);
    }
}

/// Sine of a wrapped angle.
pub fn sin_fx(x: i64) -> (r: i64)
    requires
        0 <= x < TWO_PI_FX,
    ensures
        r == sin_spec(x as int),
        -SCALE <= r <= SCALE,
{
    proof {
        lemma_sin_bounds(x as int);
    }
    if x <= PI_FX {
        proof {
            lemma_bhaskara_bounds(x as int);
        }
        bhaskara_half(x)
    } else {
        proof {
            lemma_bhaskara_bounds(x as int - PI_FX as int);
        }
        -bhaskara_half(x - PI_FX)
    }
}

/// The half-turn sine approximation on raw radians.
fn bhaskara_half(x: i64) -> (r: i64)
    requires
        0 <= x <= PI_FX,
    ensures
        r == bhaskara_spec(x as int),
{
    proof {
        assert(0 <= x * (PI_FX as int - x) && 4 * (x * (PI_FX as int - x)) <= PI_FX as int
            * PI_FX as int) by (nonlinear_arith)
            requires
                0 <= x <= PI_FX as int,
                PI_FX as int == 3142,
        ;
    }
    let t: i64 = x * (PI_FX - x);
    let num: i64 = 16 * t * SCALE;
    let den: i64 = 5 * PI_FX * PI_FX - 4 * t;
    div_trunc_i64(num, den)
}

/// Cosine of a wrapped angle.
pub fn cos_fx(x: i64) -> (r: i64)
    requires
        0 <= x < TWO_PI_FX,
    ensures
        r == cos_spec(x as int),
        -SCALE <= r <= SCALE,
{
    let shifted = wrap_angle(x + HALF_PI_FX);
    proof {
        lemma_sin_bounds(shifted as int);
    }
    sin_fx(shifted)
}

/// Away from the poles the cosine stays strictly positive, so the look
/// direction never becomes vertical and the up vector never flips.
pub proof fn lemma_cos_positive_off_poles(pitch: int)
    requires
        -(PITCH_LIMIT as int) <= pitch <= PITCH_LIMIT as int,
    ensures
        cos_spec(wrap_angle_spec(pitch)) >= 1,
{
    let p = PI_FX as int;
    let w = wrap_angle_spec(pitch);
    if pitch >= 0 {
        assert(w == pitch);
        assert(wrap_angle_spec(pitch + HALF_PI_FX as int) == pitch + HALF_PI_FX as int);
        lemma_bhaskara_positive(pitch + HALF_PI_FX as int);
    } else {
        assert(w == pitch + TWO_PI_FX as int);
        let sh = w + HALF_PI_FX as int;
        assert(sh >= TWO_PI_FX as int);
        assert(wrap_angle_spec(sh) == sh - TWO_PI_FX as int) by {
            lemma_mod_shift(sh, TWO_PI_FX as int);
        }
        lemma_bhaskara_positive(sh - TWO_PI_FX as int);
    }
}

proof fn lemma_mod_shift(x: int, m: int)
    requires
        m > 0,
        m <= x < 2 * m,
    ensures
        x % m == x - m,
{
    vstd::arithmetic::div_mod::lemma_fundamental_div_mod_converse(x, m, 1, x - m);
}

/// The half-turn sine approximation is at least one raw unit everywhere at
/// least the pole margin away from both ends.
pub proof fn lemma_bhaskara_positive(x: int)
    requires
        POLE_EPS as int <= x <= PI_FX as int - POLE_EPS as int,
    ensures
        bhaskara_spec(x) >= 1,
{
    let p = PI_FX as int;
    let e = POLE_EPS as int;
    let t = x * (p - x);
    assert(t >= e * (p - e)) by (nonlinear_arith)
        requires
            t == x * (p - x),
            e <= x <= p - e,
            e > 0,
            p > 2 * e,
    ;
    assert(4 * t <= p * p) by (nonlinear_arith)
        requires
            t == x * (p - x),
            0 <= x <= p,
    ;
    let num = 16 * t * (SCALE as int);
    let den = 5 * p * p - 4 * t;
    assert(num >= 16 * (e * (p - e)) * (SCALE as int)) by (nonlinear_arith)
        requires
            t >= e * (p - e),
            num == 16 * t * (SCALE as int),
            e * (p - e) >= 0,
    ;
    assert(num >= den) by {
        assert(16 * (e * (p - e)) * (SCALE as int) >= 5 * p * p) by (nonlinear_arith)
            requires
                e == 10,
                p == 3142,
        ;
    }
    assert(div_trunc(num, den) >= 1) by {
        lemma_div_is_ordered(den, num, den);
        vstd::arithmetic::div_mod::lemma_div_by_multiple(1, den);
        assert(1 * den == den * 1) by (nonlinear_arith);
        assert(den * 1 == den);
    }
}

/// Largest raw magnitude of a target coordinate, leaving room for the eye
/// offset within the library's coordinate bound.
pub const TARGET_MAX: i64 = 500_000_000;

/// Largest orbit radius, so the eye never leaves the coordinate bound.
pub const ORBIT_RADIUS_MAX: i64 = 400_000_000;

/// Largest per-frame input delta magnitude the controller accepts.
pub const DELTA_MAX: i64 = 1_000_000;

/// Largest sensitivity the controller accepts (ten units of output per raw
/// unit of input).
pub const SENS_MAX: i64 = 10_000;

/// Largest pixels-per-line conversion factor.
pub const PPL_MAX: i64 = 100_000;

/// Accumulates per-frame rotate, pan and zoom deltas into a spherical
/// camera state: yaw and pitch of the eye around a target, at a clamped
/// radius. A controller built with a tracked scale is in scale-zoom mode:
/// zoom deltas drive the scale and leave the radius alone.
#[derive(Clone, Copy, Debug)]
pub struct OrbitController {
    /// Raw output radians per raw unit of pointer motion, per axis.
    pub mouse_rotate_sensitivity: Vec2,
    /// Raw world units of pan per raw unit of pointer motion, per axis.
    pub mouse_translate_sensitivity: Vec2,
    /// Raw zoom fraction per raw unit of scroll.
    pub mouse_wheel_zoom_sensitivity: i64,
    /// Raw pixels one scroll line stands for.
    pub pixels_per_line: i64,
    /// Whether the controller reacts to input at all.
    pub enabled: bool,
    /// Smallest radius zooming in may reach.
    pub min_radius: i64,
    /// Largest radius zooming out may reach.
    pub max_radius: i64,
    /// Heading of the eye around the target, wrapped into one turn.
    pub yaw: i64,
    /// Elevation of the eye, clamped away from the poles.
    pub pitch: i64,
    /// Raw distance from the target to the eye.
    pub radius: i64,
    /// The point the camera orbits.
    pub target: Vec3,
    /// The tracked zoom scale, when the controller is in scale-zoom mode.
    pub scale: Option<i64>,
}

/// The controller's invariant: sensitivities and configuration in range,
/// the radius inside its clamp bounds, the yaw wrapped, the pitch off the
/// poles, the target and scale bounded.
pub open spec fn orbit_wf(c: OrbitController) -> bool {
    &&& 0 <= c.mouse_rotate_sensitivity.x <= SENS_MAX
    &&& 0 <= c.mouse_rotate_sensitivity.y <= SENS_MAX
    &&& 0 <= c.mouse_translate_sensitivity.x <= SENS_MAX
    &&& 0 <= c.mouse_translate_sensitivity.y <= SENS_MAX
    &&& 0 <= c.mouse_wheel_zoom_sensitivity <= SENS_MAX
    &&& 1 <= c.pixels_per_line <= PPL_MAX
    &&& 0 < c.min_radius <= c.max_radius <= ORBIT_RADIUS_MAX
    &&& c.min_radius <= c.radius <= c.max_radius
    &&& 0 <= c.yaw < TWO_PI_FX
    &&& -PITCH_LIMIT <= c.pitch <= PITCH_LIMIT
    &&& -TARGET_MAX <= c.target.x <= TARGET_MAX
    &&& -TARGET_MAX <= c.target.y <= TARGET_MAX
    &&& -TARGET_MAX <= c.target.z <= TARGET_MAX
    &&& (c.scale matches Some(s) ==> 1 <= s <= crate::projection::MAX_DIM)
}

/// A per-frame input delta the controller accepts.
pub open spec fn delta_ok(d: int) -> bool {
    -(DELTA_MAX as int) <= d <= DELTA_MAX as int
}

/// The camera's right direction for a heading, a raw unit vector.
pub open spec fn right_basis_spec(yaw: int) -> Vec3 {
    Vec3 { x: cos_spec(yaw) as i64, y: 0, z: (-sin_spec(yaw)) as i64 }
}

/// The camera's up direction for a heading and elevation, a raw unit
/// vector.
pub open spec fn up_basis_spec(yaw: int, pitch: int) -> Vec3 {
    let pw = wrap_angle_spec(pitch);
    Vec3 {
        x: div_trunc(-(sin_spec(pw) * sin_spec(yaw)), SCALE as int) as i64,
        y: cos_spec(pw) as i64,
        z: div_trunc(-(sin_spec(pw) * cos_spec(yaw)), SCALE as int) as i64,
    }
}

/// The raw unit vector from the target toward the eye, for a heading and an
/// elevation.
pub open spec fn orbit_unit_spec(yaw: int, pitch: int) -> Vec3 {
    let pw = wrap_angle_spec(pitch);
    Vec3 {
        x: div_trunc(cos_spec(pw) * sin_spec(yaw), SCALE as int) as i64,
        y: sin_spec(pw) as i64,
        z: div_trunc(cos_spec(pw) * cos_spec(yaw), SCALE as int) as i64,
    }
}

/// The state one frame of input yields, as a value. Rotation turns the
/// heading and clamps the elevation away from the poles; panning shifts the
/// target along the camera's right and up directions, clamped to the
/// working volume; zooming scales the radius — or, in scale-zoom mode, the
/// tracked scale — toward or away from the target, clamped so it can never
/// collapse, invert or escape. A disabled controller ignores its input.
pub open spec fn control_spec(
    c: OrbitController,
    rotate_delta: Vec2,
    translate_delta: Vec2,
    zoom_delta: int,
) -> OrbitController {
    if !c.enabled {
        c
    } else {
        let yaw2 = wrap_angle_spec(
            c.yaw + div_trunc(rotate_delta.x * c.mouse_rotate_sensitivity.x, SCALE as int),
        );
        let pitch2 = clamp_spec(
            c.pitch + div_trunc(rotate_delta.y * c.mouse_rotate_sensitivity.y, SCALE as int),
            -PITCH_LIMIT as int,
            PITCH_LIMIT as int,
        );
        let tx = div_trunc(translate_delta.x * c.mouse_translate_sensitivity.x, SCALE as int);
        let ty = div_trunc(translate_delta.y * c.mouse_translate_sensitivity.y, SCALE as int);
        let right = right_basis_spec(yaw2);
        let upb = up_basis_spec(yaw2, pitch2);
        let target2 = Vec3 {
            x: clamp_spec(
                c.target.x + div_trunc(right.x * tx + upb.x * ty, SCALE as int),
                -TARGET_MAX as int,
                TARGET_MAX as int,
            ) as i64,
            y: clamp_spec(
                c.target.y + div_trunc(right.y * tx + upb.y * ty, SCALE as int),
                -TARGET_MAX as int,
                TARGET_MAX as int,
            ) as i64,
            z: clamp_spec(
                c.target.z + div_trunc(right.z * tx + upb.z * ty, SCALE as int),
                -TARGET_MAX as int,
                TARGET_MAX as int,
            ) as i64,
        };
        let f = SCALE as int - div_trunc(zoom_delta * c.mouse_wheel_zoom_sensitivity, SCALE as int);
        match c.scale {
            Some(s) => OrbitController {
                yaw: yaw2 as i64,
                pitch: pitch2 as i64,
                target: target2,
                scale: Some(
                    clamp_spec(
                        div_trunc(s * f, SCALE as int),
                        1,
                        crate::projection::MAX_DIM as int,
                    ) as i64,
                ),
                ..c
            },
            None => OrbitController {
                yaw: yaw2 as i64,
                pitch: pitch2 as i64,
                target: target2,
                radius: clamp_spec(
                    div_trunc(c.radius * f, SCALE as int),
                    c.min_radius as int,
                    c.max_radius as int,
                ) as i64,
                ..c
            },
        }
    }
}

impl OrbitController {
    /// A controller orbiting a target at a radius, with unit sensitivities,
    /// the conventional scroll-line size, the full working radius range,
    /// and no tracked scale: zoom drives the radius.
    pub fn new(radius: i64, target: Vec3) -> (r: OrbitController)
        requires
            SCALE <= radius <= ORBIT_RADIUS_MAX,
            -TARGET_MAX <= target.x <= TARGET_MAX,
            -TARGET_MAX <= target.y <= TARGET_MAX,
            -TARGET_MAX <= target.z <= TARGET_MAX,
        ensures
            r == (OrbitController {
                mouse_rotate_sensitivity: Vec2 { x: SCALE, y: SCALE },
                mouse_translate_sensitivity: Vec2 { x: SCALE, y: SCALE },
                mouse_wheel_zoom_sensitivity: SCALE,
                pixels_per_line: 53_000,
                enabled: true,
                min_radius: SCALE,
                max_radius: ORBIT_RADIUS_MAX,
                yaw: 0,
                pitch: 0,
                radius,
                target,
                scale: None::<i64>,
            }),
            orbit_wf(r),
    {
        OrbitController {
            mouse_rotate_sensitivity: Vec2 { x: SCALE, y: SCALE },
            mouse_translate_sensitivity: Vec2 { x: SCALE, y: SCALE },
            mouse_wheel_zoom_sensitivity: SCALE,
            pixels_per_line: 53_000,
            enabled: true,
            min_radius: SCALE,
            max_radius: ORBIT_RADIUS_MAX,
            yaw: 0,
            pitch: 0,
            radius,
            target,
            scale: None,
        }
    }

    /// Like `new`, but with an explicitly tracked initial scale: the
    /// controller is then in scale-zoom mode and zoom drives the scale.
    pub fn new_with_scale(radius: i64, target: Vec3, scale: i64) -> (r: OrbitController)
        requires
            SCALE <= radius <= ORBIT_RADIUS_MAX,
            -TARGET_MAX <= target.x <= TARGET_MAX,
            -TARGET_MAX <= target.y <= TARGET_MAX,
            -TARGET_MAX <= target.z <= TARGET_MAX,
            1 <= scale <= crate::projection::MAX_DIM,
        ensures
            r == (OrbitController { scale: Some(scale), ..OrbitController::new_spec(radius, target) }),
            orbit_wf(r),
    {
        let mut c = OrbitController::new(radius, target);
        c.scale = Some(scale);
        c
    }

    /// The state `new` builds, as a value.
    pub open spec fn new_spec(radius: i64, target: Vec3) -> OrbitController {
        OrbitController {
            mouse_rotate_sensitivity: Vec2 { x: SCALE, y: SCALE },
            mouse_translate_sensitivity: Vec2 { x: SCALE, y: SCALE },
            mouse_wheel_zoom_sensitivity: SCALE,
            pixels_per_line: 53_000,
            enabled: true,
            min_radius: SCALE,
            max_radius: ORBIT_RADIUS_MAX,
            yaw: 0,
            pitch: 0,
            radius,
            target,
            scale: None,
        }
    }

    /// Apply one frame of aggregated input deltas.
    pub fn control(&mut self, rotate_delta: Vec2, translate_delta: Vec2, zoom_delta: i64)
        requires
            orbit_wf(*old(self)),
            delta_ok(rotate_delta.x as int),
            delta_ok(rotate_delta.y as int),
            delta_ok(translate_delta.x as int),
            delta_ok(translate_delta.y as int),
            delta_ok(zoom_delta as int),
        ensures
            *final(self) == control_spec(*old(self), rotate_delta, translate_delta, zoom_delta as int),
            orbit_wf(*final(self)),
            final(self).min_radius <= final(self).radius <= final(self).max_radius,
            -PITCH_LIMIT <= final(self).pitch <= PITCH_LIMIT,
    {
        if !self.enabled {
            return ;
        }
        proof {
            lemma_scaled_delta_bound(rotate_delta.x as int, self.mouse_rotate_sensitivity.x as int);
            lemma_scaled_delta_bound(rotate_delta.y as int, self.mouse_rotate_sensitivity.y as int);
            lemma_scaled_delta_bound(
                translate_delta.x as int,
                self.mouse_translate_sensitivity.x as int,
            );
            lemma_scaled_delta_bound(
                translate_delta.y as int,
                self.mouse_translate_sensitivity.y as int,
            );
            lemma_scaled_delta_bound(zoom_delta as int, self.mouse_wheel_zoom_sensitivity as int);
        }
        let yaw2 = wrap_angle(
            self.yaw + div_trunc_i64(rotate_delta.x * self.mouse_rotate_sensitivity.x, SCALE),
        );
        let pitch2 = clamp_i64(
            self.pitch + div_trunc_i64(rotate_delta.y * self.mouse_rotate_sensitivity.y, SCALE),
            -PITCH_LIMIT,
            PITCH_LIMIT,
        );
        let tx = div_trunc_i64(translate_delta.x * self.mouse_translate_sensitivity.x, SCALE);
        let ty = div_trunc_i64(translate_delta.y * self.mouse_translate_sensitivity.y, SCALE);
        let right = right_basis(yaw2);
        let upb = up_basis(yaw2, pitch2);
        proof {
            lemma_pan_component_bound(right.x as int, tx as int, upb.x as int, ty as int);
            lemma_pan_component_bound(right.y as int, tx as int, upb.y as int, ty as int);
            lemma_pan_component_bound(right.z as int, tx as int, upb.z as int, ty as int);
        }
        self.target = Vec3 {
            x: clamp_i64(
                self.target.x + div_trunc_i64(right.x * tx + upb.x * ty, SCALE),
                -TARGET_MAX,
                TARGET_MAX,
            ),
            y: clamp_i64(
                self.target.y + div_trunc_i64(right.y * tx + upb.y * ty, SCALE),
                -TARGET_MAX,
                TARGET_MAX,
            ),
            z: clamp_i64(
                self.target.z + div_trunc_i64(right.z * tx + upb.z * ty, SCALE),
                -TARGET_MAX,
                TARGET_MAX,
            ),
        };
        let f = SCALE - div_trunc_i64(zoom_delta * self.mouse_wheel_zoom_sensitivity, SCALE);
        match self.scale {
            Some(s) => {
                proof {
                    lemma_zoom_product_bound(s as int, f as int);
                }
                self.scale = Some(
                    clamp_i64(div_trunc_i64(s * f, SCALE), 1, crate::projection::MAX_DIM),
                );
            },
            None => {
                proof {
                    lemma_zoom_product_bound(self.radius as int, f as int);
                }
                self.radius = clamp_i64(
                    div_trunc_i64(self.radius * f, SCALE),
                    self.min_radius,
                    self.max_radius,
                );
            },
        }
        self.yaw = yaw2;
        self.pitch = pitch2;
    }

    /// The look transform the current state stands for: the eye placed at
    /// the radius along the heading and elevation from the target, the
    /// default world up, and the tracked scale passed through.
    pub fn look_transform(&self) -> (r: LookTransform)
        requires
            orbit_wf(*self),
        ensures
            r == orbit_look_transform_spec(*self),
            crate::look_transform::look_transform_bounded(r),
    {
        let pw = wrap_angle(self.pitch);
        let sp = sin_fx(pw);
        let cp = cos_fx(pw);
        let sy = sin_fx(self.yaw);
        let cy = cos_fx(self.yaw);
        proof {
            lemma_unit_products_bound(cp as int, sy as int);
            lemma_unit_products_bound(cp as int, cy as int);
        }
        let ux = div_trunc_i64(cp * sy, SCALE);
        let uy = sp;
        let uz = div_trunc_i64(cp * cy, SCALE);
        proof {
            lemma_eye_offset_bound(self.radius as int, ux as int);
            lemma_eye_offset_bound(self.radius as int, uy as int);
            lemma_eye_offset_bound(self.radius as int, uz as int);
        }
        let eye = Vec3 {
            x: self.target.x + div_trunc_i64(self.radius * ux, SCALE),
            y: self.target.y + div_trunc_i64(self.radius * uy, SCALE),
            z: self.target.z + div_trunc_i64(self.radius * uz, SCALE),
        };
        LookTransform { eye, target: self.target, up: None, scale: self.scale }
    }
}

/// The look transform an orbit state stands for, as a value.
pub open spec fn orbit_look_transform_spec(c: OrbitController) -> LookTransform {
    let u = orbit_unit_spec(c.yaw as int, c.pitch as int);
    LookTransform {
        eye: Vec3 {
            x: (c.target.x + div_trunc(c.radius * u.x, SCALE as int)) as i64,
            y: (c.target.y + div_trunc(c.radius * u.y, SCALE as int)) as i64,
            z: (c.target.z + div_trunc(c.radius * u.z, SCALE as int)) as i64,
        },
        target: c.target,
        up: None,
        scale: c.scale,
    }
}

/// The camera's right direction for a heading.
pub fn right_basis(yaw: i64) -> (r: Vec3)
    requires
        0 <= yaw < TWO_PI_FX,
    ensures
        r == right_basis_spec(yaw as int),
        -SCALE <= r.x <= SCALE,
        r.y == 0,
        -SCALE <= r.z <= SCALE,
{
    let s = sin_fx(yaw);
    let c = cos_fx(yaw);
    Vec3 { x: c, y: 0, z: -s }
}

/// The camera's up direction for a heading and an elevation.
pub fn up_basis(yaw: i64, pitch: i64) -> (r: Vec3)
    requires
        0 <= yaw < TWO_PI_FX,
        -PITCH_LIMIT <= pitch <= PITCH_LIMIT,
    ensures
        r == up_basis_spec(yaw as int, pitch as int),
        -SCALE <= r.x <= SCALE,
        -SCALE <= r.y <= SCALE,
        -SCALE <= r.z <= SCALE,
{
    let pw = wrap_angle(pitch);
    let sp = sin_fx(pw);
    let sy = sin_fx(yaw);
    let cy = cos_fx(yaw);
    let cp = cos_fx(pw);
    proof {
        lemma_unit_products_bound(sp as int, sy as int);
        lemma_unit_products_bound(sp as int, cy as int);
    }
    Vec3 {
        x: div_trunc_i64(-(sp * sy), SCALE),
        y: cp,
        z: div_trunc_i64(-(sp * cy), SCALE),
    }
}

/// Scroll lines and leftover pixels combined into one raw pixel delta.
pub fn scroll_to_pixels(c: &OrbitController, lines: i64, pixels: i64) -> (r: i64)
    requires
        orbit_wf(*c),
        delta_ok(lines as int),
        delta_ok(pixels as int),
    ensures
        r == div_trunc(lines * c.pixels_per_line as int, SCALE as int) + pixels,
{
    proof {
        assert(-(100_000_000_000int * 1000) <= lines * c.pixels_per_line
            <= 100_000_000_000int * 1000) by (nonlinear_arith)
            requires
                -1_000_000 <= lines <= 1_000_000,
                1 <= c.pixels_per_line <= 100_000,
        ;
        crate::fixed::lemma_div_trunc_quotient_bound(
            lines * c.pixels_per_line as int,
            SCALE as int,
            100_000_000_000,
        );
    }
    div_trunc_i64(lines * c.pixels_per_line, SCALE) + pixels
}

/// A delta times a sensitivity, divided by `SCALE`, stays within ten
/// million raw units, and the product itself within the machine word.
proof fn lemma_scaled_delta_bound(d: int, sens: int)
    requires
        -(DELTA_MAX as int) <= d <= DELTA_MAX as int,
        0 <= sens <= SENS_MAX as int,
    ensures
        -(10_000_000_000int) <= d * sens <= 10_000_000_000int,
        -10_000_000 <= div_trunc(d * sens, SCALE as int) <= 10_000_000,
{
    assert(-(10_000_000_000int) <= d * sens <= 10_000_000_000int) by (nonlinear_arith)
        requires
            -1_000_000 <= d <= 1_000_000,
            0 <= sens <= 10_000,
    ;
    crate::fixed::lemma_div_trunc_quotient_bound(d * sens, SCALE as int, 10_000_000);
}

/// A pan offset component: two unit-basis components times scaled deltas,
/// summed and divided by `SCALE`, stays within twenty million raw units.
proof fn lemma_pan_component_bound(rc: int, tx: int, uc: int, ty: int)
    requires
        -(SCALE as int) <= rc <= SCALE as int,
        -(SCALE as int) <= uc <= SCALE as int,
        -10_000_000 <= tx <= 10_000_000,
        -10_000_000 <= ty <= 10_000_000,
    ensures
        -10_000_000_000int <= rc * tx <= 10_000_000_000int,
        -10_000_000_000int <= uc * ty <= 10_000_000_000int,
        -20_000_000_000int <= rc * tx + uc * ty <= 20_000_000_000int,
        -20_000_000 <= div_trunc(rc * tx + uc * ty, SCALE as int) <= 20_000_000,
{
    assert(-10_000_000_000int <= rc * tx <= 10_000_000_000int && -10_000_000_000int <= uc * ty
        <= 10_000_000_000int) by (nonlinear_arith)
        requires
            -1000 <= rc <= 1000,
            -1000 <= uc <= 1000,
            -10_000_000 <= tx <= 10_000_000,
            -10_000_000 <= ty <= 10_000_000,
    ;
    assert(-20_000_000_000int <= rc * tx + uc * ty <= 20_000_000_000int) by (nonlinear_arith)
        requires
            -1000 <= rc <= 1000,
            -1000 <= uc <= 1000,
            -10_000_000 <= tx <= 10_000_000,
            -10_000_000 <= ty <= 10_000_000,
    ;
    crate::fixed::lemma_div_trunc_quotient_bound(rc * tx + uc * ty, SCALE as int, 20_000_000);
}

/// A radius or scale times a zoom factor stays within the machine word.
proof fn lemma_zoom_product_bound(v: int, f: int)
    requires
        0 <= v <= ORBIT_RADIUS_MAX as int,
        -10_001_000 <= f <= 10_001_000,
    ensures
        -9_000_000_000_000_000_000int <= v * f <= 9_000_000_000_000_000_000int,
{
    assert(-9_000_000_000_000_000_000int <= v * f <= 9_000_000_000_000_000_000int)
        by (nonlinear_arith)
        requires
            0 <= v <= 400_000_000,
            -10_001_000 <= f <= 10_001_000,
    ;
}

/// Two raw unit components multiplied stay within `SCALE` squared, and
/// their scaled product within one unit.
proof fn lemma_unit_products_bound(a: int, b: int)
    requires
        -(SCALE as int) <= a <= SCALE as int,
        -(SCALE as int) <= b <= SCALE as int,
    ensures
        -1_000_000 <= a * b <= 1_000_000,
        -(SCALE as int) <= div_trunc(a * b, SCALE as int) <= SCALE as int,
{
    assert(-1_000_000 <= a * b <= 1_000_000) by (nonlinear_arith)
        requires
            -1000 <= a <= 1000,
            -1000 <= b <= 1000,
    ;
    crate::fixed::lemma_div_trunc_quotient_bound(a * b, SCALE as int, SCALE as int);
}

/// An eye offset component: the radius times a raw unit component, divided
/// by `SCALE`, never exceeds the radius itself.
proof fn lemma_eye_offset_bound(radius: int, u: int)
    requires
        0 <= radius <= ORBIT_RADIUS_MAX as int,
        -(SCALE as int) <= u <= SCALE as int,
    ensures
        -(400_000_000_000int) <= radius * u <= 400_000_000_000int,
        -(radius) <= div_trunc(radius * u, SCALE as int) <= radius,
{
    assert(-(400_000_000_000int) <= radius * u <= 400_000_000_000int && -(radius
        * SCALE as int) <= radius * u <= radius * SCALE as int) by (nonlinear_arith)
        requires
            0 <= radius <= 400_000_000,
            -1000 <= u <= 1000,
            SCALE as int == 1000,
    ;
    crate::fixed::lemma_div_trunc_quotient_bound(radius * u, SCALE as int, radius);
}

/// Zooming never collapses, inverts or escapes the radius: whatever the
/// deltas, one frame of input leaves the radius inside the configured
/// clamp bounds.
pub proof fn lemma_zoom_stays_clamped(
    c: OrbitController,
    rotate_delta: Vec2,
    translate_delta: Vec2,
    zoom_delta: int,
)
    requires
        orbit_wf(c),
    ensures
        c.min_radius <= control_spec(c, rotate_delta, translate_delta, zoom_delta).radius
            <= c.max_radius,
{
}

/// Extreme rotate deltas never reach a pole: whatever the deltas, one frame
/// of input leaves the pitch within the pole margin, where the cosine of
/// the elevation — and with it the upright orientation — stays strictly
/// positive.
pub proof fn lemma_pitch_stays_off_poles(
    c: OrbitController,
    rotate_delta: Vec2,
    translate_delta: Vec2,
    zoom_delta: int,
)
    requires
        orbit_wf(c),
    ensures
        -PITCH_LIMIT <= control_spec(c, rotate_delta, translate_delta, zoom_delta).pitch
            <= PITCH_LIMIT,
        cos_spec(
            wrap_angle_spec(control_spec(c, rotate_delta, translate_delta, zoom_delta).pitch as int),
        ) >= 1,
{
    let pitch2 = control_spec(c, rotate_delta, translate_delta, zoom_delta).pitch;
    lemma_cos_positive_off_poles(pitch2 as int);
}

} // verus!
