//! Projection parameters: derive an orthographic projection's visible area
//! from the viewport dimensions, the scaling mode, the zoom scale and the
//! fractional viewport origin — a pure function of those five inputs.

use vstd::prelude::*;
use vstd::arithmetic::div_mod::{lemma_div_is_ordered, lemma_div_is_ordered_by_denominator};
use crate::fixed::{div_trunc, div_trunc_i64, lemma_div_trunc_mag, SCALE};

verus! {

/// A two-component vector of raw fixed-point scalars.
#[derive(Clone, Copy, Debug, PartialEq, Eq, Structural)]
pub struct Vec2 {
    pub x: i64,
    pub y: i64,
}

/// An axis-aligned rectangle of raw fixed-point coordinates.
#[derive(Clone, Copy, Debug, PartialEq, Eq, Structural)]
pub struct Rect {
    pub min: Vec2,
    pub max: Vec2,
}

/// Largest raw viewport dimension, scaling-mode parameter or zoom scale the
/// updater accepts (ten thousand units).
pub const MAX_DIM: i64 = 10_000_000;

/// How the projection's size follows the viewport's pixel dimensions.
#[derive(Clone, Copy, Debug, PartialEq, Eq, Structural)]
pub enum ScalingMode {
    /// One world unit for each `pixel_scale` pixels, in both directions.
    WindowSize(i64),
    /// Keep both dimensions at least at the given minimums, preserving the
    /// viewport's aspect ratio.
    AutoMin { min_width: i64, min_height: i64 },
    /// Keep both dimensions at most at the given maximums, preserving the
    /// viewport's aspect ratio.
    AutoMax { max_width: i64, max_height: i64 },
    /// Hold the height fixed and derive the width from the aspect ratio.
    FixedVertical(i64),
    /// Hold the width fixed and derive the height from the aspect ratio.
    FixedHorizontal(i64),
    /// Ignore the viewport size entirely.
    Fixed { width: i64, height: i64 },
}

/// Every parameter of a scaling mode positive and within the working range.
pub open spec fn scaling_mode_wf(m: ScalingMode) -> bool {
    match m {
        ScalingMode::WindowSize(s) => SCALE as int <= s <= MAX_DIM as int,
        ScalingMode::AutoMin { min_width, min_height } => SCALE as int <= min_width
            <= MAX_DIM as int && SCALE as int <= min_height <= MAX_DIM as int,
        ScalingMode::AutoMax { max_width, max_height } => SCALE as int <= max_width
            <= MAX_DIM as int && SCALE as int <= max_height <= MAX_DIM as int,
        ScalingMode::FixedVertical(h) => SCALE as int <= h <= MAX_DIM as int,
        ScalingMode::FixedHorizontal(w) => SCALE as int <= w <= MAX_DIM as int,
        ScalingMode::Fixed { width, height } => SCALE as int <= width <= MAX_DIM as int
            && SCALE as int <= height <= MAX_DIM as int,
    }
}

/// A viewport dimension the updater accepts: at least one unit, at most the
/// working range.
pub open spec fn dim_ok(d: int) -> bool {
    SCALE as int <= d <= MAX_DIM as int
}

/// The projection size a scaling mode yields for a viewport, as a pair of
/// raw width and height.
pub open spec fn projection_size_spec(m: ScalingMode, width: int, height: int) -> (int, int)
    recommends
        scaling_mode_wf(m),
        dim_ok(width),
        dim_ok(height),
{
    match m {
        ScalingMode::WindowSize(s) => (
            div_trunc(width * SCALE as int, s as int),
            div_trunc(height * SCALE as int, s as int),
        ),
        ScalingMode::AutoMin { min_width, min_height } => if width * (min_height as int)
            > (min_width as int) * height {
            (div_trunc(width * (min_height as int), height), min_height as int)
        } else {
            (min_width as int, div_trunc(height * (min_width as int), width))
        },
        ScalingMode::AutoMax { max_width, max_height } => if width * (max_height as int)
            < (max_width as int) * height {
            (div_trunc(width * (max_height as int), height), max_height as int)
        } else {
            (max_width as int, div_trunc(height * (max_width as int), width))
        },
        ScalingMode::FixedVertical(h) => (div_trunc(width * (h as int), height), h as int),
        ScalingMode::FixedHorizontal(w) => (w as int, div_trunc(height * (w as int), width)),
        ScalingMode::Fixed { width: w, height: h } => (w as int, h as int),
    }
}

/// The visible area: the projection size anchored at the fractional
/// viewport origin and multiplied by the zoom scale.
pub open spec fn area_spec(
    m: ScalingMode,
    viewport_origin: Vec2,
    scale: int,
    width: int,
    height: int,
) -> Rect {
    let (pw, ph) = projection_size_spec(m, width, height);
    let ox = div_trunc(pw * viewport_origin.x, SCALE as int);
    let oy = div_trunc(ph * viewport_origin.y, SCALE as int);
    Rect {
        min: Vec2 {
            x: div_trunc(scale * -ox, SCALE as int) as i64,
            y: div_trunc(scale * -oy, SCALE as int) as i64,
        },
        max: Vec2 {
            x: div_trunc(scale * (pw - ox), SCALE as int) as i64,
            y: div_trunc(scale * (ph - oy), SCALE as int) as i64,
        },
    }
}

/// Orthographic projection parameters. The `area` field is recomputed
/// deterministically from the other fields and the viewport dimensions; no
/// hidden state takes part.
#[derive(Clone, Copy, Debug, PartialEq, Eq, Structural)]
pub struct OrthographicProjection {
    /// Raw distance of the near clip plane.
    pub near: i64,
    /// Raw distance of the far clip plane; always beyond `near`.
    pub far: i64,
    /// Fractional anchor of the viewport, each component in `[0, SCALE]`.
    pub viewport_origin: Vec2,
    /// How the projection size follows the viewport size.
    pub scaling_mode: ScalingMode,
    /// Zoom scale applied to the visible area, out of `SCALE`.
    pub scale: i64,
    /// The visible world-space rectangle, as last recomputed.
    pub area: Rect,
}

/// The projection's invariant: ordered clip planes, a valid scaling mode, a
/// fractional origin and a positive bounded scale.
pub open spec fn projection_wf(p: OrthographicProjection) -> bool {
    &&& p.near < p.far
    &&& scaling_mode_wf(p.scaling_mode)
    &&& 0 <= p.viewport_origin.x <= SCALE as int
    &&& 0 <= p.viewport_origin.y <= SCALE as int
    &&& 0 < p.scale <= MAX_DIM as int
}

impl OrthographicProjection {
    /// A projection with the conventional defaults: clip planes from zero to
    /// a thousand units, centred origin, window-sized scaling, unit scale,
    /// and an empty area awaiting the first update.
    pub fn conventional() -> (r: OrthographicProjection)
        ensures
            r == (OrthographicProjection {
                near: 0,
                far: 1_000_000,
                viewport_origin: Vec2 { x: 500, y: 500 },
                scaling_mode: ScalingMode::WindowSize(SCALE),
                scale: SCALE,
                area: Rect { min: Vec2 { x: 0, y: 0 }, max: Vec2 { x: 0, y: 0 } },
            }),
            projection_wf(r),
    {
        OrthographicProjection {
            near: 0,
            far: 1_000_000,
            viewport_origin: Vec2 { x: 500, y: 500 },
            scaling_mode: ScalingMode::WindowSize(SCALE),
            scale: SCALE,
            area: Rect { min: Vec2 { x: 0, y: 0 }, max: Vec2 { x: 0, y: 0 } },
        }
    }

    /// Recompute the visible area for the given viewport dimensions. A pure
    /// function of the projection's parameters and the dimensions: nothing
    /// else changes, so equal inputs always yield the identical area.
    pub fn update(&mut self, width: i64, height: i64)
        requires
            projection_wf(*old(self)),
            dim_ok(width as int),
            dim_ok(height as int),
        ensures
            *final(self) == (OrthographicProjection {
                area: area_spec(
                    old(self).scaling_mode,
                    old(self).viewport_origin,
                    old(self).scale as int,
                    width as int,
                    height as int,
                ),
                ..*old(self)
            }),
            projection_wf(*final(self)),
    {
        let (pw, ph): (i64, i64) = match self.scaling_mode {
            ScalingMode::WindowSize(s) => {
                proof {
                    lemma_size_quotient_bounds(width as int, SCALE as int, s as int);
                    lemma_size_quotient_bounds(height as int, SCALE as int, s as int);
                }
                (div_trunc_i64(width * SCALE, s), div_trunc_i64(height * SCALE, s))
            },
            ScalingMode::AutoMin { min_width, min_height } => {
                proof {
                    lemma_size_quotient_bounds(width as int, min_height as int, height as int);
                    lemma_size_quotient_bounds(min_width as int, height as int, width as int);
                }
                if width * min_height > min_width * height {
                    proof {
                        lemma_size_quotient_bounds(width as int, min_height as int, height as int);
                    }
                    (div_trunc_i64(width * min_height, height), min_height)
                } else {
                    proof {
                        lemma_size_quotient_bounds(height as int, min_width as int, width as int);
                    }
                    (min_width, div_trunc_i64(height * min_width, width))
                }
            },
            ScalingMode::AutoMax { max_width, max_height } => {
                proof {
                    lemma_size_quotient_bounds(width as int, max_height as int, height as int);
                    lemma_size_quotient_bounds(max_width as int, height as int, width as int);
                }
                if width * max_height < max_width * height {
                    proof {
                        lemma_size_quotient_bounds(width as int, max_height as int, height as int);
                    }
                    (div_trunc_i64(width * max_height, height), max_height)
                } else {
                    proof {
                        lemma_size_quotient_bounds(height as int, max_width as int, width as int);
                    }
                    (max_width, div_trunc_i64(height * max_width, width))
                }
            },
            ScalingMode::FixedVertical(h) => {
                proof {
                    lemma_size_quotient_bounds(width as int, h as int, height as int);
                }
                (div_trunc_i64(width * h, height), h)
            },
            ScalingMode::FixedHorizontal(w) => {
                proof {
                    lemma_size_quotient_bounds(height as int, w as int, width as int);
                }
                (w, div_trunc_i64(height * w, width))
            },
            ScalingMode::Fixed { width: w, height: h } => (w, h),
        };
        proof {
            lemma_origin_bounds(pw as int, self.viewport_origin.x as int);
            lemma_origin_bounds(ph as int, self.viewport_origin.y as int);
        }
        let ox = div_trunc_i64(pw * self.viewport_origin.x, SCALE);
        let oy = div_trunc_i64(ph * self.viewport_origin.y, SCALE);
        proof {
            lemma_area_product_bounds(self.scale as int, ox as int, pw as int);
            lemma_area_product_bounds(self.scale as int, oy as int, ph as int);
        }
        self.area = Rect {
            min: Vec2 {
                x: div_trunc_i64(self.scale * -ox, SCALE),
                y: div_trunc_i64(self.scale * -oy, SCALE),
            },
            max: Vec2 {
                x: div_trunc_i64(self.scale * (pw - ox), SCALE),
                y: div_trunc_i64(self.scale * (ph - oy), SCALE),
            },
        };
    }

    /// The pair to hand a reversed-depth projection matrix: the far plane in
    /// the matrix's near slot and the near plane in its far slot. The swap
    /// is the documented convention for inverted depth ranges, not an
    /// accident, and is preserved exactly.
    pub fn clip_planes_reversed(&self) -> (r: (i64, i64))
        ensures
            r.0 == self.far,
            r.1 == self.near,
    {
        (self.far, self.near)
    }
}

/// The area derivation is deterministic: two projections that agree on
/// scaling mode, viewport origin and scale derive the identical area from
/// identical viewport dimensions.
pub proof fn lemma_update_deterministic(
    a: OrthographicProjection,
    b: OrthographicProjection,
    width: int,
    height: int,
)
    requires
        a.scaling_mode == b.scaling_mode,
        a.viewport_origin == b.viewport_origin,
        a.scale == b.scale,
    ensures
        area_spec(a.scaling_mode, a.viewport_origin, a.scale as int, width, height) == area_spec(
            b.scaling_mode,
            b.viewport_origin,
            b.scale as int,
            width,
            height,
        ),
{
}

/// A scaled aspect quotient `a * f / d` stays within `[0, MAX_DIM * MAX_DIM
/// / SCALE]` when all three factors are in the working range.
proof fn lemma_size_quotient_bounds(a: int, f: int, d: int)
    requires
        SCALE as int <= a <= MAX_DIM as int,
        SCALE as int <= f <= MAX_DIM as int,
        SCALE as int <= d <= MAX_DIM as int,
    ensures
        0 <= a * f <= 100_000_000_000_000,
        0 <= div_trunc(a * f, d) <= 100_000_000_000,
{
    assert(0 <= a * f <= 100_000_000_000_000) by (nonlinear_arith)
        requires
            1000 <= a <= 10_000_000,
            1000 <= f <= 10_000_000,
    ;
    lemma_div_trunc_mag(a * f, d);
    lemma_div_is_ordered_by_denominator(a * f, SCALE as int, d);
    assert((a * f) / SCALE as int <= 100_000_000_000) by {
        lemma_div_is_ordered(a * f, 100_000_000_000_000, SCALE as int);
        vstd::arithmetic::div_mod::lemma_div_by_multiple(100_000_000_000, 1000);
        assert(100_000_000_000int * 1000 == 100_000_000_000_000int) by (nonlinear_arith);
    }
}

/// The anchored origin lies between zero and the projection size.
proof fn lemma_origin_bounds(size: int, origin: int)
    requires
        0 <= size <= 100_000_000_000,
        0 <= origin <= SCALE as int,
    ensures
        0 <= div_trunc(size * origin, SCALE as int) <= size,
{
    assert(0 <= size * origin <= size * SCALE as int) by (nonlinear_arith)
        requires
            0 <= size,
            0 <= origin <= SCALE as int,
    ;
    lemma_div_trunc_mag(size * origin, SCALE as int);
    lemma_div_is_ordered(size * origin, size * SCALE as int, SCALE as int);
    vstd::arithmetic::div_mod::lemma_div_by_multiple(size, SCALE as int);
    assert(size * SCALE as int == SCALE as int * size) by (nonlinear_arith);
}

/// Scaling an anchored coordinate keeps every intermediate product within
/// the machine word.
proof fn lemma_area_product_bounds(scale: int, origin: int, size: int)
    requires
        0 < scale <= MAX_DIM as int,
        0 <= size <= 100_000_000_000,
        0 <= origin <= size,
    ensures
        -9_000_000_000_000_000_000 <= scale * -origin <= 9_000_000_000_000_000_000,
        -9_000_000_000_000_000_000 <= scale * (size - origin) <= 9_000_000_000_000_000_000,
{
    assert(0 <= scale * origin <= 1_000_000_000_000_000_000 && 0 <= scale * (size - origin)
        <= 1_000_000_000_000_000_000) by (nonlinear_arith)
        requires
            0 < scale <= 10_000_000,
            0 <= size <= 100_000_000_000,
            0 <= origin <= size,
    ;
    assert(scale * -origin == -(scale * origin)) by (nonlinear_arith);
}

} // verus!
