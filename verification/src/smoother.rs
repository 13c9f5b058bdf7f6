//! Exponential smoothing of a look transform: a lag filter with one piece of
//! history, and the per-frame drive step that feeds a renderable pose from
//! it.

use vstd::prelude::*;
use crate::fixed::{lerp, lerp_spec, lerp_iter, lemma_lerp_between, lemma_lerp_progress,
    lemma_lerp_iter_converges, SCALE};
use crate::look_transform::{
    look_transform_bounded, vec3_bounded, view_pose_spec, eye_look_at_target_pose, LookTransform,
    Vec3, ViewPose,
};

verus! {

/// One lag step on each component of a vector.
pub open spec fn lerp_vec3_spec(prev: Vec3, next: Vec3, lag: int) -> Vec3 {
    Vec3 {
        x: lerp_spec(prev.x as int, next.x as int, lag) as i64,
        y: lerp_spec(prev.y as int, next.y as int, lag) as i64,
        z: lerp_spec(prev.z as int, next.z as int, lag) as i64,
    }
}

/// One executable lag step on a vector.
pub fn lerp_vec3(prev: Vec3, next: Vec3, lag: i64) -> (r: Vec3)
    requires
        vec3_bounded(prev),
        vec3_bounded(next),
        0 <= lag < SCALE,
    ensures
        r == lerp_vec3_spec(prev, next, lag as int),
        vec3_bounded(r),
{
    Vec3 {
        x: lerp(prev.x, next.x, lag),
        y: lerp(prev.y, next.y, lag),
        z: lerp(prev.z, next.z, lag),
    }
}

/// The smoothed transform one step yields: with no history the input seeds
/// the history, so the step is exact; eye and target are lag-interpolated;
/// the up hint passes through; the scale is interpolated only when both
/// sides carry one, else absence propagates.
pub open spec fn smooth_spec(prior: Option<LookTransform>, new: LookTransform, lag: int)
    -> LookTransform {
    let prev = match prior {
        Some(t) => t,
        None => new,
    };
    LookTransform {
        eye: lerp_vec3_spec(prev.eye, new.eye, lag),
        target: lerp_vec3_spec(prev.target, new.target, lag),
        up: new.up,
        scale: match (prev.scale, new.scale) {
            (Some(o), Some(n)) => Some(lerp_spec(o as int, n as int, lag) as i64),
            _ => None,
        },
    }
}

/// Exponential lag filter over a look transform. The lag weight, out of
/// `SCALE`, says how much of the previous frame survives: higher is
/// smoother, and it must stay strictly below `SCALE` or the camera would
/// freeze forever.
#[derive(Clone, Copy, Debug)]
pub struct Smoother {
    /// How much of the previous frame survives, out of `SCALE`.
    pub lag_weight: i64,
    /// The most recent smoothed transform, if any.
    pub lerp_tfm: Option<LookTransform>,
    /// Whether the filter is running.
    pub enabled: bool,
}

/// The smoother's invariant: a valid lag weight and bounded history.
pub open spec fn smoother_wf(s: Smoother) -> bool {
    &&& 0 <= s.lag_weight < SCALE
    &&& (s.lerp_tfm matches Some(t) ==> look_transform_bounded(t))
}

impl Smoother {
    /// A fresh, enabled smoother with no history.
    pub fn new(lag_weight: i64) -> (r: Smoother)
        requires
            0 <= lag_weight < SCALE,
        ensures
            r == (Smoother { lag_weight, lerp_tfm: None::<LookTransform>, enabled: true }),
            smoother_wf(r),
    {
        Smoother { lag_weight, lerp_tfm: None, enabled: true }
    }

    /// Whether the smoother is currently running.
    pub fn is_enabled(&self) -> (r: bool)
        ensures
            r == self.enabled,
    {
        self.enabled
    }

    /// The stored history: the most recent smoothed transform, if any.
    pub fn current_lerp_tfm(&self) -> (r: &Option<LookTransform>)
        ensures
            *r == self.lerp_tfm,
    {
        &self.lerp_tfm
    }

    /// The current lag weight, out of `SCALE`.
    pub fn lag_weight(&self) -> (r: i64)
        ensures
            r == self.lag_weight,
    {
        self.lag_weight
    }

    /// Switch the smoother on or off. Enabling clears the history, so the
    /// next smoothed frame starts from its input instead of jumping from a
    /// stale value.
    pub fn set_enabled(&mut self, enabled: bool)
        ensures
            final(self).enabled == enabled,
            final(self).lag_weight == old(self).lag_weight,
            enabled ==> final(self).lerp_tfm is None,
            !enabled ==> final(self).lerp_tfm == old(self).lerp_tfm,
    {
        self.enabled = enabled;
        if self.enabled {
            self.reset();
        }
    }

    /// Change the lag weight; the history is kept.
    pub fn set_lag_weight(&mut self, lag_weight: i64)
        requires
            0 <= lag_weight < SCALE,
        ensures
            *final(self) == (Smoother { lag_weight, ..*old(self) }),
    {
        self.lag_weight = lag_weight;
    }

    /// One smoothing step: damp the incoming transform against the stored
    /// history, store the result as the new history, and return it.
    pub fn smooth_transform(&mut self, new_tfm: &LookTransform) -> (r: LookTransform)
        requires
            smoother_wf(*old(self)),
            look_transform_bounded(*new_tfm),
        ensures
            r == smooth_spec(old(self).lerp_tfm, *new_tfm, old(self).lag_weight as int),
            *final(self) == (Smoother { lerp_tfm: Some(r), ..*old(self) }),
            look_transform_bounded(r),
            smoother_wf(*final(self)),
    {
        let old_lerp_tfm = match self.lerp_tfm {
            Some(t) => t,
            None => *new_tfm,
        };
        let scale = match (old_lerp_tfm.scale, new_tfm.scale) {
            (Some(old_scale), Some(new_scale)) => Some(
                lerp(old_scale, new_scale, self.lag_weight),
            ),
            _ => None,
        };
        let lerp_tfm = LookTransform {
            eye: lerp_vec3(old_lerp_tfm.eye, new_tfm.eye, self.lag_weight),
            target: lerp_vec3(old_lerp_tfm.target, new_tfm.target, self.lag_weight),
            up: new_tfm.up,
            scale,
        };
        self.lerp_tfm = Some(lerp_tfm);
        lerp_tfm
    }

    /// Forget the history. The next smoothing step then returns its input
    /// exactly, so re-enabling never produces a visible jump.
    pub fn reset(&mut self)
        ensures
            *final(self) == (Smoother { lerp_tfm: None::<LookTransform>, ..*old(self) }),
    {
        self.lerp_tfm = None;
    }
}

/// With no history, one smoothing step returns its input exactly. This is
/// the no-jump guarantee: right after `reset`, or on the first frame, the
/// smoothed transform is the raw one.
pub proof fn lemma_smooth_seeds_exactly(new: LookTransform, lag: int)
    requires
        0 <= lag < SCALE as int,
        look_transform_bounded(new),
    ensures
        smooth_spec(None, new, lag) == new,
{
    lemma_lerp_progress(new.eye.x as int, new.eye.x as int, lag);
    lemma_lerp_progress(new.eye.y as int, new.eye.y as int, lag);
    lemma_lerp_progress(new.eye.z as int, new.eye.z as int, lag);
    lemma_lerp_progress(new.target.x as int, new.target.x as int, lag);
    lemma_lerp_progress(new.target.y as int, new.target.y as int, lag);
    lemma_lerp_progress(new.target.z as int, new.target.z as int, lag);
    match new.scale {
        Some(s) => {
            lemma_lerp_progress(s as int, s as int, lag);
        },
        None => {},
    }
}

/// Whether `m` lies in the closed interval between `a` and `b`, whichever
/// way round they are.
pub open spec fn between(a: int, m: int, b: int) -> bool {
    if a <= b {
        a <= m <= b
    } else {
        b <= m <= a
    }
}

/// The smoothed eye and target never overshoot: each component lies on the
/// segment between the prior smoothed value and the new input; so does the
/// blended scale when both sides carry one.
pub proof fn lemma_smooth_never_overshoots(prior: LookTransform, new: LookTransform, lag: int)
    requires
        0 <= lag < SCALE as int,
        look_transform_bounded(prior),
        look_transform_bounded(new),
    ensures
        between(
            prior.eye.x as int,
            smooth_spec(Some(prior), new, lag).eye.x as int,
            new.eye.x as int,
        ),
        between(
            prior.eye.y as int,
            smooth_spec(Some(prior), new, lag).eye.y as int,
            new.eye.y as int,
        ),
        between(
            prior.eye.z as int,
            smooth_spec(Some(prior), new, lag).eye.z as int,
            new.eye.z as int,
        ),
        between(
            prior.target.x as int,
            smooth_spec(Some(prior), new, lag).target.x as int,
            new.target.x as int,
        ),
        between(
            prior.target.y as int,
            smooth_spec(Some(prior), new, lag).target.y as int,
            new.target.y as int,
        ),
        between(
            prior.target.z as int,
            smooth_spec(Some(prior), new, lag).target.z as int,
            new.target.z as int,
        ),
        (prior.scale is Some && new.scale is Some) ==> between(
            prior.scale->0 as int,
            smooth_spec(Some(prior), new, lag).scale->0 as int,
            new.scale->0 as int,
        ),
{
    lemma_lerp_between(prior.eye.x as int, new.eye.x as int, lag);
    lemma_lerp_between(prior.eye.y as int, new.eye.y as int, lag);
    lemma_lerp_between(prior.eye.z as int, new.eye.z as int, lag);
    lemma_lerp_between(prior.target.x as int, new.target.x as int, lag);
    lemma_lerp_between(prior.target.y as int, new.target.y as int, lag);
    lemma_lerp_between(prior.target.z as int, new.target.z as int, lag);
    match (prior.scale, new.scale) {
        (Some(o), Some(n)) => {
            lemma_lerp_between(o as int, n as int, lag);
        },
        _ => {},
    }
}

/// Repeated smoothing steps fed with one steady input.
pub open spec fn smooth_iter(n: nat, prior: LookTransform, new: LookTransform, lag: int)
    -> LookTransform
    decreases n,
{
    if n == 0 {
        prior
    } else {
        smooth_spec(Some(smooth_iter((n - 1) as nat, prior, new, lag)), new, lag)
    }
}

/// Feeding one identical input for enough steps converges the smoothed
/// transform to that input exactly: each raw component moves at least one
/// step closer per frame until it lands. Absence of a scale on the history
/// is the one exception: a scale-carrying input then keeps yielding a
/// scale-less output, so such pairs are left out.
pub proof fn lemma_smooth_steady_converges(
    n: nat,
    prior: LookTransform,
    new: LookTransform,
    lag: int,
    dist: nat,
)
    requires
        0 <= lag < SCALE as int,
        look_transform_bounded(prior),
        look_transform_bounded(new),
        new.scale is Some ==> prior.scale is Some,
        dist >= vstd::math::abs(prior.eye.x - new.eye.x),
        dist >= vstd::math::abs(prior.eye.y - new.eye.y),
        dist >= vstd::math::abs(prior.eye.z - new.eye.z),
        dist >= vstd::math::abs(prior.target.x - new.target.x),
        dist >= vstd::math::abs(prior.target.y - new.target.y),
        dist >= vstd::math::abs(prior.target.z - new.target.z),
        (prior.scale is Some && new.scale is Some) ==> dist >= vstd::math::abs(
            prior.scale->0 - new.scale->0,
        ),
        n >= dist,
        n >= 1,
    ensures
        smooth_iter(n, prior, new, lag) == new,
{
    lemma_smooth_iter_components(n, prior, new, lag);
    lemma_lerp_iter_converges(n, prior.eye.x as int, new.eye.x as int, lag);
    lemma_lerp_iter_converges(n, prior.eye.y as int, new.eye.y as int, lag);
    lemma_lerp_iter_converges(n, prior.eye.z as int, new.eye.z as int, lag);
    lemma_lerp_iter_converges(n, prior.target.x as int, new.target.x as int, lag);
    lemma_lerp_iter_converges(n, prior.target.y as int, new.target.y as int, lag);
    lemma_lerp_iter_converges(n, prior.target.z as int, new.target.z as int, lag);
    match (prior.scale, new.scale) {
        (Some(o), Some(s)) => {
            lemma_lerp_iter_converges(n, o as int, s as int, lag);
        },
        _ => {},
    }
}

/// Each component of the iterated smoothed transform is the iterated scalar
/// lag step of that component; the up hint is the input's after one step,
/// and a missing scale on either side stays missing.
proof fn lemma_smooth_iter_components(n: nat, prior: LookTransform, new: LookTransform, lag: int)
    requires
        0 <= lag < SCALE as int,
        look_transform_bounded(prior),
        look_transform_bounded(new),
        n >= 1,
    ensures
        smooth_iter(n, prior, new, lag).eye.x as int == lerp_iter(
            n,
            prior.eye.x as int,
            new.eye.x as int,
            lag,
        ),
        smooth_iter(n, prior, new, lag).eye.y as int == lerp_iter(
            n,
            prior.eye.y as int,
            new.eye.y as int,
            lag,
        ),
        smooth_iter(n, prior, new, lag).eye.z as int == lerp_iter(
            n,
            prior.eye.z as int,
            new.eye.z as int,
            lag,
        ),
        smooth_iter(n, prior, new, lag).target.x as int == lerp_iter(
            n,
            prior.target.x as int,
            new.target.x as int,
            lag,
        ),
        smooth_iter(n, prior, new, lag).target.y as int == lerp_iter(
            n,
            prior.target.y as int,
            new.target.y as int,
            lag,
        ),
        smooth_iter(n, prior, new, lag).target.z as int == lerp_iter(
            n,
            prior.target.z as int,
            new.target.z as int,
            lag,
        ),
        smooth_iter(n, prior, new, lag).up == new.up,
        (prior.scale is Some && new.scale is Some) ==> smooth_iter(n, prior, new, lag).scale
            is Some && smooth_iter(n, prior, new, lag).scale->0 as int == lerp_iter(
            n,
            prior.scale->0 as int,
            new.scale->0 as int,
            lag,
        ),
        (prior.scale is None || new.scale is None) ==> smooth_iter(n, prior, new, lag).scale
            is None,
        look_transform_bounded(smooth_iter(n, prior, new, lag)),
    decreases n,
{
    if n == 1 {
        assert(smooth_iter(0, prior, new, lag) == prior);
        assert(lerp_iter(0, prior.eye.x as int, new.eye.x as int, lag) == prior.eye.x as int);
        assert(lerp_iter(0, prior.eye.y as int, new.eye.y as int, lag) == prior.eye.y as int);
        assert(lerp_iter(0, prior.eye.z as int, new.eye.z as int, lag) == prior.eye.z as int);
        assert(lerp_iter(0, prior.target.x as int, new.target.x as int, lag)
            == prior.target.x as int);
        assert(lerp_iter(0, prior.target.y as int, new.target.y as int, lag)
            == prior.target.y as int);
        assert(lerp_iter(0, prior.target.z as int, new.target.z as int, lag)
            == prior.target.z as int);
        if prior.scale is Some && new.scale is Some {
            assert(lerp_iter(0, prior.scale->0 as int, new.scale->0 as int, lag)
                == prior.scale->0 as int);
        }
        lemma_smooth_step_casts(prior, new, lag);
    } else {
        lemma_smooth_iter_components((n - 1) as nat, prior, new, lag);
        lemma_smooth_step_casts(smooth_iter((n - 1) as nat, prior, new, lag), new, lag);
    }
}

/// One smoothing step of bounded transforms stays bounded, and each stored
/// component equals the scalar lag step of that component (the cast back to
/// a raw scalar loses nothing).
proof fn lemma_smooth_step_casts(prev: LookTransform, new: LookTransform, lag: int)
    requires
        0 <= lag < SCALE as int,
        look_transform_bounded(prev),
        look_transform_bounded(new),
    ensures
        look_transform_bounded(smooth_spec(Some(prev), new, lag)),
        smooth_spec(Some(prev), new, lag).eye.x as int == lerp_spec(
            prev.eye.x as int,
            new.eye.x as int,
            lag,
        ),
        smooth_spec(Some(prev), new, lag).eye.y as int == lerp_spec(
            prev.eye.y as int,
            new.eye.y as int,
            lag,
        ),
        smooth_spec(Some(prev), new, lag).eye.z as int == lerp_spec(
            prev.eye.z as int,
            new.eye.z as int,
            lag,
        ),
        smooth_spec(Some(prev), new, lag).target.x as int == lerp_spec(
            prev.target.x as int,
            new.target.x as int,
            lag,
        ),
        smooth_spec(Some(prev), new, lag).target.y as int == lerp_spec(
            prev.target.y as int,
            new.target.y as int,
            lag,
        ),
        smooth_spec(Some(prev), new, lag).target.z as int == lerp_spec(
            prev.target.z as int,
            new.target.z as int,
            lag,
        ),
        (prev.scale is Some && new.scale is Some) ==> smooth_spec(Some(prev), new, lag).scale
            == Some(lerp_spec(prev.scale->0 as int, new.scale->0 as int, lag) as i64)
            && smooth_spec(Some(prev), new, lag).scale->0 as int == lerp_spec(
            prev.scale->0 as int,
            new.scale->0 as int,
            lag,
        ),
{
    lemma_smooth_bounded(prev, new, lag);
    lemma_lerp_between(prev.eye.x as int, new.eye.x as int, lag);
    lemma_lerp_between(prev.eye.y as int, new.eye.y as int, lag);
    lemma_lerp_between(prev.eye.z as int, new.eye.z as int, lag);
    lemma_lerp_between(prev.target.x as int, new.target.x as int, lag);
    lemma_lerp_between(prev.target.y as int, new.target.y as int, lag);
    lemma_lerp_between(prev.target.z as int, new.target.z as int, lag);
    match (prev.scale, new.scale) {
        (Some(o), Some(w)) => {
            lemma_lerp_between(o as int, w as int, lag);
        },
        _ => {},
    }
}

/// One smoothing step keeps every component within the coordinate bounds.
proof fn lemma_smooth_bounded(prior: LookTransform, new: LookTransform, lag: int)
    requires
        0 <= lag < SCALE as int,
        look_transform_bounded(prior),
        look_transform_bounded(new),
    ensures
        look_transform_bounded(smooth_spec(Some(prior), new, lag)),
{
    lemma_lerp_between(prior.eye.x as int, new.eye.x as int, lag);
    lemma_lerp_between(prior.eye.y as int, new.eye.y as int, lag);
    lemma_lerp_between(prior.eye.z as int, new.eye.z as int, lag);
    lemma_lerp_between(prior.target.x as int, new.target.x as int, lag);
    lemma_lerp_between(prior.target.y as int, new.target.y as int, lag);
    lemma_lerp_between(prior.target.z as int, new.target.z as int, lag);
    match (prior.scale, new.scale) {
        (Some(o), Some(s)) => {
            lemma_lerp_between(o as int, s as int, lag);
        },
        _ => {},
    }
}

/// One camera's per-frame drive step: while the smoother runs, damp the raw
/// look transform, keep the result as history, and derive the renderable
/// pose from it; while it is off, leave everything untouched.
pub fn drive_camera(look: &LookTransform, smoother: &mut Smoother) -> (r: Option<ViewPose>)
    requires
        smoother_wf(*old(smoother)),
        look_transform_bounded(*look),
    ensures
        smoother_wf(*final(smoother)),
        old(smoother).enabled ==> r == Some(
            view_pose_spec(
                smooth_spec(old(smoother).lerp_tfm, *look, old(smoother).lag_weight as int),
            ),
        ) && *final(smoother) == (Smoother {
            lerp_tfm: Some(
                smooth_spec(old(smoother).lerp_tfm, *look, old(smoother).lag_weight as int),
            ),
            ..*old(smoother)
        }),
        !old(smoother).enabled ==> r is None && *final(smoother) == *old(smoother),
{
    if smoother.is_enabled() {
        let tfm = smoother.smooth_transform(look);
        Some(eye_look_at_target_pose(&tfm))
    } else {
        None
    }
}

/// The smoothed zoom scale a projection should adopt this frame: present
/// exactly when the smoother runs and its latest smoothed transform carries
/// a scale.
pub fn smoothed_projection_scale(smoother: &Smoother) -> (r: Option<i64>)
    ensures
        r == (if smoother.enabled {
            match smoother.lerp_tfm {
                Some(t) => t.scale,
                None => None,
            }
        } else {
            None
        }),
{
    if smoother.is_enabled() {
        match smoother.current_lerp_tfm() {
            Some(t) => t.scale,
            None => None,
        }
    } else {
        None
    }
}

} // verus!
