//! Camera look-transform smoothing and orbit control over fixed-point
//! coordinates.
//!
//! The library computes a stable viewing transform (eye position, look
//! target, up vector, zoom scale) from noisy per-frame input deltas. All
//! coordinates, angles and weights are fixed-point integers with three
//! fractional digits, so every update is exact integer arithmetic with a
//! proved contract. A host renderer converts between its own scalar type
//! and these raw values at the boundary.

pub mod fixed;
pub mod look_transform;
pub mod orbit;
pub mod projection;
pub mod smoother;
