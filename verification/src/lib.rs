//! A small ray-tracing core: fixed-point scalars, 3D vector arithmetic,
//! and analytic ray/sphere intersection with nearest-hit selection.

pub mod fx;
pub mod math;
pub mod trace;
