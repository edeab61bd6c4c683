//! A ray tracer over exact fixed-point arithmetic.
//!
//! Every quantity that the renderer works with is a real number represented
//! as an `i64` count of thousandths (`fixed::SCALE`), so all geometry and
//! color computations are integer arithmetic with explicitly specified
//! rounding, and the whole pipeline is verified.

pub mod camera;
pub mod color;
pub mod fixed;
pub mod hittable;
pub mod interval;
pub mod ray;
pub mod rng;
pub mod text;
pub mod vector3d;
