//! A stochastic ray tracer for scenes of spheres, in fixed-point arithmetic.
//!
//! A [`camera::Camera`] turns a position on the image into a ray. The ray is
//! followed through the scene by [`util::render_ray`]: where it strikes a
//! surface ([`scene::Hit`]), the surface's [`material::Material`] scatters
//! or absorbs it, and the light that the scattered ray brings is attenuated;
//! a ray that strikes nothing brings the colour of the sky.
//!
//! All numbers are [`fixed::Fixed`]: 64-bit fixed point with 32 fractional
//! bits, rounded toward zero and saturating. Contracts are stated over the
//! counts of grid steps, so they are exact; how near a result is to the
//! real number it stands for is not part of them.

pub mod camera;
pub mod color;
pub mod fixed;
pub mod material;
pub mod point;
pub mod ray;
pub mod scene;
pub mod util;
pub mod vec3;
pub mod vector;
