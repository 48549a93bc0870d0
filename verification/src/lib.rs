//! A ray caster, verified.
//!
//! The library renders a scene of spheres and planes, lit by point lights,
//! into a raster of colours: it sends a ray from the eye through every
//! pixel, finds what the ray hits first, and colours the hit by the Phong
//! model, with shadows.
//!
//! A ray caster computes with real numbers, and sums, products and roots of
//! them round. How they round is not for this library to say: it holds a
//! number as the bit pattern of a binary64 number, compares numbers and
//! changes their signs on the bits, which is exact, and asks the caller's
//! [`Arithmetic`](math::arithmetic::Arithmetic) for everything that
//! rounds. Its contracts say what comes out in terms of what the
//! arithmetic answers.
//!
//! - [`math`]: the order of numbers, tuples, matrices, their algebra and
//!   their form as text;
//! - [`ray`], [`intersection`]: rays, their crossings with shapes, and the
//!   choice of the hit;
//! - [`shape`]: what all shapes share, spheres and planes;
//! - [`colour`], [`lights`], [`materials`]: colours, lights, and the
//!   colour of a lit point;
//! - [`world`]: the scene, what a ray meets in it and what colour it sees;
//! - [`canvas`], [`ppm`]: the raster, and its form as text;
//! - [`camera`]: the rays through the pixels, the frame, and how it is dealt
//!   out to workers.

pub mod camera;
pub mod canvas;
pub mod colour;
pub mod intersection;
pub mod lights;
pub mod materials;
pub mod math;
pub mod ppm;
pub mod ray;
pub mod shape;
pub mod world;
