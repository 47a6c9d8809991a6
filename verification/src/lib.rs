//! Verified core of a ray-tracing pipeline: pixel-buffer layout, the
//! miss-is-black rule, recursion-depth control, and assembly of the flat
//! color buffer into a 2D pixel grid.
//!
//! The floating-point geometry (vector algebra, camera rays, shading math)
//! lives outside the verified core; this crate pins down everything the
//! renderer decides over plain integers and bytes.

pub mod assemble;
pub mod image_out;
pub mod pixel;
pub mod render;
pub mod shading;

pub use pixel::Rgb;
