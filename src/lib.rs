//! A small software rasterizer over exact integer geometry: barycentric
//! triangle fill with a depth test, pluggable shading, line drawing, and the
//! viewport and projection transforms.
use vstd::prelude::*;

pub mod canvas;
pub mod fill;
pub mod geometry;
pub mod segment;
pub mod raster;
pub mod shader;
pub mod shaders;
pub mod transform;

verus! {

} // verus!
