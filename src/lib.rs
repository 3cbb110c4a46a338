//! Maps coordinates between a small virtual grid and a larger physical grid:
//! exact affine transforms, a dense sampler of an interpolated surface over the
//! physical grid, and the resolver that inverts the sampling into bounding
//! boxes of physical coordinates.
pub mod space;
pub mod grid;
pub mod resolve;
pub mod interpolation;
pub mod ui;
pub mod mesh;
