//! The interpolation methods that a caller can pick for sampling a surface.
use vstd::prelude::*;

verus! {

/// Linear interpolation inside the triangle that holds the point.
#[derive(Clone, Copy, Debug, PartialEq, Eq)]
pub struct BarycentricInterpolation;

/// A blend of the neighbouring vertices' heights, weighted by Voronoi areas.
#[derive(Clone, Copy, Debug, PartialEq, Eq)]
pub struct NaturalNeighborInterpolation;

/// Sibson's natural-neighbour blend with vertex gradients: a smooth surface.
#[derive(Clone, Copy, Debug, PartialEq, Eq)]
pub struct SibsonC1Interpolation;

/// Farin's natural-neighbour blend with vertex gradients: a smooth surface.
#[derive(Clone, Copy, Debug, PartialEq, Eq)]
pub struct FarinC1Interpolation;

impl BarycentricInterpolation {
    pub fn title() -> (r: &'static str)
        ensures
            r@ == "barycentric interpolation"@,
    {
        "barycentric interpolation"
    }
}

impl NaturalNeighborInterpolation {
    pub fn title() -> (r: &'static str)
        ensures
            r@ == "natural neighbor interpolation"@,
    {
        "natural neighbor interpolation"
    }
}

impl SibsonC1Interpolation {
    pub fn title() -> (r: &'static str)
        ensures
            r@ == "sibson's c1 interpolation"@,
    {
        "sibson's c1 interpolation"
    }
}

impl FarinC1Interpolation {
    pub fn title() -> (r: &'static str)
        ensures
            r@ == "farin's c1 interpolation"@,
    {
        "farin's c1 interpolation"
    }
}

} // verus!
