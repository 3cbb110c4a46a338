//! Display toggles of the interactive viewer, each cycled by a key.
use vstd::prelude::*;

verus! {

/// How much of the triangulation is drawn.
#[derive(Clone, Copy, Debug, PartialEq, Eq, Structural)]
pub enum DelaunayVisibility {
    All,
    OnlyLines,
    Hidden,
}

/// How the interpolated grid is drawn.
#[derive(Clone, Copy, Debug, PartialEq, Eq, Structural)]
pub enum GridRenderType {
    Lines,
    Polygons,
}

impl DelaunayVisibility {
    /// The next setting in the cycle all, lines only, hidden.
    pub fn next(&self) -> (r: DelaunayVisibility)
        ensures
            *self == DelaunayVisibility::All ==> r == DelaunayVisibility::OnlyLines,
            *self == DelaunayVisibility::OnlyLines ==> r == DelaunayVisibility::Hidden,
            *self == DelaunayVisibility::Hidden ==> r == DelaunayVisibility::All,
    {
        match self {
            DelaunayVisibility::All => DelaunayVisibility::OnlyLines,
            DelaunayVisibility::OnlyLines => DelaunayVisibility::Hidden,
            DelaunayVisibility::Hidden => DelaunayVisibility::All,
        }
    }
}

impl GridRenderType {
    /// The other setting.
    pub fn next(&self) -> (r: GridRenderType)
        ensures
            *self == GridRenderType::Lines ==> r == GridRenderType::Polygons,
            *self == GridRenderType::Polygons ==> r == GridRenderType::Lines,
    {
        match self {
            GridRenderType::Lines => GridRenderType::Polygons,
            GridRenderType::Polygons => GridRenderType::Lines,
        }
    }
}

/// The interpolated mesh shown after the method key is pressed at `current`,
/// among `count` meshes: the next one, and past the last one the index
/// `count`, which shows none, then the first again.
pub fn next_mesh_index(current: usize, count: usize) -> (r: usize)
    requires
        current <= count,
    ensures
        r <= count,
        current < count ==> r == current + 1,
        current == count ==> r == 0,
{
    if current < count {
        current + 1
    } else {
        0
    }
}

} // verus!
