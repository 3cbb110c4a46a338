//! The inverse region resolver: for a virtual grid coordinate, the bounding box
//! of the physical grid points whose sampled virtual coordinates fall in the
//! same unit bucket.
use crate::grid::Grid;
use crate::space::{Coord, Layout, Space};
use vstd::prelude::*;

verus! {

/// A rectangle of physical coordinates, each edge rounded down to an integer.
#[derive(Clone, Copy, Debug, PartialEq, Eq)]
pub struct BoundingBox {
    pub left: i64,
    pub top: i64,
    pub right: i64,
    pub bottom: i64,
}

impl BoundingBox {
    /// Whether the box has collapsed to a single point: a virtual coordinate
    /// with no usable inverse region.
    pub fn is_degenerate(&self) -> (r: bool)
        ensures
            r == (self.left == self.right && self.top == self.bottom),
    {
        self.left == self.right && self.top == self.bottom
    }
}

/// Why a resolution was refused.
#[derive(Clone, Copy, Debug, PartialEq, Eq)]
pub enum ResolveError {
    /// The virtual coordinate lies outside the virtual grid.
    OutOfRange,
    /// A sample grid does not hold one entry per physical grid point.
    GridShape,
}

/// Whether the physical grid point `(x, y)` was sampled into the virtual
/// bucket `(tx, ty)`.
pub open spec fn cell_matches(
    x_grid: Grid<i64>,
    y_grid: Grid<i64>,
    tx: int,
    ty: int,
    x: int,
    y: int,
) -> bool {
    x_grid.at(x, y) == tx && y_grid.at(x, y) == ty
}

/// Whether `(x, y)` is a matching point with the least physical x coordinate.
pub open spec fn is_leftmost(
    phys: Space,
    x_grid: Grid<i64>,
    y_grid: Grid<i64>,
    tx: int,
    ty: int,
    x: int,
    y: int,
) -> bool {
    &&& phys.in_grid(x, y)
    &&& cell_matches(x_grid, y_grid, tx, ty, x, y)
    &&& forall|x2: int, y2: int|
        phys.in_grid(x2, y2) && #[trigger] cell_matches(x_grid, y_grid, tx, ty, x2, y2)
            ==> phys.x.numerator(x) <= phys.x.numerator(x2)
}

/// Whether `(x, y)` is a matching point with the greatest physical x coordinate.
pub open spec fn is_rightmost(
    phys: Space,
    x_grid: Grid<i64>,
    y_grid: Grid<i64>,
    tx: int,
    ty: int,
    x: int,
    y: int,
) -> bool {
    &&& phys.in_grid(x, y)
    &&& cell_matches(x_grid, y_grid, tx, ty, x, y)
    &&& forall|x2: int, y2: int|
        phys.in_grid(x2, y2) && #[trigger] cell_matches(x_grid, y_grid, tx, ty, x2, y2)
            ==> phys.x.numerator(x2) <= phys.x.numerator(x)
}

/// Whether `(x, y)` is a matching point with the least physical y coordinate.
pub open spec fn is_topmost(
    phys: Space,
    x_grid: Grid<i64>,
    y_grid: Grid<i64>,
    tx: int,
    ty: int,
    x: int,
    y: int,
) -> bool {
    &&& phys.in_grid(x, y)
    &&& cell_matches(x_grid, y_grid, tx, ty, x, y)
    &&& forall|x2: int, y2: int|
        phys.in_grid(x2, y2) && #[trigger] cell_matches(x_grid, y_grid, tx, ty, x2, y2)
            ==> phys.y.numerator(y) <= phys.y.numerator(y2)
}

/// Whether `(x, y)` is a matching point with the greatest physical y coordinate.
pub open spec fn is_bottommost(
    phys: Space,
    x_grid: Grid<i64>,
    y_grid: Grid<i64>,
    tx: int,
    ty: int,
    x: int,
    y: int,
) -> bool {
    &&& phys.in_grid(x, y)
    &&& cell_matches(x_grid, y_grid, tx, ty, x, y)
    &&& forall|x2: int, y2: int|
        phys.in_grid(x2, y2) && #[trigger] cell_matches(x_grid, y_grid, tx, ty, x2, y2)
            ==> phys.y.numerator(y2) <= phys.y.numerator(y)
}

/// Whether `r` is the inverse region of virtual grid coordinate `(vx, vy)`:
/// absent where no physical grid point was sampled into the bucket of the
/// virtual point `(vx, vy)`, and otherwise the floors of the least and greatest
/// physical coordinates of the points that were.
pub open spec fn is_region(
    layout: Layout,
    x_grid: Grid<i64>,
    y_grid: Grid<i64>,
    vx: int,
    vy: int,
    r: Option<BoundingBox>,
) -> bool {
    let phys = layout.physical;
    let tx = layout.virtual_space.x.floor_at(vx);
    let ty = layout.virtual_space.y.floor_at(vy);
    match r {
        None => forall|x: int, y: int|
            phys.in_grid(x, y) ==> !#[trigger] cell_matches(x_grid, y_grid, tx, ty, x, y),
        Some(b) => {
            &&& exists|x: int, y: int|
                #[trigger] is_leftmost(phys, x_grid, y_grid, tx, ty, x, y) && b.left
                    == phys.x.floor_at(x)
            &&& exists|x: int, y: int|
                #[trigger] is_rightmost(phys, x_grid, y_grid, tx, ty, x, y) && b.right
                    == phys.x.floor_at(x)
            &&& exists|x: int, y: int|
                #[trigger] is_topmost(phys, x_grid, y_grid, tx, ty, x, y) && b.top
                    == phys.y.floor_at(y)
            &&& exists|x: int, y: int|
                #[trigger] is_bottommost(phys, x_grid, y_grid, tx, ty, x, y) && b.bottom
                    == phys.y.floor_at(y)
        },
    }
}

/// Whether the physical grid point `(x2, y2)` comes before `(x, y)` in a
/// row-by-row scan.
pub open spec fn scanned_before(phys: Space, x2: int, y2: int, x: int, y: int) -> bool {
    phys.in_grid(x2, y2) && (y2 < y || (y2 == y && x2 < x))
}

/// The inverse region of `(vx, vy)`, for grids already known to fit.
fn find_region(layout: &Layout, x_grid: &Grid<i64>, y_grid: &Grid<i64>, vx: usize, vy: usize) -> (r:
    Option<BoundingBox>)
    requires
        layout.wf(),
        layout.virtual_space.in_grid(vx as int, vy as int),
        x_grid.covers(layout.physical),
        y_grid.covers(layout.physical),
    ensures
        is_region(*layout, *x_grid, *y_grid, vx as int, vy as int, r),
{
    let ghost phys = layout.physical;
    proof {
        layout.virtual_space.x.lemma_bounds();
        layout.virtual_space.y.lemma_bounds();
        layout.physical.x.lemma_bounds();
        layout.physical.y.lemma_bounds();
    }
    let target = layout.transform_virtual_point(vx, vy);
    let tx = target.x.floor();
    let ty = target.y.floor();
    let width = layout.physical.x.subdivision_count();
    let height = layout.physical.y.subdivision_count();
    let mut found = false;
    let mut left: i64 = 0;
    let mut right: i64 = 0;
    let mut top: i64 = 0;
    let mut bottom: i64 = 0;
    let ghost mut lw: (int, int) = (0, 0);
    let ghost mut rw: (int, int) = (0, 0);
    let ghost mut tw: (int, int) = (0, 0);
    let ghost mut bw: (int, int) = (0, 0);
    let mut y: usize = 0;
    while y <= height
        invariant
            layout.wf(),
            phys == layout.physical,
            x_grid.covers(phys),
            y_grid.covers(phys),
            width == phys.x.subdivisions(),
            height == phys.y.subdivisions(),
            y <= height + 1,
            !found ==> forall|x2: int, y2: int|
                scanned_before(phys, x2, y2, 0, y as int) ==> !#[trigger] cell_matches(
                    *x_grid,
                    *y_grid,
                    tx as int,
                    ty as int,
                    x2,
                    y2,
                ),
            found ==> {
                &&& scanned_before(phys, lw.0, lw.1, 0, y as int)
                &&& scanned_before(phys, rw.0, rw.1, 0, y as int)
                &&& scanned_before(phys, tw.0, tw.1, 0, y as int)
                &&& scanned_before(phys, bw.0, bw.1, 0, y as int)
                &&& cell_matches(*x_grid, *y_grid, tx as int, ty as int, lw.0, lw.1)
                &&& cell_matches(*x_grid, *y_grid, tx as int, ty as int, rw.0, rw.1)
                &&& cell_matches(*x_grid, *y_grid, tx as int, ty as int, tw.0, tw.1)
                &&& cell_matches(*x_grid, *y_grid, tx as int, ty as int, bw.0, bw.1)
                &&& left == phys.x.numerator(lw.0)
                &&& right == phys.x.numerator(rw.0)
                &&& top == phys.y.numerator(tw.1)
                &&& bottom == phys.y.numerator(bw.1)
                &&& forall|x2: int, y2: int|
                    scanned_before(phys, x2, y2, 0, y as int) && #[trigger] cell_matches(
                        *x_grid,
                        *y_grid,
                        tx as int,
                        ty as int,
                        x2,
                        y2,
                    ) ==> {
                        &&& left <= phys.x.numerator(x2) <= right
                        &&& top <= phys.y.numerator(y2) <= bottom
                    }
            },
        decreases height + 1 - y,
    {
        let mut x: usize = 0;
        while x <= width
            invariant
                layout.wf(),
                phys == layout.physical,
                x_grid.covers(phys),
                y_grid.covers(phys),
                width == phys.x.subdivisions(),
                height == phys.y.subdivisions(),
                y <= height,
                x <= width + 1,
                !found ==> forall|x2: int, y2: int|
                    scanned_before(phys, x2, y2, x as int, y as int) ==> !#[trigger] cell_matches(
                        *x_grid,
                        *y_grid,
                        tx as int,
                        ty as int,
                        x2,
                        y2,
                    ),
                found ==> {
                    &&& scanned_before(phys, lw.0, lw.1, x as int, y as int)
                    &&& scanned_before(phys, rw.0, rw.1, x as int, y as int)
                    &&& scanned_before(phys, tw.0, tw.1, x as int, y as int)
                    &&& scanned_before(phys, bw.0, bw.1, x as int, y as int)
                    &&& cell_matches(*x_grid, *y_grid, tx as int, ty as int, lw.0, lw.1)
                    &&& cell_matches(*x_grid, *y_grid, tx as int, ty as int, rw.0, rw.1)
                    &&& cell_matches(*x_grid, *y_grid, tx as int, ty as int, tw.0, tw.1)
                    &&& cell_matches(*x_grid, *y_grid, tx as int, ty as int, bw.0, bw.1)
                    &&& left == phys.x.numerator(lw.0)
                    &&& right == phys.x.numerator(rw.0)
                    &&& top == phys.y.numerator(tw.1)
                    &&& bottom == phys.y.numerator(bw.1)
                    &&& forall|x2: int, y2: int|
                        scanned_before(phys, x2, y2, x as int, y as int) && #[trigger] cell_matches(
                            *x_grid,
                            *y_grid,
                            tx as int,
                            ty as int,
                            x2,
                            y2,
                        ) ==> {
                            &&& left <= phys.x.numerator(x2) <= right
                            &&& top <= phys.y.numerator(y2) <= bottom
                        }
                },
            decreases width + 1 - x,
        {
            if *x_grid.get(x, y) == tx && *y_grid.get(x, y) == ty {
                let p = layout.transform_physical_point(x, y);
                if !found {
                    found = true;
                    left = p.x.num;
                    right = p.x.num;
                    top = p.y.num;
                    bottom = p.y.num;
                    proof {
                        lw = (x as int, y as int);
                        rw = (x as int, y as int);
                        tw = (x as int, y as int);
                        bw = (x as int, y as int);
                    }
                } else {
                    if p.x.num < left {
                        left = p.x.num;
                        proof {
                            lw = (x as int, y as int);
                        }
                    }
                    if p.x.num > right {
                        right = p.x.num;
                        proof {
                            rw = (x as int, y as int);
                        }
                    }
                    if p.y.num < top {
                        top = p.y.num;
                        proof {
                            tw = (x as int, y as int);
                        }
                    }
                    if p.y.num > bottom {
                        bottom = p.y.num;
                        proof {
                            bw = (x as int, y as int);
                        }
                    }
                }
            }
            proof {
                let nx = (x + 1) as int;
                let yi = y as int;
                if !found {
                    assert forall|x2: int, y2: int|
                        scanned_before(phys, x2, y2, nx, yi) implies !#[trigger] cell_matches(
                        *x_grid,
                        *y_grid,
                        tx as int,
                        ty as int,
                        x2,
                        y2,
                    ) by {
                        if !(x2 == x && y2 == y) {
                            assert(scanned_before(phys, x2, y2, x as int, yi));
                        }
                    }
                } else {
                    assert forall|x2: int, y2: int|
                        scanned_before(phys, x2, y2, nx, yi) && #[trigger] cell_matches(
                            *x_grid,
                            *y_grid,
                            tx as int,
                            ty as int,
                            x2,
                            y2,
                        ) implies {
                        &&& left <= phys.x.numerator(x2) <= right
                        &&& top <= phys.y.numerator(y2) <= bottom
                    } by {
                        if !(x2 == x && y2 == y) {
                            assert(scanned_before(phys, x2, y2, x as int, yi));
                        }
                    }
                }
            }
            x += 1;
        }
        proof {
            assert forall|x2: int, y2: int|
                scanned_before(phys, x2, y2, x as int, y as int) == scanned_before(
                    phys,
                    x2,
                    y2,
                    0,
                    (y + 1) as int,
                ) by {}
        }
        y += 1;
    }
    if !found {
        return None;
    }
    let den_x = layout.physical.x.position(0).den;
    let den_y = layout.physical.y.position(0).den;
    let b = BoundingBox {
        left: Coord { num: left, den: den_x }.floor(),
        top: Coord { num: top, den: den_y }.floor(),
        right: Coord { num: right, den: den_x }.floor(),
        bottom: Coord { num: bottom, den: den_y }.floor(),
    };
    proof {
        let tv = tx as int;
        let tu = ty as int;
        assert(is_leftmost(phys, *x_grid, *y_grid, tv, tu, lw.0, lw.1));
        assert(is_rightmost(phys, *x_grid, *y_grid, tv, tu, rw.0, rw.1));
        assert(is_topmost(phys, *x_grid, *y_grid, tv, tu, tw.0, tw.1));
        assert(is_bottommost(phys, *x_grid, *y_grid, tv, tu, bw.0, bw.1));
        assert(tv == layout.virtual_space.x.floor_at(vx as int));
        assert(tu == layout.virtual_space.y.floor_at(vy as int));
        assert(b.left == phys.x.floor_at(lw.0));
        assert(b.right == phys.x.floor_at(rw.0));
        assert(b.top == phys.y.floor_at(tw.1));
        assert(b.bottom == phys.y.floor_at(bw.1));
    }
    Some(b)
}

/// The inverse region of virtual grid coordinate `(vx, vy)` over the sample
/// grids of the virtual x and y coordinates. Refuses a coordinate outside the
/// virtual grid, and sample grids that do not cover the physical grid.
pub fn get_bounding_box(
    layout: &Layout,
    x_grid: &Grid<i64>,
    y_grid: &Grid<i64>,
    vx: usize,
    vy: usize,
) -> (r: Result<Option<BoundingBox>, ResolveError>)
    requires
        layout.wf(),
    ensures
        r == Err::<Option<BoundingBox>, ResolveError>(ResolveError::OutOfRange) <==> !layout.virtual_space.in_grid(
            vx as int,
            vy as int,
        ),
        r == Err::<Option<BoundingBox>, ResolveError>(ResolveError::GridShape) <==> {
            &&& layout.virtual_space.in_grid(vx as int, vy as int)
            &&& !(x_grid.covers(layout.physical) && y_grid.covers(layout.physical))
        },
        r matches Ok(b) ==> is_region(*layout, *x_grid, *y_grid, vx as int, vy as int, b),
{
    if vx > layout.virtual_space.x.subdivision_count() || vy
        > layout.virtual_space.y.subdivision_count() {
        return Err(ResolveError::OutOfRange);
    }
    let width = layout.physical.x.subdivision_count();
    let height = layout.physical.y.subdivision_count();
    if !x_grid.check_shape(width + 1, height + 1) || !y_grid.check_shape(width + 1, height + 1) {
        return Err(ResolveError::GridShape);
    }
    Ok(find_region(layout, x_grid, y_grid, vx, vy))
}

/// The inverse region of every virtual grid coordinate, as a grid indexed by
/// `(vx, vy)`. Refuses sample grids that do not cover the physical grid.
pub fn generate_virtual_to_physical_map(
    layout: &Layout,
    x_grid: &Grid<i64>,
    y_grid: &Grid<i64>,
) -> (r: Result<Grid<Option<BoundingBox>>, ResolveError>)
    requires
        layout.wf(),
    ensures
        r is Err <==> !(x_grid.covers(layout.physical) && y_grid.covers(layout.physical)),
        r matches Err(e) ==> e == ResolveError::GridShape,
        r matches Ok(m) ==> {
            &&& m.covers(layout.virtual_space)
            &&& forall|vx: int, vy: int|
                layout.virtual_space.in_grid(vx, vy) ==> is_region(
                    *layout,
                    *x_grid,
                    *y_grid,
                    vx,
                    vy,
                    #[trigger] m.at(vx, vy),
                )
        },
{
    let width = layout.physical.x.subdivision_count();
    let height = layout.physical.y.subdivision_count();
    if !x_grid.check_shape(width + 1, height + 1) || !y_grid.check_shape(width + 1, height + 1) {
        return Err(ResolveError::GridShape);
    }
    let vwidth = layout.virtual_space.x.subdivision_count();
    let vheight = layout.virtual_space.y.subdivision_count();
    let mut rows: Vec<Vec<Option<BoundingBox>>> = Vec::new();
    let mut vy: usize = 0;
    while vy <= vheight
        invariant
            layout.wf(),
            x_grid.covers(layout.physical),
            y_grid.covers(layout.physical),
            vwidth == layout.virtual_space.x.subdivisions(),
            vheight == layout.virtual_space.y.subdivisions(),
            vy <= vheight + 1,
            rows@.len() == vy,
            forall|k: int| 0 <= k < vy ==> #[trigger] rows@[k]@.len() == vwidth + 1,
            forall|i: int, k: int|
                0 <= k < vy && 0 <= i <= vwidth ==> is_region(
                    *layout,
                    *x_grid,
                    *y_grid,
                    i,
                    k,
                    #[trigger] rows@[k]@[i],
                ),
        decreases vheight + 1 - vy,
    {
        let mut row: Vec<Option<BoundingBox>> = Vec::new();
        let mut vx: usize = 0;
        while vx <= vwidth
            invariant
                layout.wf(),
                x_grid.covers(layout.physical),
                y_grid.covers(layout.physical),
                vwidth == layout.virtual_space.x.subdivisions(),
                vheight == layout.virtual_space.y.subdivisions(),
                vy <= vheight,
                vx <= vwidth + 1,
                row@.len() == vx,
                forall|i: int|
                    0 <= i < vx ==> is_region(
                        *layout,
                        *x_grid,
                        *y_grid,
                        i,
                        vy as int,
                        #[trigger] row@[i],
                    ),
            decreases vwidth + 1 - vx,
        {
            row.push(find_region(layout, x_grid, y_grid, vx, vy));
            vx += 1;
        }
        rows.push(row);
        vy += 1;
    }
    let m = Grid { rows };
    assert forall|vx: int, vy: int| layout.virtual_space.in_grid(vx, vy) implies is_region(
        *layout,
        *x_grid,
        *y_grid,
        vx,
        vy,
        #[trigger] m.at(vx, vy),
    ) by {
        assert(m.at(vx, vy) == m.rows@[vy]@[vx]);
    }
    Ok(m)
}

/// The inverse region of a virtual coordinate is determined by the layout and
/// the sample grids: resolving twice over the same grids gives the same box.
pub proof fn lemma_region_unique(
    layout: Layout,
    x_grid: Grid<i64>,
    y_grid: Grid<i64>,
    vx: int,
    vy: int,
    r1: Option<BoundingBox>,
    r2: Option<BoundingBox>,
)
    requires
        is_region(layout, x_grid, y_grid, vx, vy, r1),
        is_region(layout, x_grid, y_grid, vx, vy, r2),
    ensures
        r1 == r2,
{
    let phys = layout.physical;
    let tx = layout.virtual_space.x.floor_at(vx);
    let ty = layout.virtual_space.y.floor_at(vy);
    match (r1, r2) {
        (Some(a), Some(b)) => {
            let (x1, y1) = choose|x: int, y: int|
                #[trigger] is_leftmost(phys, x_grid, y_grid, tx, ty, x, y) && a.left
                    == phys.x.floor_at(x);
            let (x2, y2) = choose|x: int, y: int|
                #[trigger] is_leftmost(phys, x_grid, y_grid, tx, ty, x, y) && b.left
                    == phys.x.floor_at(x);
            assert(cell_matches(x_grid, y_grid, tx, ty, x1, y1));
            assert(cell_matches(x_grid, y_grid, tx, ty, x2, y2));
            assert(a.left == b.left);
            let (x1, y1) = choose|x: int, y: int|
                #[trigger] is_rightmost(phys, x_grid, y_grid, tx, ty, x, y) && a.right
                    == phys.x.floor_at(x);
            let (x2, y2) = choose|x: int, y: int|
                #[trigger] is_rightmost(phys, x_grid, y_grid, tx, ty, x, y) && b.right
                    == phys.x.floor_at(x);
            assert(cell_matches(x_grid, y_grid, tx, ty, x1, y1));
            assert(cell_matches(x_grid, y_grid, tx, ty, x2, y2));
            assert(a.right == b.right);
            let (x1, y1) = choose|x: int, y: int|
                #[trigger] is_topmost(phys, x_grid, y_grid, tx, ty, x, y) && a.top
                    == phys.y.floor_at(y);
            let (x2, y2) = choose|x: int, y: int|
                #[trigger] is_topmost(phys, x_grid, y_grid, tx, ty, x, y) && b.top
                    == phys.y.floor_at(y);
            assert(cell_matches(x_grid, y_grid, tx, ty, x1, y1));
            assert(cell_matches(x_grid, y_grid, tx, ty, x2, y2));
            assert(a.top == b.top);
            let (x1, y1) = choose|x: int, y: int|
                #[trigger] is_bottommost(phys, x_grid, y_grid, tx, ty, x, y) && a.bottom
                    == phys.y.floor_at(y);
            let (x2, y2) = choose|x: int, y: int|
                #[trigger] is_bottommost(phys, x_grid, y_grid, tx, ty, x, y) && b.bottom
                    == phys.y.floor_at(y);
            assert(cell_matches(x_grid, y_grid, tx, ty, x1, y1));
            assert(cell_matches(x_grid, y_grid, tx, ty, x2, y2));
            assert(a.bottom == b.bottom);
        },
        (Some(a), None) => {
            let (x1, y1) = choose|x: int, y: int|
                #[trigger] is_leftmost(phys, x_grid, y_grid, tx, ty, x, y) && a.left
                    == phys.x.floor_at(x);
            assert(cell_matches(x_grid, y_grid, tx, ty, x1, y1));
        },
        (None, Some(b)) => {
            let (x2, y2) = choose|x: int, y: int|
                #[trigger] is_leftmost(phys, x_grid, y_grid, tx, ty, x, y) && b.left
                    == phys.x.floor_at(x);
            assert(cell_matches(x_grid, y_grid, tx, ty, x2, y2));
        },
        (None, None) => {},
    }
}

/// Which coordinate of a physical grid point a range is taken over.
#[derive(Clone, Copy, Debug, PartialEq, Eq, Structural)]
pub enum GridAxis {
    X,
    Y,
}

/// The coordinate along `axis` of the grid point `(x, y)` of `space`.
pub open spec fn axis_coord(space: Space, axis: GridAxis, x: int, y: int) -> Coord {
    match axis {
        GridAxis::X => space.x.coord_at(x),
        GridAxis::Y => space.y.coord_at(y),
    }
}

/// The numerator of that coordinate, exact.
pub open spec fn axis_numerator(space: Space, axis: GridAxis, x: int, y: int) -> int {
    match axis {
        GridAxis::X => space.x.numerator(x),
        GridAxis::Y => space.y.numerator(y),
    }
}

/// The least and greatest coordinates along `axis` of the physical grid points
/// whose sampled value is `value`; `None` where no point has it.
pub fn get_physical_range(space: &Space, grid: &Grid<i64>, axis: GridAxis, value: i64) -> (r:
    Option<(Coord, Coord)>)
    requires
        space.wf(),
        grid.covers(*space),
    ensures
        r is None <==> forall|x: int, y: int|
            space.in_grid(x, y) ==> #[trigger] grid.at(x, y) != value,
        r matches Some((lo, hi)) ==> {
            &&& exists|x: int, y: int|
                space.in_grid(x, y) && #[trigger] grid.at(x, y) == value && lo == axis_coord(
                    *space,
                    axis,
                    x,
                    y,
                )
            &&& exists|x: int, y: int|
                space.in_grid(x, y) && #[trigger] grid.at(x, y) == value && hi == axis_coord(
                    *space,
                    axis,
                    x,
                    y,
                )
            &&& forall|x: int, y: int|
                space.in_grid(x, y) && #[trigger] grid.at(x, y) == value ==> lo.num
                    <= axis_numerator(*space, axis, x, y) <= hi.num
        },
{
    let width = space.x.subdivision_count();
    let height = space.y.subdivision_count();
    let mut range: Option<(Coord, Coord)> = None;
    let ghost mut lw: (int, int) = (0, 0);
    let ghost mut hw: (int, int) = (0, 0);
    let mut y: usize = 0;
    while y <= height
        invariant
            space.wf(),
            grid.covers(*space),
            width == space.x.subdivisions(),
            height == space.y.subdivisions(),
            y <= height + 1,
            range is None ==> forall|x2: int, y2: int|
                scanned_before(*space, x2, y2, 0, y as int) ==> #[trigger] grid.at(x2, y2)
                    != value,
            range matches Some((lo, hi)) ==> {
                &&& scanned_before(*space, lw.0, lw.1, 0, y as int)
                &&& scanned_before(*space, hw.0, hw.1, 0, y as int)
                &&& grid.at(lw.0, lw.1) == value
                &&& grid.at(hw.0, hw.1) == value
                &&& lo == axis_coord(*space, axis, lw.0, lw.1)
                &&& hi == axis_coord(*space, axis, hw.0, hw.1)
                &&& lo.num == axis_numerator(*space, axis, lw.0, lw.1)
                &&& hi.num == axis_numerator(*space, axis, hw.0, hw.1)
                &&& forall|x2: int, y2: int|
                    scanned_before(*space, x2, y2, 0, y as int) && #[trigger] grid.at(x2, y2)
                        == value ==> lo.num <= axis_numerator(*space, axis, x2, y2) <= hi.num
            },
        decreases height + 1 - y,
    {
        let mut x: usize = 0;
        while x <= width
            invariant
                space.wf(),
                grid.covers(*space),
                width == space.x.subdivisions(),
                height == space.y.subdivisions(),
                y <= height,
                x <= width + 1,
                range is None ==> forall|x2: int, y2: int|
                    scanned_before(*space, x2, y2, x as int, y as int) ==> #[trigger] grid.at(
                        x2,
                        y2,
                    ) != value,
                range matches Some((lo, hi)) ==> {
                    &&& scanned_before(*space, lw.0, lw.1, x as int, y as int)
                    &&& scanned_before(*space, hw.0, hw.1, x as int, y as int)
                    &&& grid.at(lw.0, lw.1) == value
                    &&& grid.at(hw.0, hw.1) == value
                    &&& lo == axis_coord(*space, axis, lw.0, lw.1)
                    &&& hi == axis_coord(*space, axis, hw.0, hw.1)
                    &&& lo.num == axis_numerator(*space, axis, lw.0, lw.1)
                    &&& hi.num == axis_numerator(*space, axis, hw.0, hw.1)
                    &&& forall|x2: int, y2: int|
                        scanned_before(*space, x2, y2, x as int, y as int) && #[trigger] grid.at(
                            x2,
                            y2,
                        ) == value ==> lo.num <= axis_numerator(*space, axis, x2, y2) <= hi.num
                },
            decreases width + 1 - x,
        {
            let ghost old_range = range;
            if *grid.get(x, y) == value {
                proof {
                    space.x.lemma_bounds();
                    space.y.lemma_bounds();
                }
                let p = space.transform(x, y);
                let c = match axis {
                    GridAxis::X => p.x,
                    GridAxis::Y => p.y,
                };
                assert(c == axis_coord(*space, axis, x as int, y as int));
                assert(c.num == axis_numerator(*space, axis, x as int, y as int));
                match range {
                    None => {
                        range = Some((c, c));
                        proof {
                            lw = (x as int, y as int);
                            hw = (x as int, y as int);
                        }
                    },
                    Some((lo, hi)) => {
                        let mut nlo = lo;
                        let mut nhi = hi;
                        if c.num < lo.num {
                            nlo = c;
                            proof {
                                lw = (x as int, y as int);
                            }
                        }
                        if c.num > hi.num {
                            nhi = c;
                            proof {
                                hw = (x as int, y as int);
                            }
                        }
                        range = Some((nlo, nhi));
                    },
                }
            }
            proof {
                let nx = (x + 1) as int;
                let yi = y as int;
                if range is None {
                    assert forall|x2: int, y2: int|
                        scanned_before(*space, x2, y2, nx, yi) implies #[trigger] grid.at(x2, y2)
                        != value by {
                        if !(x2 == x && y2 == y) {
                            assert(scanned_before(*space, x2, y2, x as int, yi));
                        }
                    }
                } else {
                    let (lo, hi) = range.unwrap();
                    assert forall|x2: int, y2: int|
                        scanned_before(*space, x2, y2, nx, yi) && #[trigger] grid.at(x2, y2)
                            == value implies lo.num <= axis_numerator(*space, axis, x2, y2)
                        <= hi.num by {
                        if !(x2 == x && y2 == y) {
                            assert(scanned_before(*space, x2, y2, x as int, yi));
                        }
                    }
                }
            }
            x += 1;
        }
        proof {
            assert forall|x2: int, y2: int|
                scanned_before(*space, x2, y2, x as int, y as int) == scanned_before(
                    *space,
                    x2,
                    y2,
                    0,
                    (y + 1) as int,
                ) by {}
        }
        y += 1;
    }
    proof {
        if range is Some {
            assert(grid.at(lw.0, lw.1) == value);
            assert(grid.at(hw.0, hw.1) == value);
        } else {
            assert forall|x: int, y: int| space.in_grid(x, y) implies #[trigger] grid.at(x, y)
                != value by {
                assert(scanned_before(*space, x, y, 0, (height + 1) as int));
            }
        }
    }
    range
}

} // verus!
