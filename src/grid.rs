//! Dense sample grids over the physical grid, and the sampler that fills one
//! by querying an interpolated surface once per grid point.
use crate::space::{Point, Space};
use vstd::prelude::*;

verus! {

/// A dense table indexed by grid coordinates: `rows[y][x]`.
#[derive(Debug)]
pub struct Grid<T> {
    pub rows: Vec<Vec<T>>,
}

impl<T> Grid<T> {
    /// Every one of the `height` rows holds `width` entries.
    pub open spec fn has_shape(self, width: int, height: int) -> bool {
        &&& self.rows@.len() == height
        &&& forall|y: int| 0 <= y < height ==> #[trigger] self.rows@[y]@.len() == width
    }

    /// The entry at column `x` of row `y`.
    pub open spec fn at(self, x: int, y: int) -> T {
        self.rows@[y]@[x]
    }

    /// Whether the grid has one entry for each point of the grid over `space`.
    pub open spec fn covers(self, space: Space) -> bool {
        self.has_shape(space.x.subdivisions() + 1, space.y.subdivisions() + 1)
    }

    /// Whether every row holds `width` entries and there are `height` rows.
    pub fn check_shape(&self, width: usize, height: usize) -> (r: bool)
        ensures
            r == self.has_shape(width as int, height as int),
    {
        if self.rows.len() != height {
            return false;
        }
        let mut y: usize = 0;
        while y < height
            invariant
                self.rows@.len() == height,
                y <= height,
                forall|k: int| 0 <= k < y ==> #[trigger] self.rows@[k]@.len() == width,
            decreases height - y,
        {
            if self.rows[y].len() != width {
                return false;
            }
            y += 1;
        }
        true
    }

    /// The entry at column `x` of row `y`.
    pub fn get(&self, x: usize, y: usize) -> (r: &T)
        requires
            y < self.rows@.len(),
            x < self.rows@[y as int]@.len(),
        ensures
            *r == self.at(x as int, y as int),
    {
        &self.rows[y][x]
    }

    /// Samples a surface over every point of the grid over `space`: the entry at
    /// `(x, y)` is what `oracle` returned for the point of index `(x, y)`, which
    /// lies in the space's rectangle. `None` where a query found no value.
    pub fn sample<F: Fn(Point) -> Option<T>>(space: &Space, oracle: F) -> (r: Option<Grid<T>>)
        requires
            space.wf(),
            forall|p: Point| space.contains(p) ==> #[trigger] oracle.requires((p,)),
        ensures
            r matches Some(g) ==> {
                &&& g.covers(*space)
                &&& forall|x: int, y: int|
                    space.in_grid(x, y) ==> space.contains(#[trigger] space.point_at(x, y))
                &&& forall|x: int, y: int|
                    space.in_grid(x, y) ==> oracle.ensures(
                        (space.point_at(x, y),),
                        Some(#[trigger] g.at(x, y)),
                    )
            },
            r is None ==> exists|x: int, y: int|
                space.in_grid(x, y) && #[trigger] oracle.ensures(
                    (space.point_at(x, y),),
                    None,
                ),
    {
        let width = space.x.subdivision_count();
        let height = space.y.subdivision_count();
        let mut rows: Vec<Vec<T>> = Vec::new();
        let mut y: usize = 0;
        while y <= height
            invariant
                space.wf(),
                width == space.x.subdivisions(),
                height == space.y.subdivisions(),
                forall|p: Point| space.contains(p) ==> #[trigger] oracle.requires((p,)),
                y <= height + 1,
                rows@.len() == y,
                forall|k: int| 0 <= k < y ==> #[trigger] rows@[k]@.len() == width + 1,
                forall|i: int, k: int|
                    0 <= k < y && 0 <= i <= width ==> oracle.ensures(
                        (space.point_at(i, k),),
                        Some(#[trigger] rows@[k]@[i]),
                    ),
            decreases height + 1 - y,
        {
            let mut row: Vec<T> = Vec::new();
            let mut x: usize = 0;
            while x <= width
                invariant
                    space.wf(),
                    width == space.x.subdivisions(),
                    height == space.y.subdivisions(),
                    forall|p: Point| space.contains(p) ==> #[trigger] oracle.requires((p,)),
                    y <= height,
                    x <= width + 1,
                    row@.len() == x,
                    forall|i: int|
                        0 <= i < x ==> oracle.ensures(
                            (space.point_at(i, y as int),),
                            Some(#[trigger] row@[i]),
                        ),
                decreases width + 1 - x,
            {
                proof {
                    space.x.lemma_bounds();
                    space.y.lemma_bounds();
                }
                let p = space.transform(x, y);
                proof {
                    space.lemma_point_in_rectangle(x as int, y as int);
                }
                match oracle(p) {
                    Some(v) => {
                        row.push(v);
                    },
                    None => {
                        return None;
                    },
                }
                x += 1;
            }
            rows.push(row);
            y += 1;
        }
        let g = Grid { rows };
        assert forall|x: int, y: int| space.in_grid(x, y) implies space.contains(
            #[trigger] space.point_at(x, y),
        ) by {
            space.lemma_point_in_rectangle(x, y);
        }
        assert forall|x: int, y: int| space.in_grid(x, y) implies oracle.ensures(
            (space.point_at(x, y),),
            Some(#[trigger] g.at(x, y)),
        ) by {
            assert(g.at(x, y) == g.rows@[y]@[x]);
        }
        Some(g)
    }
}

} // verus!
