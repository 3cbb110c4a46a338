//! The connectivity of a grid of `(width + 1) * (height + 1)` points, listed
//! cell by cell, row by row: two edges and two triangles per cell.
use vstd::prelude::*;

verus! {

/// The position of grid point `(x, y)` in the row-by-row list of points.
pub open spec fn point_index(width: int, x: int, y: int) -> int {
    y * (width + 1) + x
}

/// The column of the cell of the `k`-th pair of entries.
pub open spec fn cell_x(width: int, k: int) -> int {
    (k / 2) % width
}

/// The row of the cell of the `k`-th pair of entries.
pub open spec fn cell_y(width: int, k: int) -> int {
    (k / 2) / width
}

/// The `k`-th triangle: cell `(x, y)` is split along its diagonal from
/// `(x, y)` to `(x + 1, y + 1)`, the lower triangle first.
pub open spec fn triangle_at(width: int, k: int) -> (int, int, int) {
    let x = cell_x(width, k);
    let y = cell_y(width, k);
    if k % 2 == 0 {
        (point_index(width, x, y), point_index(width, x + 1, y), point_index(width, x + 1, y + 1))
    } else {
        (point_index(width, x, y), point_index(width, x + 1, y + 1), point_index(width, x, y + 1))
    }
}

/// The `k`-th edge: from cell `(x, y)`'s first point to its right neighbour,
/// then to the neighbour below.
pub open spec fn edge_at(width: int, k: int) -> ((int, int), (int, int)) {
    let x = cell_x(width, k);
    let y = cell_y(width, k);
    if k % 2 == 0 {
        ((x, y), (x + 1, y))
    } else {
        ((x, y), (x, y + 1))
    }
}

proof fn lemma_cell_of(width: int, x: int, y: int)
    requires
        width >= 1,
        0 <= x < width,
        0 <= y,
    ensures
        cell_x(width, 2 * (y * width + x)) == x,
        cell_y(width, 2 * (y * width + x)) == y,
        cell_x(width, 2 * (y * width + x) + 1) == x,
        cell_y(width, 2 * (y * width + x) + 1) == y,
        (2 * (y * width + x)) % 2 == 0,
        (2 * (y * width + x) + 1) % 2 == 1,
{
    let c = y * width + x;
    vstd::arithmetic::div_mod::lemma_fundamental_div_mod_converse(2 * c, 2, c, 0);
    vstd::arithmetic::div_mod::lemma_fundamental_div_mod_converse(2 * c + 1, 2, c, 1);
    vstd::arithmetic::div_mod::lemma_fundamental_div_mod_converse(c, width, y, x);
}

/// The triangles of the grid, as indices into the row-by-row list of points.
pub fn grid_triangles(width: usize, height: usize) -> (r: Vec<(u16, u16, u16)>)
    requires
        1 <= width,
        (width + 1) * (height + 1) <= 0x1_0000,
    ensures
        r@.len() == 2 * width * height,
        forall|k: int|
            0 <= k < r@.len() ==> {
                &&& (#[trigger] r@[k]).0 == triangle_at(width as int, k).0
                &&& r@[k].1 == triangle_at(width as int, k).1
                &&& r@[k].2 == triangle_at(width as int, k).2
            },
{
    let mut r: Vec<(u16, u16, u16)> = Vec::new();
    let mut y: usize = 0;
    while y < height
        invariant
            1 <= width,
            (width + 1) * (height + 1) <= 0x1_0000,
            y <= height,
            r@.len() == 2 * (y * width),
            forall|k: int|
                0 <= k < r@.len() ==> {
                    &&& (#[trigger] r@[k]).0 == triangle_at(width as int, k).0
                    &&& r@[k].1 == triangle_at(width as int, k).1
                    &&& r@[k].2 == triangle_at(width as int, k).2
                },
        decreases height - y,
    {
        let mut x: usize = 0;
        while x < width
            invariant
                1 <= width,
                (width + 1) * (height + 1) <= 0x1_0000,
                y < height,
                x <= width,
                r@.len() == 2 * (y * width + x),
                forall|k: int|
                    0 <= k < r@.len() ==> {
                        &&& (#[trigger] r@[k]).0 == triangle_at(width as int, k).0
                        &&& r@[k].1 == triangle_at(width as int, k).1
                        &&& r@[k].2 == triangle_at(width as int, k).2
                    },
            decreases width - x,
        {
            proof {
                lemma_cell_of(width as int, x as int, y as int);
                let w = width as int;
                let h = height as int;
                let yi = y as int;
                let xi = x as int;
                assert((yi + 1) * (w + 1) + xi + 1 < (w + 1) * (h + 1)) by (nonlinear_arith)
                    requires
                        0 <= yi < h,
                        0 <= xi < w,
                ;
                assert(yi * (w + 1) <= (yi + 1) * (w + 1)) by (nonlinear_arith)
                    requires
                        0 <= yi,
                        0 <= w,
                ;
                assert((yi + 1) * (w + 1) == yi * (w + 1) + w + 1) by (nonlinear_arith);
            }
            let row = y * (width + 1);
            let next_row = row + width + 1;
            let v00 = (row + x) as u16;
            let v10 = (row + x + 1) as u16;
            let v01 = (next_row + x) as u16;
            let v11 = (next_row + x + 1) as u16;
            r.push((v00, v10, v11));
            r.push((v00, v11, v01));
            proof {
                assert(2 * (y * width + x + 1) == 2 * (y * width + x) + 2);
            }
            x += 1;
        }
        proof {
            assert((y + 1) * width == y * width + width) by (nonlinear_arith);
        }
        y += 1;
    }
    proof {
        assert(2 * (height * width) == 2 * width * height) by (nonlinear_arith);
    }
    r
}

/// The edges of the grid, as pairs of grid points.
pub fn grid_edges(width: usize, height: usize) -> (r: Vec<((usize, usize), (usize, usize))>)
    requires
        1 <= width,
        (width + 1) * (height + 1) <= usize::MAX,
    ensures
        r@.len() == 2 * width * height,
        forall|k: int|
            0 <= k < r@.len() ==> {
                &&& (#[trigger] r@[k]).0.0 == edge_at(width as int, k).0.0
                &&& r@[k].0.1 == edge_at(width as int, k).0.1
                &&& r@[k].1.0 == edge_at(width as int, k).1.0
                &&& r@[k].1.1 == edge_at(width as int, k).1.1
            },
{
    let mut r: Vec<((usize, usize), (usize, usize))> = Vec::new();
    let mut y: usize = 0;
    while y < height
        invariant
            1 <= width,
            (width + 1) * (height + 1) <= usize::MAX,
            y <= height,
            r@.len() == 2 * (y * width),
            forall|k: int|
                0 <= k < r@.len() ==> {
                    &&& (#[trigger] r@[k]).0.0 == edge_at(width as int, k).0.0
                    &&& r@[k].0.1 == edge_at(width as int, k).0.1
                    &&& r@[k].1.0 == edge_at(width as int, k).1.0
                    &&& r@[k].1.1 == edge_at(width as int, k).1.1
                },
        decreases height - y,
    {
        let mut x: usize = 0;
        while x < width
            invariant
                1 <= width,
                (width + 1) * (height + 1) <= usize::MAX,
                y < height,
                x <= width,
                r@.len() == 2 * (y * width + x),
                forall|k: int|
                    0 <= k < r@.len() ==> {
                        &&& (#[trigger] r@[k]).0.0 == edge_at(width as int, k).0.0
                        &&& r@[k].0.1 == edge_at(width as int, k).0.1
                        &&& r@[k].1.0 == edge_at(width as int, k).1.0
                        &&& r@[k].1.1 == edge_at(width as int, k).1.1
                    },
            decreases width - x,
        {
            proof {
                lemma_cell_of(width as int, x as int, y as int);
                assert(2 * (y * width + x + 1) == 2 * (y * width + x) + 2);
            }
            r.push(((x, y), (x + 1, y)));
            r.push(((x, y), (x, y + 1)));
            x += 1;
        }
        proof {
            assert((y + 1) * width == y * width + width) by (nonlinear_arith);
        }
        y += 1;
    }
    proof {
        assert(2 * (height * width) == 2 * width * height) by (nonlinear_arith);
    }
    r
}

} // verus!
