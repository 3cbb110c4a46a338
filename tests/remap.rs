use std::cell::RefCell;

use touch_remap::grid::Grid;
use touch_remap::interpolation::{
    BarycentricInterpolation, FarinC1Interpolation, NaturalNeighborInterpolation,
    SibsonC1Interpolation,
};
use touch_remap::mesh::{grid_edges, grid_triangles};
use touch_remap::resolve::{
    generate_virtual_to_physical_map, get_bounding_box, get_physical_range, BoundingBox, GridAxis,
    ResolveError,
};
use touch_remap::space::{Axis, Coord, Layout, Point};
use touch_remap::ui::{next_mesh_index, DelaunayVisibility, GridRenderType};

/// A linear surface over the reference physical grid: the virtual x value of
/// physical x `1.05 * x` is `1.05 * x * 32 / 126 = 4 * x / 15`.
fn linear_x(p: Point) -> Option<i64> {
    Some(((p.x.num as i128 * 32) / (p.x.den as i128 * 126)) as i64)
}

/// The virtual y value of physical y `1.05 * y` is `1.05 * y * 16 / 105 = 4 * y / 25`.
fn linear_y(p: Point) -> Option<i64> {
    Some(((p.y.num as i128 * 16) / (p.y.den as i128 * 105)) as i64)
}

fn reference_grids() -> (Layout, Grid<i64>, Grid<i64>) {
    let layout = Layout::reference();
    let xg = Grid::sample(&layout.physical, linear_x).unwrap();
    let yg = Grid::sample(&layout.physical, linear_y).unwrap();
    (layout, xg, yg)
}

fn filled(layout: &Layout, value: i64) -> Grid<i64> {
    let w = layout.physical.x.subdivision_count() + 1;
    let h = layout.physical.y.subdivision_count() + 1;
    Grid { rows: vec![vec![value; w]; h] }
}

#[test]
fn coord_floor_rounds_down() {
    assert_eq!(Coord { num: 250, den: 100 }.floor(), 2);
    assert_eq!(Coord { num: 200, den: 100 }.floor(), 2);
    assert_eq!(Coord { num: 0, den: 100 }.floor(), 0);
    assert_eq!(Coord { num: -1, den: 100 }.floor(), -1);
    assert_eq!(Coord { num: -100, den: 100 }.floor(), -1);
    assert_eq!(Coord { num: -101, den: 100 }.floor(), -2);
}

#[test]
fn axis_new_checks_fields() {
    assert_eq!(
        Axis::new(0, 120, 1, 105),
        Some(Axis { min: 0, max: 120, increment: 1, stretch: 105 })
    );
    assert_eq!(Axis::new(0, 120, 7, 105), None);
    assert_eq!(Axis::new(0, 120, 0, 105), None);
    assert_eq!(Axis::new(5, 5, 1, 100), None);
    assert_eq!(Axis::new(0, 10, 1, 0), None);
    assert_eq!(Axis::new(0, 10, 2, 100).unwrap().subdivision_count(), 5);
}

#[test]
fn reference_transform_values() {
    let layout = Layout::reference();
    assert_eq!(layout.physical.x.subdivision_count(), 120);
    assert_eq!(layout.physical.y.subdivision_count(), 100);
    assert_eq!(layout.virtual_space.x.subdivision_count(), 32);
    assert_eq!(layout.virtual_space.y.subdivision_count(), 16);
    let p = layout.transform_physical_point(20, 10);
    assert_eq!(p.x, Coord { num: 252000, den: 12000 });
    assert_eq!(p.x.floor(), 21);
    assert_eq!(p.y.floor(), 10);
    let v = layout.transform_virtual_point(16, 8);
    assert_eq!(v.x.floor(), 16);
    assert_eq!(v.y.floor(), 8);
    let v = layout.transform_virtual_point(20, 10);
    assert_eq!(v.x.floor(), 21);
    assert_eq!(v.y.floor(), 10);
}

#[test]
fn transform_is_deterministic() {
    let layout = Layout::reference();
    for (x, y) in [(0, 0), (7, 3), (120, 100)] {
        assert_eq!(layout.transform_physical_point(x, y), layout.transform_physical_point(x, y));
    }
    for (x, y) in [(0, 0), (31, 2), (32, 16)] {
        assert_eq!(layout.transform_virtual_point(x, y), layout.transform_virtual_point(x, y));
    }
}

#[test]
fn transform_endpoints() {
    let layout = Layout::reference();
    let first = layout.transform_physical_point(0, 0);
    assert_eq!(first.x.num, 0);
    assert_eq!(first.y.num, 0);
    // The last index lands on max * 1.05 exactly.
    let last = layout.transform_physical_point(120, 100);
    assert_eq!(last.x.num * 100, 126 * 100 * last.x.den);
    assert_eq!(last.y.num * 100, 105 * 100 * last.y.den);
    // The virtual axes are stretched too: the last index lands on 33.6 by 16.8.
    let last = layout.transform_virtual_point(32, 16);
    assert_eq!(last.x.num * 10, 336 * last.x.den);
    assert_eq!(last.y.num * 10, 168 * last.y.den);
    assert_eq!(last.x.floor(), 33);
    assert_eq!(last.y.floor(), 16);
    // A non-zero minimum is subtracted as the offset.
    let axis = Axis::new(10, 20, 1, 100).unwrap();
    let c = axis.position(0);
    assert_eq!(c.floor(), -10);
    assert_eq!(axis.position(10).floor(), 0);
}

#[test]
fn transform_extrapolates_past_the_grid() {
    let layout = Layout::reference();
    let p = layout.transform_physical_point(121, 200);
    assert_eq!(p.x.num * 100, 12705 * p.x.den);
    assert_eq!(p.x.floor(), 127);
    assert_eq!(p.y.floor(), 210);
    let v = layout.transform_virtual_point(40, 0);
    assert_eq!(v.x.floor(), 42);
}

#[test]
fn sampler_covers_physical_grid() {
    let layout = Layout::reference();
    let queried: RefCell<Vec<Point>> = RefCell::new(Vec::new());
    let g = Grid::sample(&layout.physical, |p: Point| {
        queried.borrow_mut().push(p);
        Some(p.x.num + p.y.num)
    })
    .unwrap();
    assert_eq!(g.rows.len(), 101);
    assert!(g.rows.iter().all(|r| r.len() == 121));
    let q = queried.borrow();
    assert_eq!(q.len(), 101 * 121);
    for p in q.iter() {
        assert!(p.x.num >= 0 && p.x.num <= 126 * p.x.den);
        assert!(p.y.num >= 0 && p.y.num <= 105 * p.y.den);
    }
    let p = layout.transform_physical_point(3, 4);
    assert_eq!(*g.get(3, 4), p.x.num + p.y.num);
}

#[test]
fn sampler_stops_on_missing_value() {
    let layout = Layout::reference();
    let g: Option<Grid<i64>> =
        Grid::sample(&layout.physical, |p: Point| if p.x.num > 100 * p.x.den { None } else { Some(1) });
    assert!(g.is_none());
}

#[test]
fn resolution_is_repeatable() {
    let (layout, xg, yg) = reference_grids();
    let a = generate_virtual_to_physical_map(&layout, &xg, &yg).unwrap();
    let b = generate_virtual_to_physical_map(&layout, &xg, &yg).unwrap();
    assert_eq!(a.rows, b.rows);
    assert_eq!(get_bounding_box(&layout, &xg, &yg, 3, 4), get_bounding_box(&layout, &xg, &yg, 3, 4));
}

#[test]
fn reference_coverage_and_center() {
    let (layout, xg, yg) = reference_grids();
    let map = generate_virtual_to_physical_map(&layout, &xg, &yg).unwrap();
    assert_eq!(map.rows.len(), 17);
    // The surface takes virtual x values 0..=32 and y values 0..=16: exactly
    // the coordinates whose bucket lies in that range are found.
    let mut absent = 0;
    for vy in 0..=16usize {
        assert_eq!(map.rows[vy].len(), 33);
        for vx in 0..=32usize {
            let target = layout.transform_virtual_point(vx, vy);
            let inside = target.x.floor() <= 32 && target.y.floor() <= 16;
            assert_eq!(map.get(vx, vy).is_some(), inside, "({}, {})", vx, vy);
            if !inside {
                absent += 1;
            }
        }
    }
    // Only the last column reaches past the surface: 32 * 1.05 = 33.6.
    assert_eq!(absent, 17);
    assert!(map.get(31, 16).is_some());
    assert!(map.get(32, 0).is_none());
    let b = map.get(16, 8).unwrap();
    assert_eq!(b, BoundingBox { left: 63, top: 52, right: 66, bottom: 58 });
    // The centre of the box lies within one virtual cell (126 / 32 by 105 / 16
    // physical units) of the centre (63, 52.5) of the physical rectangle.
    let cx2 = b.left + b.right;
    let cy2 = b.top + b.bottom;
    assert!((cx2 * 32 - 126 * 32).abs() <= 2 * 126);
    assert!((cy2 * 16 - 105 * 16).abs() <= 2 * 105);
}

#[test]
fn single_cell_region_is_degenerate() {
    let layout = Layout::reference();
    let mut xg = filled(&layout, 0);
    let mut yg = filled(&layout, 0);
    xg.rows[20][10] = 5;
    yg.rows[20][10] = 5;
    let b = get_bounding_box(&layout, &xg, &yg, 5, 5).unwrap().unwrap();
    assert_eq!(b, BoundingBox { left: 10, top: 21, right: 10, bottom: 21 });
    assert!(b.is_degenerate());
    let wide = get_bounding_box(&layout, &xg, &yg, 0, 0).unwrap().unwrap();
    assert_eq!(wide, BoundingBox { left: 0, top: 0, right: 126, bottom: 105 });
    assert!(!wide.is_degenerate());
}

#[test]
fn unmatched_coordinate_is_absent() {
    let layout = Layout::reference();
    let xg = filled(&layout, 0);
    let yg = filled(&layout, 0);
    assert_eq!(get_bounding_box(&layout, &xg, &yg, 1, 0), Ok(None));
}

#[test]
fn out_of_range_coordinate_is_rejected() {
    let (layout, xg, yg) = reference_grids();
    assert_eq!(get_bounding_box(&layout, &xg, &yg, 33, 0), Err(ResolveError::OutOfRange));
    assert_eq!(get_bounding_box(&layout, &xg, &yg, 0, 17), Err(ResolveError::OutOfRange));
    assert!(get_bounding_box(&layout, &xg, &yg, 32, 16).is_ok());
}

#[test]
fn misshapen_grid_is_rejected() {
    let (layout, xg, _) = reference_grids();
    let small = Grid { rows: vec![vec![0i64; 121]; 100] };
    assert_eq!(get_bounding_box(&layout, &xg, &small, 0, 0), Err(ResolveError::GridShape));
    assert!(matches!(
        generate_virtual_to_physical_map(&layout, &small, &xg),
        Err(ResolveError::GridShape)
    ));
}

#[test]
fn physical_range_of_value() {
    let (layout, xg, yg) = reference_grids();
    let (lo, hi) = get_physical_range(&layout.physical, &xg, GridAxis::X, 10).unwrap();
    assert_eq!(lo, Coord { num: 38 * 12600, den: 12000 });
    assert_eq!(hi, Coord { num: 41 * 12600, den: 12000 });
    let (lo, hi) = get_physical_range(&layout.physical, &yg, GridAxis::Y, 16).unwrap();
    assert_eq!(lo.floor(), 105);
    assert_eq!(hi.floor(), 105);
    assert_eq!(get_physical_range(&layout.physical, &xg, GridAxis::X, 40), None);
}

#[test]
fn triangles_of_small_grid() {
    assert_eq!(grid_triangles(2, 1), vec![(0, 1, 4), (0, 4, 3), (1, 2, 5), (1, 5, 4)]);
    assert_eq!(grid_triangles(120, 100).len(), 2 * 120 * 100);
    assert_eq!(grid_triangles(120, 100)[2 * 121 + 1], (122, 244, 243));
}

#[test]
fn edges_of_small_grid() {
    assert_eq!(grid_edges(1, 1), vec![((0, 0), (1, 0)), ((0, 0), (0, 1))]);
    assert_eq!(grid_edges(2, 2)[6], ((1, 1), (2, 1)));
}

#[test]
fn toggles_cycle() {
    assert_eq!(DelaunayVisibility::All.next(), DelaunayVisibility::OnlyLines);
    assert_eq!(DelaunayVisibility::OnlyLines.next(), DelaunayVisibility::Hidden);
    assert_eq!(DelaunayVisibility::Hidden.next(), DelaunayVisibility::All);
    assert_eq!(GridRenderType::Lines.next(), GridRenderType::Polygons);
    assert_eq!(GridRenderType::Polygons.next(), GridRenderType::Lines);
    assert_eq!(next_mesh_index(0, 4), 1);
    assert_eq!(next_mesh_index(3, 4), 4);
    assert_eq!(next_mesh_index(4, 4), 0);
}

#[test]
fn method_titles() {
    assert_eq!(BarycentricInterpolation::title(), "barycentric interpolation");
    assert_eq!(NaturalNeighborInterpolation::title(), "natural neighbor interpolation");
    assert_eq!(SibsonC1Interpolation::title(), "sibson's c1 interpolation");
    assert_eq!(FarinC1Interpolation::title(), "farin's c1 interpolation");
}
