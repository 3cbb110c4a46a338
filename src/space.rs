//! Space descriptors and the affine transform from grid indices to coordinates.
//!
//! Coordinates are exact rationals: every position on an axis shares the
//! denominator `100 * subdivisions`, so positions on one axis compare by their
//! numerators alone.
use vstd::prelude::*;

verus! {

/// Largest magnitude accepted for an axis bound.
pub const BOUND_LIMIT: i64 = 1048576;

/// Largest stretch, in hundredths, accepted for an axis.
pub const STRETCH_LIMIT: i64 = 1000;

/// Bounds of the physical space, one unit per grid step.
pub const X_PHYSICAL_MIN: i64 = 0;
pub const X_PHYSICAL_MAX: i64 = 120;
pub const Y_PHYSICAL_MIN: i64 = 0;
pub const Y_PHYSICAL_MAX: i64 = 100;
pub const X_PHYSICAL_INCREMENT: i64 = 1;
pub const Y_PHYSICAL_INCREMENT: i64 = 1;

/// The physical width and height are stretched by 5%.
pub const PHYSICAL_STRETCH: i64 = 105;

/// Bounds of the virtual space, one unit per grid step.
pub const X_VIRTUAL_MIN: i64 = 0;
pub const X_VIRTUAL_MAX: i64 = 32;
pub const Y_VIRTUAL_MIN: i64 = 0;
pub const Y_VIRTUAL_MAX: i64 = 16;
pub const X_VIRTUAL_INCREMENT: i64 = 1;
pub const Y_VIRTUAL_INCREMENT: i64 = 1;

/// The virtual width and height are stretched by 5% as well.
pub const VIRTUAL_STRETCH: i64 = 105;

/// The floor of `n / d` for positive `d` (division on `int` rounds down there).
pub open spec fn floor_div(n: int, d: int) -> int {
    n / d
}

/// An exact rational coordinate `num / den`.
#[derive(Clone, Copy, Debug, PartialEq, Eq)]
pub struct Coord {
    pub num: i64,
    pub den: i64,
}

impl Coord {
    /// The largest integer not above this coordinate.
    pub fn floor(&self) -> (r: i64)
        requires
            self.den > 0,
        ensures
            r == floor_div(self.num as int, self.den as int),
    {
        if self.num >= 0 {
            self.num / self.den
        } else {
            let m: i64 = -(self.num + 1);
            let q: i64 = m / self.den;
            proof {
                let n = self.num as int;
                let d = self.den as int;
                let qi = m as int / d;
                let ri = m as int % d;
                assert(m as int == qi * d + ri && 0 <= ri < d) by {
                    vstd::arithmetic::div_mod::lemma_fundamental_div_mod(m as int, d);
                }
                assert(n == (-qi - 1) * d + (d - 1 - ri)) by (nonlinear_arith)
                    requires
                        m as int == -(n + 1),
                        m as int == qi * d + ri,
                ;
                vstd::arithmetic::div_mod::lemma_fundamental_div_mod_converse(
                    n,
                    d,
                    -qi - 1,
                    d - 1 - ri,
                );
            }
            -q - 1
        }
    }
}

/// A point given by one exact coordinate per axis.
#[derive(Clone, Copy, Debug, PartialEq, Eq)]
pub struct Point {
    pub x: Coord,
    pub y: Coord,
}

/// One axis of a space: its bounds, the step between grid lines, and a stretch
/// of the axis width in hundredths (105 widens it by 5%).
#[derive(Clone, Copy, Debug, PartialEq, Eq)]
pub struct Axis {
    pub min: i64,
    pub max: i64,
    pub increment: i64,
    pub stretch: i64,
}

impl Axis {
    pub open spec fn wf(self) -> bool {
        &&& -BOUND_LIMIT <= self.min < self.max <= BOUND_LIMIT
        &&& 1 <= self.increment
        &&& (self.max - self.min) % (self.increment as int) == 0
        &&& 1 <= self.stretch <= STRETCH_LIMIT
    }

    /// How many steps of `increment` span the axis.
    pub open spec fn subdivisions(self) -> int {
        (self.max - self.min) / (self.increment as int)
    }

    /// The denominator shared by every position on the axis.
    pub open spec fn denominator(self) -> int {
        100 * self.subdivisions()
    }

    /// The numerator of `i * scale - offset`, where
    /// `scale = (max - min) * stretch / 100 / subdivisions` and `offset = min`.
    pub open spec fn numerator(self, i: int) -> int {
        i * (self.max - self.min) * self.stretch - self.min * self.denominator()
    }

    /// The exact coordinate of grid index `i`.
    pub open spec fn coord_at(self, i: int) -> Coord {
        Coord { num: self.numerator(i) as i64, den: self.denominator() as i64 }
    }

    /// The floor of the coordinate of grid index `i`.
    pub open spec fn floor_at(self, i: int) -> int {
        floor_div(self.numerator(i), self.denominator())
    }

    /// Whether `c` is a coordinate of this axis between those of index 0 and
    /// the last index.
    pub open spec fn contains(self, c: Coord) -> bool {
        &&& c.den == self.denominator()
        &&& self.numerator(0) <= c.num <= self.numerator(self.subdivisions())
    }

    /// A descriptor with the given fields, or `None` where they describe no
    /// usable axis.
    pub fn new(min: i64, max: i64, increment: i64, stretch: i64) -> (r: Option<Axis>)
        ensures
            r is Some <==> (Axis { min, max, increment, stretch }).wf(),
            r matches Some(a) ==> a == (Axis { min, max, increment, stretch }),
    {
        if -BOUND_LIMIT <= min && min < max && max <= BOUND_LIMIT && 1 <= increment && 1 <= stretch
            && stretch <= STRETCH_LIMIT {
            if (max - min) % increment == 0 {
                Some(Axis { min, max, increment, stretch })
            } else {
                None
            }
        } else {
            None
        }
    }

    /// The number of subdivisions and the denominator are positive and
    /// bounded.
    pub proof fn lemma_bounds(self)
        requires
            self.wf(),
        ensures
            1 <= self.subdivisions() <= 2 * BOUND_LIMIT,
            100 <= self.denominator() <= 200 * BOUND_LIMIT,
    {
        let w = (self.max - self.min) as int;
        let inc = self.increment as int;
        vstd::arithmetic::div_mod::lemma_fundamental_div_mod(w, inc);
        let s = w / inc;
        assert(w == inc * s);
        assert(s >= 1) by (nonlinear_arith)
            requires
                w == inc * s,
                w >= 1,
                inc >= 1,
        ;
        assert(s <= w) by (nonlinear_arith)
            requires
                w == inc * s,
                s >= 1,
                inc >= 1,
        ;
    }

    /// Whether `i <= j` orders the positions of indices `i` and `j` alike.
    pub proof fn lemma_monotone(self, i: int, j: int)
        requires
            self.wf(),
            i <= j,
        ensures
            self.numerator(i) <= self.numerator(j),
    {
        let w = (self.max - self.min) as int;
        let s = self.stretch as int;
        assert(i * w * s <= j * w * s) by (nonlinear_arith)
            requires
                i <= j,
                w >= 0,
                s >= 0,
        ;
    }

    proof fn lemma_numerator_fits(self, i: int)
        requires
            self.wf(),
            0 <= i <= 2 * BOUND_LIMIT,
        ensures
            -0x20_0000_0000_0000 <= self.numerator(i) <= 0x20_0000_0000_0000,
            0 <= i * (self.max - self.min) <= 0x400_0000_0000,
            0 <= i * (self.max - self.min) * self.stretch <= 0x10_0000_0000_0000,
            -0x10_0000_0000_0000 <= self.min * self.denominator() <= 0x10_0000_0000_0000,
    {
        self.lemma_bounds();
        let w = (self.max - self.min) as int;
        let s = self.stretch as int;
        let m = self.min as int;
        let d = self.denominator();
        assert(0 <= i * w <= 0x400_0000_0000) by (nonlinear_arith)
            requires
                0 <= i <= 2097152,
                0 <= w <= 2097152,
        ;
        let iw = i * w;
        assert(0 <= iw * s <= 0x10_0000_0000_0000) by (nonlinear_arith)
            requires
                0 <= iw <= 0x400_0000_0000,
                1 <= s <= 1000,
        ;
        assert(-0x10_0000_0000_0000 <= m * d <= 0x10_0000_0000_0000) by (nonlinear_arith)
            requires
                -1048576 <= m <= 1048576,
                100 <= d <= 209715200,
        ;
    }

    /// The coordinate of every grid index lies between those of the first and
    /// the last index.
    pub proof fn lemma_coord_in_range(self, i: int)
        requires
            self.wf(),
            0 <= i <= self.subdivisions(),
        ensures
            self.contains(self.coord_at(i)),
    {
        self.lemma_bounds();
        self.lemma_numerator_fits(i);
        self.lemma_monotone(0, i);
        self.lemma_monotone(i, self.subdivisions());
    }

    /// Index 0 lies at `-offset`, and the last index at the axis width,
    /// stretched, less the offset: `(max - min) * stretch / 100 - min`.
    pub proof fn lemma_transform_endpoints(self)
        requires
            self.wf(),
        ensures
            self.numerator(0) == -(self.min * self.denominator()),
            self.numerator(self.subdivisions()) == ((self.max - self.min) * self.stretch - 100
                * self.min) * self.subdivisions(),
    {
        let s = self.subdivisions();
        let w = (self.max - self.min) as int;
        let st = self.stretch as int;
        let m = self.min as int;
        assert(0 * w * st == 0) by (nonlinear_arith);
        assert(self.numerator(0) == 0 * w * st - m * self.denominator());
        assert(s * w * st - m * (100 * s) == (w * st - 100 * m) * s) by (nonlinear_arith);
    }

    /// The number of subdivisions, which is the largest grid index.
    pub fn subdivision_count(&self) -> (r: usize)
        requires
            self.wf(),
        ensures
            r == self.subdivisions(),
    {
        proof {
            self.lemma_bounds();
        }
        ((self.max - self.min) / self.increment) as usize
    }

    /// The coordinate of grid index `i`: `i * scale - offset`. An index past
    /// the last one extrapolates along the same line.
    pub fn position(&self, i: usize) -> (r: Coord)
        requires
            self.wf(),
            i <= 2 * BOUND_LIMIT,
        ensures
            r == self.coord_at(i as int),
            r.num == self.numerator(i as int),
            r.den == self.denominator(),
            r.den > 0,
    {
        proof {
            self.lemma_bounds();
            self.lemma_numerator_fits(i as int);
        }
        let subdivisions = (self.max - self.min) / self.increment;
        let den: i64 = 100 * subdivisions;
        let stretched: i64 = (i as i64) * (self.max - self.min) * self.stretch;
        let num: i64 = stretched - self.min * den;
        Coord { num, den }
    }
}

/// A two-dimensional space: one axis descriptor per direction.
#[derive(Clone, Copy, Debug, PartialEq, Eq)]
pub struct Space {
    pub x: Axis,
    pub y: Axis,
}

impl Space {
    pub open spec fn wf(self) -> bool {
        self.x.wf() && self.y.wf()
    }

    /// Whether `(ix, iy)` is an index of the grid over this space.
    pub open spec fn in_grid(self, ix: int, iy: int) -> bool {
        0 <= ix <= self.x.subdivisions() && 0 <= iy <= self.y.subdivisions()
    }

    /// The point of grid index `(ix, iy)`.
    pub open spec fn point_at(self, ix: int, iy: int) -> Point {
        Point { x: self.x.coord_at(ix), y: self.y.coord_at(iy) }
    }

    /// Whether `p` lies in the rectangle spanned by the grid's first and last
    /// points.
    pub open spec fn contains(self, p: Point) -> bool {
        self.x.contains(p.x) && self.y.contains(p.y)
    }

    /// Every point of the grid lies in the space's rectangle.
    pub proof fn lemma_point_in_rectangle(self, ix: int, iy: int)
        requires
            self.wf(),
            self.in_grid(ix, iy),
        ensures
            self.contains(self.point_at(ix, iy)),
    {
        self.x.lemma_coord_in_range(ix);
        self.y.lemma_coord_in_range(iy);
    }

    /// Transforming one grid index twice gives one point: any two results that
    /// `transform` may return for it are equal.
    pub proof fn lemma_transform_deterministic(self, ix: int, iy: int, p1: Point, p2: Point)
        requires
            p1 == self.point_at(ix, iy),
            p2 == self.point_at(ix, iy),
        ensures
            p1 == p2,
    {
    }

    /// The point of grid index `(ix, iy)`; past the grid's last index the
    /// transform extrapolates linearly.
    pub fn transform(&self, ix: usize, iy: usize) -> (r: Point)
        requires
            self.wf(),
            ix <= 2 * BOUND_LIMIT,
            iy <= 2 * BOUND_LIMIT,
        ensures
            r == self.point_at(ix as int, iy as int),
            r.x.num == self.x.numerator(ix as int),
            r.y.num == self.y.numerator(iy as int),
            r.x.den == self.x.denominator() && r.x.den > 0,
            r.y.den == self.y.denominator() && r.y.den > 0,
    {
        Point { x: self.x.position(ix), y: self.y.position(iy) }
    }
}

/// The two spaces between which coordinates are mapped.
#[derive(Clone, Copy, Debug, PartialEq, Eq)]
pub struct Layout {
    pub physical: Space,
    pub virtual_space: Space,
}

impl Layout {
    pub open spec fn wf(self) -> bool {
        self.physical.wf() && self.virtual_space.wf()
    }

    /// The virtual 32 by 16 grid and the physical 120 by 100 grid.
    pub fn reference() -> (r: Layout)
        ensures
            r.wf(),
            r.physical.x == (Axis {
                min: X_PHYSICAL_MIN,
                max: X_PHYSICAL_MAX,
                increment: X_PHYSICAL_INCREMENT,
                stretch: PHYSICAL_STRETCH,
            }),
            r.physical.y == (Axis {
                min: Y_PHYSICAL_MIN,
                max: Y_PHYSICAL_MAX,
                increment: Y_PHYSICAL_INCREMENT,
                stretch: PHYSICAL_STRETCH,
            }),
            r.virtual_space.x == (Axis {
                min: X_VIRTUAL_MIN,
                max: X_VIRTUAL_MAX,
                increment: X_VIRTUAL_INCREMENT,
                stretch: VIRTUAL_STRETCH,
            }),
            r.virtual_space.y == (Axis {
                min: Y_VIRTUAL_MIN,
                max: Y_VIRTUAL_MAX,
                increment: Y_VIRTUAL_INCREMENT,
                stretch: VIRTUAL_STRETCH,
            }),
    {
        Layout {
            physical: Space {
                x: Axis {
                    min: X_PHYSICAL_MIN,
                    max: X_PHYSICAL_MAX,
                    increment: X_PHYSICAL_INCREMENT,
                    stretch: PHYSICAL_STRETCH,
                },
                y: Axis {
                    min: Y_PHYSICAL_MIN,
                    max: Y_PHYSICAL_MAX,
                    increment: Y_PHYSICAL_INCREMENT,
                    stretch: PHYSICAL_STRETCH,
                },
            },
            virtual_space: Space {
                x: Axis {
                    min: X_VIRTUAL_MIN,
                    max: X_VIRTUAL_MAX,
                    increment: X_VIRTUAL_INCREMENT,
                    stretch: VIRTUAL_STRETCH,
                },
                y: Axis {
                    min: Y_VIRTUAL_MIN,
                    max: Y_VIRTUAL_MAX,
                    increment: Y_VIRTUAL_INCREMENT,
                    stretch: VIRTUAL_STRETCH,
                },
            },
        }
    }

    /// The physical point of grid index `(ix, iy)`.
    pub fn transform_physical_point(&self, ix: usize, iy: usize) -> (r: Point)
        requires
            self.wf(),
            ix <= 2 * BOUND_LIMIT,
            iy <= 2 * BOUND_LIMIT,
        ensures
            r == self.physical.point_at(ix as int, iy as int),
            r.x.num == self.physical.x.numerator(ix as int),
            r.y.num == self.physical.y.numerator(iy as int),
            r.x.den == self.physical.x.denominator() && r.x.den > 0,
            r.y.den == self.physical.y.denominator() && r.y.den > 0,
    {
        self.physical.transform(ix, iy)
    }

    /// The virtual point of grid index `(ix, iy)`.
    pub fn transform_virtual_point(&self, ix: usize, iy: usize) -> (r: Point)
        requires
            self.wf(),
            ix <= 2 * BOUND_LIMIT,
            iy <= 2 * BOUND_LIMIT,
        ensures
            r == self.virtual_space.point_at(ix as int, iy as int),
            r.x.num == self.virtual_space.x.numerator(ix as int),
            r.y.num == self.virtual_space.y.numerator(iy as int),
            r.x.den == self.virtual_space.x.denominator() && r.x.den > 0,
            r.y.den == self.virtual_space.y.denominator() && r.y.den > 0,
    {
        self.virtual_space.transform(ix, iy)
    }
}

} // verus!
