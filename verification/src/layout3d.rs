//! The physical layout of the LEDs: flat rectangular grids placed in space.
//!
//! A grid is walked row by row: the `i`-th row starts `i` vertical steps from
//! the grid's start, and its `j`-th point lies `j` horizontal steps further.
//! Coordinates are whole millimetres.
use vstd::prelude::*;
use crate::vec3::Vec3;

verus! {

pub open spec fn in_i32(v: int) -> bool {
    i32::MIN <= v <= i32::MAX
}

pub open spec fn fits3(p: (int, int, int)) -> bool {
    in_i32(p.0) && in_i32(p.1) && in_i32(p.2)
}

pub open spec fn to_vec3(p: (int, int, int)) -> Vec3 {
    Vec3 { x: p.0 as i32, y: p.1 as i32, z: p.2 as i32 }
}

/// How many points a row yields: a row with no columns still yields its first point.
pub open spec fn col_span(cols: int) -> int {
    if cols <= 0 {
        1
    } else {
        cols
    }
}

/// The point `r` vertical steps and `c` horizontal steps away from `start`.
pub open spec fn lattice_point(start: Vec3, vstep: Vec3, hstep: Vec3, r: int, c: int) -> (
    int,
    int,
    int,
) {
    (
        start.x + vstep.x * r + hstep.x * c,
        start.y + vstep.y * r + hstep.y * c,
        start.z + vstep.z * r + hstep.z * c,
    )
}

/// Every point of a `rows` by `cols` walk has coordinates that fit in `i32`.
pub open spec fn lattice_fits(start: Vec3, vstep: Vec3, hstep: Vec3, rows: int, cols: int) -> bool {
    forall|r: int, c: int|
        0 <= r < rows && 0 <= c < col_span(cols) ==> fits3(
            #[trigger] lattice_point(start, vstep, hstep, r, c),
        )
}

/// The `k`-th point of a walk whose rows yield `col_span(cols)` points each.
pub open spec fn lattice_nth(start: Vec3, vstep: Vec3, hstep: Vec3, cols: int, k: int) -> Vec3 {
    to_vec3(lattice_point(start, vstep, hstep, k / col_span(cols), k % col_span(cols)))
}

/// All points of a `rows` by `cols` walk, in the order it yields them.
pub open spec fn lattice_seq(start: Vec3, vstep: Vec3, hstep: Vec3, rows: int, cols: int) -> Seq<
    Vec3,
> {
    Seq::new((rows * col_span(cols)) as nat, |k: int| lattice_nth(start, vstep, hstep, cols, k))
}

/// Walks the points of a grid, row by row.
pub struct GridIterator {
    start: Vec3,
    vertical_step: Vec3,
    horizontal_step: Vec3,
    row_count: usize,
    col_count: usize,
    row_index: usize,
    col_index: usize,
}

/// `s + v * r + h * c`, given that it fits in `i32`.
fn lattice_coord(s: i32, v: i32, h: i32, r: usize, c: usize) -> (out: i32)
    requires
        in_i32(s + v * r + h * c),
    ensures
        out == s + v * r + h * c,
{
    let vi = v as i128;
    let ri = r as i128;
    let hi = h as i128;
    let ci = c as i128;
    assert(-0x8000_0000_0000_0000_0000_0000 <= vi * ri <= 0x8000_0000_0000_0000_0000_0000)
        by (nonlinear_arith)
        requires
            -0x8000_0000 <= vi <= 0x8000_0000,
            0 <= ri <= 0x1_0000_0000_0000_0000,
    ;
    assert(-0x8000_0000_0000_0000_0000_0000 <= hi * ci <= 0x8000_0000_0000_0000_0000_0000)
        by (nonlinear_arith)
        requires
            -0x8000_0000 <= hi <= 0x8000_0000,
            0 <= ci <= 0x1_0000_0000_0000_0000,
    ;
    let t = s as i128 + vi * ri + hi * ci;
    t as i32
}

impl GridIterator {
    #[verifier::type_invariant]
    spec fn inv(self) -> bool {
        &&& self.row_index <= self.row_count
        &&& self.col_index < col_span(self.col_count as int)
        &&& self.row_index == self.row_count ==> self.col_index == 0
        &&& lattice_fits(
            self.start,
            self.vertical_step,
            self.horizontal_step,
            self.row_count as int,
            self.col_count as int,
        )
    }

    pub closed spec fn spec_start(&self) -> Vec3 {
        self.start
    }

    pub closed spec fn spec_vertical_step(&self) -> Vec3 {
        self.vertical_step
    }

    pub closed spec fn spec_horizontal_step(&self) -> Vec3 {
        self.horizontal_step
    }

    pub closed spec fn spec_row_count(&self) -> nat {
        self.row_count as nat
    }

    pub closed spec fn spec_col_count(&self) -> nat {
        self.col_count as nat
    }

    /// How many points the walk has yielded so far.
    pub closed spec fn position(&self) -> int {
        self.row_index * col_span(self.col_count as int) + self.col_index
    }

    /// All points the walk yields from its start, in order.
    pub open spec fn all_points(&self) -> Seq<Vec3> {
        lattice_seq(
            self.spec_start(),
            self.spec_vertical_step(),
            self.spec_horizontal_step(),
            self.spec_row_count() as int,
            self.spec_col_count() as int,
        )
    }

    pub fn new(
        start: Vec3,
        vertical_step: Vec3,
        horizontal_step: Vec3,
        row_count: usize,
        col_count: usize,
    ) -> (r: Self)
        requires
            lattice_fits(start, vertical_step, horizontal_step, row_count as int, col_count as int),
        ensures
            r.spec_start() == start,
            r.spec_vertical_step() == vertical_step,
            r.spec_horizontal_step() == horizontal_step,
            r.spec_row_count() == row_count,
            r.spec_col_count() == col_count,
            r.position() == 0,
    {
        Self {
            start,
            vertical_step,
            horizontal_step,
            row_count,
            col_count,
            row_index: 0,
            col_index: 0,
        }
    }

    /// Yields the next point of the walk, or `None` once every point has been
    /// yielded (and from then on).
    pub fn next(&mut self) -> (r: Option<Vec3>)
        ensures
            final(self).spec_start() == old(self).spec_start(),
            final(self).spec_vertical_step() == old(self).spec_vertical_step(),
            final(self).spec_horizontal_step() == old(self).spec_horizontal_step(),
            final(self).spec_row_count() == old(self).spec_row_count(),
            final(self).spec_col_count() == old(self).spec_col_count(),
            0 <= old(self).position() <= old(self).all_points().len(),
            old(self).position() < old(self).all_points().len() ==> {
                &&& r == Some(old(self).all_points()[old(self).position()])
                &&& final(self).position() == old(self).position() + 1
            },
            old(self).position() == old(self).all_points().len() ==> {
                &&& r is None
                &&& final(self).position() == old(self).position()
            },
    {
        proof {
            use_type_invariant(&*self);
        }
        let ghost span = col_span(self.col_count as int);
        let ghost old_pos = self.position();
        let ghost rows = self.row_count as int;
        proof {
            lemma_position_bounds(self.row_index as int, self.col_index as int, rows, span);
        }
        if self.row_index >= self.row_count {
            return None;
        }
        let row = self.row_index;
        let col = self.col_index;
        let ghost p = lattice_point(self.start, self.vertical_step, self.horizontal_step, row as int, col as int);
        proof {
            assert(fits3(p));
            lemma_div_mod_of_position(row as int, col as int, span);
        }
        let point = Vec3 {
            x: lattice_coord(self.start.x, self.vertical_step.x, self.horizontal_step.x, row, col),
            y: lattice_coord(self.start.y, self.vertical_step.y, self.horizontal_step.y, row, col),
            z: lattice_coord(self.start.z, self.vertical_step.z, self.horizontal_step.z, row, col),
        };
        let next_col = col + 1;
        if next_col >= self.col_count {
            *self = GridIterator {
                start: self.start,
                vertical_step: self.vertical_step,
                horizontal_step: self.horizontal_step,
                row_count: self.row_count,
                col_count: self.col_count,
                row_index: row + 1,
                col_index: 0,
            };
            proof {
                assert(col + 1 == span);
                assert((row + 1) * span == row * span + span) by (nonlinear_arith);
            }
        } else {
            *self = GridIterator {
                start: self.start,
                vertical_step: self.vertical_step,
                horizontal_step: self.horizontal_step,
                row_count: self.row_count,
                col_count: self.col_count,
                row_index: row,
                col_index: next_col,
            };
        }
        Some(point)
    }
}

/// With `0 <= col < span`, the position `row * span + col` lies within the
/// walk exactly when `row` is one of its rows.
proof fn lemma_position_bounds(row: int, col: int, rows: int, span: int)
    requires
        0 <= row <= rows,
        0 <= col < span,
        row == rows ==> col == 0,
    ensures
        0 <= row * span + col <= rows * span,
        (row * span + col == rows * span) <==> row == rows,
{
    assert(0 <= row * span) by (nonlinear_arith)
        requires
            0 <= row,
            0 < span,
    ;
    if row < rows {
        assert((row + 1) * span <= rows * span) by (nonlinear_arith)
            requires
                row + 1 <= rows,
                0 < span,
        ;
        assert((row + 1) * span == row * span + span) by (nonlinear_arith);
    }
}

/// Position `row * span + col` is row `row`, column `col`.
proof fn lemma_div_mod_of_position(row: int, col: int, span: int)
    requires
        0 <= row,
        0 <= col < span,
    ensures
        (row * span + col) / span == row,
        (row * span + col) % span == col,
{
    vstd::arithmetic::div_mod::lemma_fundamental_div_mod_converse(row * span + col, span, row, col);
}


/// The step that divides the offset `d` into `count - 1` equal parts (for a
/// count of zero the divisor is `-1`).
pub open spec fn exact_step(d: int, count: int) -> int {
    if count == 0 {
        -d
    } else if d < 0 {
        -((-d) / (count - 1))
    } else {
        d / (count - 1)
    }
}

/// `count - 1` divides `d` exactly.
pub open spec fn divides_evenly(d: int, count: int) -> bool {
    count == 0 || (count >= 2 && (d == 0 || (if d < 0 { -d } else { d }) % (count - 1) == 0))
}

pub open spec fn step_between(start: Vec3, end: Vec3, count: int) -> (int, int, int) {
    (
        exact_step(end.x - start.x, count),
        exact_step(end.y - start.y, count),
        exact_step(end.z - start.z, count),
    )
}

/// What a grid needs for its walk to be exact on the integer lattice: counts
/// other than one, offsets that the counts divide evenly, steps and points
/// that fit in `i32`, and a pixel count that fits in `usize`.
pub open spec fn grid_ok(
    start: Vec3,
    horizontal_end: Vec3,
    vertical_end: Vec3,
    horizontal_count: int,
    vertical_count: int,
) -> bool {
    let h = step_between(start, horizontal_end, horizontal_count);
    let v = step_between(start, vertical_end, vertical_count);
    &&& divides_evenly(horizontal_end.x - start.x, horizontal_count)
    &&& divides_evenly(horizontal_end.y - start.y, horizontal_count)
    &&& divides_evenly(horizontal_end.z - start.z, horizontal_count)
    &&& divides_evenly(vertical_end.x - start.x, vertical_count)
    &&& divides_evenly(vertical_end.y - start.y, vertical_count)
    &&& divides_evenly(vertical_end.z - start.z, vertical_count)
    &&& fits3(h)
    &&& fits3(v)
    &&& horizontal_count * vertical_count <= usize::MAX
    &&& lattice_fits(start, to_vec3(v), to_vec3(h), horizontal_count, vertical_count)
}

/// A flat grid of LEDs: `horizontal_count` by `vertical_count` points spread
/// evenly from `start` towards `horizontal_end` and `vertical_end`.
pub struct Grid {
    start: Vec3,
    horizontal_end: Vec3,
    vertical_end: Vec3,
    horizontal_count: usize,
    vertical_count: usize,
}

impl Grid {
    #[verifier::type_invariant]
    spec fn inv(self) -> bool {
        grid_ok(
            self.start,
            self.horizontal_end,
            self.vertical_end,
            self.horizontal_count as int,
            self.vertical_count as int,
        )
    }

    pub closed spec fn spec_start(&self) -> Vec3 {
        self.start
    }

    pub closed spec fn spec_horizontal_end(&self) -> Vec3 {
        self.horizontal_end
    }

    pub closed spec fn spec_vertical_end(&self) -> Vec3 {
        self.vertical_end
    }

    pub closed spec fn spec_horizontal_count(&self) -> nat {
        self.horizontal_count as nat
    }

    pub closed spec fn spec_vertical_count(&self) -> nat {
        self.vertical_count as nat
    }

    /// The grid's walk is exact on the integer lattice (always true of a
    /// `Grid` value that exists at run time).
    pub open spec fn is_valid(&self) -> bool {
        grid_ok(
            self.spec_start(),
            self.spec_horizontal_end(),
            self.spec_vertical_end(),
            self.spec_horizontal_count() as int,
            self.spec_vertical_count() as int,
        )
    }

    /// The step between neighbouring points of a row.
    pub open spec fn horizontal_step(&self) -> Vec3 {
        to_vec3(step_between(self.spec_start(), self.spec_horizontal_end(), self.spec_horizontal_count() as int))
    }

    /// The step between neighbouring rows.
    pub open spec fn vertical_step(&self) -> Vec3 {
        to_vec3(step_between(self.spec_start(), self.spec_vertical_end(), self.spec_vertical_count() as int))
    }

    /// The points of the grid in the order [`Grid::points`] yields them: one
    /// row per horizontal count, each row one point per vertical count.
    pub open spec fn point_seq(&self) -> Seq<Vec3> {
        lattice_seq(
            self.spec_start(),
            self.vertical_step(),
            self.horizontal_step(),
            self.spec_horizontal_count() as int,
            self.spec_vertical_count() as int,
        )
    }

    /// Builds a grid, or `None` when its walk cannot be exact on the integer
    /// lattice (see [`grid_ok`]).
    pub fn new(
        start: Vec3,
        horizontal_end: Vec3,
        vertical_end: Vec3,
        horizontal_count: usize,
        vertical_count: usize,
    ) -> (r: Option<Self>)
        ensures
            r is Some <==> grid_ok(
                start,
                horizontal_end,
                vertical_end,
                horizontal_count as int,
                vertical_count as int,
            ),
            r matches Some(g) ==> {
                &&& g.spec_start() == start
                &&& g.spec_horizontal_end() == horizontal_end
                &&& g.spec_vertical_end() == vertical_end
                &&& g.spec_horizontal_count() == horizontal_count
                &&& g.spec_vertical_count() == vertical_count
            },
    {
        let hx = axis_step(start.x, horizontal_end.x, horizontal_count);
        let hy = axis_step(start.y, horizontal_end.y, horizontal_count);
        let hz = axis_step(start.z, horizontal_end.z, horizontal_count);
        let vx = axis_step(start.x, vertical_end.x, vertical_count);
        let vy = axis_step(start.y, vertical_end.y, vertical_count);
        let vz = axis_step(start.z, vertical_end.z, vertical_count);
        let (hx, hy, hz, vx, vy, vz) = match (hx, hy, hz, vx, vy, vz) {
            (Some(hx), Some(hy), Some(hz), Some(vx), Some(vy), Some(vz)) => (hx, hy, hz, vx, vy, vz),
            _ => {
                return None;
            },
        };
        if horizontal_count.checked_mul(vertical_count).is_none() {
            return None;
        }
        let hstep = Vec3 { x: hx, y: hy, z: hz };
        let vstep = Vec3 { x: vx, y: vy, z: vz };
        let fits = axis_fits(start.x, vx, hx, horizontal_count, vertical_count)
            && axis_fits(start.y, vy, hy, horizontal_count, vertical_count)
            && axis_fits(start.z, vz, hz, horizontal_count, vertical_count);
        proof {
            if fits {
                assert forall|r: int, c: int|
                    0 <= r < horizontal_count && 0 <= c < col_span(vertical_count as int) implies fits3(
                    #[trigger] lattice_point(start, vstep, hstep, r, c),
                ) by {
                    lemma_axis_in_range(start.x as int, vx as int, hx as int, horizontal_count as int, vertical_count as int, r, c);
                    lemma_axis_in_range(start.y as int, vy as int, hy as int, horizontal_count as int, vertical_count as int, r, c);
                    lemma_axis_in_range(start.z as int, vz as int, hz as int, horizontal_count as int, vertical_count as int, r, c);
                }
            } else {
                if horizontal_count > 0 {
                    if !axis_fits_spec(start.x as int, vx as int, hx as int, horizontal_count as int, vertical_count as int) {
                        let rc = lemma_axis_corner_witness(start.x as int, vx as int, hx as int, horizontal_count as int, vertical_count as int);
                        assert(!fits3(lattice_point(start, vstep, hstep, rc.0, rc.1)));
                    }
                    if !axis_fits_spec(start.y as int, vy as int, hy as int, horizontal_count as int, vertical_count as int) {
                        let rc = lemma_axis_corner_witness(start.y as int, vy as int, hy as int, horizontal_count as int, vertical_count as int);
                        assert(!fits3(lattice_point(start, vstep, hstep, rc.0, rc.1)));
                    }
                    if !axis_fits_spec(start.z as int, vz as int, hz as int, horizontal_count as int, vertical_count as int) {
                        let rc = lemma_axis_corner_witness(start.z as int, vz as int, hz as int, horizontal_count as int, vertical_count as int);
                        assert(!fits3(lattice_point(start, vstep, hstep, rc.0, rc.1)));
                    }
                }
            }
        }
        if !fits {
            return None;
        }
        Some(Grid { start, horizontal_end, vertical_end, horizontal_count, vertical_count })
    }

    pub fn start(&self) -> (r: Vec3)
        ensures
            r == self.spec_start(),
    {
        self.start
    }

    pub fn pixel_count(&self) -> (r: usize)
        ensures
            r == self.spec_vertical_count() * self.spec_horizontal_count(),
    {
        proof {
            use_type_invariant(self);
        }
        self.vertical_count * self.horizontal_count
    }

    /// Walks the grid's points (see [`Grid::point_seq`]).
    pub fn points(&self) -> (r: GridIterator)
        ensures
            r.all_points() == self.point_seq(),
            r.position() == 0,
    {
        proof {
            use_type_invariant(self);
        }
        let horizontal_step = Vec3 {
            x: exact_axis_step(self.start.x, self.horizontal_end.x, self.horizontal_count),
            y: exact_axis_step(self.start.y, self.horizontal_end.y, self.horizontal_count),
            z: exact_axis_step(self.start.z, self.horizontal_end.z, self.horizontal_count),
        };
        let vertical_step = Vec3 {
            x: exact_axis_step(self.start.x, self.vertical_end.x, self.vertical_count),
            y: exact_axis_step(self.start.y, self.vertical_end.y, self.vertical_count),
            z: exact_axis_step(self.start.z, self.vertical_end.z, self.vertical_count),
        };
        assert(horizontal_step == self.horizontal_step());
        assert(vertical_step == self.vertical_step());
        GridIterator::new(
            self.start,
            vertical_step,
            horizontal_step,
            self.horizontal_count,
            self.vertical_count,
        )
    }
}

/// The exact step from `s` to `e` over `count` points, if `count` is not one,
/// divides the offset evenly, and the step fits in `i32`.
fn axis_step(s: i32, e: i32, count: usize) -> (r: Option<i32>)
    ensures
        r is Some <==> (divides_evenly(e - s, count as int) && in_i32(exact_step(e - s, count as int))),
        r matches Some(v) ==> v == exact_step(e - s, count as int),
{
    let d: i64 = e as i64 - s as i64;
    if count == 0 {
        if -d < i32::MIN as i64 || -d > i32::MAX as i64 {
            return None;
        }
        return Some((-d) as i32);
    }
    if count == 1 {
        return None;
    }
    let m: u64 = (count - 1) as u64;
    let a: u64 = if d < 0 { (-d) as u64 } else { d as u64 };
    if a % m != 0 {
        proof {
            if a == 0 {
                vstd::arithmetic::div_mod::lemma_small_mod(0, m as nat);
            }
        }
        return None;
    }
    let q: u64 = a / m;
    if q > 0x8000_0000u64 {
        return None;
    }
    let step: i64 = if d < 0 { -(q as i64) } else { q as i64 };
    if step < i32::MIN as i64 || step > i32::MAX as i64 {
        return None;
    }
    Some(step as i32)
}

/// [`axis_step`] for a grid already known to be exact.
fn exact_axis_step(s: i32, e: i32, count: usize) -> (r: i32)
    requires
        divides_evenly(e - s, count as int),
        in_i32(exact_step(e - s, count as int)),
    ensures
        r == exact_step(e - s, count as int),
{
    match axis_step(s, e, count) {
        Some(v) => v,
        // Not reached: the requires is exactly when `axis_step` succeeds.
        None => 0,
    }
}

pub open spec fn min0(v: int) -> int {
    if v < 0 {
        v
    } else {
        0
    }
}

pub open spec fn max0(v: int) -> int {
    if v > 0 {
        v
    } else {
        0
    }
}

/// Along one axis, the four corners of the walk fit in `i32` (or there are no points).
pub open spec fn axis_fits_spec(s: int, v: int, h: int, rows: int, cols: int) -> bool {
    rows <= 0 || {
        let rr = rows - 1;
        let cc = col_span(cols) - 1;
        &&& in_i32(s + min0(v * rr) + min0(h * cc))
        &&& in_i32(s + max0(v * rr) + max0(h * cc))
    }
}

fn axis_fits(s: i32, v: i32, h: i32, rows: usize, cols: usize) -> (r: bool)
    ensures
        r == axis_fits_spec(s as int, v as int, h as int, rows as int, cols as int),
{
    if rows == 0 {
        return true;
    }
    let rr: i128 = (rows - 1) as i128;
    let cc: i128 = if cols == 0 { 0 } else { (cols - 1) as i128 };
    let vi = v as i128;
    let hi = h as i128;
    assert(-0x8000_0000_0000_0000_0000_0000 <= vi * rr <= 0x8000_0000_0000_0000_0000_0000)
        by (nonlinear_arith)
        requires
            -0x8000_0000 <= vi <= 0x8000_0000,
            0 <= rr <= 0x1_0000_0000_0000_0000,
    ;
    assert(-0x8000_0000_0000_0000_0000_0000 <= hi * cc <= 0x8000_0000_0000_0000_0000_0000)
        by (nonlinear_arith)
        requires
            -0x8000_0000 <= hi <= 0x8000_0000,
            0 <= cc <= 0x1_0000_0000_0000_0000,
    ;
    let a = vi * rr;
    let b = hi * cc;
    let lo = s as i128 + (if a < 0 { a } else { 0 }) + (if b < 0 { b } else { 0 });
    let up = s as i128 + (if a > 0 { a } else { 0 }) + (if b > 0 { b } else { 0 });
    lo >= i32::MIN as i128 && lo <= i32::MAX as i128 && up >= i32::MIN as i128 && up <= i32::MAX as i128
}

/// Every point of the walk lies between its extreme corners.
proof fn lemma_axis_in_range(s: int, v: int, h: int, rows: int, cols: int, r: int, c: int)
    requires
        axis_fits_spec(s, v, h, rows, cols),
        0 <= r < rows,
        0 <= c < col_span(cols),
    ensures
        in_i32(s + v * r + h * c),
{
    let rr = rows - 1;
    let cc = col_span(cols) - 1;
    assert(min0(v * rr) <= v * r <= max0(v * rr)) by (nonlinear_arith)
        requires
            0 <= r <= rr,
    ;
    assert(min0(h * cc) <= h * c <= max0(h * cc)) by (nonlinear_arith)
        requires
            0 <= c <= cc,
    ;
}

/// When the corner test fails, some corner of the walk does not fit.
proof fn lemma_axis_corner_witness(s: int, v: int, h: int, rows: int, cols: int) -> (rc: (int, int))
    requires
        rows > 0,
        !axis_fits_spec(s, v, h, rows, cols),
    ensures
        0 <= rc.0 < rows,
        0 <= rc.1 < col_span(cols),
        !in_i32(s + v * rc.0 + h * rc.1),
{
    let rr = rows - 1;
    let cc = col_span(cols) - 1;
    let r_lo = if v * rr < 0 { rr } else { 0 };
    let c_lo = if h * cc < 0 { cc } else { 0 };
    let r_up = if v * rr > 0 { rr } else { 0 };
    let c_up = if h * cc > 0 { cc } else { 0 };
    assert(v * r_lo == min0(v * rr));
    assert(h * c_lo == min0(h * cc));
    assert(v * r_up == max0(v * rr));
    assert(h * c_up == max0(h * cc));
    if !in_i32(s + min0(v * rr) + min0(h * cc)) {
        (r_lo, c_lo)
    } else {
        (r_up, c_up)
    }
}


/// All points of a sequence of grids, grid after grid.
pub open spec fn flatten_points(gs: Seq<Grid>) -> Seq<Vec3>
    decreases gs.len(),
{
    if gs.len() == 0 {
        Seq::empty()
    } else {
        flatten_points(gs.drop_last()) + gs.last().point_seq()
    }
}

/// A 3D arrangement of LEDs made of flat grids.
pub trait Layout3d {
    /// The number of LEDs of the layout.
    const PIXEL_COUNT: usize;

    /// The grids of the layout, in LED order.
    spec fn grids(&self) -> Seq<Grid>;

    fn shapes(&self) -> (r: &[Grid])
        ensures
            r@ == self.grids(),
    ;

    /// Every LED position of the layout, grid after grid.
    fn points(&self) -> (r: Vec<Vec3>)
        ensures
            r@ == flatten_points(self.grids()),
    {
        let shapes = self.shapes();
        let mut out: Vec<Vec3> = Vec::new();
        let mut i: usize = 0;
        while i < shapes.len()
            invariant
                i <= shapes@.len(),
                out@ == flatten_points(shapes@.subrange(0, i as int)),
            decreases shapes@.len() - i,
        {
            let mut it = shapes[i].points();
            let ghost before = out@;
            let ghost all = it.all_points();
            loop
                invariant
                    it.all_points() == all,
                    all == shapes@[i as int].point_seq(),
                    0 <= it.position() <= all.len(),
                    out@ == before + all.subrange(0, it.position()),
                ensures
                    it.position() == all.len(),
                    out@ == before + all.subrange(0, it.position()),
                decreases all.len() - it.position(),
            {
                match it.next() {
                    Some(p) => {
                        out.push(p);
                        assert(all.subrange(0, it.position()) =~= all.subrange(0, it.position() - 1).push(p));
                    },
                    None => {
                        break;
                    },
                }
            }
            assert(all.subrange(0, all.len() as int) =~= all);
            assert(out@ == before + all);
            let ghost next = shapes@.subrange(0, i + 1);
            assert(next.drop_last() =~= shapes@.subrange(0, i as int));
            assert(next.last() == shapes@[i as int]);
            assert(flatten_points(next) == flatten_points(next.drop_last()) + next.last().point_seq());
            i = i + 1;
        }
        assert(shapes@.subrange(0, shapes@.len() as int) =~= shapes@);
        out
    }
}

pub open spec fn v3(x: int, y: int, z: int) -> Vec3 {
    Vec3 { x: x as i32, y: y as i32, z: z as i32 }
}

/// The corners of face `i` of the cube: its start, horizontal end and
/// vertical end, in millimetres from the centre.
pub open spec fn cube_face_corners(i: int) -> (Vec3, Vec3, Vec3) {
    if i == 0 {
        (v3(-14, 14, 19), v3(14, 14, 19), v3(-14, -14, 19))
    } else if i == 1 {
        (v3(19, 14, 14), v3(19, 14, -14), v3(19, -14, 14))
    } else if i == 2 {
        (v3(14, -19, 14), v3(14, -19, -14), v3(-14, -19, 14))
    } else if i == 3 {
        (v3(14, -14, -19), v3(14, 14, -19), v3(-14, -14, -19))
    } else if i == 4 {
        (v3(-19, -14, -14), v3(-19, 14, -14), v3(-19, -14, 14))
    } else {
        (v3(-14, 19, -14), v3(14, 19, -14), v3(-14, 19, 14))
    }
}

/// The grids of the cube: six 5 by 5 faces with the corners of
/// [`cube_face_corners`], in that order.
pub open spec fn is_cube_layout(faces: Seq<Grid>) -> bool {
    &&& faces.len() == 6
    &&& forall|i: int|
        0 <= i < 6 ==> {
            &&& (#[trigger] faces[i]).spec_horizontal_count() == 5
            &&& faces[i].spec_vertical_count() == 5
            &&& faces[i].spec_start() == cube_face_corners(i).0
            &&& faces[i].spec_horizontal_end() == cube_face_corners(i).1
            &&& faces[i].spec_vertical_end() == cube_face_corners(i).2
        }
}

/// A coordinate of a cube face: within a few centimetres of the centre.
pub open spec fn small(v: Vec3) -> bool {
    -100 <= v.x <= 100 && -100 <= v.y <= 100 && -100 <= v.z <= 100
}

/// A 5 by 5 face whose corners lie close to the centre, with offsets that
/// four steps divide evenly.
fn face(start: Vec3, horizontal_end: Vec3, vertical_end: Vec3) -> (r: Grid)
    requires
        small(start),
        small(horizontal_end),
        small(vertical_end),
        divides_evenly(horizontal_end.x - start.x, 5),
        divides_evenly(horizontal_end.y - start.y, 5),
        divides_evenly(horizontal_end.z - start.z, 5),
        divides_evenly(vertical_end.x - start.x, 5),
        divides_evenly(vertical_end.y - start.y, 5),
        divides_evenly(vertical_end.z - start.z, 5),
    ensures
        r.spec_start() == start,
        r.spec_horizontal_end() == horizontal_end,
        r.spec_vertical_end() == vertical_end,
        r.spec_horizontal_count() == 5,
        r.spec_vertical_count() == 5,
{
    let ghost h = step_between(start, horizontal_end, 5);
    let ghost v = step_between(start, vertical_end, 5);
    proof {
        assert(-200 <= h.0 <= 200 && -200 <= h.1 <= 200 && -200 <= h.2 <= 200);
        assert(-200 <= v.0 <= 200 && -200 <= v.1 <= 200 && -200 <= v.2 <= 200);
        let hv = to_vec3(h);
        let vv = to_vec3(v);
        assert forall|r: int, c: int| 0 <= r < 5 && 0 <= c < col_span(5) implies fits3(
            #[trigger] lattice_point(start, vv, hv, r, c),
        ) by {
            lemma_small_term(vv.x as int, r);
            lemma_small_term(vv.y as int, r);
            lemma_small_term(vv.z as int, r);
            lemma_small_term(hv.x as int, c);
            lemma_small_term(hv.y as int, c);
            lemma_small_term(hv.z as int, c);
        }
    }
    Grid { start, horizontal_end, vertical_end, horizontal_count: 5, vertical_count: 5 }
}

proof fn lemma_small_term(step: int, k: int)
    requires
        -200 <= step <= 200,
        0 <= k < 5,
    ensures
        -1000 <= step * k <= 1000,
{
    assert(-1000 <= step * k <= 1000) by (nonlinear_arith)
        requires
            -200 <= step <= 200,
            0 <= k < 5,
    ;
}

/// The six faces of the cube, each a 5 by 5 grid.
pub struct CubeFaces {
    faces: [Grid; 6],
}

impl CubeFaces {
    pub const SIDES: usize = 6;
    pub const PIXEL_PER_SIDE: usize = 25;

    pub closed spec fn spec_faces(&self) -> Seq<Grid> {
        self.faces@
    }

    pub fn new() -> (r: Self)
        ensures
            is_cube_layout(r.spec_faces()),
    {
        Self {
            faces: [
                face(Vec3 { x: -14, y: 14, z: 19 }, Vec3 { x: 14, y: 14, z: 19 }, Vec3 { x: -14, y: -14, z: 19 }),
                face(Vec3 { x: 19, y: 14, z: 14 }, Vec3 { x: 19, y: 14, z: -14 }, Vec3 { x: 19, y: -14, z: 14 }),
                face(Vec3 { x: 14, y: -19, z: 14 }, Vec3 { x: 14, y: -19, z: -14 }, Vec3 { x: -14, y: -19, z: 14 }),
                face(Vec3 { x: 14, y: -14, z: -19 }, Vec3 { x: 14, y: 14, z: -19 }, Vec3 { x: -14, y: -14, z: -19 }),
                face(Vec3 { x: -19, y: -14, z: -14 }, Vec3 { x: -19, y: 14, z: -14 }, Vec3 { x: -19, y: -14, z: 14 }),
                face(Vec3 { x: -14, y: 19, z: -14 }, Vec3 { x: 14, y: 19, z: -14 }, Vec3 { x: -14, y: 19, z: 14 }),
            ],
        }
    }
}

impl Layout3d for CubeFaces {
    const PIXEL_COUNT: usize = CubeFaces::SIDES * CubeFaces::PIXEL_PER_SIDE;

    open spec fn grids(&self) -> Seq<Grid> {
        self.spec_faces()
    }

    fn shapes(&self) -> (r: &[Grid]) {
        self.faces.as_slice()
    }
}

/// A grid with at least one point per row yields exactly `pixel_count()`
/// points. (A grid with a vertical count of zero still yields the first point
/// of each row, so it yields more than its pixel count.)
pub proof fn law_grid_yields_pixel_count(g: Grid)
    requires
        g.spec_vertical_count() != 0,
    ensures
        g.point_seq().len() == g.spec_vertical_count() * g.spec_horizontal_count(),
{
    let h = g.spec_horizontal_count();
    let v = g.spec_vertical_count();
    assert(h * v == v * h) by (nonlinear_arith);
    assert(h * v >= 0) by (nonlinear_arith)
        requires
            h >= 0,
            v >= 0,
    ;
}

/// The walk of a grid starts at the grid's start.
pub proof fn law_grid_first_point_is_start(g: Grid)
    requires
        g.spec_horizontal_count() > 0,
        g.spec_vertical_count() != 0,
    ensures
        g.point_seq().len() > 0,
        g.point_seq()[0] == g.spec_start(),
{
    law_grid_yields_pixel_count(g);
    let h = g.spec_horizontal_count() as int;
    let v = g.spec_vertical_count() as int;
    assert(v * h > 0) by (nonlinear_arith)
        requires
            h > 0,
            v > 0,
    ;
    let span = col_span(v);
    assert(0int / span == 0 && 0int % span == 0) by {
        vstd::arithmetic::div_mod::lemma_small_mod(0, span as nat);
    }
}

/// Neighbouring points of a row are one horizontal step apart, and the first
/// points of neighbouring rows are one vertical step apart.
pub proof fn law_grid_evenly_spaced(g: Grid, r: int, c: int)
    requires
        0 <= r,
        0 <= c,
    ensures
        lattice_point(g.spec_start(), g.vertical_step(), g.horizontal_step(), r, c + 1).0
            == lattice_point(g.spec_start(), g.vertical_step(), g.horizontal_step(), r, c).0
            + g.horizontal_step().x,
        lattice_point(g.spec_start(), g.vertical_step(), g.horizontal_step(), r + 1, c).0
            == lattice_point(g.spec_start(), g.vertical_step(), g.horizontal_step(), r, c).0
            + g.vertical_step().x,
        lattice_point(g.spec_start(), g.vertical_step(), g.horizontal_step(), r, c + 1).1
            == lattice_point(g.spec_start(), g.vertical_step(), g.horizontal_step(), r, c).1
            + g.horizontal_step().y,
        lattice_point(g.spec_start(), g.vertical_step(), g.horizontal_step(), r + 1, c).1
            == lattice_point(g.spec_start(), g.vertical_step(), g.horizontal_step(), r, c).1
            + g.vertical_step().y,
        lattice_point(g.spec_start(), g.vertical_step(), g.horizontal_step(), r, c + 1).2
            == lattice_point(g.spec_start(), g.vertical_step(), g.horizontal_step(), r, c).2
            + g.horizontal_step().z,
        lattice_point(g.spec_start(), g.vertical_step(), g.horizontal_step(), r + 1, c).2
            == lattice_point(g.spec_start(), g.vertical_step(), g.horizontal_step(), r, c).2
            + g.vertical_step().z,
{
    let hs = g.horizontal_step();
    let vs = g.vertical_step();
    assert(hs.x * (c + 1) == hs.x * c + hs.x) by (nonlinear_arith);
    assert(hs.y * (c + 1) == hs.y * c + hs.y) by (nonlinear_arith);
    assert(hs.z * (c + 1) == hs.z * c + hs.z) by (nonlinear_arith);
    assert(vs.x * (r + 1) == vs.x * r + vs.x) by (nonlinear_arith);
    assert(vs.y * (r + 1) == vs.y * r + vs.y) by (nonlinear_arith);
    assert(vs.z * (r + 1) == vs.z * r + vs.z) by (nonlinear_arith);
}

/// `count - 1` exact steps lead from the start of an axis to its end.
proof fn lemma_exact_step_reaches(d: int, count: int)
    requires
        count >= 2,
        divides_evenly(d, count),
    ensures
        exact_step(d, count) * (count - 1) == d,
{
    let m = count - 1;
    let a = if d < 0 { -d } else { d };
    if d == 0 {
        assert(0int / m == 0) by {
            vstd::arithmetic::div_mod::lemma_small_mod(0, m as nat);
            vstd::arithmetic::div_mod::lemma_fundamental_div_mod(0, m);
        }
    } else {
        vstd::arithmetic::div_mod::lemma_fundamental_div_mod(a, m);
        assert(a == m * (a / m));
        assert((a / m) * m == a) by (nonlinear_arith)
            requires
                a == m * (a / m),
        ;
        if d < 0 {
            assert(-(a / m) * m == -a) by (nonlinear_arith)
                requires
                    (a / m) * m == a,
            ;
        }
    }
}

/// The steps of a grid lead exactly to its ends: `horizontal_count - 1`
/// horizontal steps from the start reach `horizontal_end`, and
/// `vertical_count - 1` vertical steps reach `vertical_end`.
pub proof fn law_grid_steps_reach_ends(g: Grid)
    requires
        g.is_valid(),
    ensures
        g.spec_horizontal_count() >= 2 ==> {
            &&& g.spec_start().x + g.horizontal_step().x * (g.spec_horizontal_count() - 1)
                == g.spec_horizontal_end().x
            &&& g.spec_start().y + g.horizontal_step().y * (g.spec_horizontal_count() - 1)
                == g.spec_horizontal_end().y
            &&& g.spec_start().z + g.horizontal_step().z * (g.spec_horizontal_count() - 1)
                == g.spec_horizontal_end().z
        },
        g.spec_vertical_count() >= 2 ==> {
            &&& g.spec_start().x + g.vertical_step().x * (g.spec_vertical_count() - 1)
                == g.spec_vertical_end().x
            &&& g.spec_start().y + g.vertical_step().y * (g.spec_vertical_count() - 1)
                == g.spec_vertical_end().y
            &&& g.spec_start().z + g.vertical_step().z * (g.spec_vertical_count() - 1)
                == g.spec_vertical_end().z
        },
{
    let s = g.start;
    let h = g.horizontal_end;
    let v = g.vertical_end;
    let hc = g.horizontal_count as int;
    let vc = g.vertical_count as int;
    if hc >= 2 {
        lemma_exact_step_reaches(h.x - s.x, hc);
        lemma_exact_step_reaches(h.y - s.y, hc);
        lemma_exact_step_reaches(h.z - s.z, hc);
    }
    if vc >= 2 {
        lemma_exact_step_reaches(v.x - s.x, vc);
        lemma_exact_step_reaches(v.y - s.y, vc);
        lemma_exact_step_reaches(v.z - s.z, vc);
    }
}

/// The cube's six 5 by 5 faces yield `PIXEL_COUNT` points in all, one per
/// LED: six sides of twenty-five.
pub proof fn law_cube_faces_point_count(c: CubeFaces)
    requires
        is_cube_layout(c.spec_faces()),
    ensures
        flatten_points(c.grids()).len() == CubeFaces::PIXEL_COUNT,
        CubeFaces::PIXEL_COUNT == CubeFaces::SIDES * CubeFaces::PIXEL_PER_SIDE,
{
    let gs = c.grids();
    assert forall|i: int| 0 <= i < 6 implies (#[trigger] gs[i]).point_seq().len() == 25 by {
        assert(gs[i].spec_horizontal_count() == 5);
    }
    reveal_with_fuel(flatten_points, 7);
    assert(gs.drop_last().drop_last().drop_last().drop_last().drop_last().drop_last().len() == 0);
    assert(gs.drop_last().last() == gs[4]);
    assert(gs.drop_last().drop_last().last() == gs[3]);
    assert(gs.drop_last().drop_last().drop_last().last() == gs[2]);
    assert(gs.drop_last().drop_last().drop_last().drop_last().last() == gs[1]);
    assert(gs.drop_last().drop_last().drop_last().drop_last().drop_last().last() == gs[0]);
}


/// The `k`-th point of face `i` of the cube, counted row by row: every face
/// is a 5 by 5 block of points 7 mm apart, on a plane 19 mm from the centre.
pub open spec fn cube_point(i: int, k: int) -> Vec3 {
    let r = k / 5;
    let c = k % 5;
    if i == 0 {
        v3(-14 + 7 * c, 14 - 7 * r, 19)
    } else if i == 1 {
        v3(19, 14 - 7 * r, 14 - 7 * c)
    } else if i == 2 {
        v3(14 - 7 * r, -19, 14 - 7 * c)
    } else if i == 3 {
        v3(14 - 7 * r, -14 + 7 * c, -19)
    } else if i == 4 {
        v3(-19, -14 + 7 * c, -14 + 7 * r)
    } else {
        v3(-14 + 7 * c, 19, -14 + 7 * r)
    }
}

/// The walk of face `i` of the cube yields [`cube_point`]s.
proof fn lemma_cube_face_points(g: Grid, i: int, k: int)
    requires
        0 <= i < 6,
        0 <= k < 25,
        g.spec_horizontal_count() == 5,
        g.spec_vertical_count() == 5,
        g.spec_start() == cube_face_corners(i).0,
        g.spec_horizontal_end() == cube_face_corners(i).1,
        g.spec_vertical_end() == cube_face_corners(i).2,
    ensures
        g.point_seq().len() == 25,
        g.point_seq()[k] == cube_point(i, k),
{
    assert(5 * 5 == 25);
    assert(g.point_seq()[k] == lattice_nth(g.spec_start(), g.vertical_step(), g.horizontal_step(), 5, k));
    let (r, c) = (k / 5, k % 5);
    assert(0 <= r < 5 && 0 <= c < 5);
    let s = g.spec_start();
    assert(0 * r == 0 && 0 * c == 0);
    assert(-7 * r == -(7 * r) && -7 * c == -(7 * c)) by (nonlinear_arith);
    assert(col_span(5) == 5);
    assert(g.point_seq()[k] == to_vec3(lattice_point(s, g.vertical_step(), g.horizontal_step(), r, c)));
    if i == 0 {
        assert(g.horizontal_step() == v3(7, 0, 0) && g.vertical_step() == v3(0, -7, 0));
        lemma_lattice_point_with_steps(
            s,
            g.vertical_step(),
            g.horizontal_step(),
            r,
            c,
            -14, 14, 19, 0, -7, 0, 7, 0, 0,
            -14 + 7 * c, 14 - 7 * r, 19,
        );
    } else if i == 1 {
        assert(g.horizontal_step() == v3(0, 0, -7) && g.vertical_step() == v3(0, -7, 0));
        lemma_lattice_point_with_steps(
            s,
            g.vertical_step(),
            g.horizontal_step(),
            r,
            c,
            19, 14, 14, 0, -7, 0, 0, 0, -7,
            19, 14 - 7 * r, 14 - 7 * c,
        );
    } else if i == 2 {
        assert(g.horizontal_step() == v3(0, 0, -7) && g.vertical_step() == v3(-7, 0, 0));
        lemma_lattice_point_with_steps(
            s,
            g.vertical_step(),
            g.horizontal_step(),
            r,
            c,
            14, -19, 14, -7, 0, 0, 0, 0, -7,
            14 - 7 * r, -19, 14 - 7 * c,
        );
    } else if i == 3 {
        assert(g.horizontal_step() == v3(0, 7, 0) && g.vertical_step() == v3(-7, 0, 0));
        lemma_lattice_point_with_steps(
            s,
            g.vertical_step(),
            g.horizontal_step(),
            r,
            c,
            14, -14, -19, -7, 0, 0, 0, 7, 0,
            14 - 7 * r, -14 + 7 * c, -19,
        );
    } else if i == 4 {
        assert(g.horizontal_step() == v3(0, 7, 0) && g.vertical_step() == v3(0, 0, 7));
        lemma_lattice_point_with_steps(
            s,
            g.vertical_step(),
            g.horizontal_step(),
            r,
            c,
            -19, -14, -14, 0, 0, 7, 0, 7, 0,
            -19, -14 + 7 * c, -14 + 7 * r,
        );
    } else {
        assert(g.horizontal_step() == v3(7, 0, 0) && g.vertical_step() == v3(0, 0, 7));
        lemma_lattice_point_with_steps(
            s,
            g.vertical_step(),
            g.horizontal_step(),
            r,
            c,
            -14, 19, -14, 0, 0, 7, 7, 0, 0,
            -14 + 7 * c, 19, -14 + 7 * r,
        );
    }
}

/// A lattice point, with the start's and the steps' coordinates given as numbers.
proof fn lemma_lattice_point_with_steps(
    s: Vec3,
    v: Vec3,
    h: Vec3,
    r: int,
    c: int,
    sx: int,
    sy: int,
    sz: int,
    vx: int,
    vy: int,
    vz: int,
    hx: int,
    hy: int,
    hz: int,
    x: int,
    y: int,
    z: int,
)
    requires
        s.x == sx && s.y == sy && s.z == sz,
        v.x == vx && v.y == vy && v.z == vz,
        h.x == hx && h.y == hy && h.z == hz,
        x == sx + vx * r + hx * c,
        y == sy + vy * r + hy * c,
        z == sz + vz * r + hz * c,
    ensures
        to_vec3(lattice_point(s, v, h, r, c)) == v3(x, y, z),
{
}

/// Grids of 25 points each, laid end to end: point `k` of grid `i` is point
/// `25 * i + k` of the whole.
proof fn lemma_flatten_blocks_of_25(gs: Seq<Grid>)
    requires
        forall|i: int| 0 <= i < gs.len() ==> (#[trigger] gs[i]).point_seq().len() == 25,
    ensures
        flatten_points(gs).len() == 25 * gs.len(),
        forall|i: int, k: int|
            0 <= i < gs.len() && 0 <= k < 25 ==> #[trigger] gs[i].point_seq()[k] == flatten_points(gs)[25 * i + k],
    decreases gs.len(),
{
    if gs.len() > 0 {
        let init = gs.drop_last();
        assert forall|i: int| 0 <= i < init.len() implies (#[trigger] init[i]).point_seq().len() == 25 by {
            assert(init[i] == gs[i]);
        }
        lemma_flatten_blocks_of_25(init);
        assert forall|i: int, k: int| 0 <= i < gs.len() && 0 <= k < 25 implies #[trigger] gs[i].point_seq()[k]
            == flatten_points(gs)[25 * i + k] by {
            if i < gs.len() - 1 {
                assert(init[i] == gs[i]);
                assert(init[i].point_seq()[k] == flatten_points(init)[25 * i + k]);
            }
        }
    }
}

/// Points of the cube at different places in the walk are different points.
proof fn lemma_cube_points_differ(i: int, k: int, j: int, l: int)
    requires
        0 <= i < 6,
        0 <= j < 6,
        0 <= k < 25,
        0 <= l < 25,
        i != j || k != l,
    ensures
        cube_point(i, k) != cube_point(j, l),
{
    let (r, c) = (k / 5, k % 5);
    let (s, d) = (l / 5, l % 5);
    assert(k == 5 * r + c && 0 <= c < 5 && 0 <= r < 5);
    assert(l == 5 * s + d && 0 <= d < 5 && 0 <= s < 5);
}

/// No two LEDs of the cube sit at the same place: the points of the walk are
/// pairwise distinct.
pub proof fn law_cube_points_distinct(c: CubeFaces)
    requires
        is_cube_layout(c.spec_faces()),
    ensures
        forall|a: int, b: int|
            0 <= a < b < CubeFaces::PIXEL_COUNT ==> #[trigger] flatten_points(c.grids())[a]
                != #[trigger] flatten_points(c.grids())[b],
{
    let gs = c.grids();
    assert forall|i: int| 0 <= i < 6 implies (#[trigger] gs[i]).point_seq().len() == 25 by {
        lemma_cube_face_points(gs[i], i, 0);
    }
    lemma_flatten_blocks_of_25(gs);
    let flat = flatten_points(gs);
    assert forall|a: int, b: int| 0 <= a < b < CubeFaces::PIXEL_COUNT implies #[trigger] flat[a]
        != #[trigger] flat[b] by {
        let (i, k) = (a / 25, a % 25);
        let (j, l) = (b / 25, b % 25);
        assert(a == 25 * i + k && 0 <= i < 6 && 0 <= k < 25);
        assert(b == 25 * j + l && 0 <= j < 6 && 0 <= l < 25);
        lemma_cube_face_points(gs[i], i, k);
        lemma_cube_face_points(gs[j], j, l);
        assert(gs[i].point_seq()[k] == flat[25 * i + k]);
        assert(gs[j].point_seq()[l] == flat[25 * j + l]);
        lemma_cube_points_differ(i, k, j, l);
    }
}

} // verus!
