use vstd::prelude::*;

verus! {

/// Sub-units in one world unit.
pub const UNIT: i64 = 1000;

/// Largest magnitude of a coordinate or an extent that the geometric
/// primitives accept.
pub const COORD_LIMIT: i64 = 0x10_0000_0000_0000;

/// A point of the plane, in sub-units.
#[derive(Clone, Copy, Debug, PartialEq, Eq, Structural)]
pub struct Point {
    pub x: i64,
    pub y: i64,
}

/// A width and a height, in sub-units.
#[derive(Clone, Copy, Debug, PartialEq, Eq, Structural)]
pub struct Size {
    pub w: i64,
    pub h: i64,
}

/// An axis-aligned rectangle, given by its center and its full extent.
#[derive(Clone, Copy, Debug, PartialEq, Eq, Structural)]
pub struct Bounds {
    pub center: Point,
    pub size: Size,
}

pub open spec fn within(v: int, limit: int) -> bool {
    -limit <= v <= limit
}

pub open spec fn point_within(p: Point, limit: int) -> bool {
    within(p.x as int, limit) && within(p.y as int, limit)
}

pub open spec fn size_within(s: Size, limit: int) -> bool {
    0 <= s.w <= limit && 0 <= s.h <= limit
}

/// A grid made of cells of this size is usable.
pub open spec fn cell_ok(cell: Size) -> bool {
    0 < cell.w <= COORD_LIMIT && 0 < cell.h <= COORD_LIMIT
}

/// The anchor of the grid cell that holds `v`: the cell's lower edge plus
/// half a cell.
pub open spec fn snap_coord(v: int, cell: int) -> int {
    (v / cell) * cell + cell / 2
}

pub open spec fn snap_spec(p: Point, cell: Size) -> (int, int) {
    (snap_coord(p.x as int, cell.w as int), snap_coord(p.y as int, cell.h as int))
}

/// Inclusive containment: `|p - center| <= size / 2` on each axis.
pub open spec fn rect_contains(b: Bounds, p: Point) -> bool {
    let dx = p.x - b.center.x;
    let dy = p.y - b.center.y;
    -b.size.w <= 2 * dx <= b.size.w && -b.size.h <= 2 * dy <= b.size.h
}

impl Bounds {
    /// Whether `p` lies inside the rectangle or on its edge.
    pub fn contains(&self, p: Point) -> (r: bool)
        requires
            point_within(self.center, COORD_LIMIT as int),
            size_within(self.size, COORD_LIMIT as int),
            point_within(p, COORD_LIMIT as int),
        ensures
            r == rect_contains(*self, p),
    {
        let dx = p.x - self.center.x;
        let dy = p.y - self.center.y;
        -self.size.w <= 2 * dx && 2 * dx <= self.size.w && -self.size.h <= 2 * dy && 2 * dy
            <= self.size.h
    }
}

pub proof fn lemma_div_bounded(a: int, b: int)
    requires
        b > 0,
    ensures
        (a / b) * b <= a < (a / b) * b + b,
        a >= 0 ==> 0 <= a / b <= a,
        a < 0 ==> a <= a / b < 0,
{
    assert((a / b) * b <= a < (a / b) * b + b) by (nonlinear_arith)
        requires
            b > 0,
    {
        vstd::arithmetic::div_mod::lemma_fundamental_div_mod(a, b);
    }
    if a >= 0 {
        vstd::arithmetic::div_mod::lemma_div_pos_is_pos(a, b);
        vstd::arithmetic::div_mod::lemma_div_is_ordered_by_denominator(a, 1, b);
    } else {
        assert(a / b < 0) by (nonlinear_arith)
            requires
                (a / b) * b <= a,
                a < 0,
                b > 0,
        {}
        assert(a <= a / b) by (nonlinear_arith)
            requires
                a < (a / b) * b + b,
                a / b < 0,
                b > 0,
        {}
    }
}

/// Floor division by a positive divisor.
pub fn floor_div(a: i64, b: i64) -> (r: i64)
    requires
        b > 0,
    ensures
        r as int == a as int / b as int,
{
    proof {
        lemma_div_bounded(a as int, b as int);
    }
    match a.checked_div_euclid(b) {
        Some(q) => q,
        None => 0,
    }
}

/// The anchor of a grid cell always lies less than one cell away from the
/// point it was taken from.
pub proof fn lemma_snap_near(v: int, cell: int)
    requires
        cell > 0,
    ensures
        v - cell < snap_coord(v, cell) < v + cell,
{
    lemma_div_bounded(v, cell);
}

/// Taking the anchor of an anchor changes nothing: `snap(snap(v)) == snap(v)`.
pub proof fn lemma_snap_idempotent(v: int, cell: int)
    requires
        cell > 0,
    ensures
        snap_coord(snap_coord(v, cell), cell) == snap_coord(v, cell),
{
    let k = v / cell;
    vstd::arithmetic::div_mod::lemma_fundamental_div_mod_converse(
        k * cell + cell / 2,
        cell,
        k,
        cell / 2,
    );
}

/// Grid snapping of a point is idempotent on both axes.
pub proof fn lemma_snap_point_idempotent(p: Point, cell: Size)
    requires
        cell_ok(cell),
        point_within(p, COORD_LIMIT as int),
    ensures
        ({
            let (x, y) = snap_spec(p, cell);
            snap_coord(x, cell.w as int) == x && snap_coord(y, cell.h as int) == y
        }),
{
    lemma_snap_idempotent(p.x as int, cell.w as int);
    lemma_snap_idempotent(p.y as int, cell.h as int);
}

fn snap_axis(v: i64, cell: i64) -> (r: i64)
    requires
        0 < cell <= COORD_LIMIT,
        within(v as int, COORD_LIMIT as int),
    ensures
        r as int == snap_coord(v as int, cell as int),
{
    proof {
        lemma_div_bounded(v as int, cell as int);
    }
    let q = floor_div(v, cell);
    q * cell + cell / 2
}

/// The anchor of the grid cell that holds `p`, on each axis
/// `floor(v / cell) * cell + cell / 2`.
pub fn snap_point(p: Point, cell: Size) -> (r: Point)
    requires
        cell_ok(cell),
        point_within(p, COORD_LIMIT as int),
    ensures
        (r.x as int, r.y as int) == snap_spec(p, cell),
{
    Point { x: snap_axis(p.x, cell.w), y: snap_axis(p.y, cell.h) }
}

} // verus!
