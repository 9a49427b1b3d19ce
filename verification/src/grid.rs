//! The uniform grid: cells, whole-unit world points, and the rule that maps
//! one to the other.
//!
//! World coordinates are whole numbers of world units. A collaborator that
//! works with fractional coordinates rounds each one down before handing it
//! over; rounding down first does not change the cell, because
//! `floor(floor(w) / s) == floor(w / s)` for a whole cell size `s`.

use vstd::prelude::*;
use vstd::arithmetic::div_mod::lemma_fundamental_div_mod;
use vstd::arithmetic::div_mod::lemma_fundamental_div_mod_converse;
use vstd::arithmetic::div_mod::lemma_mod_bound;

verus! {

/// The largest cell index accepted on any axis, `2^23`.
pub const CELL_MAX: i64 = 8_388_608;

/// One of the three grid axes.
#[derive(Clone, Copy, Debug, PartialEq, Eq, Structural)]
pub enum Axis {
    X,
    Y,
    Z,
}

/// A grid cell, named by its integer index on each axis.
#[derive(Clone, Copy, Debug, PartialEq, Eq, Structural)]
pub struct Cell {
    pub x: i64,
    pub y: i64,
    pub z: i64,
}

/// A world position, each coordinate rounded down to a whole world unit.
#[derive(Clone, Copy, Debug, PartialEq, Eq, Structural)]
pub struct Point {
    pub x: i64,
    pub y: i64,
    pub z: i64,
}

/// A cell index that lies outside `0 ..= CELL_MAX`, with the axis it was
/// found on.
#[derive(Clone, Copy, Debug, PartialEq, Eq, Structural)]
pub struct BoundsError {
    pub axis: Axis,
    pub index: i64,
}

/// The sign of an integer: `1`, `0` or `-1`.
pub open spec fn sgn(x: int) -> int {
    if x > 0 {
        1
    } else if x < 0 {
        -1
    } else {
        0
    }
}

/// The magnitude of an integer.
pub open spec fn magnitude(x: int) -> int {
    if x < 0 {
        -x
    } else {
        x
    }
}

/// The index, on one axis, of the cell that holds world coordinate `coord`:
/// `coord / cell_size` rounded down.
pub open spec fn cell_index_of(coord: int, cell_size: int) -> int {
    coord / cell_size
}

/// The cell that holds a world point.
pub open spec fn cell_of(p: Point, cell_size: int) -> Cell {
    Cell {
        x: cell_index_of(p.x as int, cell_size) as i64,
        y: cell_index_of(p.y as int, cell_size) as i64,
        z: cell_index_of(p.z as int, cell_size) as i64,
    }
}

/// Whether one cell index lies in `0 ..= CELL_MAX`.
pub open spec fn index_in_bounds(i: int) -> bool {
    0 <= i <= CELL_MAX
}

/// Whether a cell lies in the valid world volume.
pub open spec fn in_bounds(c: Cell) -> bool {
    index_in_bounds(c.x as int) && index_in_bounds(c.y as int) && index_in_bounds(c.z as int)
}

/// The first out-of-range index of a cell, looking at x, then y, then z.
pub open spec fn first_violation(c: Cell) -> BoundsError {
    if !index_in_bounds(c.x as int) {
        BoundsError { axis: Axis::X, index: c.x }
    } else if !index_in_bounds(c.y as int) {
        BoundsError { axis: Axis::Y, index: c.y }
    } else {
        BoundsError { axis: Axis::Z, index: c.z }
    }
}

/// Rounding a coordinate down to a multiple of the cell size never leaves the
/// range of `i64`.
pub proof fn lemma_cell_index_range(coord: int, cell_size: int)
    requires
        cell_size > 0,
        i64::MIN <= coord <= i64::MAX,
    ensures
        i64::MIN <= cell_index_of(coord, cell_size) <= i64::MAX,
        coord >= 0 ==> 0 <= cell_index_of(coord, cell_size) <= coord,
        coord < 0 ==> coord <= cell_index_of(coord, cell_size) < 0,
{
    let q = coord / cell_size;
    let r = coord % cell_size;
    lemma_fundamental_div_mod(coord, cell_size);
    lemma_mod_bound(coord, cell_size);
    assert(coord == cell_size * q + r);
    if coord >= 0 {
        assert(0 <= q <= coord) by (nonlinear_arith)
            requires
                coord == cell_size * q + r,
                0 <= r < cell_size,
                coord >= 0,
        ;
    } else {
        assert(coord <= q < 0) by (nonlinear_arith)
            requires
                coord == cell_size * q + r,
                0 <= r < cell_size,
                coord < 0,
        ;
    }
}

/// The world volume ends at `2^23`, inclusive: a cell index of exactly
/// `2^23` is in bounds, one above is not, and no negative index is.
pub proof fn lemma_bounds_are_inclusive(i: int)
    ensures
        CELL_MAX == 0x80_0000,
        index_in_bounds(0),
        index_in_bounds(CELL_MAX as int),
        !index_in_bounds(CELL_MAX + 1),
        i < 0 ==> !index_in_bounds(i),
        i > CELL_MAX ==> !index_in_bounds(i),
        0 <= i <= CELL_MAX ==> index_in_bounds(i),
{
}

/// A point is refused exactly when one of its coordinates, divided by the
/// cell size and rounded down, leaves `0 ..= 2^23`.
pub proof fn lemma_point_in_bounds(p: Point, cell_size: int)
    requires
        cell_size > 0,
    ensures
        in_bounds(cell_of(p, cell_size)) <==> index_in_bounds(cell_index_of(p.x as int, cell_size))
            && index_in_bounds(cell_index_of(p.y as int, cell_size)) && index_in_bounds(
            cell_index_of(p.z as int, cell_size),
        ),
{
    lemma_cell_index_range(p.x as int, cell_size);
    lemma_cell_index_range(p.y as int, cell_size);
    lemma_cell_index_range(p.z as int, cell_size);
}

/// The sign of `x`.
pub fn sign(x: i64) -> (r: i64)
    ensures
        r == sgn(x as int),
{
    if x > 0 {
        1
    } else if x < 0 {
        -1
    } else {
        0
    }
}

/// The index of the cell that holds `coord`, rounding toward minus infinity
/// so that negative coordinates fall into negative cells.
pub fn cell_index(coord: i64, cell_size: i64) -> (r: i64)
    requires
        cell_size > 0,
    ensures
        r == cell_index_of(coord as int, cell_size as int),
{
    if coord >= 0 {
        coord / cell_size
    } else {
        let below: i64 = -(coord + 1);
        let q: i64 = below / cell_size;
        proof {
            let d = cell_size as int;
            let m = below as int;
            let rem = m % d;
            lemma_fundamental_div_mod(m, d);
            lemma_mod_bound(m, d);
            assert(m == d * (q as int) + rem);
            assert(coord as int == (-(q as int) - 1) * d + (d - 1 - rem)) by (nonlinear_arith)
                requires
                    m == d * (q as int) + rem,
                    m == -(coord as int + 1),
            ;
            lemma_fundamental_div_mod_converse(coord as int, d, -(q as int) - 1, d - 1 - rem);
        }
        -q - 1
    }
}

/// Whether a cell lies in the valid world volume.
pub fn cell_in_bounds(c: Cell) -> (r: bool)
    ensures
        r == in_bounds(c),
{
    0 <= c.x && c.x <= CELL_MAX && 0 <= c.y && c.y <= CELL_MAX && 0 <= c.z && c.z <= CELL_MAX
}

/// Checks a cell against the valid world volume, naming the first axis that
/// leaves it.
pub fn check_bounds(c: Cell) -> (r: Result<(), BoundsError>)
    ensures
        r is Ok <==> in_bounds(c),
        r is Err ==> r->Err_0 == first_violation(c),
{
    if c.x < 0 || c.x > CELL_MAX {
        Err(BoundsError { axis: Axis::X, index: c.x })
    } else if c.y < 0 || c.y > CELL_MAX {
        Err(BoundsError { axis: Axis::Y, index: c.y })
    } else if c.z < 0 || c.z > CELL_MAX {
        Err(BoundsError { axis: Axis::Z, index: c.z })
    } else {
        Ok(())
    }
}

/// The cell that holds a world point.
pub fn locate(p: Point, cell_size: i64) -> (c: Cell)
    requires
        cell_size > 0,
    ensures
        c == cell_of(p, cell_size as int),
        c.x == cell_index_of(p.x as int, cell_size as int),
        c.y == cell_index_of(p.y as int, cell_size as int),
        c.z == cell_index_of(p.z as int, cell_size as int),
{
    Cell {
        x: cell_index(p.x, cell_size),
        y: cell_index(p.y, cell_size),
        z: cell_index(p.z, cell_size),
    }
}

} // verus!
