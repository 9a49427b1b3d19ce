//! Walking the grid along a ray, one axis-aligned step at a time.
//!
//! A ray is a start cell and a whole-unit displacement `(dx, dy, dz)`. The
//! walk takes `|dx| + |dy| + |dz|` steps. Seen from the start cell's centre,
//! the ray crosses the `k`-th cell boundary of an axis with magnitude `a` at
//! parameter `(2k - 1) / (2a)`; every step goes to the axis whose next
//! crossing comes first. The model below keeps, per axis, the number of steps
//! taken so far (a [`Tally`]) and compares crossings by cross-multiplying, so
//! that everything stays in the integers.

use vstd::prelude::*;
use crate::grid::Axis;
use crate::grid::BoundsError;
use crate::grid::Cell;
use crate::grid::check_bounds;
use crate::grid::first_violation;
use crate::grid::in_bounds;
use crate::grid::magnitude;
use crate::grid::sgn;
use crate::grid::sign;
use crate::grid::CELL_MAX;

verus! {

/// The largest magnitude of a displacement component: twice this value still
/// fits in an `i64`.
pub const DELTA_MAX: i64 = 4_611_686_018_427_387_903;

/// A displacement in whole world units, one component per axis.
#[derive(Clone, Copy, Debug, PartialEq, Eq, Structural)]
pub struct Delta {
    pub dx: i64,
    pub dy: i64,
    pub dz: i64,
}

/// Steps taken so far on each axis.
pub struct Tally {
    pub x: int,
    pub y: int,
    pub z: int,
}

impl Delta {
    /// Every component has magnitude at most `DELTA_MAX`.
    pub open spec fn in_range(self) -> bool {
        &&& -DELTA_MAX <= self.dx <= DELTA_MAX
        &&& -DELTA_MAX <= self.dy <= DELTA_MAX
        &&& -DELTA_MAX <= self.dz <= DELTA_MAX
    }

    /// The component magnitudes, as the tally the walk ends on.
    pub open spec fn reach(self) -> Tally {
        Tally {
            x: magnitude(self.dx as int),
            y: magnitude(self.dy as int),
            z: magnitude(self.dz as int),
        }
    }

    /// The number of steps of the walk: `|dx| + |dy| + |dz|`.
    pub open spec fn steps(self) -> nat {
        (magnitude(self.dx as int) + magnitude(self.dy as int) + magnitude(self.dz as int)) as nat
    }

    /// Whether every component has magnitude at most `DELTA_MAX`.
    pub fn fits(&self) -> (r: bool)
        ensures
            r == self.in_range(),
    {
        -DELTA_MAX <= self.dx && self.dx <= DELTA_MAX && -DELTA_MAX <= self.dy && self.dy
            <= DELTA_MAX && -DELTA_MAX <= self.dz && self.dz <= DELTA_MAX
    }
}

/// Compares the next crossing of an axis `p` (magnitude `p`, `cp` steps taken)
/// with that of an axis `q`. Negative exactly when `p`'s comes strictly first:
/// `(2cp + 1) / (2p) < (2cq + 1) / (2q)`, cross-multiplied.
pub open spec fn lead(p: int, cp: int, q: int, cq: int) -> int {
    q * (2 * cp + 1) - p * (2 * cq + 1)
}

/// The axis of the next step, for component magnitudes `a` and tally `c`.
/// Ties go to y before z, and to z before x.
pub open spec fn next_axis(a: Tally, c: Tally) -> Axis {
    if lead(a.x, c.x, a.y, c.y) < 0 {
        if lead(a.x, c.x, a.z, c.z) < 0 {
            Axis::X
        } else {
            Axis::Z
        }
    } else {
        if lead(a.z, c.z, a.y, c.y) < 0 {
            Axis::Z
        } else {
            Axis::Y
        }
    }
}

/// The tally after one more step on `axis`.
pub open spec fn bump(c: Tally, axis: Axis) -> Tally {
    match axis {
        Axis::X => Tally { x: c.x + 1, y: c.y, z: c.z },
        Axis::Y => Tally { x: c.x, y: c.y + 1, z: c.z },
        Axis::Z => Tally { x: c.x, y: c.y, z: c.z + 1 },
    }
}

/// The tally after `k` steps of a walk with component magnitudes `a`.
pub open spec fn tally_after(a: Tally, k: nat) -> Tally
    decreases k,
{
    if k == 0 {
        Tally { x: 0, y: 0, z: 0 }
    } else {
        let c = tally_after(a, (k - 1) as nat);
        bump(c, next_axis(a, c))
    }
}

/// The cell reached from `start` after `k` steps along `delta`.
pub open spec fn cell_after(start: Cell, delta: Delta, k: nat) -> Cell {
    let c = tally_after(delta.reach(), k);
    Cell {
        x: (start.x + sgn(delta.dx as int) * c.x) as i64,
        y: (start.y + sgn(delta.dy as int) * c.y) as i64,
        z: (start.z + sgn(delta.dz as int) * c.z) as i64,
    }
}

/// The cells of the walk in visiting order: the start cell, then one cell per
/// step.
pub open spec fn path(start: Cell, delta: Delta) -> Seq<Cell> {
    Seq::new(delta.steps() + 1, |k: int| cell_after(start, delta, k as nat))
}

/// Two cells that differ by exactly one unit on exactly one axis.
pub open spec fn adjacent(a: Cell, b: Cell) -> bool {
    ||| (magnitude(b.x - a.x) == 1 && b.y == a.y && b.z == a.z)
    ||| (b.x == a.x && magnitude(b.y - a.y) == 1 && b.z == a.z)
    ||| (b.x == a.x && b.y == a.y && magnitude(b.z - a.z) == 1)
}

/// If axis `p` has used up its steps and its next crossing still comes
/// strictly before that of `q`, then `q` has used up its steps too.
proof fn lemma_spent_before(p: int, q: int, cq: int)
    requires
        0 <= p,
        0 <= q,
        0 <= cq <= q,
        lead(p, p, q, cq) < 0,
    ensures
        cq == q,
{
    if cq < q {
        assert(p * (2 * cq + 1) <= p * (2 * q - 1)) by (nonlinear_arith)
            requires
                0 <= p,
                cq <= q - 1,
        ;
        assert(q * (2 * p + 1) == 2 * (p * q) + q) by (nonlinear_arith);
        assert(p * (2 * q - 1) == 2 * (p * q) - p) by (nonlinear_arith);
    }
}

/// If axis `q` has used up its steps and the next crossing of `p` comes no
/// later than that of `q`, then `p` has used up its steps too.
proof fn lemma_spent_not_after(p: int, cp: int, q: int)
    requires
        0 <= p,
        0 <= q,
        0 <= cp <= p,
        lead(p, cp, q, q) >= 0,
    ensures
        cp == p,
{
    if cp < p {
        assert(q * (2 * cp + 1) <= q * (2 * p - 1)) by (nonlinear_arith)
            requires
                0 <= q,
                cp <= p - 1,
        ;
        assert(q * (2 * p - 1) == 2 * (p * q) - q) by (nonlinear_arith);
        assert(p * (2 * q + 1) == 2 * (p * q) + p) by (nonlinear_arith);
    }
}

/// Crossing order is transitive: if `p` comes strictly before `q`, and `r`
/// no later than `p`, then `r` comes strictly before `q`.
proof fn lemma_order_through(p: int, cp: int, q: int, cq: int, r: int, cr: int)
    requires
        0 <= p,
        0 <= q,
        0 <= r,
        0 <= cp,
        0 <= cq,
        0 <= cr,
        lead(p, cp, q, cq) < 0,
        lead(p, cp, r, cr) >= 0,
    ensures
        lead(r, cr, q, cq) < 0,
{
    let u = 2 * cp + 1;
    let v = 2 * cq + 1;
    let w = 2 * cr + 1;
    // q * u < p * v  and  r * u >= p * w;  show  q * w < r * v.
    assert(q * u < p * v);
    assert(r * u >= p * w);
    assert((q * u) * w < (p * v) * w) by (nonlinear_arith)
        requires
            q * u < p * v,
            w > 0,
    ;
    assert((p * w) * v <= (r * u) * v) by (nonlinear_arith)
        requires
            r * u >= p * w,
            v > 0,
    ;
    assert((p * v) * w == (p * w) * v) by (nonlinear_arith);
    assert((q * u) * w == (q * w) * u) by (nonlinear_arith);
    assert((r * u) * v == (r * v) * u) by (nonlinear_arith);
    assert(q * w < r * v) by (nonlinear_arith)
        requires
            (q * w) * u < (r * v) * u,
            u > 0,
    ;
}

/// Crossing order is transitive the other way round: if `q` comes no later
/// than `p`, and `r` strictly before `q`, then `r` comes strictly before `p`.
proof fn lemma_order_behind(p: int, cp: int, q: int, cq: int, r: int, cr: int)
    requires
        0 <= p,
        0 <= q,
        0 <= r,
        0 <= cp,
        0 <= cq,
        0 <= cr,
        lead(p, cp, q, cq) >= 0,
        lead(r, cr, q, cq) < 0,
    ensures
        lead(p, cp, r, cr) > 0,
{
    let u = 2 * cp + 1;
    let v = 2 * cq + 1;
    let w = 2 * cr + 1;
    // q * u >= p * v  and  q * w < r * v;  show  p * w < r * u.
    assert(q * u >= p * v);
    assert(q * w < r * v);
    assert((p * v) * w <= (q * u) * w) by (nonlinear_arith)
        requires
            q * u >= p * v,
            w > 0,
    ;
    assert((q * w) * u < (r * v) * u) by (nonlinear_arith)
        requires
            q * w < r * v,
            u > 0,
    ;
    assert((q * u) * w == (q * w) * u) by (nonlinear_arith);
    assert((p * v) * w == (p * w) * v) by (nonlinear_arith);
    assert((r * v) * u == (r * u) * v) by (nonlinear_arith);
    assert(p * w < r * u) by (nonlinear_arith)
        requires
            (p * w) * v < (r * u) * v,
            v > 0,
    ;
}

/// One more step on either axis moves the comparison by twice the other
/// axis's magnitude.
proof fn lemma_lead_shift(p: int, cp: int, q: int, cq: int)
    ensures
        lead(p, cp + 1, q, cq) == lead(p, cp, q, cq) + 2 * q,
        lead(p, cp, q, cq + 1) == lead(p, cp, q, cq) - 2 * p,
{
    assert(q * (2 * (cp + 1) + 1) == q * (2 * cp + 1) + 2 * q) by (nonlinear_arith);
    assert(p * (2 * (cq + 1) + 1) == p * (2 * cq + 1) + 2 * p) by (nonlinear_arith);
}

impl Tally {
    /// The number of steps counted, over all axes.
    pub open spec fn total(self) -> int {
        self.x + self.y + self.z
    }

    /// No component is negative.
    pub open spec fn non_negative(self) -> bool {
        0 <= self.x && 0 <= self.y && 0 <= self.z
    }

    /// Component by component, no more steps than `a` allows.
    pub open spec fn within(self, a: Tally) -> bool {
        0 <= self.x <= a.x && 0 <= self.y <= a.y && 0 <= self.z <= a.z
    }

    /// The number of steps counted on one axis.
    pub open spec fn on(self, axis: Axis) -> int {
        match axis {
            Axis::X => self.x,
            Axis::Y => self.y,
            Axis::Z => self.z,
        }
    }
}

/// The three crossing comparisons stay within twice the magnitudes they
/// compare. This is what keeps the running error terms of the walk small.
pub open spec fn balanced(a: Tally, c: Tally) -> bool {
    &&& -2 * a.x <= lead(a.x, c.x, a.y, c.y) <= 2 * a.y
    &&& -2 * a.x <= lead(a.x, c.x, a.z, c.z) <= 2 * a.z
    &&& -2 * a.z <= lead(a.z, c.z, a.y, c.y) <= 2 * a.y
}

/// One step of the walk, taken before the walk is over: the axis it goes to
/// still has steps left, and the comparisons stay balanced.
pub proof fn lemma_step(a: Tally, c: Tally)
    requires
        a.non_negative(),
        c.within(a),
        c.total() < a.total(),
        balanced(a, c),
    ensures
        c.on(next_axis(a, c)) < a.on(next_axis(a, c)),
        bump(c, next_axis(a, c)).within(a),
        bump(c, next_axis(a, c)).total() == c.total() + 1,
        balanced(a, bump(c, next_axis(a, c))),
{
    lemma_lead_shift(a.x, c.x, a.y, c.y);
    lemma_lead_shift(a.x, c.x, a.z, c.z);
    lemma_lead_shift(a.z, c.z, a.y, c.y);
    if lead(a.x, c.x, a.y, c.y) < 0 {
        if lead(a.x, c.x, a.z, c.z) < 0 {
            if c.x == a.x {
                lemma_spent_before(a.x, a.y, c.y);
                lemma_spent_before(a.x, a.z, c.z);
            }
        } else {
            if c.z == a.z {
                lemma_spent_not_after(a.x, c.x, a.z);
                lemma_spent_before(a.x, a.y, c.y);
            }
            lemma_order_through(a.x, c.x, a.y, c.y, a.z, c.z);
        }
    } else {
        if lead(a.z, c.z, a.y, c.y) < 0 {
            if c.z == a.z {
                lemma_spent_before(a.z, a.y, c.y);
                lemma_spent_not_after(a.x, c.x, a.y);
            }
            lemma_order_behind(a.x, c.x, a.y, c.y, a.z, c.z);
        } else {
            if c.y == a.y {
                lemma_spent_not_after(a.x, c.x, a.y);
                lemma_spent_not_after(a.z, c.z, a.y);
            }
        }
    }
}

/// What holds after every `k` steps of a walk, up to its last: the tally
/// counts `k` steps, no axis has gone past its magnitude, and the crossing
/// comparisons are balanced.
pub proof fn lemma_walk(a: Tally, k: nat)
    requires
        a.non_negative(),
        k <= a.total(),
    ensures
        tally_after(a, k).within(a),
        tally_after(a, k).total() == k,
        balanced(a, tally_after(a, k)),
    decreases k,
{
    if k == 0 {
        assert(lead(a.x, 0, a.y, 0) == a.y - a.x) by (nonlinear_arith);
        assert(lead(a.x, 0, a.z, 0) == a.z - a.x) by (nonlinear_arith);
        assert(lead(a.z, 0, a.y, 0) == a.y - a.z) by (nonlinear_arith);
    } else {
        lemma_walk(a, (k - 1) as nat);
        lemma_step(a, tally_after(a, (k - 1) as nat));
    }
}

/// A coordinate after `c` steps in the direction of `d`.
pub open spec fn shifted(from: int, d: int, c: int) -> int {
    from + sgn(d) * c
}

/// A coordinate of the walk stays near its start: it never moves further than
/// the magnitude of the displacement, and so stays an `i64`.
proof fn lemma_shifted(from: int, d: int, c: int)
    requires
        0 <= c <= magnitude(d),
    ensures
        sgn(d) * c == (if d > 0 { c } else if d < 0 { -c } else { 0 }),
        shifted(from, d, c + 1) == shifted(from, d, c) + sgn(d),
        magnitude(shifted(from, d, c) - from) == c,
        d != 0 ==> shifted(from, d, magnitude(d)) == from + d,
{
    assert(sgn(d) * c == (if d > 0 { c } else if d < 0 { -c } else { 0 })) by (nonlinear_arith)
        requires
            0 <= c <= magnitude(d),
    ;
    assert(sgn(d) * (c + 1) == sgn(d) * c + sgn(d)) by (nonlinear_arith);
}

/// The cells of a walk, coordinate by coordinate, without the casts of
/// [`cell_after`]: inside the valid world volume and with a displacement in
/// range, no coordinate of the walk leaves the range of `i64`.
pub proof fn lemma_cell_after(start: Cell, delta: Delta, k: nat)
    requires
        in_bounds(start),
        delta.in_range(),
        k <= delta.steps(),
    ensures
        cell_after(start, delta, k).x == shifted(
            start.x as int,
            delta.dx as int,
            tally_after(delta.reach(), k).x,
        ),
        cell_after(start, delta, k).y == shifted(
            start.y as int,
            delta.dy as int,
            tally_after(delta.reach(), k).y,
        ),
        cell_after(start, delta, k).z == shifted(
            start.z as int,
            delta.dz as int,
            tally_after(delta.reach(), k).z,
        ),
        -DELTA_MAX <= cell_after(start, delta, k).x <= CELL_MAX + DELTA_MAX,
        -DELTA_MAX <= cell_after(start, delta, k).y <= CELL_MAX + DELTA_MAX,
        -DELTA_MAX <= cell_after(start, delta, k).z <= CELL_MAX + DELTA_MAX,
{
    let a = delta.reach();
    let c = tally_after(a, k);
    lemma_walk(a, k);
    lemma_shifted(start.x as int, delta.dx as int, c.x);
    lemma_shifted(start.y as int, delta.dy as int, c.y);
    lemma_shifted(start.z as int, delta.dz as int, c.z);
}

/// The walk visits the start cell first.
pub proof fn lemma_path_starts_at_start(start: Cell, delta: Delta)
    ensures
        path(start, delta).len() >= 1,
        path(start, delta)[0] == start,
{
    let c = tally_after(delta.reach(), 0);
    assert(sgn(delta.dx as int) * c.x == 0) by (nonlinear_arith)
        requires
            c.x == 0,
    ;
    assert(sgn(delta.dy as int) * c.y == 0) by (nonlinear_arith)
        requires
            c.y == 0,
    ;
    assert(sgn(delta.dz as int) * c.z == 0) by (nonlinear_arith)
        requires
            c.z == 0,
    ;
}

/// The walk is contiguous: every cell after the first differs from the one
/// before it by exactly one unit on exactly one axis.
pub proof fn lemma_path_contiguous(start: Cell, delta: Delta, k: int)
    requires
        in_bounds(start),
        delta.in_range(),
        0 <= k < delta.steps(),
    ensures
        adjacent(path(start, delta)[k], path(start, delta)[k + 1]),
{
    let a = delta.reach();
    let c = tally_after(a, k as nat);
    let n = tally_after(a, (k + 1) as nat);
    lemma_walk(a, k as nat);
    lemma_step(a, c);
    lemma_cell_after(start, delta, k as nat);
    lemma_cell_after(start, delta, (k + 1) as nat);
    lemma_shifted(start.x as int, delta.dx as int, c.x);
    lemma_shifted(start.y as int, delta.dy as int, c.y);
    lemma_shifted(start.z as int, delta.dz as int, c.z);
    assert(n == bump(c, next_axis(a, c)));
}

/// The walk has `|dx| + |dy| + |dz| + 1` cells.
pub proof fn lemma_path_length(start: Cell, delta: Delta)
    ensures
        path(start, delta).len() == magnitude(delta.dx as int) + magnitude(delta.dy as int)
            + magnitude(delta.dz as int) + 1,
{
}

/// The length of the walk does not depend on the direction of the ray:
/// flipping the sign of any component leaves it unchanged.
pub proof fn lemma_length_ignores_direction(start: Cell, from: Cell, delta: Delta, turned: Delta)
    requires
        magnitude(turned.dx as int) == magnitude(delta.dx as int),
        magnitude(turned.dy as int) == magnitude(delta.dy as int),
        magnitude(turned.dz as int) == magnitude(delta.dz as int),
    ensures
        path(start, delta).len() == path(from, turned).len(),
{
}

/// A ray with no displacement visits the start cell and nothing else.
pub proof fn lemma_still_ray(start: Cell)
    ensures
        path(start, Delta { dx: 0, dy: 0, dz: 0 }) =~= seq![start],
{
    lemma_path_starts_at_start(start, Delta { dx: 0, dy: 0, dz: 0 });
}

/// The walk ends in the cell that lies the whole displacement away from the
/// start cell.
pub proof fn lemma_path_ends_at_goal(start: Cell, delta: Delta)
    requires
        in_bounds(start),
        delta.in_range(),
    ensures
        path(start, delta).last().x == start.x + delta.dx,
        path(start, delta).last().y == start.y + delta.dy,
        path(start, delta).last().z == start.z + delta.dz,
{
    let a = delta.reach();
    let n = delta.steps();
    lemma_walk(a, n);
    lemma_cell_after(start, delta, n);
    lemma_shifted(start.x as int, delta.dx as int, a.x);
    lemma_shifted(start.y as int, delta.dy as int, a.y);
    lemma_shifted(start.z as int, delta.dz as int, a.z);
    assert(tally_after(a, n).x == a.x);
    assert(tally_after(a, n).y == a.y);
    assert(tally_after(a, n).z == a.z);
}

/// Tallies only grow: a later tally has at least as many steps on every axis.
pub proof fn lemma_tally_grows(a: Tally, j: nat, k: nat)
    requires
        j <= k,
    ensures
        tally_after(a, j).x <= tally_after(a, k).x,
        tally_after(a, j).y <= tally_after(a, k).y,
        tally_after(a, j).z <= tally_after(a, k).z,
    decreases k,
{
    if j < k {
        lemma_tally_grows(a, j, (k - 1) as nat);
    }
}

/// The walk never comes back to a cell it has left.
pub proof fn lemma_path_never_returns(start: Cell, delta: Delta, j: int, k: int)
    requires
        in_bounds(start),
        delta.in_range(),
        0 <= j < k <= delta.steps(),
    ensures
        path(start, delta)[j] != path(start, delta)[k],
{
    let a = delta.reach();
    let cj = tally_after(a, j as nat);
    let ck = tally_after(a, k as nat);
    lemma_walk(a, j as nat);
    lemma_walk(a, k as nat);
    lemma_tally_grows(a, j as nat, k as nat);
    lemma_cell_after(start, delta, j as nat);
    lemma_cell_after(start, delta, k as nat);
    lemma_shifted(start.x as int, delta.dx as int, cj.x);
    lemma_shifted(start.y as int, delta.dy as int, cj.y);
    lemma_shifted(start.z as int, delta.dz as int, cj.z);
    lemma_shifted(start.x as int, delta.dx as int, ck.x);
    lemma_shifted(start.y as int, delta.dy as int, ck.y);
    lemma_shifted(start.z as int, delta.dz as int, ck.z);
}

/// A walk in progress: the cell it stands on and the running comparisons
/// that pick the next step.
pub struct Traversal {
    start: Cell,
    delta: Delta,
    cell: Cell,
    taken: u64,
    exy: i64,
    exz: i64,
    ezy: i64,
}

/// The magnitude of a displacement component.
fn span(d: i64) -> (a: i64)
    requires
        -DELTA_MAX <= d <= DELTA_MAX,
    ensures
        a == magnitude(d as int),
        0 <= a <= DELTA_MAX,
{
    if d < 0 {
        -d
    } else {
        d
    }
}

impl Traversal {
    /// The cell the walk started from.
    pub closed spec fn start(&self) -> Cell {
        self.start
    }

    /// The displacement the walk follows.
    pub closed spec fn delta(&self) -> Delta {
        self.delta
    }

    /// The number of steps taken so far.
    pub closed spec fn taken(&self) -> nat {
        self.taken as nat
    }

    /// The walk started inside the world volume, has not gone past its last
    /// step, stands on the cell that its model gives, and carries the
    /// comparisons that belong to that cell.
    pub closed spec fn wf(&self) -> bool {
        let a = self.delta.reach();
        let c = tally_after(a, self.taken as nat);
        &&& in_bounds(self.start)
        &&& self.delta.in_range()
        &&& self.taken <= self.delta.steps()
        &&& self.cell == cell_after(self.start, self.delta, self.taken as nat)
        &&& self.exy == lead(a.x, c.x, a.y, c.y)
        &&& self.exz == lead(a.x, c.x, a.z, c.z)
        &&& self.ezy == lead(a.z, c.z, a.y, c.y)
    }

    /// The cell the walk stands on.
    pub open spec fn position(&self) -> Cell {
        cell_after(self.start(), self.delta(), self.taken())
    }

    /// Whether the walk has taken its last step.
    pub open spec fn finished(&self) -> bool {
        self.taken() == self.delta().steps()
    }

    /// Begins a walk at `start`, which must lie inside the world volume.
    pub fn new(start: Cell, delta: Delta) -> (r: Result<Traversal, BoundsError>)
        requires
            delta.in_range(),
        ensures
            r is Ok <==> in_bounds(start),
            r is Err ==> r->Err_0 == first_violation(start),
            r is Ok ==> r->Ok_0.wf() && r->Ok_0.start() == start && r->Ok_0.delta() == delta
                && r->Ok_0.taken() == 0,
    {
        match check_bounds(start) {
            Err(e) => Err(e),
            Ok(()) => {
                let ax: i64 = span(delta.dx);
                let ay: i64 = span(delta.dy);
                let az: i64 = span(delta.dz);
                proof {
                    lemma_path_starts_at_start(start, delta);
                    assert(lead(ax as int, 0, ay as int, 0) == ay - ax) by (nonlinear_arith);
                    assert(lead(ax as int, 0, az as int, 0) == az - ax) by (nonlinear_arith);
                    assert(lead(az as int, 0, ay as int, 0) == ay - az) by (nonlinear_arith);
                }
                Ok(
                    Traversal {
                        start,
                        delta,
                        cell: start,
                        taken: 0,
                        exy: ay - ax,
                        exz: az - ax,
                        ezy: ay - az,
                    },
                )
            },
        }
    }

    /// The cell the walk stands on.
    pub fn cell(&self) -> (c: Cell)
        requires
            self.wf(),
        ensures
            c == self.position(),
    {
        self.cell
    }

    /// The number of steps the walk has taken.
    pub fn steps_taken(&self) -> (k: u64)
        requires
            self.wf(),
        ensures
            k == self.taken(),
    {
        self.taken
    }

    /// The number of steps the walk has left.
    pub fn remaining(&self) -> (n: u64)
        requires
            self.wf(),
        ensures
            n == self.delta().steps() - self.taken(),
    {
        let ax: u64 = span(self.delta.dx) as u64;
        let ay: u64 = span(self.delta.dy) as u64;
        let az: u64 = span(self.delta.dz) as u64;
        ax + ay + az - self.taken
    }

    /// Takes the next step, if there is one, and says whether it did.
    pub fn advance(&mut self) -> (moved: bool)
        requires
            old(self).wf(),
        ensures
            final(self).wf(),
            final(self).start() == old(self).start(),
            final(self).delta() == old(self).delta(),
            moved == !old(self).finished(),
            final(self).taken() == old(self).taken() + (if moved { 1nat } else { 0nat }),
    {
        if self.remaining() == 0 {
            return false;
        }
        let ax: i64 = span(self.delta.dx);
        let ay: i64 = span(self.delta.dy);
        let az: i64 = span(self.delta.dz);
        let ghost a = self.delta.reach();
        let ghost c = tally_after(a, self.taken as nat);
        proof {
            lemma_walk(a, self.taken as nat);
            lemma_step(a, c);
            lemma_lead_shift(a.x, c.x, a.y, c.y);
            lemma_lead_shift(a.x, c.x, a.z, c.z);
            lemma_lead_shift(a.z, c.z, a.y, c.y);
            lemma_cell_after(self.start, self.delta, self.taken as nat);
            lemma_cell_after(self.start, self.delta, (self.taken + 1) as nat);
            lemma_shifted(self.start.x as int, self.delta.dx as int, c.x);
            lemma_shifted(self.start.y as int, self.delta.dy as int, c.y);
            lemma_shifted(self.start.z as int, self.delta.dz as int, c.z);
            assert(tally_after(a, (self.taken + 1) as nat) == bump(c, next_axis(a, c)));
        }
        if self.exy < 0 {
            if self.exz < 0 {
                self.cell.x = self.cell.x + sign(self.delta.dx);
                self.exy = self.exy + 2 * ay;
                self.exz = self.exz + 2 * az;
            } else {
                self.cell.z = self.cell.z + sign(self.delta.dz);
                self.exz = self.exz - 2 * ax;
                self.ezy = self.ezy + 2 * ay;
            }
        } else {
            if self.ezy < 0 {
                self.cell.z = self.cell.z + sign(self.delta.dz);
                self.exz = self.exz - 2 * ax;
                self.ezy = self.ezy + 2 * ay;
            } else {
                self.cell.y = self.cell.y + sign(self.delta.dy);
                self.exy = self.exy - 2 * ax;
                self.ezy = self.ezy - 2 * az;
            }
        }
        self.taken = self.taken + 1;
        true
    }
}

/// The cells that the ray from `start` along `delta` passes through, in
/// visiting order.
pub fn cells_on_ray(start: Cell, delta: Delta) -> (r: Result<Vec<Cell>, BoundsError>)
    requires
        delta.in_range(),
    ensures
        r is Ok <==> in_bounds(start),
        r is Err ==> r->Err_0 == first_violation(start),
        r is Ok ==> r->Ok_0@ == path(start, delta),
{
    match Traversal::new(start, delta) {
        Err(e) => Err(e),
        Ok(walk) => {
            let mut walk = walk;
            let mut cells: Vec<Cell> = Vec::new();
            cells.push(walk.cell());
            while walk.advance()
                invariant
                    walk.wf(),
                    walk.start() == start,
                    walk.delta() == delta,
                    cells@.len() == walk.taken() + 1,
                    forall|i: int|
                        0 <= i < cells@.len() ==> cells@[i] == cell_after(start, delta, i as nat),
                decreases delta.steps() - walk.taken(),
            {
                cells.push(walk.cell());
            }
            assert(cells@ =~= path(start, delta));
            Ok(cells)
        },
    }
}

} // verus!
