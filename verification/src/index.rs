//! The spatial index: which surfaces touch which cell.
//!
//! The index is filled once, when a level is loaded, and only read after
//! that. Which cells a triangle touches is for the loader to say; the index
//! keeps what it is told, cell by cell, in the order it was told.

use vstd::prelude::*;
use std::collections::HashMap;
use crate::grid::BoundsError;
use crate::grid::Cell;
use crate::grid::Point;
use crate::grid::cell_of;
use crate::grid::check_bounds;
use crate::grid::first_violation;
use crate::grid::in_bounds;
use crate::grid::locate;
use crate::grid::CELL_MAX;
use crate::surface::Surface;

verus! {

broadcast use vstd::std_specs::hash::group_hash_axioms;

/// The key under which a cell of the world volume is stored: its three
/// indices, 24 bits each, side by side.
pub open spec fn key_of(c: Cell) -> u128 {
    (c.x * 0x1_0000_0000_0000 + c.y * 0x100_0000 + c.z) as u128
}

/// Different cells of the world volume have different keys.
proof fn lemma_keys_differ(a: Cell, b: Cell)
    requires
        in_bounds(a),
        in_bounds(b),
        a != b,
    ensures
        key_of(a) != key_of(b),
{
}

/// The key of a cell of the world volume.
fn cell_key(c: Cell) -> (k: u128)
    requires
        in_bounds(c),
    ensures
        k == key_of(c),
{
    (c.x as u128) * 0x1_0000_0000_0000 + (c.y as u128) * 0x100_0000 + (c.z as u128)
}

/// The surfaces of a level, sorted into the cells of a uniform grid.
pub struct SpatialIndex {
    cell_size: i64,
    buckets: HashMap<u128, Vec<Surface>>,
    nothing: Vec<Surface>,
}

impl SpatialIndex {
    /// The edge length of a cell, in world units.
    pub closed spec fn cell_size(&self) -> int {
        self.cell_size as int
    }

    /// The surfaces that touch a cell, in the order they were inserted. Cells
    /// outside the world volume, and cells that nothing was inserted into,
    /// hold no surface.
    pub closed spec fn bucket(&self, c: Cell) -> Seq<Surface> {
        if in_bounds(c) && self.buckets@.contains_key(key_of(c)) {
            self.buckets@[key_of(c)]@
        } else {
            Seq::empty()
        }
    }

    /// The cell size is positive.
    pub closed spec fn wf(&self) -> bool {
        self.cell_size > 0 && self.nothing@.len() == 0
    }

    /// The cell that holds a world point.
    pub open spec fn cell_at(&self, p: Point) -> Cell {
        cell_of(p, self.cell_size())
    }

    /// An index without surfaces, over cells of edge length `cell_size`.
    pub fn new(cell_size: i64) -> (index: SpatialIndex)
        requires
            cell_size > 0,
        ensures
            index.wf(),
            index.cell_size() == cell_size,
            forall|c: Cell| index.bucket(c) == Seq::<Surface>::empty(),
    {
        SpatialIndex { cell_size, buckets: HashMap::new(), nothing: Vec::new() }
    }

    /// The edge length of a cell, in world units.
    pub fn size_of_cell(&self) -> (s: i64)
        requires
            self.wf(),
        ensures
            s == self.cell_size(),
            s > 0,
    {
        self.cell_size
    }

    /// The cell that holds a world point.
    pub fn cell_containing(&self, p: Point) -> (c: Cell)
        requires
            self.wf(),
        ensures
            c == self.cell_at(p),
    {
        locate(p, self.cell_size)
    }

    /// Records that `surface` touches `cell`. A cell outside the world volume
    /// is refused and the index stays as it was.
    pub fn insert(&mut self, surface: Surface, cell: Cell) -> (r: Result<(), BoundsError>)
        requires
            old(self).wf(),
        ensures
            final(self).wf(),
            final(self).cell_size() == old(self).cell_size(),
            r is Ok <==> in_bounds(cell),
            r is Err ==> r->Err_0 == first_violation(cell),
            r is Err ==> forall|c: Cell| final(self).bucket(c) == old(self).bucket(c),
            r is Ok ==> final(self).bucket(cell) == old(self).bucket(cell).push(surface),
            r is Ok ==> forall|c: Cell| c != cell ==> final(self).bucket(c) == old(self).bucket(c),
    {
        match check_bounds(cell) {
            Err(e) => Err(e),
            Ok(()) => {
                let key: u128 = cell_key(cell);
                let mut bucket: Vec<Surface> = match self.buckets.remove(&key) {
                    Some(b) => b,
                    None => Vec::new(),
                };
                assert(bucket@ == old(self).bucket(cell));
                bucket.push(surface);
                self.buckets.insert(key, bucket);
                assert forall|c: Cell| c != cell implies final(self).bucket(c) == old(self).bucket(
                    c,
                ) by {
                    if in_bounds(c) {
                        lemma_keys_differ(c, cell);
                    }
                }
                Ok(())
            },
        }
    }

    /// The surfaces that touch the cell `(x, y, z)`, in the order they were
    /// inserted. Any three integers are accepted.
    pub fn get_surfaces_in_cell(&self, x: i64, y: i64, z: i64) -> (surfaces: &Vec<Surface>)
        requires
            self.wf(),
        ensures
            surfaces@ == self.bucket(Cell { x, y, z }),
    {
        let cell = Cell { x, y, z };
        if x < 0 || x > CELL_MAX || y < 0 || y > CELL_MAX || z < 0 || z > CELL_MAX {
            return &self.nothing;
        }
        let key: u128 = cell_key(cell);
        match self.buckets.get(&key) {
            Some(b) => b,
            None => &self.nothing,
        }
    }
}

} // verus!
