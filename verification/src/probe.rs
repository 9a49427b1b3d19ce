//! The collision probe: which surface a ray meets first.
//!
//! Whether a ray meets a triangle, where, and how far from the origin, is
//! worked out by a collaborator, once per surface, and handed over as a
//! [`Contact`]. The probe walks the cells of the ray in visiting order. In
//! each cell it looks at the surfaces that the index lists there, keeps those
//! whose meeting point lies in that very cell, and picks the nearest. The
//! first cell that yields a surface ends the search.

use vstd::prelude::*;
use crate::grid::BoundsError;
use crate::grid::Cell;
use crate::grid::Point;
use crate::grid::cell_of;
use crate::grid::first_violation;
use crate::grid::in_bounds;
use crate::grid::locate;
use crate::index::SpatialIndex;
use crate::surface::Surface;
use crate::traverse::Delta;
use crate::traverse::Traversal;
use crate::traverse::cell_after;

verus! {

/// The outcome of testing one ray against one surface. `distance` counts
/// from the ray's origin in any unit that the collaborator keeps to; `point`
/// is the meeting point, rounded down to whole world units. Neither means
/// anything unless `hit` is set.
#[derive(Clone, Copy, Debug, PartialEq, Eq, Structural)]
pub struct Contact {
    pub hit: bool,
    pub point: Point,
    pub distance: u64,
}

/// A surface that a ray meets, with the meeting point and its distance from
/// the ray's origin.
#[derive(Clone, Copy, Debug, PartialEq, Eq, Structural)]
pub struct Hit {
    pub surface: Surface,
    pub point: Point,
    pub distance: u64,
}

/// Whether the `i`-th of `surfaces` counts as met in `cell`: it has a contact,
/// the contact is a hit, and the meeting point lies in `cell`.
pub open spec fn accepted(
    surfaces: Seq<Surface>,
    contacts: Seq<Contact>,
    cell: Cell,
    cell_size: int,
    i: int,
) -> bool {
    &&& 0 <= i < surfaces.len()
    &&& surfaces[i].id < contacts.len()
    &&& contacts[surfaces[i].id as int].hit
    &&& cell_of(contacts[surfaces[i].id as int].point, cell_size) == cell
}

/// The distance at which the `i`-th of `surfaces` is met.
pub open spec fn distance_to(surfaces: Seq<Surface>, contacts: Seq<Contact>, i: int) -> u64 {
    contacts[surfaces[i].id as int].distance
}

/// Whether the `i`-th of `surfaces` is the one the probe picks in `cell`: it
/// is accepted, nothing accepted is nearer, and of those equally near it
/// comes first.
pub open spec fn closest(
    surfaces: Seq<Surface>,
    contacts: Seq<Contact>,
    cell: Cell,
    cell_size: int,
    i: int,
) -> bool {
    &&& accepted(surfaces, contacts, cell, cell_size, i)
    &&& forall|j: int| #[trigger]
        accepted(surfaces, contacts, cell, cell_size, j) ==> {
            ||| distance_to(surfaces, contacts, i) < distance_to(surfaces, contacts, j)
            ||| (distance_to(surfaces, contacts, i) == distance_to(surfaces, contacts, j) && i
                <= j)
        }
}

/// Whether nothing is met in `cell`.
pub open spec fn clear(
    surfaces: Seq<Surface>,
    contacts: Seq<Contact>,
    cell: Cell,
    cell_size: int,
) -> bool {
    forall|j: int| !#[trigger] accepted(surfaces, contacts, cell, cell_size, j)
}

/// What the probe reports for the `i`-th of `surfaces`.
pub open spec fn hit_of(surfaces: Seq<Surface>, contacts: Seq<Contact>, i: int) -> Hit {
    Hit {
        surface: surfaces[i],
        point: contacts[surfaces[i].id as int].point,
        distance: contacts[surfaces[i].id as int].distance,
    }
}

/// The probe's pick in a cell is unique.
pub proof fn lemma_closest_is_unique(
    surfaces: Seq<Surface>,
    contacts: Seq<Contact>,
    cell: Cell,
    cell_size: int,
    i: int,
    j: int,
)
    requires
        closest(surfaces, contacts, cell, cell_size, i),
        closest(surfaces, contacts, cell, cell_size, j),
    ensures
        i == j,
{
}

/// Of the surfaces met in a cell, the probe picks one that is nearest: no
/// accepted surface lies nearer to the origin than the pick.
pub proof fn lemma_nothing_nearer(
    surfaces: Seq<Surface>,
    contacts: Seq<Contact>,
    cell: Cell,
    cell_size: int,
    i: int,
    j: int,
)
    requires
        closest(surfaces, contacts, cell, cell_size, i),
        accepted(surfaces, contacts, cell, cell_size, j),
    ensures
        distance_to(surfaces, contacts, i) <= distance_to(surfaces, contacts, j),
{
}

/// Of two surfaces met in the same cell at different distances, the probe
/// picks the nearer one, whichever is listed first.
pub proof fn lemma_nearer_of_two(
    first: Surface,
    second: Surface,
    contacts: Seq<Contact>,
    cell: Cell,
    cell_size: int,
)
    requires
        accepted(seq![first, second], contacts, cell, cell_size, 0),
        accepted(seq![first, second], contacts, cell, cell_size, 1),
        distance_to(seq![first, second], contacts, 0) != distance_to(
            seq![first, second],
            contacts,
            1,
        ),
    ensures
        distance_to(seq![first, second], contacts, 0) < distance_to(
            seq![first, second],
            contacts,
            1,
        ) ==> closest(seq![first, second], contacts, cell, cell_size, 0),
        distance_to(seq![first, second], contacts, 1) < distance_to(
            seq![first, second],
            contacts,
            0,
        ) ==> closest(seq![first, second], contacts, cell, cell_size, 1),
{
}

/// A surface is only ever reported for the cell that its meeting point lies
/// in.
pub proof fn lemma_no_credit_across_cells(
    surfaces: Seq<Surface>,
    contacts: Seq<Contact>,
    cell: Cell,
    cell_size: int,
    i: int,
)
    requires
        closest(surfaces, contacts, cell, cell_size, i),
    ensures
        cell_of(hit_of(surfaces, contacts, i).point, cell_size) == cell,
{
}

/// Looks at the surfaces listed for one cell and picks the nearest of those
/// met in it.
pub fn probe_cell(surfaces: &Vec<Surface>, contacts: &Vec<Contact>, cell: Cell, cell_size: i64) -> (r:
    Option<Hit>)
    requires
        cell_size > 0,
    ensures
        r is None <==> clear(surfaces@, contacts@, cell, cell_size as int),
        r is Some ==> exists|i: int|
            #[trigger] closest(surfaces@, contacts@, cell, cell_size as int, i) && r->Some_0
                == hit_of(surfaces@, contacts@, i),
{
    let mut best: Option<Hit> = None;
    let ghost mut at: int = 0;
    let mut i: usize = 0;
    while i < surfaces.len()
        invariant
            cell_size > 0,
            0 <= i <= surfaces.len(),
            best is None ==> forall|j: int|
                0 <= j < i ==> !#[trigger] accepted(
                    surfaces@,
                    contacts@,
                    cell,
                    cell_size as int,
                    j,
                ),
            best is Some ==> {
                &&& 0 <= at < i
                &&& accepted(surfaces@, contacts@, cell, cell_size as int, at)
                &&& best->Some_0 == hit_of(surfaces@, contacts@, at)
                &&& forall|j: int|
                    0 <= j < i && #[trigger] accepted(
                        surfaces@,
                        contacts@,
                        cell,
                        cell_size as int,
                        j,
                    ) ==> {
                        ||| distance_to(surfaces@, contacts@, at) < distance_to(
                            surfaces@,
                            contacts@,
                            j,
                        )
                        ||| (distance_to(surfaces@, contacts@, at) == distance_to(
                            surfaces@,
                            contacts@,
                            j,
                        ) && at <= j)
                    }
            },
        decreases surfaces.len() - i,
    {
        let surface: Surface = surfaces[i];
        if surface.id < contacts.len() {
            let contact: Contact = contacts[surface.id];
            if contact.hit {
                let there: Cell = locate(contact.point, cell_size);
                if there.x == cell.x && there.y == cell.y && there.z == cell.z {
                    let nearer: bool = match best {
                        None => true,
                        Some(b) => contact.distance < b.distance,
                    };
                    if nearer {
                        best =
                        Some(
                            Hit { surface, point: contact.point, distance: contact.distance },
                        );
                        proof {
                            at = i as int;
                        }
                    }
                }
            }
        }
        i = i + 1;
    }
    proof {
        if best is Some {
            assert(closest(surfaces@, contacts@, cell, cell_size as int, at));
        }
    }
    best
}

/// Whether the walk from `start` along `delta` first meets something in its
/// `k`-th cell, and there picks the `i`-th surface listed.
pub open spec fn first_met(
    index: &SpatialIndex,
    contacts: Seq<Contact>,
    start: Cell,
    delta: Delta,
    k: int,
    i: int,
) -> bool {
    &&& 0 <= k <= delta.steps()
    &&& forall|m: int|
        0 <= m < k ==> clear(
            index.bucket(#[trigger] cell_after(start, delta, m as nat)),
            contacts,
            cell_after(start, delta, m as nat),
            index.cell_size(),
        )
    &&& closest(
        index.bucket(cell_after(start, delta, k as nat)),
        contacts,
        cell_after(start, delta, k as nat),
        index.cell_size(),
        i,
    )
}

/// Whether the walk from `start` along `delta` meets nothing at all.
pub open spec fn nothing_met(
    index: &SpatialIndex,
    contacts: Seq<Contact>,
    start: Cell,
    delta: Delta,
) -> bool {
    forall|m: int|
        0 <= m <= delta.steps() ==> clear(
            index.bucket(#[trigger] cell_after(start, delta, m as nat)),
            contacts,
            cell_after(start, delta, m as nat),
            index.cell_size(),
        )
}

/// The first meeting of a walk is unique: the cell, and the surface picked in
/// it.
pub proof fn lemma_first_met_is_unique(
    index: &SpatialIndex,
    contacts: Seq<Contact>,
    start: Cell,
    delta: Delta,
    k: int,
    i: int,
    l: int,
    j: int,
)
    requires
        first_met(index, contacts, start, delta, k, i),
        first_met(index, contacts, start, delta, l, j),
    ensures
        k == l,
        i == j,
{
    if k < l {
        let c = cell_after(start, delta, k as nat);
        assert(clear(index.bucket(c), contacts, c, index.cell_size()));
        assert(accepted(index.bucket(c), contacts, c, index.cell_size(), i));
    } else if l < k {
        let c = cell_after(start, delta, l as nat);
        assert(clear(index.bucket(c), contacts, c, index.cell_size()));
        assert(accepted(index.bucket(c), contacts, c, index.cell_size(), j));
    }
}

/// What a walk reports lies in the cell it was found in: the meeting point of
/// the first meeting, divided by the cell size and rounded down, names the
/// very cell that the walk stood on.
pub proof fn lemma_meeting_lies_in_its_cell(
    index: &SpatialIndex,
    contacts: Seq<Contact>,
    start: Cell,
    delta: Delta,
    k: int,
    i: int,
)
    requires
        first_met(index, contacts, start, delta, k, i),
    ensures
        cell_of(
            hit_of(index.bucket(cell_after(start, delta, k as nat)), contacts, i).point,
            index.cell_size(),
        ) == cell_after(start, delta, k as nat),
{
}

/// Finds the surface that the ray from `origin` along `delta` meets first.
///
/// `contacts` holds, under each surface's `id`, the outcome of testing the
/// ray against that surface; a surface without an entry is not met. The ray
/// must start inside the world volume.
pub fn find_surface_on_ray(
    index: &SpatialIndex,
    contacts: &Vec<Contact>,
    origin: Point,
    delta: Delta,
) -> (r: Result<Option<Hit>, BoundsError>)
    requires
        index.wf(),
        delta.in_range(),
    ensures
        r is Err <==> !in_bounds(index.cell_at(origin)),
        r is Err ==> r->Err_0 == first_violation(index.cell_at(origin)),
        r == Ok::<Option<Hit>, BoundsError>(None) <==> in_bounds(index.cell_at(origin))
            && nothing_met(index, contacts@, index.cell_at(origin), delta),
        r matches Ok(Some(hit)) ==> exists|k: int, i: int|
            #[trigger] first_met(index, contacts@, index.cell_at(origin), delta, k, i) && hit
                == hit_of(
                index.bucket(cell_after(index.cell_at(origin), delta, k as nat)),
                contacts@,
                i,
            ),
{
    let start: Cell = index.cell_containing(origin);
    let cell_size: i64 = index.size_of_cell();
    match Traversal::new(start, delta) {
        Err(e) => Err(e),
        Ok(walk) => {
            let mut walk = walk;
            loop
                invariant
                    index.wf(),
                    cell_size > 0,
                    cell_size == index.cell_size(),
                    start == index.cell_at(origin),
                    in_bounds(start),
                    walk.wf(),
                    walk.start() == start,
                    walk.delta() == delta,
                    walk.taken() <= delta.steps(),
                    forall|m: int|
                        0 <= m < walk.taken() ==> clear(
                            index.bucket(#[trigger] cell_after(start, delta, m as nat)),
                            contacts@,
                            cell_after(start, delta, m as nat),
                            index.cell_size(),
                        ),
                decreases delta.steps() - walk.taken(),
            {
                let cell: Cell = walk.cell();
                let surfaces = index.get_surfaces_in_cell(cell.x, cell.y, cell.z);
                let found: Option<Hit> = probe_cell(surfaces, contacts, cell, cell_size);
                match found {
                    Some(hit) => {
                        proof {
                            let i = choose|i: int|
                                #[trigger] closest(
                                    surfaces@,
                                    contacts@,
                                    cell,
                                    cell_size as int,
                                    i,
                                ) && hit == hit_of(surfaces@, contacts@, i);
                            let k = walk.taken() as int;
                            assert(first_met(index, contacts@, start, delta, k, i));
                            assert(accepted(surfaces@, contacts@, cell, cell_size as int, i));
                        }
                        return Ok(Some(hit));
                    },
                    None => {},
                }
                let ghost before = walk.taken();
                if !walk.advance() {
                    assert(nothing_met(index, contacts@, start, delta));
                    return Ok(None);
                }
                assert(walk.taken() == before + 1);
            }
        },
    }
}

} // verus!
