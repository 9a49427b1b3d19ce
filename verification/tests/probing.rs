use rlcollide::grid::{Axis, BoundsError, Cell, Point, CELL_MAX};
use rlcollide::index::SpatialIndex;
use rlcollide::probe::{find_surface_on_ray, probe_cell, Contact, Hit};
use rlcollide::surface::{Direction, Surface, SurfaceClass};
use rlcollide::traverse::Delta;

const UP: Direction = Direction { x: 0, y: 1, z: 0 };

fn surface(id: usize) -> Surface {
    Surface { id, normal: UP, lower_y: None, upper_y: None }
}

fn miss() -> Contact {
    Contact { hit: false, point: Point { x: 0, y: 0, z: 0 }, distance: 0 }
}

fn meet(x: i64, y: i64, z: i64, distance: u64) -> Contact {
    Contact { hit: true, point: Point { x, y, z }, distance }
}

fn cell(x: i64, y: i64, z: i64) -> Cell {
    Cell { x, y, z }
}

#[test]
fn index_starts_empty_and_answers_for_any_cell() {
    let index = SpatialIndex::new(10);
    assert_eq!(index.size_of_cell(), 10);
    assert!(index.get_surfaces_in_cell(0, 0, 0).is_empty());
    assert!(index.get_surfaces_in_cell(-5, 3, CELL_MAX + 9).is_empty());
    assert!(index.get_surfaces_in_cell(i64::MIN, i64::MAX, 0).is_empty());
}

#[test]
fn index_keeps_surfaces_per_cell_in_insertion_order() {
    let mut index = SpatialIndex::new(10);
    assert_eq!(index.insert(surface(4), cell(1, 2, 3)), Ok(()));
    assert_eq!(index.insert(surface(2), cell(1, 2, 3)), Ok(()));
    assert_eq!(index.insert(surface(4), cell(3, 2, 1)), Ok(()));
    assert_eq!(index.get_surfaces_in_cell(1, 2, 3), &vec![surface(4), surface(2)]);
    assert_eq!(index.get_surfaces_in_cell(3, 2, 1), &vec![surface(4)]);
    assert!(index.get_surfaces_in_cell(2, 2, 2).is_empty());
}

#[test]
fn index_tells_neighbouring_cells_apart() {
    let mut index = SpatialIndex::new(10);
    assert_eq!(index.insert(surface(0), cell(0, 0, CELL_MAX)), Ok(()));
    assert_eq!(index.insert(surface(1), cell(0, 1, 0)), Ok(()));
    assert_eq!(index.insert(surface(2), cell(1, 0, 0)), Ok(()));
    assert_eq!(index.insert(surface(3), cell(CELL_MAX, CELL_MAX, CELL_MAX)), Ok(()));
    assert_eq!(index.get_surfaces_in_cell(0, 0, CELL_MAX), &vec![surface(0)]);
    assert_eq!(index.get_surfaces_in_cell(0, 1, 0), &vec![surface(1)]);
    assert_eq!(index.get_surfaces_in_cell(1, 0, 0), &vec![surface(2)]);
    assert_eq!(
        index.get_surfaces_in_cell(CELL_MAX, CELL_MAX, CELL_MAX),
        &vec![surface(3)]
    );
    assert!(index.get_surfaces_in_cell(0, 0, 0).is_empty());
}

#[test]
fn index_refuses_cells_outside_the_world_volume() {
    let mut index = SpatialIndex::new(10);
    assert_eq!(
        index.insert(surface(0), cell(0, -1, 0)),
        Err(BoundsError { axis: Axis::Y, index: -1 })
    );
    assert_eq!(
        index.insert(surface(0), cell(CELL_MAX + 1, 0, 0)),
        Err(BoundsError { axis: Axis::X, index: CELL_MAX + 1 })
    );
    assert!(index.get_surfaces_in_cell(0, -1, 0).is_empty());
    assert!(index.get_surfaces_in_cell(CELL_MAX + 1, 0, 0).is_empty());
}

#[test]
fn index_locates_points_by_its_cell_size() {
    let index = SpatialIndex::new(4);
    assert_eq!(index.cell_containing(Point { x: 7, y: 8, z: -1 }), cell(1, 2, -1));
}

#[test]
fn probe_finds_nothing_among_misses() {
    let surfaces = vec![surface(0), surface(1)];
    let contacts = vec![miss(), miss()];
    assert_eq!(probe_cell(&surfaces, &contacts, cell(0, 0, 0), 10), None);
    assert_eq!(probe_cell(&Vec::new(), &contacts, cell(0, 0, 0), 10), None);
}

#[test]
fn probe_returns_the_nearer_of_two_surfaces() {
    let surfaces = vec![surface(0), surface(1)];
    let contacts = vec![meet(5, 5, 5, 70), meet(3, 3, 3, 40)];
    let hit = probe_cell(&surfaces, &contacts, cell(0, 0, 0), 10).expect("a hit");
    assert_eq!(
        hit,
        Hit { surface: surface(1), point: Point { x: 3, y: 3, z: 3 }, distance: 40 }
    );
    let swapped = vec![surface(1), surface(0)];
    assert_eq!(probe_cell(&swapped, &contacts, cell(0, 0, 0), 10), Some(hit));
}

#[test]
fn probe_keeps_the_first_of_two_equally_near_surfaces() {
    let contacts = vec![meet(1, 1, 1, 40), meet(2, 2, 2, 40)];
    let hit = probe_cell(&vec![surface(0), surface(1)], &contacts, cell(0, 0, 0), 10);
    assert_eq!(hit.expect("a hit").surface, surface(0));
    let hit = probe_cell(&vec![surface(1), surface(0)], &contacts, cell(0, 0, 0), 10);
    assert_eq!(hit.expect("a hit").surface, surface(1));
}

#[test]
fn probe_gives_no_credit_across_cells() {
    let surfaces = vec![surface(0), surface(1)];
    let contacts = vec![meet(12, 5, 5, 10), meet(5, 5, 5, 90)];
    let hit = probe_cell(&surfaces, &contacts, cell(0, 0, 0), 10).expect("a hit");
    assert_eq!(hit.surface, surface(1));
    assert_eq!(hit.point, Point { x: 5, y: 5, z: 5 });
    let hit = probe_cell(&surfaces, &contacts, cell(1, 0, 0), 10).expect("a hit");
    assert_eq!(hit.surface, surface(0));
    assert_eq!(probe_cell(&surfaces, &contacts, cell(0, 1, 0), 10), None);
}

#[test]
fn probe_places_negative_points_in_negative_cells() {
    let surfaces = vec![surface(0)];
    let contacts = vec![meet(-1, 0, 0, 5)];
    assert_eq!(probe_cell(&surfaces, &contacts, cell(0, 0, 0), 10), None);
    assert!(probe_cell(&surfaces, &contacts, cell(-1, 0, 0), 10).is_some());
}

#[test]
fn probe_passes_over_surfaces_without_a_contact() {
    let surfaces = vec![surface(7), surface(0)];
    let contacts = vec![meet(1, 1, 1, 9)];
    let hit = probe_cell(&surfaces, &contacts, cell(0, 0, 0), 10).expect("a hit");
    assert_eq!(hit.surface, surface(0));
}

#[test]
fn ray_meets_nothing_in_an_empty_index() {
    let index = SpatialIndex::new(10);
    let found = find_surface_on_ray(
        &index,
        &Vec::new(),
        Point { x: 0, y: 0, z: 0 },
        Delta { dx: 25, dy: 0, dz: 0 },
    );
    assert_eq!(found, Ok(None));
}

#[test]
fn ray_with_no_displacement_probes_its_own_cell() {
    let mut index = SpatialIndex::new(10);
    index.insert(surface(0), cell(1, 1, 1)).expect("in bounds");
    let contacts = vec![meet(15, 15, 15, 3)];
    let found = find_surface_on_ray(
        &index,
        &contacts,
        Point { x: 12, y: 12, z: 12 },
        Delta { dx: 0, dy: 0, dz: 0 },
    );
    assert_eq!(found.expect("in bounds").expect("a hit").surface, surface(0));
}

#[test]
fn ray_reports_the_first_cell_that_meets_something() {
    let mut index = SpatialIndex::new(10);
    index.insert(surface(0), cell(3, 0, 0)).expect("in bounds");
    index.insert(surface(1), cell(1, 0, 0)).expect("in bounds");
    index.insert(surface(2), cell(1, 0, 0)).expect("in bounds");
    let contacts = vec![meet(31, 0, 0, 5), meet(19, 0, 0, 190), meet(11, 0, 0, 110)];
    let found = find_surface_on_ray(
        &index,
        &contacts,
        Point { x: 0, y: 0, z: 0 },
        Delta { dx: 4, dy: 0, dz: 0 },
    );
    assert_eq!(
        found,
        Ok(Some(Hit { surface: surface(2), point: Point { x: 11, y: 0, z: 0 }, distance: 110 }))
    );
}

#[test]
fn ray_ignores_surfaces_beyond_its_last_cell() {
    let mut index = SpatialIndex::new(10);
    index.insert(surface(0), cell(5, 0, 0)).expect("in bounds");
    let contacts = vec![meet(55, 0, 0, 55)];
    let origin = Point { x: 0, y: 0, z: 0 };
    assert_eq!(
        find_surface_on_ray(&index, &contacts, origin, Delta { dx: 4, dy: 0, dz: 0 }),
        Ok(None)
    );
    assert!(find_surface_on_ray(&index, &contacts, origin, Delta { dx: 5, dy: 0, dz: 0 })
        .expect("in bounds")
        .is_some());
}

#[test]
fn ray_ignores_hits_credited_to_the_wrong_cell() {
    let mut index = SpatialIndex::new(10);
    index.insert(surface(0), cell(0, 0, 0)).expect("in bounds");
    let contacts = vec![meet(10, 0, 0, 10)];
    let found = find_surface_on_ray(
        &index,
        &contacts,
        Point { x: 0, y: 0, z: 0 },
        Delta { dx: 3, dy: 0, dz: 0 },
    );
    assert_eq!(found, Ok(None));
}

#[test]
fn ray_origin_on_the_upper_boundary_is_accepted() {
    let index = SpatialIndex::new(10);
    let edge = CELL_MAX * 10 + 9;
    let found = find_surface_on_ray(
        &index,
        &Vec::new(),
        Point { x: edge, y: edge, z: edge },
        Delta { dx: 0, dy: 0, dz: 0 },
    );
    assert_eq!(found, Ok(None));
}

#[test]
fn ray_origin_past_the_upper_boundary_is_a_bounds_error() {
    let index = SpatialIndex::new(10);
    let found = find_surface_on_ray(
        &index,
        &Vec::new(),
        Point { x: 0, y: (CELL_MAX + 1) * 10, z: 0 },
        Delta { dx: 0, dy: 0, dz: 0 },
    );
    assert_eq!(found, Err(BoundsError { axis: Axis::Y, index: CELL_MAX + 1 }));
}

#[test]
fn ray_origin_below_zero_is_a_bounds_error() {
    let index = SpatialIndex::new(10);
    let found = find_surface_on_ray(
        &index,
        &Vec::new(),
        Point { x: -1, y: 0, z: 0 },
        Delta { dx: 5, dy: 0, dz: 0 },
    );
    assert_eq!(found, Err(BoundsError { axis: Axis::X, index: -1 }));
}

#[test]
fn falling_ray_meets_the_floor_in_the_cell_it_crosses_it_in() {
    let mut index = SpatialIndex::new(10);
    let ground = Surface { id: 0, normal: UP, lower_y: Some(0), upper_y: Some(0) };
    index.insert(ground, cell(0, 0, 0)).expect("in bounds");
    let contacts = vec![meet(5, 0, 5, 25)];
    let found = find_surface_on_ray(
        &index,
        &contacts,
        Point { x: 5, y: 25, z: 5 },
        Delta { dx: 0, dy: -30, dz: 0 },
    );
    let hit = found.expect("in bounds").expect("a hit");
    assert_eq!(hit.surface, ground);
    assert_eq!(hit.surface.normal.classify(), SurfaceClass::Floor);
    assert_eq!(hit.point, Point { x: 5, y: 0, z: 5 });
}
