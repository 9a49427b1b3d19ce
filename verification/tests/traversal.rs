use rlcollide::grid::{
    cell_in_bounds, cell_index, check_bounds, locate, sign, Axis, BoundsError, Cell, Point,
    CELL_MAX,
};
use rlcollide::traverse::{cells_on_ray, Delta, Traversal, DELTA_MAX};

fn cell(x: i64, y: i64, z: i64) -> Cell {
    Cell { x, y, z }
}

fn delta(dx: i64, dy: i64, dz: i64) -> Delta {
    Delta { dx, dy, dz }
}

fn walk(start: Cell, d: Delta) -> Vec<Cell> {
    assert!(d.fits());
    cells_on_ray(start, d).expect("start cell inside the world volume")
}

fn one_unit_apart(a: Cell, b: Cell) -> bool {
    let moved = [(b.x - a.x).abs(), (b.y - a.y).abs(), (b.z - a.z).abs()];
    moved.iter().sum::<i64>() == 1 && moved.iter().filter(|m| **m != 0).count() == 1
}

#[test]
fn sign_of_positive_zero_and_negative() {
    assert_eq!(sign(17), 1);
    assert_eq!(sign(0), 0);
    assert_eq!(sign(-3), -1);
    assert_eq!(sign(i64::MAX), 1);
    assert_eq!(sign(i64::MIN), -1);
}

#[test]
fn cell_index_rounds_toward_minus_infinity() {
    assert_eq!(cell_index(0, 10), 0);
    assert_eq!(cell_index(9, 10), 0);
    assert_eq!(cell_index(10, 10), 1);
    assert_eq!(cell_index(25, 10), 2);
    assert_eq!(cell_index(-1, 10), -1);
    assert_eq!(cell_index(-10, 10), -1);
    assert_eq!(cell_index(-11, 10), -2);
    assert_eq!(cell_index(i64::MIN, 10), -922_337_203_685_477_581);
    assert_eq!(cell_index(i64::MAX, 10), 922_337_203_685_477_580);
    assert_eq!(cell_index(-7, 1), -7);
}

#[test]
fn locate_maps_each_axis_on_its_own() {
    let p = Point { x: 25, y: -1, z: 100 };
    assert_eq!(locate(p, 10), cell(2, -1, 10));
}

#[test]
fn bounds_are_inclusive_at_both_ends() {
    assert!(cell_in_bounds(cell(0, 0, 0)));
    assert!(cell_in_bounds(cell(CELL_MAX, CELL_MAX, CELL_MAX)));
    assert!(!cell_in_bounds(cell(CELL_MAX + 1, 0, 0)));
    assert!(!cell_in_bounds(cell(0, -1, 0)));
    assert_eq!(CELL_MAX, 1 << 23);
}

#[test]
fn bounds_error_names_the_first_axis_that_fails() {
    assert_eq!(check_bounds(cell(1, 2, 3)), Ok(()));
    assert_eq!(
        check_bounds(cell(-1, -2, -3)),
        Err(BoundsError { axis: Axis::X, index: -1 })
    );
    assert_eq!(
        check_bounds(cell(0, CELL_MAX + 1, -3)),
        Err(BoundsError { axis: Axis::Y, index: CELL_MAX + 1 })
    );
    assert_eq!(
        check_bounds(cell(0, CELL_MAX, -3)),
        Err(BoundsError { axis: Axis::Z, index: -3 })
    );
}

#[test]
fn start_on_the_upper_boundary_is_accepted() {
    let cells = walk(cell(CELL_MAX, CELL_MAX, CELL_MAX), delta(0, 0, 0));
    assert_eq!(cells, vec![cell(CELL_MAX, CELL_MAX, CELL_MAX)]);
}

#[test]
fn start_past_the_upper_boundary_is_a_bounds_error() {
    assert_eq!(
        cells_on_ray(cell(0, 0, CELL_MAX + 1), delta(1, 0, 0)),
        Err(BoundsError { axis: Axis::Z, index: CELL_MAX + 1 })
    );
    assert!(Traversal::new(cell(CELL_MAX + 1, 0, 0), delta(0, 0, 0)).is_err());
}

#[test]
fn negative_start_is_a_bounds_error() {
    assert_eq!(
        cells_on_ray(cell(-1, 0, 0), delta(1, 0, 0)),
        Err(BoundsError { axis: Axis::X, index: -1 })
    );
}

#[test]
fn still_ray_visits_only_the_start_cell() {
    assert_eq!(walk(cell(7, 8, 9), delta(0, 0, 0)), vec![cell(7, 8, 9)]);
}

#[test]
fn ray_along_x_takes_one_step_per_unit_of_displacement() {
    let cells = walk(cell(0, 0, 0), delta(25, 0, 0));
    assert_eq!(cells.len(), 26);
    for (k, c) in cells.iter().enumerate() {
        assert_eq!(*c, cell(k as i64, 0, 0));
    }
    assert_eq!(&cells[..3], &[cell(0, 0, 0), cell(1, 0, 0), cell(2, 0, 0)]);
}

#[test]
fn rays_along_y_and_z_step_only_their_own_axis() {
    assert_eq!(
        walk(cell(1, 1, 1), delta(0, 3, 0)),
        vec![cell(1, 1, 1), cell(1, 2, 1), cell(1, 3, 1), cell(1, 4, 1)]
    );
    assert_eq!(
        walk(cell(1, 1, 5), delta(0, 0, -2)),
        vec![cell(1, 1, 5), cell(1, 1, 4), cell(1, 1, 3)]
    );
}

#[test]
fn mixed_ray_follows_the_crossing_order() {
    assert_eq!(
        walk(cell(0, 0, 0), delta(2, 3, 1)),
        vec![
            cell(0, 0, 0),
            cell(0, 1, 0),
            cell(1, 1, 0),
            cell(1, 2, 0),
            cell(1, 2, 1),
            cell(2, 2, 1),
            cell(2, 3, 1),
        ]
    );
    assert_eq!(
        walk(cell(5, 5, 5), delta(-2, 1, -3)),
        vec![
            cell(5, 5, 5),
            cell(5, 5, 4),
            cell(4, 5, 4),
            cell(4, 6, 4),
            cell(4, 6, 3),
            cell(3, 6, 3),
            cell(3, 6, 2),
        ]
    );
    assert_eq!(
        walk(cell(3, 4, 5), delta(3, 0, -2)),
        vec![
            cell(3, 4, 5),
            cell(4, 4, 5),
            cell(4, 4, 4),
            cell(5, 4, 4),
            cell(5, 4, 3),
            cell(6, 4, 3),
        ]
    );
}

#[test]
fn ties_go_to_y_then_z_then_x() {
    assert_eq!(
        walk(cell(0, 0, 0), delta(1, 1, 1)),
        vec![cell(0, 0, 0), cell(0, 1, 0), cell(0, 1, 1), cell(1, 1, 1)]
    );
}

#[test]
fn walks_are_contiguous_and_start_at_the_start() {
    let start = cell(100, 100, 100);
    for dx in -4..=4 {
        for dy in -4..=4 {
            for dz in -4..=4 {
                let cells = walk(start, delta(dx, dy, dz));
                assert_eq!(cells[0], start);
                for pair in cells.windows(2) {
                    assert!(one_unit_apart(pair[0], pair[1]));
                }
            }
        }
    }
}

#[test]
fn walk_length_is_the_sum_of_magnitudes_plus_one() {
    let start = cell(50, 50, 50);
    for dx in -5..=5 {
        for dy in -5..=5 {
            for dz in -5..=5 {
                let cells = walk(start, delta(dx, dy, dz));
                assert_eq!(cells.len() as i64, dx.abs() + dy.abs() + dz.abs() + 1);
            }
        }
    }
}

#[test]
fn walk_length_ignores_the_direction_of_the_ray() {
    let start = cell(50, 50, 50);
    let there = walk(start, delta(3, 7, 2)).len();
    assert_eq!(there, 13);
    assert_eq!(walk(start, delta(-3, 7, 2)).len(), there);
    assert_eq!(walk(start, delta(3, -7, -2)).len(), there);
    assert_eq!(walk(start, delta(-3, -7, -2)).len(), there);
}

#[test]
fn walk_ends_the_whole_displacement_away() {
    let start = cell(20, 30, 40);
    for d in [delta(6, -5, 4), delta(-1, 0, 9), delta(0, 0, 0), delta(7, 7, 7)] {
        let cells = walk(start, d);
        let last = cells[cells.len() - 1];
        assert_eq!(last, cell(20 + d.dx, 30 + d.dy, 40 + d.dz));
    }
}

#[test]
fn walk_never_returns_to_a_cell() {
    let cells = walk(cell(10, 10, 10), delta(5, -6, 7));
    for j in 0..cells.len() {
        for k in (j + 1)..cells.len() {
            assert_ne!(cells[j], cells[k]);
        }
    }
}

#[test]
fn walk_may_leave_the_world_volume_after_its_start() {
    assert_eq!(
        walk(cell(0, 0, 0), delta(-2, 0, 0)),
        vec![cell(0, 0, 0), cell(-1, 0, 0), cell(-2, 0, 0)]
    );
}

#[test]
fn traversal_steps_one_cell_at_a_time() {
    let mut t = Traversal::new(cell(0, 0, 0), delta(1, 1, 0)).expect("in bounds");
    assert_eq!(t.cell(), cell(0, 0, 0));
    assert_eq!(t.steps_taken(), 0);
    assert_eq!(t.remaining(), 2);
    assert!(t.advance());
    assert_eq!(t.cell(), cell(0, 1, 0));
    assert_eq!(t.remaining(), 1);
    assert!(t.advance());
    assert_eq!(t.cell(), cell(1, 1, 0));
    assert_eq!(t.steps_taken(), 2);
    assert_eq!(t.remaining(), 0);
    assert!(!t.advance());
    assert_eq!(t.cell(), cell(1, 1, 0));
    assert_eq!(t.steps_taken(), 2);
}

#[test]
fn displacement_range_is_checked_per_component() {
    assert!(delta(DELTA_MAX, -DELTA_MAX, 0).fits());
    assert!(!delta(DELTA_MAX + 1, 0, 0).fits());
    assert!(!delta(0, -DELTA_MAX - 1, 0).fits());
    assert!(!delta(0, 0, i64::MIN).fits());
    assert_eq!(DELTA_MAX, (1i64 << 62) - 1);
}

#[test]
fn huge_displacement_can_be_stepped_without_overflow() {
    let mut t =
        Traversal::new(cell(CELL_MAX, 0, 0), delta(DELTA_MAX, -DELTA_MAX, DELTA_MAX)).expect("ok");
    assert_eq!(t.remaining(), 3 * (DELTA_MAX as u64));
    for _ in 0..1000 {
        assert!(t.advance());
    }
    assert_eq!(t.steps_taken(), 1000);
}
