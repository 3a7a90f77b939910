use eulerian_fluid::fixed::{Fixed, SCALE};
use eulerian_fluid::grid::{within_disc, Array2D};

fn whole(n: i64) -> Fixed {
    Fixed { raw: n * SCALE }
}

#[test]
fn fill_sets_every_cell() {
    let grid = Array2D::fill(7u8, 4, 3);
    assert_eq!(grid.width(), 4);
    assert_eq!(grid.height(), 3);
    assert_eq!(grid.data().len(), 12);
    assert!(grid.data().iter().all(|c| *c == 7));
}

#[test]
fn new_is_all_zero() {
    let grid = Array2D::<Fixed>::new(3, 2);
    assert_eq!(grid.data().to_vec(), vec![whole(0); 6]);
    let empty = Array2D::<Fixed>::new(0, 5);
    assert_eq!(empty.data().len(), 0);
}

#[test]
fn cells_are_stored_row_after_row() {
    let mut grid = Array2D::fill(0u32, 3, 2);
    for y in 0..2 {
        for x in 0..3 {
            grid.set(x, y, (10 * y + x) as u32);
        }
    }
    assert_eq!(grid.data().to_vec(), vec![0, 1, 2, 10, 11, 12]);
    assert_eq!(grid.get(2, 0), 2);
    assert_eq!(grid.get(0, 1), 10);
}

#[test]
fn set_changes_one_cell() {
    let mut grid = Array2D::fill('a', 3, 3);
    grid.set(1, 2, 'b');
    for y in 0..3 {
        for x in 0..3 {
            assert_eq!(grid.get(x, y), if x == 1 && y == 2 { 'b' } else { 'a' });
        }
    }
}

#[test]
fn zero_clears_every_cell() {
    let mut grid = Array2D::fill(whole(3), 4, 4);
    grid.zero();
    assert!(grid.data().iter().all(|c| c.raw == 0));
    assert_eq!(grid.width(), 4);
    assert_eq!(grid.height(), 4);
}

#[test]
fn clone_shares_nothing() {
    let mut grid = Array2D::fill(1i32, 2, 2);
    let copy = grid.clone();
    grid.set(0, 0, 5);
    assert_eq!(copy.data().to_vec(), vec![1, 1, 1, 1]);
    assert_eq!(grid.data().to_vec(), vec![5, 1, 1, 1]);
    assert_eq!(copy.width(), 2);
    assert_eq!(copy.height(), 2);
}

#[test]
fn circle_of_radius_one_is_a_plus() {
    let mut grid = Array2D::fill(0u8, 5, 5);
    grid.fill_circle(2, 2, whole(1), 1u8);
    let expected = vec![
        0, 0, 0, 0, 0, //
        0, 0, 1, 0, 0, //
        0, 1, 1, 1, 0, //
        0, 0, 1, 0, 0, //
        0, 0, 0, 0, 0,
    ];
    assert_eq!(grid.data().to_vec(), expected);
}

#[test]
fn circle_takes_the_cells_on_its_rim() {
    let mut grid = Array2D::fill(0u8, 12, 1);
    grid.fill_circle(5, 0, whole(5), 1u8);
    assert_eq!(grid.data().to_vec(), vec![1, 1, 1, 1, 1, 1, 1, 1, 1, 1, 1, 0]);
    let mut half = Array2D::fill(0u8, 7, 7);
    half.fill_circle(3, 3, Fixed { raw: 2_500_000_000_000 }, 1u8);
    assert_eq!(half.data().iter().filter(|c| **c == 1).count(), 21);
    assert_eq!(half.get(5, 4), 1);
    assert_eq!(half.get(5, 5), 0);
    assert_eq!(half.get(6, 3), 0);
}

#[test]
fn circle_of_radius_zero_is_its_centre() {
    let mut grid = Array2D::fill(0u8, 3, 3);
    grid.fill_circle(1, 1, whole(0), 9u8);
    assert_eq!(grid.data().to_vec(), vec![0, 0, 0, 0, 9, 0, 0, 0, 0]);
}

#[test]
fn circle_outside_the_array_changes_nothing() {
    let mut grid = Array2D::fill(0u8, 4, 4);
    grid.fill_circle(-10, 20, whole(3), 1u8);
    assert!(grid.data().iter().all(|c| *c == 0));
    grid.fill_circle(-1, 1, whole(1), 1u8);
    assert_eq!(grid.data().iter().filter(|c| **c == 1).count(), 1);
    assert_eq!(grid.get(0, 1), 1);
}

#[test]
fn disc_membership_compares_squared_distances() {
    assert!(within_disc(3, 4, 0, 0, &whole(5)));
    assert!(!within_disc(3, 4, 0, 0, &Fixed { raw: 5 * SCALE - 1 }));
    assert!(within_disc(0, 0, 0, 0, &whole(0)));
    assert!(within_disc(2, 2, 5, 6, &whole(5)));
    assert!(!within_disc(2, 2, 5, 7, &whole(5)));
}
