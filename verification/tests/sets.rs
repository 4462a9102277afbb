use life::{Bounds, Cell, Cells};
use std::collections::HashSet;

fn glider() -> Cells {
    Cells::try_from("* * *\n. . *\n. * .\n").expect("valid cells")
}

#[test]
fn a_new_set_is_empty() {
    let cells = Cells::default();
    assert!(cells.is_empty());
    assert!(!cells.contains(&Cell::new(0, 0)));
    assert!(cells.iter().is_empty());
    assert_eq!(cells.bounds(), Bounds::Undefined);
}

#[test]
fn adding_a_cell_twice_keeps_it_once() {
    let mut cells = Cells::default();
    cells.add_cell(Cell::new(1, 2));
    cells.add_cell(Cell::new(1, 2));
    assert!(!cells.is_empty());
    assert!(cells.contains(&Cell::new(1, 2)));
    assert!(!cells.contains(&Cell::new(2, 1)));
    assert_eq!(cells.iter(), vec![Cell::new(1, 2)]);
}

#[test]
fn sets_are_equal_when_they_hold_the_same_cells() {
    let one = Cells::from_iter(vec![Cell::new(0, 0), Cell::new(5, 5), Cell::new(0, 0)]);
    let other = Cells::from_iter(vec![Cell::new(5, 5), Cell::new(0, 0)]);
    assert_eq!(one, other);
    assert_ne!(one, Cells::from_iter(vec![Cell::new(5, 5)]));
    assert_ne!(one, Cells::default());
    let copy = one.clone();
    assert_eq!(copy, one);
    assert!(copy.contains(&Cell::new(5, 5)));
}

#[test]
fn a_set_is_made_from_a_hash_set() {
    let mut given = HashSet::new();
    given.insert(Cell::new(1, -1));
    given.insert(Cell::new(2, -2));
    let cells = Cells::new(given);
    assert_eq!(cells, Cells::from_iter(vec![Cell::new(2, -2), Cell::new(1, -1)]));
}

#[test]
fn iter_lists_every_cell_once() {
    let cells = glider();
    let mut listed = cells.iter();
    listed.sort();
    assert_eq!(
        listed,
        vec![
            Cell::new(0, 0),
            Cell::new(0, 1),
            Cell::new(0, 2),
            Cell::new(1, 2),
            Cell::new(2, 1),
        ]
    );
}

#[test]
fn add_cells_is_the_union() {
    let mut cells = Cells::from_iter(vec![Cell::new(0, 0), Cell::new(0, 1)]);
    cells.add_cells(Cells::from_iter(vec![Cell::new(0, 1), Cell::new(9, 9)]));
    assert_eq!(
        cells,
        Cells::from_iter(vec![Cell::new(0, 0), Cell::new(0, 1), Cell::new(9, 9)])
    );
    let before = cells.clone();
    cells.add_cells(before.clone());
    assert_eq!(cells, before);
}

#[test]
fn remove_cells_is_the_difference() {
    let mut cells = Cells::from_iter(vec![Cell::new(0, 0), Cell::new(0, 1), Cell::new(9, 9)]);
    cells.remove_cells(Cells::from_iter(vec![Cell::new(0, 1), Cell::new(4, 4)]));
    assert_eq!(cells, Cells::from_iter(vec![Cell::new(0, 0), Cell::new(9, 9)]));
    cells.remove_cells(Cells::from_iter(vec![Cell::new(0, 0), Cell::new(9, 9)]));
    assert!(cells.is_empty());
}

#[test]
fn bounds_are_the_smallest_region_around_the_cells() {
    let cells = Cells::from_iter(vec![Cell::new(3, -2), Cell::new(-1, 4), Cell::new(0, 0)]);
    assert_eq!(cells.bounds(), Bounds::new(-1..=3, -2..=4));
    assert_eq!(glider().bounds(), Bounds::new(0..=2, 0..=2));
    assert_eq!(Cells::from_iter(vec![Cell::new(7, 8)]).bounds(), Bounds::new(7..=7, 8..=8));
}

#[test]
fn cells_can_be_displayed() {
    let cells = Cells::from_iter(vec![Cell::new(42, 31), Cell::new(31, 42)]);
    let text = cells.to_string();
    assert!(text == "Cell(42, 31), Cell(31, 42)" || text == "Cell(31, 42), Cell(42, 31)");
}

#[test]
fn an_empty_set_is_displayed_as_nothing() {
    assert_eq!(Cells::default().to_string(), "");
    assert_eq!(Cells::from_iter(vec![Cell::new(-1, 10)]).to_string(), "Cell(-1, 10)");
}
