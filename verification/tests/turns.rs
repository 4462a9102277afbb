use life::{Cell, Cells};

fn shape() -> Cells {
    Cells::try_from("* * * *\n. . * *\n. . . *\n").expect("valid cells")
}

fn moved_shape() -> Cells {
    Cells::from_iter(vec![
        Cell::new(-3, 10),
        Cell::new(-3, 11),
        Cell::new(-2, 11),
        Cell::new(0, 14),
    ])
}

#[test]
fn no_turn_and_a_full_turn_change_nothing() {
    for cells in [shape(), moved_shape(), Cells::default()] {
        assert_eq!(cells.clone().rotate(0), cells);
        assert_eq!(cells.clone().rotate(4), cells.clone().rotate(0));
        assert_eq!(cells.clone().rotate(-8), cells);
        assert_eq!(cells.clone().rotate(400), cells);
    }
}

#[test]
fn a_turn_and_the_rest_of_the_full_turn_give_the_set_back() {
    for cells in [shape(), moved_shape()] {
        for n in 1..=3 {
            assert_eq!(cells.clone().rotate(n).rotate(4 - n), cells);
        }
    }
}

#[test]
fn a_negative_turn_goes_the_other_way() {
    for cells in [shape(), moved_shape()] {
        assert_eq!(cells.clone().rotate(-1), cells.clone().rotate(3));
        assert_eq!(cells.clone().rotate(-2), cells.clone().rotate(2));
        assert_eq!(cells.clone().rotate(-3), cells.clone().rotate(1));
        assert_eq!(cells.clone().rotate(5), cells.clone().rotate(1));
        assert_eq!(cells.clone().rotate(isize::MIN), cells);
        assert_eq!(cells.clone().rotate(isize::MAX), cells.clone().rotate(3));
    }
}

#[test]
fn a_quarter_turn_stays_at_the_first_row_and_column() {
    let turned = moved_shape().rotate(1);
    let expected = Cells::from_iter(vec![
        Cell::new(-3, 13),
        Cell::new(-2, 13),
        Cell::new(-2, 12),
        Cell::new(1, 10),
    ]);
    assert_eq!(turned, expected);
    let half = Cells::from_iter(vec![
        Cell::new(0, 14),
        Cell::new(0, 13),
        Cell::new(-1, 13),
        Cell::new(-3, 10),
    ]);
    assert_eq!(moved_shape().rotate(2), half);
    let three = Cells::from_iter(vec![
        Cell::new(1, 10),
        Cell::new(0, 10),
        Cell::new(0, 11),
        Cell::new(-3, 13),
    ]);
    assert_eq!(moved_shape().rotate(3), three);
}

#[test]
fn the_empty_set_and_a_single_cell_do_not_turn() {
    for n in -5..=5 {
        assert!(Cells::default().rotate(n).is_empty());
        let single = Cells::from_iter(vec![Cell::new(4, -9)]);
        assert_eq!(single.clone().rotate(n), single);
    }
}
