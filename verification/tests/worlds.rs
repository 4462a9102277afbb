use life::seed::SIDE;
use life::{Bounds, Cell, Cells, CellsError, Pattern, Position, Source, World, WorldError};

fn cells(text: &str) -> Cells {
    Cells::try_from(text).expect("valid cells")
}

#[test]
fn a_new_world_has_no_bounds_and_no_viewport() {
    let world = World::from(cells("* .\n. *"));
    assert_eq!(world.bounds(), &Bounds::Undefined);
    assert_eq!(world.viewport(), &Bounds::Undefined);
    assert!(!world.is_empty());
    assert_eq!(world.clone(), world);
}

#[test]
fn with_bounds_removes_exactly_the_cells_outside() {
    let mut world = World::from(cells("* * * *\n* . . *\n* * * *\n* * * *\n"));
    world.with_bounds(&Bounds::new(1..=2, 1..=3));
    let expected = Cells::from_iter(vec![
        Cell::new(1, 3),
        Cell::new(2, 1),
        Cell::new(2, 2),
        Cell::new(2, 3),
    ]);
    assert_eq!(world.live_cells(), &expected);
}

#[test]
fn cells_that_were_dropped_do_not_come_back() {
    let mut world = World::from(cells("* * *\n* * *\n"));
    world.with_bounds(&Bounds::new(0..=0, 0..=0));
    world.with_bounds(&Bounds::new(0..=9, 0..=9));
    assert_eq!(world.live_cells(), &Cells::from_iter(vec![Cell::new(0, 0)]));
    world.with_bounds(&Bounds::Undefined);
    assert_eq!(world.live_cells(), &Cells::from_iter(vec![Cell::new(0, 0)]));
    assert_eq!(world.bounds(), &Bounds::Undefined);
}

#[test]
fn with_viewport_keeps_every_cell() {
    let mut world = World::from(cells("* * *\n* * *\n"));
    world.with_viewport(&Bounds::new(0..=0, 0..=0));
    assert_eq!(world.live_cells(), &cells("* * *\n* * *\n"));
    assert_eq!(world.to_string(), "*");
}

#[test]
fn added_cells_are_moved_by_the_offset() {
    let mut world = World::from(Cells::from_iter(vec![Cell::new(0, 0)]));
    world.add_cells(
        Cells::from_iter(vec![Cell::new(0, 0), Cell::new(1, 1)]),
        &Position::new(-2, 5),
    );
    let expected = Cells::from_iter(vec![Cell::new(0, 0), Cell::new(-2, 5), Cell::new(-1, 6)]);
    assert_eq!(world.live_cells(), &expected);
}

#[test]
fn an_empty_world_without_regions_is_drawn_as_nothing() {
    assert_eq!(World::from(Cells::default()).to_string(), "");
}

#[test]
fn a_world_is_drawn_row_by_row() {
    let world = World::from(cells("* * .\n. . *\n* . *\n"));
    assert_eq!(world.to_string(), "* *  \n    *\n*   *");
}

#[test]
fn the_viewport_goes_before_the_bounds_and_the_bounds_before_the_cells() {
    let mut world = World::from(cells(". . .\n. * .\n. . .\n"));
    assert_eq!(world.to_string(), "*");
    world.with_bounds(&Bounds::new(0..=2, 0..=2));
    assert_eq!(world.to_string(), "     \n  *  \n     ");
    world.with_viewport(&Bounds::new(1..=1, 0..=1));
    assert_eq!(world.to_string(), "  *");
    world.with_viewport(&Bounds::Undefined);
    assert_eq!(world.to_string(), "     \n  *  \n     ");
}

#[test]
fn an_empty_world_with_a_viewport_is_drawn_blank() {
    let mut world = World::from(Cells::default());
    world.with_viewport(&Bounds::new(0..=1, 0..=1));
    assert_eq!(world.to_string(), "   \n   ");
}

fn read_back(text: &str) -> String {
    let mut pattern = String::new();
    for line in text.split('\n') {
        for (i, c) in line.chars().enumerate() {
            if i % 2 == 0 {
                pattern.push(if c == '*' { '*' } else { '.' });
            } else {
                assert_eq!(c, ' ');
            }
        }
        pattern.push('\n');
    }
    pattern
}

#[test]
fn a_drawn_world_reads_back_as_the_same_cells() {
    let patterns = [
        Pattern::Beacon,
        Pattern::Beehive,
        Pattern::Blinker,
        Pattern::Block,
        Pattern::Boat,
        Pattern::Glider,
        Pattern::GosperGliderGun,
        Pattern::Loaf,
        Pattern::PentaDecathlon,
        Pattern::Pulsar,
        Pattern::SpaceshipLightweight,
        Pattern::Toad,
        Pattern::Tub,
    ];
    for pattern in patterns {
        let mut world = World::try_from(&pattern).expect("valid pattern");
        let rows = pattern.cells_str().lines().count() as isize;
        let columns = pattern.cells_str().lines().next().unwrap().replace(' ', "").len() as isize;
        world.with_viewport(&Bounds::new(0..=rows - 1, 0..=columns - 1));
        let again = Cells::try_from(read_back(&world.to_string()).as_str()).expect("valid cells");
        assert_eq!(&again, world.live_cells());
    }
}

#[test]
fn a_pattern_has_its_text() {
    assert_eq!(Pattern::Blinker.cells_str(), "* * *\n");
    assert_eq!(Pattern::Toad.cells_str(), ". * * *\n* * * .\n");
    assert_eq!(Pattern::Glider.clone(), Pattern::Glider);
    assert_ne!(Pattern::Glider, Pattern::Tub);
}

#[test]
fn every_pattern_gives_a_world() {
    let patterns = [
        Pattern::Beacon,
        Pattern::Beehive,
        Pattern::Blinker,
        Pattern::Block,
        Pattern::Boat,
        Pattern::Glider,
        Pattern::GosperGliderGun,
        Pattern::Loaf,
        Pattern::PentaDecathlon,
        Pattern::Pulsar,
        Pattern::SpaceshipLightweight,
        Pattern::Toad,
        Pattern::Tub,
    ];
    for pattern in patterns {
        let world: Result<World, WorldError> = World::try_from(&pattern);
        let world = world.expect("valid pattern");
        assert!(!world.is_empty());
        assert_eq!(world.bounds(), &Bounds::Undefined);
        assert_eq!(world.viewport(), &Bounds::Undefined);
    }
}

#[test]
fn a_seeded_world_has_the_cells_of_its_draws() {
    let mut draws = vec![false; SIDE * SIDE];
    draws[0] = true;
    draws[20] = true;
    draws[21] = true;
    draws[5 * 21 + 7] = true;
    draws[440] = true;
    let world = World::seeded(&draws);
    let expected = Cells::from_iter(vec![
        Cell::new(0, 0),
        Cell::new(0, 20),
        Cell::new(1, 0),
        Cell::new(5, 7),
        Cell::new(20, 20),
    ]);
    assert_eq!(world.live_cells(), &expected);
    assert_eq!(world.bounds(), &Bounds::Undefined);
    assert_eq!(world.viewport(), &Bounds::Undefined);
}

#[test]
fn draws_that_are_missing_or_too_many_are_dead_or_unused() {
    let world = World::seeded(&vec![true; 3]);
    let expected = Cells::from_iter(vec![Cell::new(0, 0), Cell::new(0, 1), Cell::new(0, 2)]);
    assert_eq!(world.live_cells(), &expected);
    let full = World::seeded(&vec![true; 500]);
    assert_eq!(full.live_cells().iter().len(), 441);
    assert_eq!(full.live_cells().bounds(), Bounds::new(0..=20, 0..=20));
    assert!(World::seeded(&Vec::new()).is_empty());
}

#[test]
fn a_random_world_lies_in_its_square() {
    let mut some_live = false;
    let mut some_dead = false;
    for _ in 0..20 {
        let world = World::random();
        assert_eq!(world.bounds(), &Bounds::Undefined);
        assert_eq!(world.viewport(), &Bounds::Undefined);
        let live = world.live_cells().iter();
        for cell in live.iter() {
            assert!(0 <= cell.row() && cell.row() <= 20);
            assert!(0 <= cell.column() && cell.column() <= 20);
        }
        some_live = some_live || !live.is_empty();
        some_dead = some_dead || live.len() < 441;
    }
    assert!(some_live);
    assert!(some_dead);
}

#[test]
fn a_world_is_made_from_a_pattern_text() {
    let world = World::from_text("* .\n. *\n").expect("valid text");
    assert_eq!(world, World::from(cells("* .\n. *\n")));
    let error = World::from_text("* .\n*\n").expect_err("invalid text");
    assert!(matches!(error, WorldError::BadPath(CellsError::InconsistentLineLengths)));
}

#[test]
fn arranging_sets_the_viewport_and_then_the_bounds() {
    let mut world = World::from(cells("* * *\n* * *\n"));
    world.arrange(None, None);
    assert_eq!(world, World::from(cells("* * *\n* * *\n")));
    let viewport = Bounds::new(0..=0, 0..=1);
    let bounds = Bounds::new(0..=1, 1..=2);
    world.arrange(Some(&viewport), Some(&bounds));
    assert_eq!(world.viewport(), &viewport);
    assert_eq!(world.bounds(), &bounds);
    assert_eq!(world.live_cells(), &cells(". * *\n. * *\n"));
    assert_eq!(world.to_string(), "  *");
    world.arrange(None, None);
    assert_eq!(world.viewport(), &viewport);
    assert_eq!(world.bounds(), &bounds);
}

#[test]
fn a_game_starts_from_a_text_a_pattern_or_chance() {
    let bounds = Bounds::new(0..=1, 0..=1);
    let text = Source::Text(String::from("* * *\n. . *\n. * .\n"));
    let world = World::start(&text, None, Some(&bounds)).expect("valid text");
    assert_eq!(world.live_cells(), &cells("* *\n. .\n"));
    assert_eq!(world.bounds(), &bounds);
    assert_eq!(world.viewport(), &Bounds::Undefined);

    let preset = Source::Preset(Pattern::Glider);
    let world = World::start(&preset, Some(&bounds), None).expect("valid pattern");
    assert_eq!(world.live_cells(), &cells("* * *\n. . *\n. * .\n"));
    assert_eq!(world.bounds(), &Bounds::Undefined);
    assert_eq!(world.viewport(), &bounds);

    let world = World::start(&Source::Random, None, Some(&bounds)).expect("a world of chance");
    for cell in world.live_cells().iter() {
        assert!(0 <= cell.row() && cell.row() <= 1);
        assert!(0 <= cell.column() && cell.column() <= 1);
    }

    let uneven = Source::Text(String::from("* *\n*\n"));
    let error = World::start(&uneven, None, None).expect_err("invalid text");
    assert!(matches!(error, WorldError::BadPath(CellsError::InconsistentLineLengths)));
}
