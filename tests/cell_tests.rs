use game_of_life::cell::{cell_from_draw, Cell, CellGenerator, RandomCellGenerator, UserCellGenerator};
use game_of_life::geometry::Point;
use rand::rngs::mock::StepRng;
use rand::rngs::StdRng;
use rand::{RngCore, SeedableRng};

#[test]
fn cells_are_copyable() {
    let cell = Cell::Alive;
    let copied_cell = cell;
    assert_eq!(cell, copied_cell);
}

#[test]
fn generates_random_cell_states() {
    let mut gen = RandomCellGenerator { rng: StepRng::new(0, 1) };
    assert_eq!(gen.generate(Point { x: 0, y: 0 }), Cell::Alive);
    assert_eq!(gen.generate(Point { x: 0, y: 0 }), Cell::Dead);
    assert_eq!(gen.generate(Point { x: 0, y: 0 }), Cell::Alive);
    assert_eq!(gen.generate(Point { x: 0, y: 0 }), Cell::Dead);
    assert_eq!(gen.generate(Point { x: 0, y: 0 }), Cell::Alive);
    assert_eq!(gen.generate(Point { x: 0, y: 0 }), Cell::Dead);
    assert_eq!(gen.generate(Point { x: 0, y: 0 }), Cell::Alive);
    assert_eq!(gen.generate(Point { x: 0, y: 0 }), Cell::Dead);
    assert_eq!(gen.generate(Point { x: 0, y: 0 }), Cell::Alive);
    assert_eq!(gen.generate(Point { x: 0, y: 0 }), Cell::Dead);
}

#[test]
fn seeded_random_generator_follows_its_source() {
    let mut gen = RandomCellGenerator { rng: StdRng::seed_from_u64(7) };
    let mut twin = StdRng::seed_from_u64(7);
    for i in 0..64 {
        let expected = if twin.next_u64() % 2 == 0 { Cell::Alive } else { Cell::Dead };
        assert_eq!(gen.generate(Point { x: i, y: 3 }), expected);
    }
}

#[test]
fn even_draws_are_alive_and_odd_draws_dead() {
    assert_eq!(cell_from_draw(0), Cell::Alive);
    assert_eq!(cell_from_draw(7), Cell::Dead);
    assert_eq!(cell_from_draw(u64::MAX), Cell::Dead);
    assert_eq!(cell_from_draw(u64::MAX - 1), Cell::Alive);
}

#[test]
fn generates_cell_distribution_from_user_input() {
    let mut gen = UserCellGenerator::from_str(
        "** * \n\
         **** *\n\
         ****   **",
    )
    .unwrap();

    assert_eq!(gen.generate(Point { x: 0, y: 0 }), Cell::Alive);
    assert_eq!(gen.generate(Point { x: 1, y: 0 }), Cell::Alive);
    assert_eq!(gen.generate(Point { x: 2, y: 0 }), Cell::Dead);
    assert_eq!(gen.generate(Point { x: 3, y: 0 }), Cell::Alive);
    assert_eq!(gen.generate(Point { x: 4, y: 0 }), Cell::Dead);
    assert_eq!(gen.generate(Point { x: 5, y: 0 }), Cell::Dead);
    assert_eq!(gen.generate(Point { x: 6, y: 0 }), Cell::Dead);
    assert_eq!(gen.generate(Point { x: 7, y: 0 }), Cell::Dead);
    assert_eq!(gen.generate(Point { x: 8, y: 0 }), Cell::Dead);
    assert_eq!(gen.generate(Point { x: 0, y: 1 }), Cell::Alive);
    assert_eq!(gen.generate(Point { x: 1, y: 1 }), Cell::Alive);
    assert_eq!(gen.generate(Point { x: 2, y: 1 }), Cell::Alive);
    assert_eq!(gen.generate(Point { x: 3, y: 1 }), Cell::Alive);
    assert_eq!(gen.generate(Point { x: 4, y: 1 }), Cell::Dead);
    assert_eq!(gen.generate(Point { x: 5, y: 1 }), Cell::Alive);
    assert_eq!(gen.generate(Point { x: 6, y: 1 }), Cell::Dead);
    assert_eq!(gen.generate(Point { x: 7, y: 1 }), Cell::Dead);
    assert_eq!(gen.generate(Point { x: 8, y: 1 }), Cell::Dead);
    assert_eq!(gen.generate(Point { x: 0, y: 2 }), Cell::Alive);
    assert_eq!(gen.generate(Point { x: 1, y: 2 }), Cell::Alive);
    assert_eq!(gen.generate(Point { x: 2, y: 2 }), Cell::Alive);
    assert_eq!(gen.generate(Point { x: 3, y: 2 }), Cell::Alive);
    assert_eq!(gen.generate(Point { x: 4, y: 2 }), Cell::Dead);
    assert_eq!(gen.generate(Point { x: 5, y: 2 }), Cell::Dead);
    assert_eq!(gen.generate(Point { x: 6, y: 2 }), Cell::Dead);
    assert_eq!(gen.generate(Point { x: 7, y: 2 }), Cell::Alive);
    assert_eq!(gen.generate(Point { x: 8, y: 2 }), Cell::Alive);
}

#[test]
#[should_panic]
fn invalid_characters_produce_an_error() {
    UserCellGenerator::from_str("*** *** This_string_is_full_of_invalid_characters *** ***")
        .unwrap();
}

#[test]
fn two_by_two_blueprint_marks_three_cells() {
    let mut gen = UserCellGenerator::from_str("**\n* ").unwrap();
    assert_eq!(gen.generate(Point { x: 0, y: 0 }), Cell::Alive);
    assert_eq!(gen.generate(Point { x: 1, y: 0 }), Cell::Alive);
    assert_eq!(gen.generate(Point { x: 0, y: 1 }), Cell::Alive);
    assert_eq!(gen.generate(Point { x: 1, y: 1 }), Cell::Dead);
}

#[test]
fn hash_in_blueprint_is_rejected_by_name() {
    match UserCellGenerator::from_str("**\n#*") {
        Err(message) => assert_eq!(
            message,
            "Invalid character '#' specified in UserCellGenerator::from_str()"
        ),
        Ok(_) => panic!("a '#' must not be accepted"),
    }
}

#[test]
fn first_invalid_character_is_named() {
    match UserCellGenerator::from_str(" x*y") {
        Err(message) => assert_eq!(
            message,
            "Invalid character 'x' specified in UserCellGenerator::from_str()"
        ),
        Ok(_) => panic!("an 'x' must not be accepted"),
    }
}

#[test]
fn empty_blueprint_marks_nothing() {
    let mut gen = UserCellGenerator::from_str("").unwrap();
    assert_eq!(gen.generate(Point { x: 0, y: 0 }), Cell::Dead);
}

#[test]
fn far_coordinates_do_not_alias() {
    let mut gen = UserCellGenerator::from_str("\n *").unwrap();
    assert_eq!(gen.generate(Point { x: 1, y: 1 }), Cell::Alive);
    assert_eq!(gen.generate(Point { x: 1, y: 0 }), Cell::Dead);
    assert_eq!(gen.generate(Point { x: 0, y: 1 }), Cell::Dead);
    assert_eq!(gen.generate(Point { x: usize::MAX, y: 1 }), Cell::Dead);
}
