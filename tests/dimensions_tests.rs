use game_of_life::geometry::Dimensions;
use game_of_life::setup::calculate_game_board_size;

#[test]
fn dimensions_instances_can_be_parsed_from_strings() {
    let dimensions = Dimensions::from_str("5x4").unwrap();
    assert_eq!(5, dimensions.width);
    assert_eq!(4, dimensions.height);
}

#[test]
fn parsing_dimensions_from_string_will_fail_for_1_dimensional_strings() {
    let dimensions_str = "5";
    match Dimensions::from_str(dimensions_str) {
        Err(msg) => assert_eq!(msg, "Invalid number of dimensions (expected 2, found: 1)"),
        _ => panic!("Dimensions::from_str() should have failed for input \"{}\"", dimensions_str),
    }
}

#[test]
fn parsing_dimensions_from_string_will_fail_for_3plus_dimensional_strings() {
    let dimensions_str = "5x10x15";
    match Dimensions::from_str(dimensions_str) {
        Err(msg) => assert_eq!(msg, "Invalid number of dimensions (expected 2, found: 3)"),
        _ => panic!("Dimensions::from_str() should have failed for input \"{}\"", dimensions_str),
    }
}

#[test]
fn parsing_dimensions_from_string_will_fail_for_garbage_input() {
    let dimensions_str = "Absolute_x_garbage";
    match Dimensions::from_str(dimensions_str) {
        Err(msg) => assert_eq!(
            msg,
            "Failed to parse width (expected: unsigned 16-bit integer, received: \"Absolute_\")"
        ),
        _ => panic!("Dimensions::from_str() should have failed for input \"{}\"", dimensions_str),
    }
}

#[test]
fn parsing_dimensions_from_string_will_fail_for_garbage_height_even_when_width_is_valid() {
    let dimensions_str = "10xthree";
    match Dimensions::from_str(dimensions_str) {
        Err(msg) => assert_eq!(
            msg,
            "Failed to parse height (expected: unsigned 16-bit integer, received: \"three\")"
        ),
        _ => panic!("Dimensions::from_str() should have failed for input \"{}\"", dimensions_str),
    }
}

#[test]
fn empty_dimensions_string_results_in_empty_dimensions_object() {
    let dimensions = Dimensions::from_str("").unwrap();
    assert_eq!(false, dimensions.is_width_defined());
    assert_eq!(false, dimensions.is_height_defined());
}

#[test]
fn calculated_dimensions_string_results_in_empty_dimensions_object() {
    let dimensions = Dimensions::from_str("calculated").unwrap();
    assert_eq!(false, dimensions.is_width_defined());
    assert_eq!(false, dimensions.is_height_defined());
}

#[test]
fn dimensions_can_be_printed_as_strings() {
    let d = Dimensions { width: 16, height: 9 };
    assert_eq!("16x9", d.to_string());
}

#[test]
fn unknown_sides_print_as_calculated() {
    assert_eq!("calculated", Dimensions::create_empty().to_string());
    assert_eq!("[calculated]x7", Dimensions { width: 0, height: 7 }.to_string());
    assert_eq!("12x[calculated]", Dimensions { width: 12, height: 0 }.to_string());
}

#[test]
fn plus_sign_and_overflow_follow_integer_parsing() {
    let d = Dimensions::from_str("+3x0").unwrap();
    assert_eq!(Dimensions { width: 3, height: 0 }, d);
    match Dimensions::from_str("3x99999999999999999999999") {
        Err(msg) => assert_eq!(
            msg,
            "Failed to parse height (expected: unsigned 16-bit integer, received: \"99999999999999999999999\")"
        ),
        _ => panic!("an overflowing height must fail"),
    }
    match Dimensions::from_str("x") {
        Err(msg) => assert_eq!(
            msg,
            "Failed to parse width (expected: unsigned 16-bit integer, received: \"\")"
        ),
        _ => panic!("an empty width must fail"),
    }
}

#[test]
fn total_area_multiplies_the_sides() {
    assert_eq!(24, Dimensions { width: 6, height: 4 }.total_area());
    assert_eq!(0, Dimensions::create_empty().total_area());
}

#[test]
fn board_size_prefers_the_users_sides() {
    let screen = Dimensions { width: 80, height: 40 };
    assert_eq!(
        Dimensions { width: 10, height: 40 },
        calculate_game_board_size(Dimensions { width: 10, height: 0 }, screen)
    );
    assert_eq!(
        Dimensions { width: 80, height: 5 },
        calculate_game_board_size(Dimensions { width: 0, height: 5 }, screen)
    );
    assert_eq!(screen, calculate_game_board_size(Dimensions::create_empty(), screen));
}
