use game_of_life::cell::{Cell, UserCellGenerator};
use game_of_life::game_board::GameBoard;
use game_of_life::geometry::{Dimensions, Point};
use game_of_life::renderer::{MockRenderer, Renderer};
use game_of_life::setup::create_game_board;

fn run_once(size: Dimensions, initial: &str) -> String {
    let mut renderer = MockRenderer::new_with_size(size);
    {
        let mut game_board = GameBoard::new_from_seed(
            renderer.get_grid_size(),
            UserCellGenerator::from_str(initial).unwrap(),
            &mut renderer,
        );
        game_board.calculate_iteration();
    }
    renderer.print_grid()
}

#[test]
fn initializes() {
    let mut renderer = MockRenderer::new();
    let expected = "* * *\n * * \n* * *\n * * \n* * *";
    {
        GameBoard::new_from_seed(
            renderer.get_grid_size(),
            UserCellGenerator::from_str(expected).unwrap(),
            &mut renderer,
        );
    }
    let expected = "* * *\n * * \n* * *\n * * \n* * *";
    assert_eq!(expected, renderer.print_grid());
}

#[test]
fn block() {
    let expected = "    \n ** \n ** \n    ";
    assert_eq!(expected, run_once(Dimensions { width: 4, height: 4 }, expected));
}

#[test]
fn beehive() {
    let expected = "      \n  **  \n *  * \n  **  \n      ";
    assert_eq!(expected, run_once(Dimensions { width: 6, height: 5 }, expected));
}

#[test]
fn loaf() {
    let expected = "      \n  **  \n *  * \n  * * \n   *  \n      ";
    assert_eq!(expected, run_once(Dimensions { width: 6, height: 6 }, expected));
}

#[test]
fn boat() {
    let expected = "     \n **  \n * * \n  *  \n     ";
    assert_eq!(expected, run_once(Dimensions { width: 5, height: 5 }, expected));
}

#[test]
fn tub() {
    let expected = "     \n  *  \n * * \n  *  \n     ";
    assert_eq!(expected, run_once(Dimensions { width: 5, height: 5 }, expected));
}

#[test]
fn blinker() {
    let initial = "     \n     \n *** \n     \n     ";
    let end = "     \n  *  \n  *  \n  *  \n     ";
    assert_eq!(end, run_once(Dimensions { width: 5, height: 5 }, initial));
}

#[test]
fn toad() {
    let initial = "      \n      \n  *** \n ***  \n      \n      ";
    let end = "      \n   *  \n *  * \n *  * \n  *   \n      ";
    assert_eq!(end, run_once(Dimensions { width: 6, height: 6 }, initial));
}

#[test]
fn beacon() {
    let initial = "      \n **   \n *    \n    * \n   ** \n      ";
    let end = "      \n **   \n **   \n   ** \n   ** \n      ";
    assert_eq!(end, run_once(Dimensions { width: 6, height: 6 }, initial));
}

#[test]
fn glider() {
    let mut renderer = MockRenderer::new_with_size(Dimensions { width: 6, height: 6 });
    let phase_1 = "      \n  *   \n   ** \n  **  \n      \n      ";
    let phase_2 = "      \n   *  \n    * \n  *** \n      \n      ";
    {
        let mut game_board = GameBoard::new_from_seed(
            renderer.get_grid_size(),
            UserCellGenerator::from_str(phase_1).unwrap(),
            &mut renderer,
        );
        game_board.calculate_iteration();
    }
    assert_eq!(phase_2, renderer.print_grid());

    let phase_3 = "      \n      \n  * * \n   ** \n   *  \n      ";
    {
        let mut game_board = GameBoard::new_from_seed(
            renderer.get_grid_size(),
            UserCellGenerator::from_str(phase_2).unwrap(),
            &mut renderer,
        );
        game_board.calculate_iteration();
    }
    assert_eq!(phase_3, renderer.print_grid());

    let phase_4 = "      \n      \n    * \n  * * \n   ** \n      ";
    {
        let mut game_board = GameBoard::new_from_seed(
            renderer.get_grid_size(),
            UserCellGenerator::from_str(phase_3).unwrap(),
            &mut renderer,
        );
        game_board.calculate_iteration();
    }
    assert_eq!(phase_4, renderer.print_grid());

    let phase_1_translated = "      \n      \n   *  \n    **\n   ** \n      ";
    {
        let mut game_board = GameBoard::new_from_seed(
            renderer.get_grid_size(),
            UserCellGenerator::from_str(phase_4).unwrap(),
            &mut renderer,
        );
        game_board.calculate_iteration();
    }
    assert_eq!(phase_1_translated, renderer.print_grid());
}

#[test]
fn initial_change_set_lists_living_cells_in_row_major_order() {
    let mut renderer = MockRenderer::new_with_size(Dimensions { width: 3, height: 2 });
    {
        create_game_board(
            UserCellGenerator::from_str(" *\n* *\n**").unwrap(),
            Dimensions { width: 3, height: 2 },
            &mut renderer,
        );
    }
    assert_eq!(1, renderer.change_sets.len());
    assert_eq!(
        vec![
            (Point { x: 1, y: 0 }, Cell::Alive),
            (Point { x: 0, y: 1 }, Cell::Alive),
            (Point { x: 2, y: 1 }, Cell::Alive),
        ],
        renderer.change_sets[0]
    );
}

#[test]
fn still_life_gives_empty_change_sets() {
    let mut renderer = MockRenderer::new_with_size(Dimensions { width: 4, height: 4 });
    {
        let mut game_board = GameBoard::new_from_seed(
            Dimensions { width: 4, height: 4 },
            UserCellGenerator::from_str("\n **\n **").unwrap(),
            &mut renderer,
        );
        game_board.calculate_iteration();
        game_board.calculate_iteration();
        game_board.calculate_iteration();
    }
    assert_eq!(4, renderer.change_sets.len());
    assert_eq!(4, renderer.change_sets[0].len());
    assert!(renderer.change_sets[1].is_empty());
    assert!(renderer.change_sets[2].is_empty());
    assert!(renderer.change_sets[3].is_empty());
}

#[test]
fn blinker_has_period_two() {
    let horizontal = "     \n     \n *** \n     \n     ";
    let vertical = "     \n  *  \n  *  \n  *  \n     ";
    let mut renderer = MockRenderer::new_with_size(Dimensions { width: 5, height: 5 });
    {
        let mut game_board = GameBoard::new_from_seed(
            Dimensions { width: 5, height: 5 },
            UserCellGenerator::from_str(horizontal).unwrap(),
            &mut renderer,
        );
        game_board.calculate_iteration();
        game_board.calculate_iteration();
    }
    assert_eq!(horizontal, renderer.print_grid());
    assert_eq!(
        vec![
            (Point { x: 2, y: 1 }, Cell::Alive),
            (Point { x: 1, y: 2 }, Cell::Dead),
            (Point { x: 3, y: 2 }, Cell::Dead),
            (Point { x: 2, y: 3 }, Cell::Alive),
        ],
        renderer.change_sets[1]
    );
    let mut again = MockRenderer::new_with_size(Dimensions { width: 5, height: 5 });
    {
        let mut game_board = GameBoard::new_from_seed(
            Dimensions { width: 5, height: 5 },
            UserCellGenerator::from_str(horizontal).unwrap(),
            &mut again,
        );
        game_board.calculate_iteration();
    }
    assert_eq!(vertical, again.print_grid());
}

#[test]
fn blinker_across_the_corner_wraps() {
    // A vertical blinker on the left edge, its middle on the top row: its
    // neighbours lie on the right edge and the bottom row.
    let initial = "*    \n*    \n     \n     \n*    ";
    let end = "**  *\n     \n     \n     \n     ";
    assert_eq!(end, run_once(Dimensions { width: 5, height: 5 }, initial));
}

#[test]
fn glider_crossing_the_edge_wraps() {
    // A glider that straddles the right edge: its cells in column 0 count
    // those in column 5 as neighbours, and the other way round.
    let initial = "      \n     *\n*     \n*   **\n      \n      ";
    let end = "      \n      \n*   * \n*    *\n     *\n      ";
    assert_eq!(end, run_once(Dimensions { width: 6, height: 6 }, initial));
}

#[test]
fn equal_boards_advance_alike() {
    let pattern = "  *   \n   ** \n  **  \n* *   ";
    let mut first = MockRenderer::new_with_size(Dimensions { width: 6, height: 6 });
    let mut second = MockRenderer::new_with_size(Dimensions { width: 6, height: 6 });
    {
        let mut a = GameBoard::new_from_seed(
            Dimensions { width: 6, height: 6 },
            UserCellGenerator::from_str(pattern).unwrap(),
            &mut first,
        );
        let mut b = GameBoard::new_from_seed(
            Dimensions { width: 6, height: 6 },
            UserCellGenerator::from_str(pattern).unwrap(),
            &mut second,
        );
        for _ in 0..5 {
            a.calculate_iteration();
            b.calculate_iteration();
        }
    }
    assert_eq!(first.change_sets, second.change_sets);
    assert_eq!(first.print_grid(), second.print_grid());
}

#[test]
fn one_by_one_board_dies_out() {
    let mut renderer = MockRenderer::new_with_size(Dimensions { width: 1, height: 1 });
    {
        let mut game_board = GameBoard::new_from_seed(
            Dimensions { width: 1, height: 1 },
            UserCellGenerator::from_str("*").unwrap(),
            &mut renderer,
        );
        game_board.calculate_iteration();
    }
    // The only cell is its own neighbour eight times over: overcrowded.
    assert_eq!(vec![(Point { x: 0, y: 0 }, Cell::Dead)], renderer.change_sets[1]);
}
