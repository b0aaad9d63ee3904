use game_of_life::border::Border;
use game_of_life::canvas::Canvas;
use game_of_life::count::Count;
use game_of_life::geometry::{Dimensions, Point};
use game_of_life::lowlevel::{Color, MockPlotter, MockPlotterCommand, Paintbrush, Plotter};
use game_of_life::text_label::TextLabel;

fn assert_default_paintbrush(command: &MockPlotterCommand, what: &str) {
    match command {
        MockPlotterCommand::SetPaintbrush(pb) => {
            assert_eq!(pb.fg, Paintbrush::create_default().fg);
            assert_eq!(pb.bg, Paintbrush::create_default().bg);
            assert_eq!(pb.bold, Paintbrush::create_default().bold);
        }
        _ => panic!("{}", what),
    }
}

#[test]
fn create_default_function_creates_a_paintbrush_that_will_use_default_terminal_colors() {
    let pb = Paintbrush::create_default();
    assert_eq!(Color::Unset, pb.fg);
    assert_eq!(Color::Unset, pb.bg);
    assert_eq!(false, pb.bold);
}

#[test]
fn border_has_a_constructor() {
    let border = Border::new(
        Paintbrush::create_default(),
        Point { x: 1, y: 2 },
        Dimensions { width: 3, height: 3 },
    );
    assert_eq!(Point { x: 1, y: 2 }, border.position);
    assert_eq!(Dimensions { width: 3, height: 3 }, border.size);
}

#[test]
fn border_can_be_rendered_with_a_lowlevel_plotter() {
    let mut plotter = MockPlotter::new();
    let border = Border::new(
        Paintbrush::create_default(),
        Point { x: 1, y: 2 },
        Dimensions { width: 3, height: 3 },
    );
    border.render(&mut plotter).unwrap();
    plotter.flush().unwrap();

    assert_eq!(6, plotter.command_list.len());
    assert_default_paintbrush(&plotter.command_list[0], "Incorrect first plotter command");
    match &plotter.command_list[1] {
        MockPlotterCommand::PlotObject(point, s) => {
            assert_eq!(point.x, 1);
            assert_eq!(point.y, 2);
            assert_eq!(s, "┌─┐");
        }
        _ => panic!("Incorrect second plotter command"),
    }
    match &plotter.command_list[2] {
        MockPlotterCommand::PlotObject(point, s) => {
            assert_eq!(point.x, 1);
            assert_eq!(point.y, 3);
            assert_eq!(s, "│");
        }
        _ => panic!("Incorrect third plotter command"),
    }
    match &plotter.command_list[3] {
        MockPlotterCommand::PlotObject(point, s) => {
            assert_eq!(point.x, 3);
            assert_eq!(point.y, 3);
            assert_eq!(s, "│");
        }
        _ => panic!("Incorrect fourth plotter command"),
    }
    match &plotter.command_list[4] {
        MockPlotterCommand::PlotObject(point, s) => {
            assert_eq!(point.x, 1);
            assert_eq!(point.y, 4);
            assert_eq!(s, "└─┘");
        }
        _ => panic!("Incorrect fifth plotter command"),
    }
    match &plotter.command_list[5] {
        MockPlotterCommand::Flush => {}
        _ => panic!("Incorrect fifth plotter command"),
    }
}

#[test]
fn wide_border_repeats_the_horizontal_line() {
    let border = Border::new(
        Paintbrush::create_default(),
        Point { x: 0, y: 0 },
        Dimensions { width: 5, height: 2 },
    );
    assert_eq!("┌───┐", border.top_row());
    assert_eq!("└───┘", border.bottom_row());
    let mut plotter = MockPlotter::new();
    border.render(&mut plotter).unwrap();
    // Two lines high: no side pieces between the edges.
    assert_eq!(3, plotter.command_list.len());
}

#[test]
fn canvas_has_a_constructor() {
    let canvas = Canvas::new(Point { x: 1, y: 2 }, Dimensions { width: 3, height: 3 });
    assert_eq!(Point { x: 1, y: 2 }, canvas.position);
    assert_eq!(Dimensions { width: 3, height: 3 }, canvas.size);
}

#[test]
fn clears_all_rows_on_init() {
    let mut plotter = MockPlotter::new();
    let mut canvas = Canvas::new(Point { x: 1, y: 2 }, Dimensions { width: 3, height: 3 });
    canvas.render(&mut plotter).unwrap();

    assert_eq!(3, plotter.command_list.len());
    for (i, command) in plotter.command_list.iter().enumerate() {
        match command {
            MockPlotterCommand::PlotObject(point, s) => {
                assert_eq!(point.x, 1);
                assert_eq!(point.y, 2 + i);
                assert_eq!(s, "   ");
            }
            _ => panic!("Incorrect first plotter command"),
        }
    }
}

#[test]
fn canvas_can_be_rendered_with_a_lowlevel_plotter() {
    let mut plotter = MockPlotter::new();
    let mut canvas = Canvas::new(Point { x: 1, y: 2 }, Dimensions { width: 3, height: 3 });
    canvas.draw_str(Paintbrush::create_default(), Point { x: 0, y: 0 }, "***").unwrap();
    canvas.render(&mut plotter).unwrap();
    plotter.flush().unwrap();

    assert_eq!(6, plotter.command_list.len());
    assert_default_paintbrush(&plotter.command_list[3], "Incorrect first plotter command");
    match &plotter.command_list[4] {
        MockPlotterCommand::PlotObject(point, s) => {
            assert_eq!(point.x, 1);
            assert_eq!(point.y, 2);
            assert_eq!(s, "***");
        }
        _ => panic!("Incorrect second plotter command"),
    }
    match &plotter.command_list[5] {
        MockPlotterCommand::Flush => {}
        _ => panic!("Incorrect third plotter command"),
    }
}

#[test]
fn will_not_allow_writing_data_out_of_bounds() {
    let mut plotter = MockPlotter::new();
    let mut canvas = Canvas::new(Point { x: 1, y: 2 }, Dimensions { width: 3, height: 3 });
    if let Ok(_) = canvas.draw_str(Paintbrush::create_default(), Point { x: 1, y: 0 }, "***") {
        panic!("This test should have failed due to writing out of bounds!");
    }
    canvas.render(&mut plotter).unwrap();
    plotter.flush().unwrap();
    assert_eq!(4, plotter.command_list.len());
}

#[test]
fn canvas_queue_is_empty_after_render() {
    let mut plotter = MockPlotter::new();
    let mut canvas = Canvas::new(Point { x: 0, y: 0 }, Dimensions { width: 2, height: 1 });
    canvas.render(&mut plotter).unwrap();
    canvas.render(&mut plotter).unwrap();
    assert_eq!(1, plotter.command_list.len());
}

#[test]
fn count_has_a_constructor() {
    let _ = Count::new(
        Paintbrush::create_default(),
        Point { x: 1, y: 2 },
        Dimensions { width: 10, height: 1 },
        3,
        "FOO",
        false,
    );
}

#[test]
fn displays_the_key_and_value() {
    let mut plotter = MockPlotter::new();
    let mut count = Count::new(
        Paintbrush::create_default(),
        Point { x: 1, y: 2 },
        Dimensions { width: 10, height: 1 },
        3,
        "FOO",
        false,
    );
    count.render(&mut plotter).unwrap();
    plotter.flush().unwrap();

    assert_eq!(plotter.command_list.len(), 5);
    assert_default_paintbrush(&plotter.command_list[0], "Incorrect first plotter command");
    match &plotter.command_list[1] {
        MockPlotterCommand::PlotObject(point, s) => {
            assert_eq!(point.x, 1);
            assert_eq!(point.y, 2);
            assert_eq!(s, "FOO: ");
        }
        _ => panic!("Incorrect second plotter command"),
    }
    assert_default_paintbrush(&plotter.command_list[2], "Incorrect first plotter command");
    match &plotter.command_list[3] {
        MockPlotterCommand::PlotObject(point, s) => {
            assert_eq!(point.x, 6);
            assert_eq!(point.y, 2);
            assert_eq!(s, "0    ");
        }
        _ => panic!("Incorrect second plotter command"),
    }
    match &plotter.command_list[4] {
        MockPlotterCommand::Flush => {}
        _ => panic!("Incorrect second plotter command"),
    }
}

#[test]
fn can_color_code_the_value() {
    let mut plotter = MockPlotter::new();
    let mut count = Count::new(
        Paintbrush::create_default(),
        Point { x: 1, y: 2 },
        Dimensions { width: 10, height: 1 },
        3,
        "FOO",
        true,
    );
    count.render(&mut plotter).unwrap();
    count.update(10);
    count.render(&mut plotter).unwrap();
    count.decrement();
    count.render(&mut plotter).unwrap();
    plotter.flush().unwrap();

    assert_eq!(plotter.command_list.len(), 13);
    assert_default_paintbrush(&plotter.command_list[2], "Incorrect first plotter command");
    match &plotter.command_list[3] {
        MockPlotterCommand::PlotObject(_, s) => assert_eq!(s, "0    "),
        _ => panic!("Incorrect second plotter command"),
    }
    match &plotter.command_list[6] {
        MockPlotterCommand::SetPaintbrush(pb) => {
            assert_eq!(pb.fg, Color::Green);
            assert_eq!(pb.bg, Paintbrush::create_default().bg);
        }
        _ => panic!("Incorrect first plotter command"),
    }
    match &plotter.command_list[7] {
        MockPlotterCommand::PlotObject(_, s) => assert_eq!(s, "10   "),
        _ => panic!("Incorrect second plotter command"),
    }
    match &plotter.command_list[10] {
        MockPlotterCommand::SetPaintbrush(pb) => {
            assert_eq!(pb.fg, Color::Red);
            assert_eq!(pb.bg, Paintbrush::create_default().bg);
        }
        _ => panic!("Incorrect first plotter command"),
    }
    match &plotter.command_list[11] {
        MockPlotterCommand::PlotObject(_, s) => assert_eq!(s, "9    "),
        _ => panic!("Incorrect second plotter command"),
    }
    match &plotter.command_list[12] {
        MockPlotterCommand::Flush => {}
        _ => panic!("Incorrect second plotter command"),
    }
}

#[test]
fn count_stops_at_zero_and_counts_up() {
    let mut plotter = MockPlotter::new();
    let mut count = Count::new(
        Paintbrush::create_default(),
        Point { x: 0, y: 0 },
        Dimensions { width: 12, height: 1 },
        3,
        "BAR",
        false,
    );
    count.decrement();
    count.increment();
    count.increment();
    count.render(&mut plotter).unwrap();
    match &plotter.command_list[3] {
        MockPlotterCommand::PlotObject(point, s) => {
            assert_eq!(point.x, 5);
            assert_eq!(s, "2      ");
        }
        _ => panic!("expected the value label"),
    }
}

#[test]
fn text_label_has_a_constructor() {
    let label = TextLabel::new(
        Paintbrush::create_default(),
        Point { x: 1, y: 2 },
        Dimensions { width: 3, height: 1 },
        "FOO",
    );
    assert_eq!(label.get_text(), "FOO");
}

fn rendered_rows(label: &TextLabel) -> Vec<(Point, String)> {
    let mut plotter = MockPlotter::new();
    label.render(&mut plotter).unwrap();
    plotter
        .command_list
        .iter()
        .filter_map(|c| match c {
            MockPlotterCommand::PlotObject(p, s) => Some((*p, s.clone())),
            _ => None,
        })
        .collect()
}

#[test]
fn text_label_can_be_rendered_with_a_lowlevel_plotter() {
    let mut plotter = MockPlotter::new();
    let label = TextLabel::new(
        Paintbrush::create_default(),
        Point { x: 1, y: 2 },
        Dimensions { width: 3, height: 1 },
        "FOO",
    );
    label.render(&mut plotter).unwrap();
    plotter.flush().unwrap();

    assert_eq!(plotter.command_list.len(), 3);
    assert_default_paintbrush(&plotter.command_list[0], "Incorrect first plotter command");
    match &plotter.command_list[1] {
        MockPlotterCommand::PlotObject(point, s) => {
            assert_eq!(point.x, 1);
            assert_eq!(point.y, 2);
            assert_eq!(s, "FOO");
        }
        _ => panic!("Incorrect second plotter command"),
    }
    match &plotter.command_list[2] {
        MockPlotterCommand::Flush => {}
        _ => panic!("Incorrect second plotter command"),
    }
}

#[test]
fn will_not_exceed_its_width() {
    let mut plotter = MockPlotter::new();
    let label = TextLabel::new(
        Paintbrush::create_default(),
        Point { x: 1, y: 2 },
        Dimensions { width: 6, height: 1 },
        "FOOBARBAZ",
    );
    label.render(&mut plotter).unwrap();
    plotter.flush().unwrap();
    assert_eq!(plotter.command_list.len(), 3);
    match &plotter.command_list[1] {
        MockPlotterCommand::PlotObject(_, s) => assert_eq!(s, "FOO..."),
        _ => panic!("Incorrect second plotter command"),
    }
}

#[test]
fn will_not_exceed_its_size_even_if_shorter_than_ellipsis() {
    let mut plotter = MockPlotter::new();
    let label = TextLabel::new(
        Paintbrush::create_default(),
        Point { x: 1, y: 2 },
        Dimensions { width: 2, height: 1 },
        "FOOBARBAZ",
    );
    label.render(&mut plotter).unwrap();
    plotter.flush().unwrap();
    assert_eq!(plotter.command_list.len(), 3);
    match &plotter.command_list[1] {
        MockPlotterCommand::PlotObject(_, s) => assert_eq!(s, ".."),
        _ => panic!("Incorrect second plotter command"),
    }
}

#[test]
fn can_be_updated() {
    let mut plotter = MockPlotter::new();
    let mut label = TextLabel::new(
        Paintbrush::create_default(),
        Point { x: 1, y: 2 },
        Dimensions { width: 6, height: 1 },
        "FOOBAR",
    );
    label.render(&mut plotter).unwrap();
    plotter.flush().unwrap();
    assert_eq!(plotter.command_list.len(), 3);
    match &plotter.command_list[1] {
        MockPlotterCommand::PlotObject(_, s) => assert_eq!(s, "FOOBAR"),
        _ => panic!("Incorrect second plotter command"),
    }

    label.update("QUXBARFOO");
    label.render(&mut plotter).unwrap();
    plotter.flush().unwrap();
    assert_eq!(plotter.command_list.len(), 6);
    match &plotter.command_list[4] {
        MockPlotterCommand::PlotObject(_, s) => assert_eq!(s, "QUX..."),
        _ => panic!("Incorrect second plotter command"),
    }
}

#[test]
fn support_multi_lines() {
    let mut plotter = MockPlotter::new();
    let label = TextLabel::new(
        Paintbrush::create_default(),
        Point { x: 1, y: 2 },
        Dimensions { width: 3, height: 3 },
        "FOOBARBAZ",
    );
    label.render(&mut plotter).unwrap();
    plotter.flush().unwrap();
    assert_eq!(plotter.command_list.len(), 5);
    if let MockPlotterCommand::PlotObject(_, s) = &plotter.command_list[1] {
        assert_eq!(s, "FOO");
    } else {
        panic!("Incorrect second plotter command");
    }
    if let MockPlotterCommand::PlotObject(_, s) = &plotter.command_list[2] {
        assert_eq!(s, "BAR");
    } else {
        panic!("Incorrect third plotter command");
    }
    if let MockPlotterCommand::PlotObject(_, s) = &plotter.command_list[3] {
        assert_eq!(s, "BAZ");
    } else {
        panic!("Incorrect fourth plotter command");
    }
}

#[test]
fn trimming_works_even_on_multi_line_labels() {
    let mut plotter = MockPlotter::new();
    let label = TextLabel::new(
        Paintbrush::create_default(),
        Point { x: 1, y: 2 },
        Dimensions { width: 3, height: 2 },
        "FOOBARBAZ",
    );
    label.render(&mut plotter).unwrap();
    plotter.flush().unwrap();
    assert_eq!(plotter.command_list.len(), 4);
    if let MockPlotterCommand::PlotObject(_, s) = &plotter.command_list[2] {
        assert_eq!(s, "...");
    } else {
        panic!("Incorrect third plotter command");
    }
}

#[test]
fn short_text_is_padded_and_blank_rows_fill_the_label() {
    let label = TextLabel::new(
        Paintbrush::create_default(),
        Point { x: 4, y: 7 },
        Dimensions { width: 4, height: 3 },
        "ABCDE",
    );
    assert_eq!(
        vec![
            (Point { x: 4, y: 7 }, "ABCD".to_string()),
            (Point { x: 4, y: 8 }, "E   ".to_string()),
            (Point { x: 4, y: 9 }, "    ".to_string()),
        ],
        rendered_rows(&label)
    );
}

#[test]
fn combining_marks_stay_with_their_letter() {
    // "e" followed by a combining acute accent is one grapheme of 3 bytes.
    let label = TextLabel::new(
        Paintbrush::create_default(),
        Point { x: 0, y: 0 },
        Dimensions { width: 2, height: 2 },
        "ae\u{301}",
    );
    assert_eq!(
        vec![(Point { x: 0, y: 0 }, "ae\u{301}".to_string()), (Point { x: 0, y: 1 }, "  ".to_string())],
        rendered_rows(&label)
    );
}

#[test]
fn canvas_counts_graphemes_not_characters() {
    let mut canvas = Canvas::new(Point { x: 0, y: 0 }, Dimensions { width: 2, height: 1 });
    assert!(canvas.draw_str(Paintbrush::create_default(), Point { x: 0, y: 0 }, "e\u{301}e\u{301}").is_ok());
    assert!(canvas.draw_str(Paintbrush::create_default(), Point { x: 0, y: 0 }, "abc").is_err());
}
