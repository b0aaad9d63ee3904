use vstd::prelude::*;
use crate::border::Border;
use crate::canvas::Canvas;
use crate::cell::Cell;
use crate::count::Count;
use crate::geometry::{Dimensions, Point};
use crate::lowlevel::{Color, Paintbrush, Plotter};
use crate::renderer::{applied_cell, Renderer};
use crate::text::{append_str, decimal, decimal_text};
use crate::lowlevel::CommandView;
use crate::text_label::TextLabel;

verus! {

/// Relies on Display for std::io::Error: the error's message.
#[verifier::external_body]
fn io_error_text(error: &std::io::Error) -> String {
    error.to_string()
}

/// What one terminal character shows of the two cells stacked in it.
#[derive(Clone, Copy, PartialEq, Eq, Debug, Structural)]
pub enum HalfBlock {
    Empty,
    Upper,
    Lower,
    Full,
}

impl HalfBlock {
    /// The character that shows this pair of cells.
    pub fn glyph(&self) -> (r: &'static str)
        ensures
            r@ == glyph_text(*self),
    {
        match self {
            HalfBlock::Empty => " ",
            HalfBlock::Upper => "▀",
            HalfBlock::Lower => "▄",
            HalfBlock::Full => "█",
        }
    }
}

/// The character that shows the pair of cells `b`.
pub open spec fn glyph_text(b: HalfBlock) -> Seq<char> {
    match b {
        HalfBlock::Empty => " "@,
        HalfBlock::Upper => "▀"@,
        HalfBlock::Lower => "▄"@,
        HalfBlock::Full => "█"@,
    }
}

/// The note for a cell at `p` outside a board area of `w` by `rows` cells.
pub open spec fn ignored_cell_message(p: Point, w: usize, rows: usize) -> Seq<char> {
    "Ignored cell outside of printable area Point { x: "@ + decimal_text(p.x as nat) + ", y: "@
        + decimal_text(p.y as nat) + " } (max: "@ + decimal_text(w as nat) + "x"@ + decimal_text(rows as nat)
        + ")"@
}

/// What a character shows once its upper (`top`) or lower cell becomes
/// `alive` or dead, the other cell kept as `current` shows it.
pub open spec fn half_block_after(current: HalfBlock, top: bool, alive: bool) -> HalfBlock {
    if top {
        let lower_lit = current == HalfBlock::Lower || current == HalfBlock::Full;
        if alive {
            if lower_lit { HalfBlock::Full } else { HalfBlock::Upper }
        } else {
            if lower_lit { HalfBlock::Lower } else { HalfBlock::Empty }
        }
    } else {
        let upper_lit = current == HalfBlock::Upper || current == HalfBlock::Full;
        if alive {
            if upper_lit { HalfBlock::Full } else { HalfBlock::Lower }
        } else {
            if upper_lit { HalfBlock::Upper } else { HalfBlock::Empty }
        }
    }
}

/// Whether `b` shows its upper half (`top`) or its lower half lit.
pub open spec fn half_lit(b: HalfBlock, top: bool) -> bool {
    if top {
        b == HalfBlock::Upper || b == HalfBlock::Full
    } else {
        b == HalfBlock::Lower || b == HalfBlock::Full
    }
}

/// The value one above `v`, capped at the largest `usize`.
pub open spec fn saturating_inc(v: usize) -> usize {
    if v < usize::MAX { (v + 1) as usize } else { v }
}

/// The value one below `v`, stopping at zero.
pub open spec fn saturating_dec(v: usize) -> usize {
    if v > 0 { (v - 1) as usize } else { 0 }
}

/// The population after the changes `cs`: up one for each birth, down one
/// for each death.
pub open spec fn population_after(start: usize, cs: Seq<(Point, Cell)>) -> usize
    decreases cs.len(),
{
    if cs.len() == 0 {
        start
    } else {
        let before = population_after(start, cs.drop_last());
        if cs.last().1 == Cell::Alive { saturating_inc(before) } else { saturating_dec(before) }
    }
}

/// A counter after one step up for each change in `cs` whose state is
/// `state`.
pub open spec fn tally_after(start: usize, cs: Seq<(Point, Cell)>, state: Cell) -> usize
    decreases cs.len(),
{
    if cs.len() == 0 {
        start
    } else {
        let before = tally_after(start, cs.drop_last(), state);
        if cs.last().1 == state { saturating_inc(before) } else { before }
    }
}

proof fn lemma_half_block_after(current: HalfBlock, top: bool, alive: bool)
    ensures
        half_lit(half_block_after(current, top, alive), top) == alive,
        half_lit(half_block_after(current, top, alive), !top) == half_lit(current, !top),
{
}

/// Two cells that share a character are the same cell or lie in the two
/// halves of it.
proof fn lemma_ui_index(p: Point, q: Point, w: int)
    requires
        p.x < w,
        q.x < w,
        (p.y / 2) * w + p.x == (q.y / 2) * w + q.x,
        p != q,
    ensures
        p.x == q.x,
        p.y / 2 == q.y / 2,
        (p.y % 2 == 0) != (q.y % 2 == 0),
{
    let py = p.y as int / 2;
    let qy = q.y as int / 2;
    vstd::arithmetic::div_mod::lemma_fundamental_div_mod_converse_div(py * w + p.x, w, py, p.x as int);
    vstd::arithmetic::div_mod::lemma_fundamental_div_mod_converse_div(qy * w + q.x, w, qy, q.x as int);
    vstd::arithmetic::div_mod::lemma_fundamental_div_mod_converse_mod(py * w + p.x, w, py, p.x as int);
    vstd::arithmetic::div_mod::lemma_fundamental_div_mod_converse_mod(qy * w + q.x, w, qy, q.x as int);
    vstd::arithmetic::div_mod::lemma_fundamental_div_mod(p.y as int, 2);
    vstd::arithmetic::div_mod::lemma_fundamental_div_mod(q.y as int, 2);
}

/// The side of a game area that fits a terminal side of `ui_dimension`: the
/// one asked for, unless it is unknown (zero) or does not fit.
pub open spec fn optimal_dimension(game_dimension: usize, ui_dimension: usize) -> usize {
    if game_dimension == 0 || game_dimension > ui_dimension {
        ui_dimension
    } else {
        game_dimension
    }
}

/// The number of cell rows that `height` characters hold, two per
/// character, capped at the largest `usize`.
fn cell_rows(height: usize) -> (r: usize)
    ensures
        r == if 2 * height <= usize::MAX { 2 * height } else { usize::MAX as int },
{
    match height.checked_mul(2) {
        Some(rows) => rows,
        None => usize::MAX,
    }
}

/// Rows kept for the message line (one) and the statistics (two).
const RESERVED_LABEL_ROWS: usize = 3;
/// Rows and columns that the frame round the game takes.
const BORDER_TOTAL_SIZE: usize = 2;
/// The width of the key of each statistic.
const KEY_WIDTH: usize = 12;
/// The narrowest plot area that holds two statistics side by side.
const MIN_UI_WIDTH: usize = 28;

/// A renderer that draws the board in a terminal through a plotter: a
/// message line, the board in a frame with two cells per character, and
/// the population, generation, births and deaths below.
pub struct TuiRenderer<PlotterT: Plotter> {
    plotter: PlotterT,
    game_size: Dimensions,
    current_cell_states: Vec<HalfBlock>,
    message_field: (TextLabel, TextLabel),
    game_area: (Border, Canvas),
    population_field: Count,
    generation_field: Count,
    total_births_field: Count,
    total_deaths_field: Count,
    received_log: Ghost<Seq<Seq<(Point, Cell)>>>,
}

impl<PlotterT: Plotter> TuiRenderer<PlotterT> {
    /// The size of the board area in characters.
    pub closed spec fn game_size_spec(&self) -> Dimensions {
        self.game_size
    }

    /// The text on the message line.
    pub closed spec fn message(&self) -> Seq<char> {
        self.message_field.1.text_spec()
    }

    /// The commands that the board area's canvas will plot on its next
    /// render.
    pub closed spec fn board_queue(&self) -> Seq<CommandView> {
        self.game_area.1.pending()
    }

    /// The plotter that the renderer draws with.
    pub closed spec fn plotter_spec(&self) -> PlotterT {
        self.plotter
    }

    /// The plotter that the renderer draws with.
    pub fn plotter(&self) -> (r: &PlotterT)
        ensures
            *r == self.plotter_spec(),
    {
        &self.plotter
    }

    /// The population on the statistics line.
    pub closed spec fn population(&self) -> usize {
        self.population_field.value_spec()
    }

    /// The generation on the statistics line.
    pub closed spec fn generation(&self) -> usize {
        self.generation_field.value_spec()
    }

    /// The births on the statistics line.
    pub closed spec fn births(&self) -> usize {
        self.total_births_field.value_spec()
    }

    /// The deaths on the statistics line.
    pub closed spec fn deaths(&self) -> usize {
        self.total_deaths_field.value_spec()
    }

    /// What each character of the board area shows, row by row.
    pub closed spec fn half_blocks(&self) -> Seq<HalfBlock> {
        self.current_cell_states@
    }

    /// Lay the screen out on `plotter`'s area for a board of `game_size`
    /// cells (zero for "as large as fits"). Fails where the area is too
    /// narrow for the statistics (under 28 columns) or too low for the
    /// frame and labels (under 5 rows), or where the board would not fit a
    /// `usize` count of cells.
    pub fn new(plotter: PlotterT, game_size: Dimensions) -> (r: Result<Self, String>)
        ensures
            r is Ok ==> r->Ok_0.message().len() == 0,
            r is Ok ==> r->Ok_0.half_blocks().len() == r->Ok_0.game_size_spec().area(),
            r is Ok ==> r->Ok_0.half_blocks() == Seq::new(
                r->Ok_0.game_size_spec().area() as nat,
                |i: int| HalfBlock::Empty,
            ),
            r is Ok ==> exists|ui: Dimensions|
                ui.width >= 28 && ui.height >= 5 && #[trigger] r->Ok_0.game_size_spec() == (Dimensions {
                    width: optimal_dimension(game_size.width, (ui.width - 2) as usize),
                    height: optimal_dimension((game_size.height / 2) as usize, (ui.height - 5) as usize),
                }),
    {
        let ui_size = plotter.get_plot_area();
        let total_reserved_rows = RESERVED_LABEL_ROWS + BORDER_TOTAL_SIZE;
        let total_reserved_columns = BORDER_TOTAL_SIZE;
        if ui_size.width < MIN_UI_WIDTH || ui_size.height < total_reserved_rows {
            return Err(String::from_str("The plot area is too small for the game"));
        }
        let game_dimensions = Self::create_game_dimensions(
            &game_size,
            &ui_size,
            total_reserved_rows,
            total_reserved_columns,
        );
        let cell_rows = match game_dimensions.height.checked_mul(2) {
            Some(rows) => rows,
            None => {
                return Err(String::from_str("The game area is too large"));
            },
        };
        let total_cells = match game_dimensions.width.checked_mul(cell_rows) {
            Some(n) => n,
            None => {
                return Err(String::from_str("The game area is too large"));
            },
        };
        proof {
            assert(game_dimensions.width * game_dimensions.height <= total_cells) by (nonlinear_arith)
                requires
                    total_cells == game_dimensions.width * (game_dimensions.height * 2),
            ;
        }
        let area = game_dimensions.width * game_dimensions.height;
        let mut initial_cell_states: Vec<HalfBlock> = Vec::with_capacity(area);
        let mut i: usize = 0;
        while i < area
            invariant
                0 <= i <= area,
                initial_cell_states@ == Seq::new(i as nat, |k: int| HalfBlock::Empty),
            decreases area - i,
        {
            initial_cell_states.push(HalfBlock::Empty);
            i += 1;
            proof {
                assert(initial_cell_states@ =~= Seq::new(i as nat, |k: int| HalfBlock::Empty));
            }
        }
        let half_width = ui_size.width / 2;
        let message_field = Self::create_message_field(ui_size.width);
        let game_area = Self::create_game_area(Point { x: 0, y: 1 }, game_dimensions);
        let population_field = Self::create_stats_field(
            Point { x: 0, y: ui_size.height - 2 },
            Dimensions { height: 1, width: half_width },
            "Population",
            true,
        );
        let generation_field = Self::create_stats_field(
            Point { x: half_width, y: ui_size.height - 2 },
            Dimensions { height: 1, width: half_width },
            "Generation",
            false,
        );
        let total_births_field = Self::create_stats_field(
            Point { x: 0, y: ui_size.height - 1 },
            Dimensions { height: 1, width: half_width },
            "Births",
            false,
        );
        let total_deaths_field = Self::create_stats_field(
            Point { x: half_width, y: ui_size.height - 1 },
            Dimensions { height: 1, width: half_width },
            "Deaths",
            false,
        );
        let r = TuiRenderer {
            plotter,
            game_size: game_dimensions,
            current_cell_states: initial_cell_states,
            message_field,
            game_area,
            population_field,
            generation_field,
            total_births_field,
            total_deaths_field,
            received_log: Ghost(Seq::empty()),
        };
        assert(r.game_size_spec() == (Dimensions {
            width: optimal_dimension(game_size.width, (ui_size.width - 2) as usize),
            height: optimal_dimension((game_size.height / 2) as usize, (ui_size.height - 5) as usize),
        }));
        Ok(r)
    }

    /// Show `message` on the message line. A plotter error is dropped: the
    /// next message or change set draws again.
    pub fn print_message(&mut self, message: &str)
        ensures
            final(self).message() == message@,
            final(self).board_queue() == old(self).board_queue(),
            final(self).received() == old(self).received(),
            final(self).population() == old(self).population(),
            final(self).births() == old(self).births(),
            final(self).deaths() == old(self).deaths(),
            final(self).generation() == old(self).generation(),
            final(self).game_size_spec() == old(self).game_size_spec(),
            final(self).half_blocks() == old(self).half_blocks(),
    {
        self.message_field.1.update(message);
        let _ = self.message_field.1.render(&mut self.plotter);
    }

    /// The board area for a board of `game_area` cells on a plot area of
    /// `ui_size`, keeping `reserved_rows` and `reserved_columns` free. Two
    /// cells stack in each character, so the board's height is halved.
    fn create_game_dimensions(
        game_area: &Dimensions,
        ui_size: &Dimensions,
        reserved_rows: usize,
        reserved_columns: usize,
    ) -> (r: Dimensions)
        requires
            ui_size.height >= reserved_rows,
            ui_size.width >= reserved_columns,
        ensures
            r.height == optimal_dimension(
                (game_area.height / 2) as usize,
                (ui_size.height - reserved_rows) as usize,
            ),
            r.width == optimal_dimension(game_area.width, (ui_size.width - reserved_columns) as usize),
    {
        let actual_game_area_height = game_area.height / 2;
        Dimensions {
            height: Self::calculate_optimal_game_area_dimension(
                actual_game_area_height,
                ui_size.height - reserved_rows,
            ),
            width: Self::calculate_optimal_game_area_dimension(
                game_area.width,
                ui_size.width - reserved_columns,
            ),
        }
    }

    /// The side of the board area: `game_dimension`, unless it is zero or
    /// larger than `ui_dimension`, in which case `ui_dimension`.
    fn calculate_optimal_game_area_dimension(game_dimension: usize, ui_dimension: usize) -> (r: usize)
        ensures
            r == optimal_dimension(game_dimension, ui_dimension),
            r <= ui_dimension,
    {
        if game_dimension == 0 || game_dimension > ui_dimension {
            ui_dimension
        } else {
            game_dimension
        }
    }

    /// The "Messages:" caption and, right of it, the message line.
    fn create_message_field(total_width: usize) -> (r: (TextLabel, TextLabel))
        requires
            total_width >= 10,
        ensures
            r.0.wf(),
            r.1.wf(),
            r.1.text_spec().len() == 0,
    {
        let default_paintbrush = Paintbrush::create_default();
        proof {
            reveal_strlit("");
        }
        (
            TextLabel::new(
                default_paintbrush,
                Point { x: 0, y: 0 },
                Dimensions { width: 9, height: 1 },
                "Messages:",
            ),
            TextLabel::new(
                default_paintbrush,
                Point { x: 10, y: 0 },
                Dimensions { width: total_width - 10, height: 1 },
                "",
            ),
        )
    }

    /// A cyan frame at `position` round a canvas of `game_playable_area`.
    fn create_game_area(position: Point, game_playable_area: Dimensions) -> (r: (Border, Canvas))
        requires
            position.x + game_playable_area.width + 2 <= usize::MAX,
            position.y + game_playable_area.height + 2 <= usize::MAX,
        ensures
            r.0.position == position,
            r.0.size == (Dimensions {
                width: (game_playable_area.width + 2) as usize,
                height: (game_playable_area.height + 2) as usize,
            }),
            r.1.position_spec() == (Point { x: (position.x + 1) as usize, y: (position.y + 1) as usize }),
            r.1.size_spec() == game_playable_area,
    {
        let game_board_position = Point { x: position.x + 1, y: position.y + 1 };
        (
            Border::new(
                Paintbrush { fg: Color::Cyan, bg: Color::Unset, bold: false },
                position,
                Dimensions {
                    width: game_playable_area.width + 2,
                    height: game_playable_area.height + 2,
                },
            ),
            Canvas::new(game_board_position, game_playable_area),
        )
    }

    /// A statistic named `key_text` at `position`.
    fn create_stats_field(position: Point, size: Dimensions, key_text: &str, color_coded: bool) -> (r: Count)
        requires
            KEY_WIDTH + 2 <= size.width,
            position.x + size.width <= usize::MAX,
            size.area() <= usize::MAX,
        ensures
            r.wf(),
            r.color_coded() == color_coded,
    {
        let paintbrush = Paintbrush::create_default();
        Count::new(paintbrush, position, size, KEY_WIDTH, key_text, color_coded)
    }

    /// Whether `cell_address` lies in the board area: two cells per
    /// character in height.
    fn cell_is_renderable(&self, cell_address: &Point) -> (r: bool)
        ensures
            r == (cell_address.x < self.game_size.width && cell_address.y < self.game_size.height * 2),
    {
        let max_x_address = self.game_size.width;
        let below_max_y = match self.game_size.height.checked_mul(2) {
            Some(max_y_address) => cell_address.y < max_y_address,
            None => true,
        };
        cell_address.x < max_x_address && below_max_y
    }

    /// The character position of `cell_address` and its index in
    /// `half_blocks`, where that index lies in range.
    fn ui_index(&self, cell_address: Point) -> (r: Option<usize>)
        ensures
            r is Some <==> (cell_address.y / 2) * self.game_size.width + cell_address.x
                < self.current_cell_states@.len(),
            r is Some ==> r->0 == (cell_address.y / 2) * self.game_size.width + cell_address.x,
    {
        let ui_y = cell_address.y / 2;
        let n = self.current_cell_states.len();
        match ui_y.checked_mul(self.game_size.width) {
            Some(row_start) => match row_start.checked_add(cell_address.x) {
                Some(i) => if i < n { Some(i) } else { None },
                None => None,
            },
            None => None,
        }
    }

    /// Record that the cell at `cell_address`, which lies at index
    /// `ui_point_index` of `half_blocks`, became `new_value`; return the
    /// character position and what it now shows.
    fn get_new_ui_value(&mut self, cell_address: Point, ui_point_index: usize, new_value: Cell) -> (r: (Point, HalfBlock))
        requires
            ui_point_index < old(self).half_blocks().len(),
        ensures
            r.0 == (Point { x: cell_address.x, y: (cell_address.y / 2) as usize }),
            r.1 == half_block_after(
                old(self).half_blocks()[ui_point_index as int],
                cell_address.y % 2 == 0,
                new_value == Cell::Alive,
            ),
            final(self).half_blocks() == old(self).half_blocks().update(ui_point_index as int, r.1),
            final(self).board_queue() == old(self).board_queue(),
            final(self).game_size_spec() == old(self).game_size_spec(),
            final(self).message() == old(self).message(),
            final(self).received() == old(self).received(),
            final(self).population() == old(self).population(),
            final(self).births() == old(self).births(),
            final(self).deaths() == old(self).deaths(),
            final(self).generation() == old(self).generation(),
    {
        let ui_point = Point { x: cell_address.x, y: cell_address.y / 2 };
        let current_ui_value = self.current_cell_states[ui_point_index];
        let is_top_half_of_character = cell_address.y % 2 == 0;
        let new_char = if is_top_half_of_character {
            match new_value {
                Cell::Alive => match current_ui_value {
                    HalfBlock::Lower | HalfBlock::Full => HalfBlock::Full,
                    _ => HalfBlock::Upper,
                },
                Cell::Dead => match current_ui_value {
                    HalfBlock::Lower | HalfBlock::Full => HalfBlock::Lower,
                    _ => HalfBlock::Empty,
                },
            }
        } else {
            match new_value {
                Cell::Alive => match current_ui_value {
                    HalfBlock::Upper | HalfBlock::Full => HalfBlock::Full,
                    _ => HalfBlock::Lower,
                },
                Cell::Dead => match current_ui_value {
                    HalfBlock::Upper | HalfBlock::Full => HalfBlock::Upper,
                    _ => HalfBlock::Empty,
                },
            }
        };
        self.current_cell_states.set(ui_point_index, new_char);
        (ui_point, new_char)
    }

    /// Draw the cell at `cell_address` as `new_value`. A cell outside the
    /// board area is left out, with a note on the message line; a canvas
    /// error comes back as text.
    fn set_game_cell(&mut self, cell_address: Point, new_value: Cell) -> (r: Result<(), String>)
        ensures
            final(self).game_size_spec() == old(self).game_size_spec(),
            final(self).received() == old(self).received(),
            final(self).population() == old(self).population(),
            final(self).births() == old(self).births(),
            final(self).deaths() == old(self).deaths(),
            final(self).generation() == old(self).generation(),
            ({
                let i = (cell_address.y / 2) * old(self).game_size_spec().width + cell_address.x;
                if cell_address.x < old(self).game_size_spec().width && cell_address.y
                    < old(self).game_size_spec().height * 2 && i < old(self).half_blocks().len() {
                    final(self).half_blocks() == old(self).half_blocks().update(
                        i,
                        half_block_after(
                            old(self).half_blocks()[i],
                            cell_address.y % 2 == 0,
                            new_value == Cell::Alive,
                        ),
                    )
                } else {
                    final(self).half_blocks() == old(self).half_blocks()
                }
            }),
            ({
                let i = (cell_address.y / 2) * old(self).game_size_spec().width + cell_address.x;
                let inside = cell_address.x < old(self).game_size_spec().width && cell_address.y
                    < old(self).game_size_spec().height * 2;
                if inside && i < old(self).half_blocks().len() {
                    &&& r is Ok ==> final(self).board_queue() == old(self).board_queue().push(
                        CommandView::SetPaintbrush(Paintbrush::spec_default()),
                    ).push(
                        CommandView::PlotObject(
                            Point { x: cell_address.x, y: (cell_address.y / 2) as usize },
                            glyph_text(final(self).half_blocks()[i]),
                        ),
                    )
                    &&& r is Err ==> final(self).board_queue() == old(self).board_queue()
                } else {
                    &&& r is Ok
                    &&& final(self).board_queue() == old(self).board_queue()
                    &&& !inside ==> final(self).message() == ignored_cell_message(
                        cell_address,
                        old(self).game_size_spec().width,
                        (if 2 * old(self).game_size_spec().height <= usize::MAX {
                            2 * old(self).game_size_spec().height
                        } else {
                            usize::MAX as int
                        }) as usize,
                    )
                }
            }),
    {
        if !self.cell_is_renderable(&cell_address) {
            let mut message = String::from_str("Ignored cell outside of printable area Point { x: ");
            append_str(&mut message, decimal(cell_address.x).as_str());
            append_str(&mut message, ", y: ");
            append_str(&mut message, decimal(cell_address.y).as_str());
            append_str(&mut message, " } (max: ");
            append_str(&mut message, decimal(self.game_size.width).as_str());
            append_str(&mut message, "x");
            append_str(&mut message, decimal(cell_rows(self.game_size.height)).as_str());
            append_str(&mut message, ")");
            proof {
                reveal_strlit("Ignored cell outside of printable area Point { x: ");
            }
            self.print_message(message.as_str());
            return Ok(());
        }
        let ui_point_index = match self.ui_index(cell_address) {
            Some(i) => i,
            None => {
                return Ok(());
            },
        };
        let (ui_address, new_ui_value) = self.get_new_ui_value(cell_address, ui_point_index, new_value);
        let canvas = &mut self.game_area.1;
        let result = canvas.draw_str(Paintbrush::create_default(), ui_address, new_ui_value.glyph());
        match result {
            Err(error) => Err(io_error_text(&error)),
            Ok(()) => Ok(()),
        }
    }

    /// One more living cell: one more birth.
    fn increase_population(&mut self)
        ensures
            final(self).game_size_spec() == old(self).game_size_spec(),
            final(self).half_blocks() == old(self).half_blocks(),
            final(self).received() == old(self).received(),
            final(self).population() == saturating_inc(old(self).population()),
            final(self).births() == saturating_inc(old(self).births()),
            final(self).deaths() == old(self).deaths(),
            final(self).generation() == old(self).generation(),
    {
        self.population_field.increment();
        self.total_births_field.increment();
    }

    /// One fewer living cell: one more death.
    fn decrease_population(&mut self)
        ensures
            final(self).game_size_spec() == old(self).game_size_spec(),
            final(self).half_blocks() == old(self).half_blocks(),
            final(self).received() == old(self).received(),
            final(self).population() == saturating_dec(old(self).population()),
            final(self).deaths() == saturating_inc(old(self).deaths()),
            final(self).births() == old(self).births(),
            final(self).generation() == old(self).generation(),
    {
        self.population_field.decrement();
        self.total_deaths_field.increment();
    }

    /// Show "Error: " and `error` on the message line.
    fn report_error(&mut self, error: &str)
        ensures
            final(self).game_size_spec() == old(self).game_size_spec(),
            final(self).half_blocks() == old(self).half_blocks(),
            final(self).received() == old(self).received(),
            final(self).population() == old(self).population(),
            final(self).births() == old(self).births(),
            final(self).deaths() == old(self).deaths(),
            final(self).generation() == old(self).generation(),
    {
        let mut message = String::from_str("Error: ");
        append_str(&mut message, error);
        self.print_message(message.as_str());
    }
}

impl<PlotterT: Plotter> Renderer for TuiRenderer<PlotterT> {
    closed spec fn received(&self) -> Seq<Seq<(Point, Cell)>> {
        self.received_log@
    }

    /// `p` lies in the board area and its character is tracked.
    open spec fn drawable(&self, p: Point) -> bool {
        &&& p.x < self.game_size_spec().width
        &&& p.y < self.game_size_spec().height * 2
        &&& (p.y / 2) * self.game_size_spec().width + p.x < self.half_blocks().len()
    }

    /// The state the board area shows for `p`: the half of its character
    /// that stands for `p` is lit or not. Dead outside the area.
    open spec fn shown(&self, p: Point) -> Cell {
        if self.drawable(p) && half_lit(
            self.half_blocks()[(p.y / 2) * self.game_size_spec().width + p.x],
            p.y % 2 == 0,
        ) {
            Cell::Alive
        } else {
            Cell::Dead
        }
    }

    fn initialize(&mut self) {
        self.print_message("Game board is initialized.");
        let _ = self.message_field.0.render(&mut self.plotter);
        let border = &self.game_area.0;
        if border.size.width >= 2 && border.size.height >= 2
            && border.position.x <= usize::MAX - border.size.width
            && border.position.y <= usize::MAX - border.size.height {
            let _ = border.render(&mut self.plotter);
        }
        self.apply_changes(Vec::new());
    }

    fn get_grid_size(&self) -> (r: Dimensions)
        ensures
            r.width == self.game_size_spec().width,
            r.height == if 2 * self.game_size_spec().height <= usize::MAX {
                2 * self.game_size_spec().height
            } else {
                usize::MAX as int
            },
    {
        Dimensions {
            width: self.game_size.width,
            height: cell_rows(self.game_size.height),
        }
    }

    /// Count one more generation; for each change, update the population
    /// and the births or deaths and draw the cell; then render the
    /// statistics and the board area and flush.
    fn apply_changes(&mut self, changes: Vec<(Point, Cell)>)
        ensures
            final(self).game_size_spec() == old(self).game_size_spec(),
            final(self).generation() == saturating_inc(old(self).generation()),
            final(self).population() == population_after(old(self).population(), changes@),
            final(self).births() == tally_after(old(self).births(), changes@, Cell::Alive),
            final(self).deaths() == tally_after(old(self).deaths(), changes@, Cell::Dead),
    {
        let ghost before = self.received_log@;
        let ghost old_self = *self;
        self.generation_field.increment();
        let mut k: usize = 0;
        while k < changes.len()
            invariant
                0 <= k <= changes.len(),
                self.game_size == old_self.game_size,
                self.half_blocks().len() == old_self.half_blocks().len(),
                self.generation() == saturating_inc(old_self.generation()),
                self.population() == population_after(old_self.population(), changes@.take(k as int)),
                self.births() == tally_after(old_self.births(), changes@.take(k as int), Cell::Alive),
                self.deaths() == tally_after(old_self.deaths(), changes@.take(k as int), Cell::Dead),
                forall|p: Point| #[trigger] self.shown(p) == if old_self.drawable(p) {
                    applied_cell(old_self.shown(p), p, changes@.take(k as int))
                } else {
                    old_self.shown(p)
                },
            decreases changes.len() - k,
        {
            let ghost mid = *self;
            proof {
                assert(changes@.take(k + 1).drop_last() =~= changes@.take(k as int));
            }
            let (cell_address, cell_state) = changes[k];
            match cell_state {
                Cell::Alive => self.increase_population(),
                Cell::Dead => self.decrease_population(),
            }
            let ghost counted = *self;
            if let Err(error) = self.set_game_cell(cell_address, cell_state) {
                self.report_error(error.as_str());
            }
            proof {
                let q = cell_address;
                assert forall|p: Point| #[trigger] self.shown(p) == if old_self.drawable(p) {
                    applied_cell(old_self.shown(p), p, changes@.take(k + 1))
                } else {
                    old_self.shown(p)
                } by {
                    assert(mid.drawable(p) == old_self.drawable(p));
                    assert(counted.shown(p) == mid.shown(p));
                    if counted.drawable(q) {
                        lemma_half_block_after(
                            counted.half_blocks()[(q.y / 2) * counted.game_size.width + q.x],
                            q.y % 2 == 0,
                            cell_state == Cell::Alive,
                        );
                        if counted.drawable(p) && p != q && (p.y / 2) * counted.game_size.width + p.x == (
                        q.y / 2) * counted.game_size.width + q.x {
                            lemma_ui_index(p, q, counted.game_size.width as int);
                        }
                    }
                }
            }
            k += 1;
        }
        proof {
            assert(changes@.take(changes@.len() as int) =~= changes@);
            assert forall|p: Point| #[trigger] self.shown(p) == if old_self.drawable(p) {
                applied_cell(old_self.shown(p), p, changes@)
            } else {
                old_self.shown(p)
            } by {}
        }
        let ghost drawn = *self;
        if let Err(error) = self.population_field.render(&mut self.plotter) {
            self.report_error(io_error_text(&error).as_str());
        }
        if let Err(error) = self.generation_field.render(&mut self.plotter) {
            self.report_error(io_error_text(&error).as_str());
        }
        if let Err(error) = self.total_births_field.render(&mut self.plotter) {
            self.report_error(io_error_text(&error).as_str());
        }
        if let Err(error) = self.total_deaths_field.render(&mut self.plotter) {
            self.report_error(io_error_text(&error).as_str());
        }
        if let Err(error) = self.game_area.1.render(&mut self.plotter) {
            self.report_error(io_error_text(&error).as_str());
        }
        if let Err(error) = self.plotter.flush() {
            self.report_error(io_error_text(&error).as_str());
        }
        self.received_log = Ghost(before.push(changes@));
        proof {
            assert forall|p: Point| #[trigger] self.shown(p) == drawn.shown(p) by {
                assert(self.half_blocks() == drawn.half_blocks());
            }
        }
    }
}

} // verus!
