use vstd::prelude::*;
use crate::geometry::{Dimensions, Point};
use crate::lowlevel::{issued, CommandView, Paintbrush, Plotter};
use crate::text::push_char;
use crate::text_label::repeat_char;

verus! {

const TOP_LEFT_CORNER: char = '┌';
const TOP_RIGHT_CORNER: char = '┐';
const BOTTOM_RIGHT_CORNER: char = '┘';
const BOTTOM_LEFT_CORNER: char = '└';
const HORIZONTAL_LINE: char = '─';
const VERTICAL_LINE: &'static str = "│";

/// One horizontal edge of a border `width` characters wide.
pub open spec fn border_row(left: char, right: char, width: int) -> Seq<char> {
    seq![left] + repeat_char('─', width - 2) + seq![right]
}

/// After the first `c` commands of `expected` and one more.
proof fn lemma_one_more(start: Seq<CommandView>, expected: Seq<CommandView>, c: int)
    requires
        0 <= c < expected.len(),
    ensures
        (start + expected.take(c)).push(expected[c]) == start + expected.take(c + 1),
        issued(start, start + expected.take(c + 1), expected, false),
{
    assert((start + expected.take(c)).push(expected[c]) =~= start + expected.take(c + 1));
}

/// A rectangular frame drawn with box characters. It draws itself once and
/// does not keep other components out.
pub struct Border {
    pub paintbrush: Paintbrush,
    pub position: Point,
    pub size: Dimensions,
}

/// Build the horizontal edge that runs from corner `left` to corner `right`.
fn make_border_row(left: char, right: char, width: usize) -> (r: String)
    requires
        width >= 2,
    ensures
        r@ == border_row(left, right, width as int),
{
    let mut row_string = String::new();
    push_char(&mut row_string, left);
    let mut i: usize = 1;
    while i < width - 1
        invariant
            1 <= i <= width - 1,
            row_string@ == seq![left] + repeat_char('─', i - 1),
        decreases width - 1 - i,
    {
        push_char(&mut row_string, HORIZONTAL_LINE);
        i += 1;
        proof {
            assert(row_string@ =~= seq![left] + repeat_char('─', i - 1));
        }
    }
    push_char(&mut row_string, right);
    row_string
}

impl Border {
    /// A border of `size` at `position`, drawn with `paintbrush`.
    pub fn new(paintbrush: Paintbrush, position: Point, size: Dimensions) -> (r: Self)
        ensures
            r.paintbrush == paintbrush,
            r.position == position,
            r.size == size,
    {
        Border { paintbrush, position, size }
    }

    /// The top edge, as `render` plots it at the border's position.
    pub fn top_row(&self) -> (r: String)
        requires
            self.size.width >= 2,
        ensures
            r@ == border_row('┌', '┐', self.size.width as int),
    {
        make_border_row(TOP_LEFT_CORNER, TOP_RIGHT_CORNER, self.size.width)
    }

    /// The bottom edge, as `render` plots it on the border's last line.
    pub fn bottom_row(&self) -> (r: String)
        requires
            self.size.width >= 2,
        ensures
            r@ == border_row('└', '┘', self.size.width as int),
    {
        make_border_row(BOTTOM_LEFT_CORNER, BOTTOM_RIGHT_CORNER, self.size.width)
    }

    /// What `render` issues: the paintbrush, the top edge, the left and
    /// right side of each inner line from the top down, the bottom edge.
    pub open spec fn commands(&self) -> Seq<CommandView> {
        let x = self.position.x;
        let y = self.position.y as int;
        let w = self.size.width as int;
        let h = self.size.height as int;
        seq![
            CommandView::SetPaintbrush(self.paintbrush),
            CommandView::PlotObject(self.position, border_row('┌', '┐', w)),
        ] + Seq::new(
            (2 * (h - 2)) as nat,
            |j: int|
                CommandView::PlotObject(
                    Point { x: if j % 2 == 0 { x } else { (x + w - 1) as usize }, y: (y + 1 + j / 2) as usize },
                    "│"@,
                ),
        ) + seq![CommandView::PlotObject(Point { x, y: (y + h - 1) as usize }, border_row('└', '┘', w))]
    }

    /// Plot the border: set its paintbrush, plot the top edge, then the left
    /// and right sides of each inner line, then the bottom edge. The first
    /// error stops it.
    pub fn render<PlotterT: Plotter>(&self, plotter: &mut PlotterT) -> (r: Result<(), std::io::Error>)
        requires
            self.size.width >= 2,
            self.size.height >= 2,
            self.position.x + self.size.width - 1 <= usize::MAX,
            self.position.y + self.size.height - 1 <= usize::MAX,
        ensures
            issued(old(plotter).commands(), final(plotter).commands(), self.commands(), r is Ok),
    {
        let ghost start = plotter.commands();
        let ghost expected = self.commands();
        let ghost h = self.size.height as int;
        let top_left = self.position;
        let bottom_right = Point {
            x: self.position.x + (self.size.width - 1),
            y: self.position.y + (self.size.height - 1),
        };
        let bottom_left = Point { x: top_left.x, y: bottom_right.y };
        proof {
            assert(expected.len() == 2 * h - 1);
            assert(start + expected.take(0) =~= start);
            lemma_one_more(start, expected, 0);
        }
        let r = plotter.set_paintbrush(&self.paintbrush);
        if r.is_err() {
            return r;
        }
        let top = self.top_row();
        proof {
            lemma_one_more(start, expected, 1);
        }
        let r = plotter.plot(self.position, top.as_str());
        if r.is_err() {
            return r;
        }
        let mut row_idx: usize = top_left.y + 1;
        while row_idx < bottom_left.y
            invariant
                top_left.y + 1 <= row_idx <= bottom_left.y,
                top_left == self.position,
                bottom_left.y == self.position.y + h - 1,
                bottom_right.x == self.position.x + self.size.width - 1,
                h == self.size.height,
                start == old(plotter).commands(),
                expected == self.commands(),
                expected.len() == 2 * h - 1,
                plotter.commands() == start + expected.take(2 + 2 * (row_idx - top_left.y - 1)),
            decreases bottom_left.y - row_idx,
        {
            let ghost c = 2 + 2 * (row_idx - top_left.y - 1);
            let ghost m = row_idx - top_left.y - 1;
            proof {
                assert((2 * m) % 2 == 0 && (2 * m) / 2 == m) by (nonlinear_arith)
                    requires
                        m >= 0,
                ;
                assert((2 * m + 1) % 2 == 1 && (2 * m + 1) / 2 == m) by (nonlinear_arith)
                    requires
                        m >= 0,
                ;
                assert(expected[c] == CommandView::PlotObject(Point { x: self.position.x, y: row_idx }, "│"@));
                assert(expected[c + 1] == CommandView::PlotObject(Point { x: bottom_right.x, y: row_idx }, "│"@));
                lemma_one_more(start, expected, c);
            }
            let r = plotter.plot(Point { x: self.position.x, y: row_idx }, VERTICAL_LINE);
            if r.is_err() {
                return r;
            }
            proof {
                lemma_one_more(start, expected, c + 1);
            }
            let r = plotter.plot(Point { x: bottom_right.x, y: row_idx }, VERTICAL_LINE);
            if r.is_err() {
                return r;
            }
            row_idx += 1;
        }
        let bottom = self.bottom_row();
        proof {
            lemma_one_more(start, expected, 2 * h - 2);
            assert(expected.take(2 * h - 1) =~= expected);
        }
        plotter.plot(bottom_left, bottom.as_str())
    }
}

} // verus!
