use vstd::prelude::*;
use unicode_segmentation::UnicodeSegmentation;
use crate::geometry::{Dimensions, Point};
use crate::lowlevel::{issued, CommandView, Paintbrush, Plotter};
use crate::text::{append_str, push_char};

verus! {

/// The extended grapheme clusters of `s`, in order.
pub uninterp spec fn graphemes_of(s: Seq<char>) -> Seq<Seq<char>>;

/// Relies on UnicodeSegmentation::graphemes(s, true): the extended grapheme
/// clusters of `s`, in order; an empty string has none.
#[verifier::external_body]
pub(crate) fn graphemes(s: &str) -> (r: Vec<String>)
    ensures
        r@.map_values(|g: String| g@) == graphemes_of(s@),
        s@.len() == 0 ==> r@.len() == 0,
{
    s.graphemes(true).map(|g| g.to_string()).collect()
}

/// The number of bytes of `s` in UTF-8, as a string reports it (the length
/// of a string in memory always fits a `usize`).
pub open spec fn utf8_len(s: Seq<char>) -> int {
    (vstd::utf8::encode_utf8(s).len() as usize) as int
}

/// The pieces of `gs` written one after the other.
pub open spec fn concat_all(gs: Seq<Seq<char>>) -> Seq<char>
    decreases gs.len(),
{
    if gs.len() == 0 {
        seq![]
    } else {
        concat_all(gs.drop_last()) + gs.last()
    }
}

/// `n` copies of `c`.
pub open spec fn repeat_char(c: char, n: int) -> Seq<char> {
    Seq::new(n as nat, |i: int| c)
}

/// The number of characters a label of `w` by `h` holds, capped at the
/// largest `usize`.
pub open spec fn label_room(w: int, h: int) -> int {
    if w * h <= usize::MAX { w * h } else { usize::MAX as int }
}

/// The text that a label of `w` by `h` characters shows for `text`: the text
/// itself if its UTF-8 form fits in `w * h` bytes; otherwise as many leading
/// graphemes as leave room for "...", then "..."; or, where not even that
/// fits, one dot per cell.
pub open spec fn fitted_text(text: Seq<char>, w: int, h: int) -> Seq<char> {
    let room = label_room(w, h);
    if utf8_len(text) <= room {
        text
    } else if room < 3 {
        repeat_char('.', room)
    } else {
        let gs = graphemes_of(text);
        let kept = if room - 3 <= gs.len() { room - 3 } else { gs.len() as int };
        concat_all(gs.take(kept)) + "..."@
    }
}

/// `row` followed by spaces up to `w` bytes.
pub open spec fn pad_row(row: Seq<char>, w: int) -> Seq<char> {
    if utf8_len(row) < w {
        row + repeat_char(' ', w - utf8_len(row))
    } else {
        row
    }
}

/// The row made of graphemes `k * w` up to `k * w + w` of `gs`.
pub open spec fn full_row(gs: Seq<Seq<char>>, w: int, k: int) -> Seq<char> {
    concat_all(gs.subrange(k * w, k * w + w))
}

/// `gs` broken into rows of `w` graphemes; a shorter last row is padded.
pub open spec fn wrap_rows(gs: Seq<Seq<char>>, w: int) -> Seq<Seq<char>> {
    if w <= 0 {
        if gs.len() == 0 { seq![] } else { seq![pad_row(concat_all(gs), w)] }
    } else {
        let n = (gs.len() as int) / w;
        let full = Seq::new(n as nat, |k: int| full_row(gs, w, k));
        if (gs.len() as int) % w == 0 {
            full
        } else {
            full.push(pad_row(concat_all(gs.subrange(n * w, gs.len() as int)), w))
        }
    }
}

/// The rows that a label of `w` by `h` characters shows for `text`; rows of
/// spaces fill it up to `h` rows.
pub open spec fn label_rows(text: Seq<char>, w: int, h: int) -> Seq<Seq<char>> {
    let rows = wrap_rows(graphemes_of(fitted_text(text, w, h)), w);
    if rows.len() < h {
        rows + Seq::new((h - rows.len()) as nat, |i: int| repeat_char(' ', w))
    } else {
        rows
    }
}

/// How many of `n` rows starting on line `y` have a line number that fits
/// a `usize`.
pub open spec fn plottable_rows(y: int, n: int) -> int {
    if y + n <= usize::MAX + 1 { n } else { usize::MAX + 1 - y }
}

/// What rendering a label issues: its paintbrush, then each row `i` at
/// `i` lines below `position` (rows past the range of a `usize` are left
/// out).
pub open spec fn label_commands(pb: Paintbrush, position: Point, rows: Seq<Seq<char>>) -> Seq<CommandView> {
    seq![CommandView::SetPaintbrush(pb)] + Seq::new(
        plottable_rows(position.y as int, rows.len() as int) as nat,
        |i: int| CommandView::PlotObject(Point { x: position.x, y: (position.y + i) as usize }, rows[i]),
    )
}

/// A string of `n` copies of `c`.
fn repeated(c: char, n: usize) -> (r: String)
    ensures
        r@ == repeat_char(c, n as int),
{
    let mut r = String::new();
    let mut i: usize = 0;
    while i < n
        invariant
            0 <= i <= n,
            r@ == repeat_char(c, i as int),
        decreases n - i,
    {
        push_char(&mut r, c);
        i += 1;
        proof {
            assert(r@ =~= repeat_char(c, i as int));
        }
    }
    r
}

/// A text label: a rectangle of `size` characters at `position` that shows
/// a text, cut short with "..." where it does not fit.
pub struct TextLabel {
    paintbrush: Paintbrush,
    position: Point,
    size: Dimensions,
    text: String,
    output_text_rows: Vec<String>,
}

impl TextLabel {
    pub closed spec fn paintbrush_spec(&self) -> Paintbrush {
        self.paintbrush
    }

    pub closed spec fn position_spec(&self) -> Point {
        self.position
    }

    pub closed spec fn size_spec(&self) -> Dimensions {
        self.size
    }

    pub closed spec fn text_spec(&self) -> Seq<char> {
        self.text@
    }

    /// The rows that `render` plots, top to bottom.
    pub closed spec fn rows(&self) -> Seq<Seq<char>> {
        self.output_text_rows@.map_values(|r: String| r@)
    }

    /// The rows are those of the text.
    pub open spec fn wf(&self) -> bool {
        self.rows() == label_rows(
            self.text_spec(),
            self.size_spec().width as int,
            self.size_spec().height as int,
        )
    }

    /// A label showing `text`.
    pub fn new(paintbrush: Paintbrush, position: Point, size: Dimensions, text: &str) -> (r: Self)
        ensures
            r.wf(),
            r.paintbrush_spec() == paintbrush,
            r.position_spec() == position,
            r.size_spec() == size,
            r.text_spec() == text@,
    {
        let mut result = TextLabel {
            paintbrush,
            position,
            size,
            text: String::from_str(text),
            output_text_rows: Vec::new(),
        };
        result.get_label_output_text();
        result
    }

    /// The text that the label holds, before it is fitted.
    pub fn get_text(&self) -> (r: &str)
        ensures
            r@ == self.text_spec(),
    {
        self.text.as_str()
    }

    /// Style the label with `paintbrush` from the next render on.
    pub fn set_paintbrush(&mut self, paintbrush: Paintbrush)
        ensures
            final(self).paintbrush_spec() == paintbrush,
            final(self).position_spec() == old(self).position_spec(),
            final(self).size_spec() == old(self).size_spec(),
            final(self).text_spec() == old(self).text_spec(),
            final(self).rows() == old(self).rows(),
    {
        self.paintbrush = paintbrush;
    }

    /// Show `text` from the next render on.
    pub fn update(&mut self, text: &str)
        ensures
            final(self).wf(),
            final(self).text_spec() == text@,
            final(self).paintbrush_spec() == old(self).paintbrush_spec(),
            final(self).position_spec() == old(self).position_spec(),
            final(self).size_spec() == old(self).size_spec(),
    {
        self.text = String::from_str(text);
        self.get_label_output_text();
    }

    /// What `render` issues.
    pub open spec fn commands(&self) -> Seq<CommandView> {
        label_commands(self.paintbrush_spec(), self.position_spec(), self.rows())
    }

    /// Plot the label: set its paintbrush, then plot each row, the `i`-th
    /// one `i` lines below the label's position. The first error stops it.
    pub fn render<PlotterT: Plotter>(&self, plotter: &mut PlotterT) -> (r: Result<(), std::io::Error>)
        ensures
            issued(old(plotter).commands(), final(plotter).commands(), self.commands(), r is Ok),
    {
        let ghost expected = self.commands();
        let ghost start = plotter.commands();
        let ghost rows = self.rows();
        let n = self.output_text_rows.len();
        match plotter.set_paintbrush(&self.paintbrush) {
            Err(e) => {
                proof {
                    assert(plotter.commands() == start + expected.take(1));
                }
                return Err(e);
            },
            Ok(()) => {},
        }
        proof {
            assert(start.push(expected[0]) =~= start + expected.take(1));
        }
        let mut i: usize = 0;
        while i < n
            invariant
                n == self.output_text_rows@.len(),
                rows == self.rows(),
                expected == self.commands(),
                start == old(plotter).commands(),
                0 <= i <= n,
                i <= plottable_rows(self.position.y as int, n as int),
                plotter.commands() == start + expected.take(1 + i),
            decreases n - i,
        {
            match self.position.y.checked_add(i) {
                Some(y) => {
                    let ghost before = plotter.commands();
                    let res = plotter.plot(Point { x: self.position.x, y }, self.output_text_rows[i].as_str());
                    proof {
                        assert(rows[i as int] == self.output_text_rows@[i as int]@);
                        assert(expected[1 + i] == CommandView::PlotObject(Point { x: self.position.x, y }, rows[i as int]));
                        assert(before.push(expected[1 + i]) =~= start + expected.take(2 + i));
                    }
                    match res {
                        Err(e) => {
                            proof {
                                assert(0 < 2 + i <= expected.len());
                                assert(plotter.commands() == start + expected.take(2 + i));
                            }
                            return Err(e);
                        },
                        Ok(()) => {},
                    }
                },
                None => {
                    proof {
                        assert(i == plottable_rows(self.position.y as int, n as int));
                        assert(expected.len() == 1 + i);
                        assert(expected.take(1 + i) =~= expected);
                    }
                    return Ok(());
                },
            }
            i += 1;
        }
        proof {
            assert(expected.take(1 + n) =~= expected);
        }
        Ok(())
    }

    /// The text as the label shows it: fitted to the label's area.
    fn fit_text(&self) -> (r: String)
        ensures
            r@ == fitted_text(self.text@, self.size.width as int, self.size.height as int),
    {
        let max_text_length = match self.size.width.checked_mul(self.size.height) {
            Some(n) => n,
            None => usize::MAX,
        };
        let byte_len = self.text.as_str().len();
        if byte_len <= max_text_length {
            self.text.clone()
        } else if max_text_length < 3 {
            repeated('.', max_text_length)
        } else {
            let graphemes_list = graphemes(self.text.as_str());
            let ghost gs = graphemes_of(self.text@);
            let kept = if max_text_length - 3 <= graphemes_list.len() {
                max_text_length - 3
            } else {
                graphemes_list.len()
            };
            let mut output_text = String::new();
            let mut k: usize = 0;
            while k < kept
                invariant
                    0 <= k <= kept <= graphemes_list.len(),
                    graphemes_list@.map_values(|g: String| g@) == gs,
                    output_text@ == concat_all(gs.take(k as int)),
                decreases kept - k,
            {
                append_str(&mut output_text, graphemes_list[k].as_str());
                proof {
                    assert(gs.take(k + 1).drop_last() =~= gs.take(k as int));
                    assert(gs[k as int] == graphemes_list@[k as int]@);
                }
                k += 1;
            }
            proof {
                reveal_strlit("...");
            }
            append_str(&mut output_text, "...");
            assert(kept == (if max_text_length - 3 <= gs.len() { max_text_length - 3 } else { gs.len() as int }));
            output_text
        }
    }

    /// Work out the rows that `render` plots.
    fn get_label_output_text(&mut self)
        ensures
            final(self).wf(),
            final(self).text_spec() == old(self).text_spec(),
            final(self).paintbrush_spec() == old(self).paintbrush_spec(),
            final(self).position_spec() == old(self).position_spec(),
            final(self).size_spec() == old(self).size_spec(),
    {
        let max_cols = self.size.width;
        let output_text = self.fit_text();
        let pieces = graphemes(output_text.as_str());
        let ghost gs = graphemes_of(output_text@);
        let ghost w = max_cols as int;
        let mut rows: Vec<String> = Vec::new();
        let mut row = String::new();
        let mut x: usize = 0;
        let mut i: usize = 0;
        proof {
            assert(rows.len() * w == 0) by (nonlinear_arith)
                requires
                    rows.len() == 0,
            ;
        }
        while i < pieces.len()
            invariant
                pieces@.map_values(|g: String| g@) == gs,
                w == max_cols,
                0 <= i <= pieces.len(),
                w > 0 ==> x < w,
                w > 0 ==> i == rows.len() * w + x,
                w > 0 ==> row@ == concat_all(gs.subrange(rows.len() * w, i as int)),
                w > 0 ==> rows@.map_values(|r: String| r@) == Seq::new(
                    rows.len() as nat,
                    |k: int| full_row(gs, w, k),
                ),
                w == 0 ==> rows.len() == 0 && x == i && row@ == concat_all(gs.subrange(0, i as int)),
            decreases pieces.len() - i,
        {
            let ghost start = if w > 0 { rows.len() * w } else { 0 };
            proof {
                assert(gs.subrange(start, i + 1).drop_last() =~= gs.subrange(start, i as int));
                assert(gs[i as int] == pieces@[i as int]@);
            }
            append_str(&mut row, pieces[i].as_str());
            x += 1;
            i += 1;
            if x == max_cols {
                proof {
                    assert(i == rows.len() * w + w);
                    assert(rows.len() * w + w == (rows.len() + 1) * w) by (nonlinear_arith);
                }
                let ghost before = rows@.map_values(|r: String| r@);
                let ghost old_len = rows.len() as int;
                proof {
                    assert(row@ == full_row(gs, w, old_len));
                }
                rows.push(row);
                row = String::new();
                x = 0;
                proof {
                    assert(rows@.map_values(|r: String| r@) == before.push(full_row(gs, w, old_len)));
                    assert(rows@.map_values(|r: String| r@) =~= Seq::new(
                        rows.len() as nat,
                        |k: int| full_row(gs, w, k),
                    ));
                    assert(gs.subrange(rows.len() * w, i as int) =~= seq![]);
                }
            }
        }
        let ghost full_count = rows.len() as int;
        let ghost partial = row@;
        proof {
            assert(i == gs.len());
            if w > 0 {
                vstd::arithmetic::div_mod::lemma_fundamental_div_mod_converse_div(
                    gs.len() as int, w, full_count, x as int);
                vstd::arithmetic::div_mod::lemma_fundamental_div_mod_converse_mod(
                    gs.len() as int, w, full_count, x as int);
                assert(gs.subrange(full_count * w, gs.len() as int) =~= gs.subrange(full_count * w, i as int));
            } else {
                assert(gs.subrange(0, i as int) =~= gs);
            }
        }
        if x > 0 {
            let row_len = row.as_str().len();
            if row_len < max_cols {
                let padding = repeated(' ', max_cols - row_len);
                append_str(&mut row, padding.as_str());
            }
            proof {
                if w > 0 {
                    assert(row@ == pad_row(concat_all(gs.subrange(full_count * w, gs.len() as int)), w));
                } else {
                    assert(row@ == pad_row(concat_all(gs), w));
                }
            }
            rows.push(row);
        }
        proof {
            if w <= 0 && x == 0 {
                assert(gs.len() == 0);
            }
            assert(rows@.map_values(|r: String| r@) =~= wrap_rows(gs, w));
        }
        let height = self.size.height;
        let empty_row = repeated(' ', max_cols);
        while rows.len() < height
            invariant
                empty_row@ == repeat_char(' ', w),
                gs == graphemes_of(fitted_text(self.text@, w, height as int)),
                w == self.size.width,
                height == self.size.height,
                rows.len() <= height || rows.len() == wrap_rows(gs, w).len(),
                rows@.map_values(|r: String| r@).subrange(0, wrap_rows(gs, w).len() as int) == wrap_rows(gs, w),
                rows.len() >= wrap_rows(gs, w).len(),
                forall|k: int| wrap_rows(gs, w).len() <= k < rows.len() ==> #[trigger] rows@[k]@ == repeat_char(' ', w),
            decreases height - rows.len(),
        {
            rows.push(empty_row.clone());
        }
        proof {
            assert(rows@.map_values(|r: String| r@) =~= label_rows(self.text@, w, height as int));
        }
        self.output_text_rows = rows;
    }
}

} // verus!
