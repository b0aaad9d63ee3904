use vstd::prelude::*;
use crate::geometry::{Dimensions, Point};
use crate::lowlevel::{issued, CommandView, Paintbrush, Plotter};
use crate::text_label::{graphemes, graphemes_of, repeat_char};

verus! {

const EMPTY_CHAR: char = ' ';

/// Relies on std::io::Error::new with ErrorKind::InvalidInput: an error
/// that carries `message`.
#[verifier::external_body]
fn invalid_input(message: &str) -> std::io::Error {
    std::io::Error::new(std::io::ErrorKind::InvalidInput, message)
}

/// What the canvas does when it is next rendered.
enum CanvasCommand {
    /// Draw text at a point relative to the canvas.
    Draw(Point, String),
    /// Use another paintbrush for what follows.
    ChangeColor(Paintbrush),
}

impl CanvasCommand {
    spec fn view_command(&self) -> CommandView {
        match self {
            CanvasCommand::Draw(p, s) => CommandView::PlotObject(*p, s@),
            CanvasCommand::ChangeColor(pb) => CommandView::SetPaintbrush(*pb),
        }
    }
}

/// A row of `width` blank characters on line `row` of a canvas.
pub open spec fn blank_row(row: int, width: int) -> CommandView {
    CommandView::PlotObject(Point { x: 0, y: row as usize }, repeat_char(' ', width))
}

/// What rendering the queue `pending` of a canvas at `position` issues:
/// each command in order, text moved by `position`; text whose moved
/// position would pass the range of a `usize` is left out.
pub open spec fn placed(pending: Seq<CommandView>, position: Point) -> Seq<CommandView>
    decreases pending.len(),
{
    if pending.len() == 0 {
        seq![]
    } else {
        let rest = placed(pending.drop_last(), position);
        match pending.last() {
            CommandView::PlotObject(p, s) => if p.x + position.x <= usize::MAX && p.y + position.y <= usize::MAX {
                rest.push(CommandView::PlotObject(
                    Point { x: (p.x + position.x) as usize, y: (p.y + position.y) as usize },
                    s,
                ))
            } else {
                rest
            },
            other => rest.push(other),
        }
    }
}

proof fn lemma_placed_prefix(q: Seq<CommandView>, position: Point, j: int)
    requires
        0 <= j <= q.len(),
    ensures
        placed(q.take(j), position).len() <= placed(q, position).len(),
        placed(q, position).take(placed(q.take(j), position).len() as int) == placed(q.take(j), position),
    decreases q.len(),
{
    if j == q.len() {
        assert(q.take(j) =~= q);
        assert(placed(q, position).take(placed(q, position).len() as int) =~= placed(q, position));
    } else {
        assert(q.take(j) =~= q.drop_last().take(j));
        lemma_placed_prefix(q.drop_last(), position, j);
        let a = placed(q.drop_last(), position);
        let b = placed(q.take(j), position);
        assert(placed(q, position).take(b.len() as int) =~= a.take(b.len() as int));
    }
}

/// A rectangle of characters at `position`. Drawing on it queues commands;
/// rendering plots them, offset by the canvas' position.
pub struct Canvas {
    pub position: Point,
    pub size: Dimensions,
    changes: Vec<CanvasCommand>,
}

impl Canvas {
    /// Where the canvas' top left corner is plotted.
    pub closed spec fn position_spec(&self) -> Point {
        self.position
    }

    /// The canvas' size.
    pub closed spec fn size_spec(&self) -> Dimensions {
        self.size
    }

    /// The commands waiting for the next render, with points relative to
    /// the canvas.
    pub closed spec fn pending(&self) -> Seq<CommandView> {
        self.changes@.map_values(|c: CanvasCommand| c.view_command())
    }

    /// A canvas whose first render blanks each of its rows.
    pub fn new(position: Point, size: Dimensions) -> (r: Self)
        ensures
            r.position_spec() == position,
            r.size_spec() == size,
            r.pending() == Seq::new(size.height as nat, |k: int| blank_row(k, size.width as int)),
    {
        let mut columns_str = String::new();
        let mut i: usize = 0;
        while i < size.width
            invariant
                0 <= i <= size.width,
                columns_str@ == repeat_char(EMPTY_CHAR, i as int),
            decreases size.width - i,
        {
            crate::text::push_char(&mut columns_str, EMPTY_CHAR);
            i += 1;
            proof {
                assert(columns_str@ =~= repeat_char(EMPTY_CHAR, i as int));
            }
        }
        let mut changes: Vec<CanvasCommand> = Vec::new();
        let mut row_idx: usize = 0;
        while row_idx < size.height
            invariant
                0 <= row_idx <= size.height,
                columns_str@ == repeat_char(' ', size.width as int),
                changes@.map_values(|c: CanvasCommand| c.view_command()) == Seq::new(
                    row_idx as nat,
                    |k: int| blank_row(k, size.width as int),
                ),
            decreases size.height - row_idx,
        {
            let ghost before = changes@.map_values(|c: CanvasCommand| c.view_command());
            let row_text = columns_str.clone();
            changes.push(CanvasCommand::Draw(Point { x: 0, y: row_idx }, row_text));
            proof {
                assert(changes@.map_values(|c: CanvasCommand| c.view_command()) =~= before.push(
                    blank_row(row_idx as int, size.width as int),
                ));
            }
            row_idx += 1;
            proof {
                assert(changes@.map_values(|c: CanvasCommand| c.view_command()) =~= Seq::new(
                    row_idx as nat,
                    |k: int| blank_row(k, size.width as int),
                ));
            }
        }
        Canvas { position, size, changes }
    }

    /// Queue `val`, in `paintbrush`, at `position` relative to the canvas.
    /// Fails, queueing nothing, where the text would run past the right
    /// edge.
    pub fn draw_str(&mut self, paintbrush: Paintbrush, position: Point, val: &str) -> (r: Result<(), std::io::Error>)
        ensures
            final(self).position_spec() == old(self).position_spec(),
            final(self).size_spec() == old(self).size_spec(),
            r is Err <==> graphemes_of(val@).len() + position.x > old(self).size_spec().width,
            r is Ok ==> final(self).pending() == old(self).pending().push(
                CommandView::SetPaintbrush(paintbrush),
            ).push(CommandView::PlotObject(position, val@)),
            r is Err ==> final(self).pending() == old(self).pending(),
    {
        let count = graphemes(val).len();
        if position.x > self.size.width || count > self.size.width - position.x {
            return Err(invalid_input("String of characters would exceed the width of the canvas"));
        }
        self.changes.push(CanvasCommand::ChangeColor(paintbrush));
        self.changes.push(CanvasCommand::Draw(position, String::from_str(val)));
        proof {
            assert(self.pending()[self.pending().len() - 1] == CommandView::PlotObject(position, val@));
            assert(self.pending() =~= old(self).pending().push(
                CommandView::SetPaintbrush(paintbrush),
            ).push(CommandView::PlotObject(position, val@)));
        }
        Ok(())
    }

    /// Send the queued commands to `plotter` in order, each point moved by
    /// the canvas' position (text that would start beyond the range of a
    /// `usize` is dropped), and empty the queue. The first error stops the
    /// sending; the queue is emptied all the same.
    pub fn render<PlotterT: Plotter>(&mut self, plotter: &mut PlotterT) -> (r: Result<(), std::io::Error>)
        ensures
            final(self).position_spec() == old(self).position_spec(),
            final(self).size_spec() == old(self).size_spec(),
            final(self).pending().len() == 0,
            issued(
                old(plotter).commands(),
                final(plotter).commands(),
                placed(old(self).pending(), old(self).position_spec()),
                r is Ok,
            ),
    {
        let ghost start = plotter.commands();
        let ghost queued = self.pending();
        let ghost expected = placed(queued, self.position);
        let mut commands: Vec<CanvasCommand> = Vec::new();
        std::mem::swap(&mut self.changes, &mut commands);
        proof {
            assert(self.pending() =~= seq![]);
            assert(queued.take(0) =~= seq![]);
            assert(start + placed(queued.take(0), self.position) =~= start);
        }
        let mut k: usize = 0;
        while k < commands.len()
            invariant
                self.changes@.len() == 0,
                self.position == old(self).position,
                self.size == old(self).size,
                start == old(plotter).commands(),
                queued == old(self).pending(),
                queued == commands@.map_values(|c: CanvasCommand| c.view_command()),
                expected == placed(queued, self.position),
                0 <= k <= commands.len(),
                plotter.commands() == start + placed(queued.take(k as int), self.position),
            decreases commands.len() - k,
        {
            let ghost before = plotter.commands();
            proof {
                assert(queued.take(k + 1).drop_last() =~= queued.take(k as int));
                assert(queued[k as int] == commands@[k as int].view_command());
                lemma_placed_prefix(queued, self.position, k + 1);
            }
            let r = match &commands[k] {
                CanvasCommand::Draw(pos, s) => {
                    // A point past the range of a usize lies off any screen.
                    match (pos.x.checked_add(self.position.x), pos.y.checked_add(self.position.y)) {
                        (Some(x), Some(y)) => plotter.plot(Point { x, y }, s.as_str()),
                        _ => Ok(()),
                    }
                },
                CanvasCommand::ChangeColor(pb) => plotter.set_paintbrush(pb),
            };
            proof {
                assert(plotter.commands() =~= start + placed(queued.take(k + 1), self.position));
            }
            if r.is_err() {
                proof {
                    let n = placed(queued.take(k + 1), self.position).len() as int;
                    assert(plotter.commands() == start + expected.take(n));
                    assert(n > 0);
                }
                return r;
            }
            k += 1;
        }
        proof {
            assert(queued.take(commands@.len() as int) =~= queued);
        }
        Ok(())
    }
}

} // verus!
