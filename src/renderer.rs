use vstd::prelude::*;
use crate::cell::Cell;
use crate::geometry::{Dimensions, Point};
use crate::text::push_char;

verus! {

/// The state that `p` shows after the changes `cs`, starting from `start`:
/// the state of the last change to `p`, or `start` where none names `p`.
pub open spec fn applied_cell(start: Cell, p: Point, cs: Seq<(Point, Cell)>) -> Cell
    decreases cs.len(),
{
    if cs.len() == 0 {
        start
    } else if cs.last().0 == p {
        cs.last().1
    } else {
        applied_cell(start, p, cs.drop_last())
    }
}

/// A consumer of the board's change sets: it draws them somewhere.
///
/// A renderer handles its own failures; none of its operations report an
/// error back to the board.
pub trait Renderer {
    /// The change sets received so far, in the order they came.
    spec fn received(&self) -> Seq<Seq<(Point, Cell)>>;

    /// Whether the renderer can show the cell at `p`.
    spec fn drawable(&self, p: Point) -> bool;

    /// The state that the renderer shows for the cell at `p`.
    spec fn shown(&self, p: Point) -> Cell;

    /// Prepare the output once, before the first change set arrives.
    fn initialize(&mut self);

    /// The grid size that the renderer can show.
    fn get_grid_size(&self) -> Dimensions;

    /// Apply the given `(address, new state)` pairs, in order, to the cells
    /// that the renderer can show, and leave every other cell as it is.
    fn apply_changes(&mut self, changes: Vec<(Point, Cell)>)
        ensures
            final(self).received() == old(self).received().push(changes@),
            forall|p: Point| #[trigger] final(self).drawable(p) == old(self).drawable(p),
            forall|p: Point|
                #[trigger] final(self).shown(p) == if old(self).drawable(p) {
                    applied_cell(old(self).shown(p), p, changes@)
                } else {
                    old(self).shown(p)
                },
    ;
}

/// One line of a mock renderer's picture: `*` for a living cell, a space
/// for a dead one.
pub open spec fn row_text(m: MockRenderer, y: int) -> Seq<char> {
    Seq::new(
        m.size_spec().width as nat,
        |x: int| if m.shown(Point { x: x as usize, y: y as usize }) == Cell::Alive { '*' } else { ' ' },
    )
}

/// The first `n` lines of a mock renderer's picture, joined by newlines.
pub open spec fn grid_text(m: MockRenderer, n: int) -> Seq<char>
    decreases n,
{
    if n <= 0 {
        seq![]
    } else if n == 1 {
        row_text(m, 0)
    } else {
        grid_text(m, n - 1) + seq!['\n'] + row_text(m, n - 1)
    }
}

/// A renderer that draws nothing: it keeps the grid that the change sets
/// describe, starting all dead, and every change set it receives.
pub struct MockRenderer {
    size: Dimensions,
    rendered_grid: Vec<Cell>,
    pub change_sets: Vec<Vec<(Point, Cell)>>,
}

impl MockRenderer {
    /// The size of the grid.
    pub closed spec fn size_spec(&self) -> Dimensions {
        self.size
    }

    /// The cells as drawn, row by row.
    pub closed spec fn cells(&self) -> Seq<Cell> {
        self.rendered_grid@
    }

    /// A 5 by 5 mock renderer, all dead.
    pub fn new() -> (r: MockRenderer)
        ensures
            r.size_spec() == (Dimensions { width: 5, height: 5 }),
            r.cells() == Seq::new(25, |i: int| Cell::Dead),
            r.received().len() == 0,
    {
        Self::new_with_size(Dimensions { width: 5, height: 5 })
    }

    /// A mock renderer of `size`, all dead.
    pub fn new_with_size(size: Dimensions) -> (r: MockRenderer)
        requires
            size.area() <= usize::MAX,
        ensures
            r.size_spec() == size,
            r.cells() == Seq::new(size.area() as nat, |i: int| Cell::Dead),
            r.received().len() == 0,
    {
        let n = size.total_area();
        let mut rendered_grid: Vec<Cell> = Vec::new();
        let mut i: usize = 0;
        while i < n
            invariant
                0 <= i <= n,
                rendered_grid@ == Seq::new(i as nat, |k: int| Cell::Dead),
            decreases n - i,
        {
            rendered_grid.push(Cell::Dead);
            i += 1;
            proof {
                assert(rendered_grid@ =~= Seq::new(i as nat, |k: int| Cell::Dead));
            }
        }
        let r = MockRenderer { size, rendered_grid, change_sets: Vec::new() };
        proof {
            assert(r.received() =~= Seq::empty());
        }
        r
    }

    /// The grid as text: one line per row, `*` for a living cell and a
    /// space for a dead one, lines joined by newlines.
    pub fn print_grid(&self) -> (r: String)
        ensures
            r@ == grid_text(*self, self.size_spec().height as int),
    {
        let mut result = String::new();
        let mut y: usize = 0;
        while y < self.size.height
            invariant
                0 <= y <= self.size.height,
                result@ == grid_text(*self, y as int),
            decreases self.size.height - y,
        {
            let ghost start = result@;
            if y > 0 {
                push_char(&mut result, '\n');
            }
            let ghost line_start = result@;
            let mut x: usize = 0;
            while x < self.size.width
                invariant
                    0 <= x <= self.size.width,
                    result@ == line_start + row_text(*self, y as int).take(x as int),
                decreases self.size.width - x,
            {
                let c = match self.cell_at(Point { x, y }) {
                    Some(Cell::Alive) => '*',
                    _ => ' ',
                };
                push_char(&mut result, c);
                proof {
                    assert(row_text(*self, y as int).take(x + 1) =~= row_text(*self, y as int).take(x as int).push(c));
                }
                x += 1;
            }
            proof {
                assert(row_text(*self, y as int).take(self.size.width as int) =~= row_text(*self, y as int));
            }
            y += 1;
        }
        result
    }

    /// The drawn state at `p`, where the renderer can show `p`.
    fn cell_at(&self, p: Point) -> (r: Option<Cell>)
        ensures
            r is Some <==> self.drawable(p),
            r is Some ==> r->0 == self.shown(p),
    {
        let n = self.rendered_grid.len();
        if p.x >= self.size.width {
            return None;
        }
        match p.y.checked_mul(self.size.width) {
            Some(row_start) => match row_start.checked_add(p.x) {
                Some(i) => if i < n {
                    Some(self.rendered_grid[i])
                } else {
                    None
                },
                None => None,
            },
            None => None,
        }
    }
}

/// Two addresses of one row-major grid `w` wide share an index only when
/// they are equal.
proof fn lemma_index_injective(p: Point, q: Point, w: int)
    requires
        p.x < w,
        q.x < w,
        p.y * w + p.x == q.y * w + q.x,
    ensures
        p == q,
{
    vstd::arithmetic::div_mod::lemma_fundamental_div_mod_converse_div(p.y * w + p.x, w, p.y as int, p.x as int);
    vstd::arithmetic::div_mod::lemma_fundamental_div_mod_converse_div(q.y * w + q.x, w, q.y as int, q.x as int);
    vstd::arithmetic::div_mod::lemma_fundamental_div_mod_converse_mod(p.y * w + p.x, w, p.y as int, p.x as int);
    vstd::arithmetic::div_mod::lemma_fundamental_div_mod_converse_mod(q.y * w + q.x, w, q.y as int, q.x as int);
}

impl Renderer for MockRenderer {
    closed spec fn received(&self) -> Seq<Seq<(Point, Cell)>> {
        self.change_sets@.map_values(|c: Vec<(Point, Cell)>| c@)
    }

    /// `p` lies within the grid.
    open spec fn drawable(&self, p: Point) -> bool {
        p.x < self.size_spec().width && p.y * self.size_spec().width + p.x < self.cells().len()
    }

    /// The drawn state of `p`; dead off the grid.
    open spec fn shown(&self, p: Point) -> Cell {
        if self.drawable(p) {
            self.cells()[p.y * self.size_spec().width + p.x]
        } else {
            Cell::Dead
        }
    }

    fn initialize(&mut self) {
    }

    fn get_grid_size(&self) -> (r: Dimensions)
        ensures
            r == self.size_spec(),
    {
        self.size
    }

    /// Draw each change that lies on the grid, then keep the change set.
    fn apply_changes(&mut self, changes: Vec<(Point, Cell)>) {
        let ghost before = self.received();
        let ghost old_self = *self;
        let mut k: usize = 0;
        while k < changes.len()
            invariant
                0 <= k <= changes.len(),
                self.change_sets@.map_values(|c: Vec<(Point, Cell)>| c@) == before,
                self.size == old_self.size,
                self.rendered_grid@.len() == old_self.rendered_grid@.len(),
                forall|p: Point| #[trigger] self.shown(p) == if old_self.drawable(p) {
                    applied_cell(old_self.shown(p), p, changes@.take(k as int))
                } else {
                    old_self.shown(p)
                },
            decreases changes.len() - k,
        {
            let (q, c) = changes[k];
            let ghost mid = *self;
            match self.cell_index(q) {
                Some(i) => {
                    self.rendered_grid.set(i, c);
                },
                None => {},
            }
            proof {
                assert(changes@.take(k + 1).drop_last() =~= changes@.take(k as int));
                assert forall|p: Point| #[trigger] self.shown(p) == if old_self.drawable(p) {
                    applied_cell(old_self.shown(p), p, changes@.take(k + 1))
                } else {
                    old_self.shown(p)
                } by {
                    assert(mid.drawable(p) == old_self.drawable(p));
                    if self.drawable(p) && self.drawable(q) && p != q {
                        if p.y * self.size.width + p.x == q.y * self.size.width + q.x {
                            lemma_index_injective(p, q, self.size.width as int);
                        }
                    }
                }
            }
            k += 1;
        }
        proof {
            assert(changes@.take(changes@.len() as int) =~= changes@);
            assert forall|p: Point| #[trigger] self.shown(p) == if old_self.drawable(p) {
                applied_cell(old_self.shown(p), p, changes@)
            } else {
                old_self.shown(p)
            } by {}
        }
        let ghost drawn = *self;
        self.change_sets.push(changes);
        proof {
            assert(self.received() =~= before.push(changes@));
            assert(old_self == *old(self));
            assert forall|p: Point| #[trigger] self.shown(p) == drawn.shown(p) by {
                assert(self.cells() == drawn.cells());
            }
        }
    }
}

impl MockRenderer {
    /// The index of `p` in the row-major grid, where the renderer shows `p`.
    fn cell_index(&self, p: Point) -> (r: Option<usize>)
        ensures
            r is Some <==> self.drawable(p),
            r is Some ==> r->0 == p.y * self.size_spec().width + p.x,
    {
        let n = self.rendered_grid.len();
        if p.x >= self.size.width {
            return None;
        }
        match p.y.checked_mul(self.size.width) {
            Some(row_start) => match row_start.checked_add(p.x) {
                Some(i) => if i < n { Some(i) } else { None },
                None => None,
            },
            None => None,
        }
    }
}

} // verus!
