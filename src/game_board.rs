use vstd::prelude::*;
use vstd::arithmetic::div_mod::{
    lemma_fundamental_div_mod, lemma_fundamental_div_mod_converse_div,
    lemma_fundamental_div_mod_converse_mod, lemma_mod_pos_bound,
};
use crate::cell::{Cell, CellGenerator, UserCellGenerator};
use crate::geometry::{Dimensions, Point};
use crate::renderer::Renderer;

verus! {

/// Row-major position of `p` in a grid `width` cells wide.
pub open spec fn cell_index(p: Point, width: int) -> int {
    p.y * width + p.x
}

/// The address of the `i`-th cell of a row-major grid `width` cells wide.
pub open spec fn address_of(i: int, width: int) -> Point {
    Point { x: (i % width) as usize, y: (i / width) as usize }
}

/// Whether `p` lies on a board of size `d`.
pub open spec fn on_board(p: Point, d: Dimensions) -> bool {
    p.x < d.width && p.y < d.height
}

/// The coordinate before `v` on a ring of `n` positions.
pub open spec fn wrap_prev(v: int, n: int) -> int {
    if v == 0 { n - 1 } else { v - 1 }
}

/// The coordinate after `v` on a ring of `n` positions.
pub open spec fn wrap_next(v: int, n: int) -> int {
    if v == n - 1 { 0 } else { v + 1 }
}

/// The eight neighbours of `p` on a torus of size `d`: the row above left to
/// right, then left and right, then the row below left to right.
pub open spec fn neighbours(p: Point, d: Dimensions) -> Seq<Point> {
    let left = wrap_prev(p.x as int, d.width as int) as usize;
    let right = wrap_next(p.x as int, d.width as int) as usize;
    let above = wrap_prev(p.y as int, d.height as int) as usize;
    let below = wrap_next(p.y as int, d.height as int) as usize;
    seq![
        Point { x: left, y: above },
        Point { x: p.x, y: above },
        Point { x: right, y: above },
        Point { x: left, y: p.y },
        Point { x: right, y: p.y },
        Point { x: left, y: below },
        Point { x: p.x, y: below },
        Point { x: right, y: below },
    ]
}

/// How many of the addresses in `ps` hold a living cell of grid `g`.
pub open spec fn count_alive(g: Seq<Cell>, width: int, ps: Seq<Point>) -> nat
    decreases ps.len(),
{
    if ps.len() == 0 {
        0
    } else {
        count_alive(g, width, ps.drop_last()) + if g[cell_index(ps.last(), width)] == Cell::Alive {
            1nat
        } else {
            0nat
        }
    }
}

/// The number of living neighbours of `p`.
pub open spec fn live_neighbours(g: Seq<Cell>, d: Dimensions, p: Point) -> nat {
    count_alive(g, d.width as int, neighbours(p, d))
}

/// The rule of the automaton: the state that follows `c` when it has `n`
/// living neighbours.
pub open spec fn next_cell(c: Cell, n: nat) -> Cell {
    match c {
        Cell::Alive => if n == 2 || n == 3 { Cell::Alive } else { Cell::Dead },
        Cell::Dead => if n == 3 { Cell::Alive } else { Cell::Dead },
    }
}

/// The generation that follows grid `g` on a torus of size `d`, every cell
/// computed from `g` alone.
pub open spec fn next_generation(g: Seq<Cell>, d: Dimensions) -> Seq<Cell> {
    Seq::new(g.len(), |i: int| next_cell(g[i], live_neighbours(g, d, address_of(i, d.width as int))))
}

/// The cells among the first `n` whose state differs between `before` and
/// `after`, in row-major order, each with its new state.
pub open spec fn changes_upto(before: Seq<Cell>, after: Seq<Cell>, width: int, n: int) -> Seq<(Point, Cell)>
    decreases n,
{
    if n <= 0 {
        seq![]
    } else {
        let earlier = changes_upto(before, after, width, n - 1);
        if before[n - 1] != after[n - 1] {
            earlier.push((address_of(n - 1, width), after[n - 1]))
        } else {
            earlier
        }
    }
}

/// The change set that leads from grid `before` to grid `after`.
pub open spec fn change_set(before: Seq<Cell>, after: Seq<Cell>, width: int) -> Seq<(Point, Cell)> {
    changes_upto(before, after, width, before.len() as int)
}

/// A grid of `n` dead cells: what a renderer shows before the first change set.
pub open spec fn dead_grid(n: nat) -> Seq<Cell> {
    Seq::new(n, |i: int| Cell::Dead)
}

/// Facts on the row-major layout of a `w` by `h` grid.
proof fn lemma_address_of(i: int, w: int, h: int)
    requires
        w > 0,
        h > 0,
        0 <= i < w * h,
    ensures
        0 <= i % w < w,
        0 <= i / w < h,
        (i / w) * w + i % w == i,
{
    lemma_fundamental_div_mod(i, w);
    lemma_mod_pos_bound(i, w);
    let q = i / w;
    let r = i % w;
    assert(0 <= q < h) by (nonlinear_arith)
        requires
            i == w * q + r,
            0 <= r < w,
            0 <= i < w * h,
            w > 0,
    ;
    assert(q * w == w * q) by (nonlinear_arith);
}

/// The index of an address on the board, and back.
proof fn lemma_cell_index(p: Point, d: Dimensions)
    requires
        d.width > 0,
        on_board(p, d),
    ensures
        0 <= cell_index(p, d.width as int) < d.area(),
        address_of(cell_index(p, d.width as int), d.width as int) == p,
{
    let w = d.width as int;
    let h = d.height as int;
    let x = p.x as int;
    let y = p.y as int;
    assert(0 <= y * w + x < w * h) by (nonlinear_arith)
        requires
            0 <= x < w,
            0 <= y < h,
    ;
    lemma_fundamental_div_mod_converse_div(y * w + x, w, y, x);
    lemma_fundamental_div_mod_converse_mod(y * w + x, w, y, x);
}

proof fn lemma_wrap_mod(v: int, n: int)
    requires
        0 <= v < n,
    ensures
        wrap_prev(v, n) == (v + n - 1) % n,
        wrap_next(v, n) == (v + 1) % n,
{
    if v == 0 {
        lemma_fundamental_div_mod_converse_mod(v + n - 1, n, 0, n - 1);
    } else {
        lemma_fundamental_div_mod_converse_mod(v + n - 1, n, 1, v - 1);
    }
    if v == n - 1 {
        lemma_fundamental_div_mod_converse_mod(v + 1, n, 1, 0);
    } else {
        lemma_fundamental_div_mod_converse_mod(v + 1, n, 0, v + 1);
    }
}

/// The neighbourhood wraps round the board: each neighbour's coordinates
/// are those of `p` moved by -1, 0 or +1 modulo the board's width and
/// height, so the neighbour right of x = W - 1 has x = 0 and the one below
/// y = H - 1 has y = 0.
pub proof fn lemma_neighbours_wrap(p: Point, d: Dimensions)
    requires
        d.width >= 1,
        d.height >= 1,
        on_board(p, d),
    ensures
        ({
            let w = d.width as int;
            let h = d.height as int;
            let left = ((p.x + w - 1) % w) as usize;
            let right = ((p.x + 1) % w) as usize;
            let above = ((p.y + h - 1) % h) as usize;
            let below = ((p.y + 1) % h) as usize;
            neighbours(p, d) == seq![
                Point { x: left, y: above },
                Point { x: p.x, y: above },
                Point { x: right, y: above },
                Point { x: left, y: p.y },
                Point { x: right, y: p.y },
                Point { x: left, y: below },
                Point { x: p.x, y: below },
                Point { x: right, y: below },
            ]
        }),
        p.x == d.width - 1 ==> neighbours(p, d)[4].x == 0,
        p.y == d.height - 1 ==> neighbours(p, d)[6].y == 0,
        forall|k: int| 0 <= k < 8 ==> on_board(#[trigger] neighbours(p, d)[k], d),
{
    lemma_wrap_mod(p.x as int, d.width as int);
    lemma_wrap_mod(p.y as int, d.height as int);
}

/// 1 where `b` holds, else 0.
pub open spec fn indicator(b: bool) -> int {
    if b { 1 } else { 0 }
}

/// The grid of size `d` whose living cells are those with their column in
/// `xs` and their row in `ys`.
pub open spec fn rect_grid(d: Dimensions, xs: Set<int>, ys: Set<int>) -> Seq<Cell> {
    Seq::new(
        d.area() as nat,
        |i: int|
            if xs.contains(address_of(i, d.width as int).x as int) && ys.contains(
                address_of(i, d.width as int).y as int,
            ) {
                Cell::Alive
            } else {
                Cell::Dead
            },
    )
}

proof fn lemma_count_alive_step(g: Seq<Cell>, w: int, ps: Seq<Point>, k: int)
    requires
        0 <= k < ps.len(),
    ensures
        count_alive(g, w, ps.subrange(0, k + 1)) == count_alive(g, w, ps.subrange(0, k)) + indicator(
            g[cell_index(ps[k], w)] == Cell::Alive,
        ),
{
    assert(ps.subrange(0, k + 1).drop_last() =~= ps.subrange(0, k));
}

/// In a rectangular pattern, the living neighbours of `p` are the products
/// of the living columns and rows round it, less `p` itself.
proof fn lemma_rect_neighbours(d: Dimensions, xs: Set<int>, ys: Set<int>, p: Point)
    requires
        d.width >= 1,
        d.height >= 1,
        on_board(p, d),
    ensures
        ({
            let w = d.width as int;
            let h = d.height as int;
            let sx = indicator(xs.contains(wrap_prev(p.x as int, w))) + indicator(xs.contains(p.x as int))
                + indicator(xs.contains(wrap_next(p.x as int, w)));
            let sy = indicator(ys.contains(wrap_prev(p.y as int, h))) + indicator(ys.contains(p.y as int))
                + indicator(ys.contains(wrap_next(p.y as int, h)));
            live_neighbours(rect_grid(d, xs, ys), d, p) == sx * sy - indicator(xs.contains(p.x as int))
                * indicator(ys.contains(p.y as int))
        }),
{
    let w = d.width as int;
    let g = rect_grid(d, xs, ys);
    let ns = neighbours(p, d);
    lemma_neighbours_wrap(p, d);
    assert forall|k: int| 0 <= k < 8 implies g[cell_index(#[trigger] ns[k], w)] == if xs.contains(
        ns[k].x as int,
    ) && ys.contains(ns[k].y as int) {
        Cell::Alive
    } else {
        Cell::Dead
    } by {
        lemma_cell_index(ns[k], d);
    }
    lemma_count_alive_step(g, w, ns, 0);
    lemma_count_alive_step(g, w, ns, 1);
    lemma_count_alive_step(g, w, ns, 2);
    lemma_count_alive_step(g, w, ns, 3);
    lemma_count_alive_step(g, w, ns, 4);
    lemma_count_alive_step(g, w, ns, 5);
    lemma_count_alive_step(g, w, ns, 6);
    lemma_count_alive_step(g, w, ns, 7);
    assert(ns.subrange(0, 8) =~= ns);
    assert(count_alive(g, w, ns.subrange(0, 0)) == 0);
    let a1 = indicator(xs.contains(wrap_prev(p.x as int, w)));
    let a2 = indicator(xs.contains(p.x as int));
    let a3 = indicator(xs.contains(wrap_next(p.x as int, w)));
    let b1 = indicator(ys.contains(wrap_prev(p.y as int, d.height as int)));
    let b2 = indicator(ys.contains(p.y as int));
    let b3 = indicator(ys.contains(wrap_next(p.y as int, d.height as int)));
    assert(live_neighbours(g, d, p) == a1 * b1 + a2 * b1 + a3 * b1 + a1 * b2 + a3 * b2 + a1 * b3 + a2 * b3 + a3 * b3);
    assert(a1 * b1 + a2 * b1 + a3 * b1 + a1 * b2 + a3 * b2 + a1 * b3 + a2 * b3 + a3 * b3 == (a1 + a2 + a3) * (b1 + b2 + b3) - a2 * b2) by (nonlinear_arith);
}

/// How many of the three ring positions round `v` lie in `xs`.
pub open spec fn axis_count(xs: Set<int>, v: int, n: int) -> int {
    indicator(xs.contains(wrap_prev(v, n))) + indicator(xs.contains(v)) + indicator(xs.contains(wrap_next(v, n)))
}

proof fn lemma_pair_axis(v: int, n: int, b: int)
    requires
        n >= 4,
        0 <= v < n,
        0 <= b < n,
    ensures
        set![b, wrap_next(b, n)].contains(v) ==> axis_count(set![b, wrap_next(b, n)], v, n) == 2,
        !set![b, wrap_next(b, n)].contains(v) ==> axis_count(set![b, wrap_next(b, n)], v, n) <= 1,
{
}

proof fn lemma_single_axis(v: int, n: int, b: int)
    requires
        n >= 3,
        0 <= v < n,
        0 <= b < n,
    ensures
        axis_count(set![b], v, n) == if v == b || v == wrap_prev(b, n) || v == wrap_next(b, n) { 1int } else { 0int },
{
}

proof fn lemma_triple_axis(v: int, n: int, b: int)
    requires
        n >= 5,
        0 <= v < n,
        0 <= b < n,
    ensures
        v == b ==> axis_count(set![wrap_prev(b, n), b, wrap_next(b, n)], v, n) == 3,
        v != b && set![wrap_prev(b, n), b, wrap_next(b, n)].contains(v) ==> axis_count(
            set![wrap_prev(b, n), b, wrap_next(b, n)],
            v,
            n,
        ) == 2,
        !set![wrap_prev(b, n), b, wrap_next(b, n)].contains(v) ==> axis_count(
            set![wrap_prev(b, n), b, wrap_next(b, n)],
            v,
            n,
        ) <= 1,
{
}

/// A block: the 2 by 2 square whose top left cell is `(bx, by)`, wrapping
/// round the edges, on an otherwise dead board of size `d`.
pub open spec fn block_grid(d: Dimensions, bx: int, by: int) -> Seq<Cell> {
    rect_grid(d, set![bx, wrap_next(bx, d.width as int)], set![by, wrap_next(by, d.height as int)])
}

/// A blinker lying flat: three cells in row `by`, centred on column `bx`.
pub open spec fn horizontal_blinker(d: Dimensions, bx: int, by: int) -> Seq<Cell> {
    rect_grid(
        d,
        set![wrap_prev(bx, d.width as int), bx, wrap_next(bx, d.width as int)],
        set![by],
    )
}

/// A blinker standing up: three cells in column `bx`, centred on row `by`.
pub open spec fn vertical_blinker(d: Dimensions, bx: int, by: int) -> Seq<Cell> {
    rect_grid(
        d,
        set![bx],
        set![wrap_prev(by, d.height as int), by, wrap_next(by, d.height as int)],
    )
}

/// One cell of a block's next generation.
proof fn lemma_block_cell(d: Dimensions, bx: int, by: int, i: int)
    requires
        d.width >= 4,
        d.height >= 4,
        0 <= bx < d.width,
        0 <= by < d.height,
        0 <= i < d.area(),
    ensures
        next_generation(block_grid(d, bx, by), d)[i] == block_grid(d, bx, by)[i],
{
    let w = d.width as int;
    let h = d.height as int;
    let xs = set![bx, wrap_next(bx, w)];
    let ys = set![by, wrap_next(by, h)];
    let g = block_grid(d, bx, by);
    lemma_address_of(i, w, h);
    let p = address_of(i, w);
    lemma_rect_neighbours(d, xs, ys, p);
    lemma_pair_axis(p.x as int, w, bx);
    lemma_pair_axis(p.y as int, h, by);
    let sx = axis_count(xs, p.x as int, w);
    let sy = axis_count(ys, p.y as int, h);
    let cx = indicator(xs.contains(p.x as int));
    let cy = indicator(ys.contains(p.y as int));
    let n = live_neighbours(g, d, p);
    assert(n == sx * sy - cx * cy);
    assert(next_generation(g, d)[i] == next_cell(g[i], n));
    if xs.contains(p.x as int) && ys.contains(p.y as int) {
        assert(sx * sy - cx * cy == 3) by (nonlinear_arith)
            requires
                sx == 2,
                sy == 2,
                cx == 1,
                cy == 1,
        ;
    } else {
        assert(sx * sy - cx * cy <= 2) by (nonlinear_arith)
            requires
                0 <= sx <= 3,
                0 <= sy <= 3,
                sx <= 1 || sy <= 1,
                sx <= 2,
                sy <= 2,
                cx == 0 || cy == 0,
                0 <= cx <= 1,
                0 <= cy <= 1,
        ;
    }
}

/// A block on an otherwise dead board of at least 4 by 4 cells is a still
/// life: the next generation equals it, and the change set is empty.
pub proof fn lemma_block_is_still(d: Dimensions, bx: int, by: int)
    requires
        d.width >= 4,
        d.height >= 4,
        0 <= bx < d.width,
        0 <= by < d.height,
    ensures
        next_generation(block_grid(d, bx, by), d) == block_grid(d, bx, by),
        change_set(block_grid(d, bx, by), next_generation(block_grid(d, bx, by), d), d.width as int).len() == 0,
{
    let w = d.width as int;
    let h = d.height as int;
    let xs = set![bx, wrap_next(bx, w)];
    let ys = set![by, wrap_next(by, h)];
    let g = block_grid(d, bx, by);
    let next = next_generation(g, d);
    assert forall|i: int| 0 <= i < g.len() implies #[trigger] next[i] == g[i] by {
        lemma_block_cell(d, bx, by, i);
    }
    assert(next =~= g);
    lemma_change_set_minimal(g, next, w);
}

/// The product of a count of at most 3 and a count of 0 or 1.
proof fn lemma_small_product(sx: int, sy: int)
    requires
        0 <= sx <= 3,
        sy == 0 || sy == 1,
    ensures
        sx * sy == if sy == 1 { sx } else { 0 },
{
    if sy == 1 {
        assert(sx * sy == sx) by (nonlinear_arith)
            requires
                sy == 1,
        ;
    } else {
        assert(sx * sy == 0) by (nonlinear_arith)
            requires
                sy == 0,
        ;
    }
}

/// One cell of a flat blinker's next generation.
proof fn lemma_flat_blinker_cell(d: Dimensions, bx: int, by: int, i: int)
    requires
        d.width >= 5,
        d.height >= 5,
        0 <= bx < d.width,
        0 <= by < d.height,
        0 <= i < d.area(),
    ensures
        next_generation(horizontal_blinker(d, bx, by), d)[i] == vertical_blinker(d, bx, by)[i],
{
    let w = d.width as int;
    let h = d.height as int;
    let row3 = set![wrap_prev(bx, w), bx, wrap_next(bx, w)];
    let col3 = set![wrap_prev(by, h), by, wrap_next(by, h)];
    let flat = horizontal_blinker(d, bx, by);
    lemma_address_of(i, w, h);
    let p = address_of(i, w);
    let x = p.x as int;
    let y = p.y as int;
    lemma_rect_neighbours(d, row3, set![by], p);
    lemma_triple_axis(x, w, bx);
    lemma_single_axis(y, h, by);
    let sx = axis_count(row3, x, w);
    let sy = axis_count(set![by], y, h);
    lemma_small_product(sx, sy);
    let cx = indicator(row3.contains(x));
    let cy = indicator(set![by].contains(y));
    lemma_small_product(cx, cy);
    let n = live_neighbours(flat, d, p);
    assert(n == sx * sy - cx * cy);
    let after = next_generation(flat, d)[i];
    assert(after == next_cell(flat[i], n));
    assert(vertical_blinker(d, bx, by)[i] == if set![bx].contains(x) && col3.contains(y) {
        Cell::Alive
    } else {
        Cell::Dead
    });
    if y == by {
        assert(sy == 1 && cy == 1);
        if x == bx {
            assert(n == 2);
        } else if row3.contains(x) {
            assert(n == 1);
        } else {
            assert(n <= 1);
        }
    } else if y == wrap_prev(by, h) || y == wrap_next(by, h) {
        assert(sy == 1 && cy == 0);
        assert(n == sx);
    } else {
        assert(sy == 0);
        assert(n == 0);
    }
}

/// One cell of a standing blinker's next generation.
proof fn lemma_upright_blinker_cell(d: Dimensions, bx: int, by: int, i: int)
    requires
        d.width >= 5,
        d.height >= 5,
        0 <= bx < d.width,
        0 <= by < d.height,
        0 <= i < d.area(),
    ensures
        next_generation(vertical_blinker(d, bx, by), d)[i] == horizontal_blinker(d, bx, by)[i],
{
    let w = d.width as int;
    let h = d.height as int;
    let row3 = set![wrap_prev(bx, w), bx, wrap_next(bx, w)];
    let col3 = set![wrap_prev(by, h), by, wrap_next(by, h)];
    let upright = vertical_blinker(d, bx, by);
    lemma_address_of(i, w, h);
    let p = address_of(i, w);
    let x = p.x as int;
    let y = p.y as int;
    lemma_rect_neighbours(d, set![bx], col3, p);
    lemma_single_axis(x, w, bx);
    lemma_triple_axis(y, h, by);
    let sx = axis_count(set![bx], x, w);
    let sy = axis_count(col3, y, h);
    lemma_small_product(sy, sx);
    assert(sx * sy == sy * sx) by (nonlinear_arith);
    let cx = indicator(set![bx].contains(x));
    let cy = indicator(col3.contains(y));
    lemma_small_product(cy, cx);
    assert(cx * cy == cy * cx) by (nonlinear_arith);
    let n = live_neighbours(upright, d, p);
    assert(n == sx * sy - cx * cy);
    let after = next_generation(upright, d)[i];
    assert(after == next_cell(upright[i], n));
    assert(horizontal_blinker(d, bx, by)[i] == if row3.contains(x) && set![by].contains(y) {
        Cell::Alive
    } else {
        Cell::Dead
    });
    if x == bx {
        assert(sx == 1 && cx == 1);
        if y == by {
            assert(n == 2);
        } else if col3.contains(y) {
            assert(n == 1);
        } else {
            assert(n <= 1);
        }
    } else if x == wrap_prev(bx, w) || x == wrap_next(bx, w) {
        assert(sx == 1 && cx == 0);
        assert(n == sy);
    } else {
        assert(sx == 0);
        assert(n == 0);
    }
}

/// A blinker on a board of at least 5 by 5 cells, otherwise dead, turns
/// from lying flat to standing up in one generation and back in the next:
/// it has period two.
pub proof fn lemma_blinker_period_two(d: Dimensions, bx: int, by: int)
    requires
        d.width >= 5,
        d.height >= 5,
        0 <= bx < d.width,
        0 <= by < d.height,
    ensures
        next_generation(horizontal_blinker(d, bx, by), d) == vertical_blinker(d, bx, by),
        next_generation(vertical_blinker(d, bx, by), d) == horizontal_blinker(d, bx, by),
        next_generation(next_generation(horizontal_blinker(d, bx, by), d), d) == horizontal_blinker(d, bx, by),
{
    let flat = horizontal_blinker(d, bx, by);
    let upright = vertical_blinker(d, bx, by);
    assert forall|i: int| 0 <= i < flat.len() implies #[trigger] next_generation(flat, d)[i] == upright[i] by {
        lemma_flat_blinker_cell(d, bx, by, i);
    }
    assert(next_generation(flat, d) =~= upright);
    assert forall|i: int| 0 <= i < upright.len() implies #[trigger] next_generation(upright, d)[i] == flat[i] by {
        lemma_upright_blinker_cell(d, bx, by, i);
    }
    assert(next_generation(upright, d) =~= flat);
}

/// The addresses on a board of size `d` whose cell in grid `g` is alive.
pub open spec fn alive_addresses(g: Seq<Cell>, d: Dimensions) -> Set<Point> {
    Set::new(|p: Point| on_board(p, d) && g[cell_index(p, d.width as int)] == Cell::Alive)
}

proof fn lemma_changes_upto_entries(before: Seq<Cell>, after: Seq<Cell>, w: int, n: int)
    requires
        0 <= n <= before.len(),
        before.len() == after.len(),
    ensures
        forall|k: int| 0 <= k < changes_upto(before, after, w, n).len() ==> exists|i: int|
            0 <= i < n && before[i] != after[i] && #[trigger] changes_upto(before, after, w, n)[k] == (
            address_of(i, w),
            after[i],
        ),
        forall|i: int| 0 <= i < n && before[i] != after[i] ==> #[trigger] changes_upto(before, after, w, n).contains(
            (address_of(i, w), after[i]),
        ),
        (forall|i: int| 0 <= i < n ==> before[i] == after[i]) ==> changes_upto(before, after, w, n).len() == 0,
    decreases n,
{
    if n > 0 {
        lemma_changes_upto_entries(before, after, w, n - 1);
        let earlier = changes_upto(before, after, w, n - 1);
        let cs = changes_upto(before, after, w, n);
        if before[n - 1] != after[n - 1] {
            assert(cs == earlier.push((address_of(n - 1, w), after[n - 1])));
            assert forall|k: int| 0 <= k < cs.len() implies exists|i: int|
                0 <= i < n && before[i] != after[i] && #[trigger] cs[k] == (address_of(i, w), after[i]) by {
                if k < earlier.len() {
                    assert(cs[k] == earlier[k]);
                } else {
                    assert(cs[k] == (address_of(n - 1, w), after[n - 1]));
                }
            }
            assert forall|i: int| 0 <= i < n && before[i] != after[i] implies #[trigger] cs.contains(
                (address_of(i, w), after[i]),
            ) by {
                if i < n - 1 {
                    assert(earlier.contains((address_of(i, w), after[i])));
                    let k = choose|k: int| 0 <= k < earlier.len() && earlier[k] == (address_of(i, w), after[i]);
                    assert(cs[k] == earlier[k]);
                } else {
                    assert(cs[earlier.len() as int] == (address_of(i, w), after[i]));
                }
            }
        } else {
            assert(cs == earlier);
        }
    }
}

/// A change set holds only cells whose state differs between the two
/// grids, each with its state in the second grid; it holds every such
/// cell; and between equal grids it is empty.
pub proof fn lemma_change_set_minimal(before: Seq<Cell>, after: Seq<Cell>, width: int)
    requires
        before.len() == after.len(),
    ensures
        forall|k: int| 0 <= k < change_set(before, after, width).len() ==> exists|i: int|
            0 <= i < before.len() && before[i] != after[i] && #[trigger] change_set(before, after, width)[k]
                == (address_of(i, width), after[i]),
        forall|i: int| 0 <= i < before.len() && before[i] != after[i] ==> #[trigger] change_set(
            before,
            after,
            width,
        ).contains((address_of(i, width), after[i])),
        before == after ==> change_set(before, after, width).len() == 0,
{
    let n = before.len() as int;
    lemma_changes_upto_entries(before, after, width, n);
    let cs = change_set(before, after, width);
    assert(cs == changes_upto(before, after, width, n));
}

/// Advancing depends on the grid and the size alone: two boards with equal
/// grids and sizes reach equal grids, through equal change sets.
pub proof fn lemma_advance_deterministic<'a, 'b, R1: Renderer, R2: Renderer>(
    a: &GameBoard<'a, R1>,
    b: &GameBoard<'b, R2>,
)
    requires
        a.wf(),
        b.wf(),
        a.grid() == b.grid(),
        a.dims() == b.dims(),
    ensures
        next_generation(a.grid(), a.dims()) == next_generation(b.grid(), b.dims()),
        change_set(a.grid(), next_generation(a.grid(), a.dims()), a.dims().width as int) == change_set(
            b.grid(),
            next_generation(b.grid(), b.dims()),
            b.dims().width as int,
        ),
{
}

/// A board seeded from a pattern generator has alive exactly the marked
/// addresses that lie on the board (marks beyond its edges are clipped),
/// and its first change set names exactly those addresses, each as alive.
pub proof fn lemma_seeded_alive_set<'a, R: Renderer>(board: &GameBoard<'a, R>, seed: UserCellGenerator)
    requires
        board.wf(),
        forall|i: int|
            0 <= i < board.grid().len() ==> seed.admits(
                address_of(i, board.dims().width as int),
                #[trigger] board.grid()[i],
            ),
    ensures
        alive_addresses(board.grid(), board.dims()) == seed.alive().filter(|p: Point| on_board(p, board.dims())),
        forall|p: Point| #[trigger] seed.alive().contains(p) && on_board(p, board.dims()) <==> change_set(
            dead_grid(board.grid().len()),
            board.grid(),
            board.dims().width as int,
        ).contains((p, Cell::Alive)),
{
    let g = board.grid();
    let d = board.dims();
    let w = d.width as int;
    let dead = dead_grid(g.len());
    let cs = change_set(dead, g, w);
    let clipped = seed.alive().filter(|p: Point| on_board(p, d));
    lemma_change_set_minimal(dead, g, w);
    assert forall|p: Point| alive_addresses(g, d).contains(p) <==> clipped.contains(p) by {
        if on_board(p, d) {
            lemma_cell_index(p, d);
            assert(seed.admits(p, g[cell_index(p, w)]));
        }
    }
    assert(alive_addresses(g, d) =~= clipped);
    assert forall|p: Point| #[trigger] seed.alive().contains(p) && on_board(p, d) <==> cs.contains((p, Cell::Alive)) by {
        if seed.alive().contains(p) && on_board(p, d) {
            lemma_cell_index(p, d);
            let i = cell_index(p, w);
            assert(seed.admits(address_of(i, w), g[i]));
            assert(dead[i] != g[i]);
            assert(cs.contains((address_of(i, w), g[i])));
        }
        if cs.contains((p, Cell::Alive)) {
            let k = choose|k: int| 0 <= k < cs.len() && cs[k] == (p, Cell::Alive);
            let i = choose|i: int| 0 <= i < dead.len() && dead[i] != g[i] && #[trigger] cs[k] == (address_of(i, w), g[i]);
            lemma_address_of(i, w, d.height as int);
            assert(seed.admits(address_of(i, w), g[i]));
        }
    }
}

/// A game board: a row-major grid of cells on a torus, and the renderer that
/// is told of every change.
pub struct GameBoard<'a, RendererT: Renderer> {
    cells: Vec<Cell>,
    dimensions: Dimensions,
    renderer: &'a mut RendererT,
}

impl<'a, RendererT: Renderer> GameBoard<'a, RendererT> {
    /// The cells of the board, row by row.
    pub closed spec fn grid(&self) -> Seq<Cell> {
        self.cells@
    }

    /// The size of the board.
    pub closed spec fn dims(&self) -> Dimensions {
        self.dimensions
    }

    /// The change sets that the board's renderer has received, the last
    /// one from this board's latest construction or advance.
    pub closed spec fn rendered(&self) -> Seq<Seq<(Point, Cell)>> {
        self.renderer.received()
    }

    /// The board has at least one cell, and one state for each of them.
    pub open spec fn wf(&self) -> bool {
        &&& self.dims().width >= 1
        &&& self.dims().height >= 1
        &&& self.grid().len() == self.dims().area()
    }

    /// Build a board of size `dimensions`: ask `cell_generator` for each cell
    /// in row-major order, then hand the renderer every living cell, in
    /// row-major order, as one change set.
    pub fn new_from_seed<CellGeneratorT: CellGenerator>(
        dimensions: Dimensions,
        cell_generator: CellGeneratorT,
        renderer: &'a mut RendererT,
    ) -> (r: GameBoard<'a, RendererT>)
        requires
            dimensions.width >= 1,
            dimensions.height >= 1,
            dimensions.area() <= usize::MAX,
        ensures
            r.wf(),
            r.dims() == dimensions,
            forall|i: int|
                0 <= i < r.grid().len() ==> cell_generator.admits(
                    address_of(i, dimensions.width as int),
                    #[trigger] r.grid()[i],
                ),
            exists|states: Seq<CellGeneratorT>|
                states.len() == r.grid().len() + 1 && states[0] == cell_generator && forall|k: int|
                    0 <= k < r.grid().len() ==> #[trigger] states[k].generates(
                        address_of(k, dimensions.width as int),
                        states[k + 1],
                        r.grid()[k],
                    ),
            r.rendered() == old(renderer).received().push(
                change_set(dead_grid(r.grid().len()), r.grid(), dimensions.width as int),
            ),
    {
        let ghost gen0 = cell_generator;
        let ghost mut states: Seq<CellGeneratorT> = seq![cell_generator];
        let ghost w = dimensions.width as int;
        let mut cell_generator = cell_generator;
        let mut cells: Vec<Cell> = Vec::with_capacity(dimensions.total_area());
        let mut y: usize = 0;
        while y < dimensions.height
            invariant
                dimensions.width >= 1,
                dimensions.area() <= usize::MAX,
                w == dimensions.width,
                0 <= y <= dimensions.height,
                cells.len() == y * w,
                forall|a: Point, c: Cell| #[trigger] cell_generator.admits(a, c) == gen0.admits(a, c),
                forall|j: int| 0 <= j < cells.len() ==> gen0.admits(address_of(j, w), #[trigger] cells@[j]),
                states.len() == cells.len() + 1,
                states[0] == gen0,
                states.last() == cell_generator,
                forall|k: int|
                    0 <= k < cells.len() ==> #[trigger] states[k].generates(
                        address_of(k, w),
                        states[k + 1],
                        cells@[k],
                    ),
            decreases dimensions.height - y,
        {
            let mut x: usize = 0;
            while x < dimensions.width
                invariant
                    dimensions.width >= 1,
                    dimensions.area() <= usize::MAX,
                    w == dimensions.width,
                    0 <= y < dimensions.height,
                    0 <= x <= dimensions.width,
                    cells.len() == y * w + x,
                    forall|a: Point, c: Cell| #[trigger] cell_generator.admits(a, c) == gen0.admits(a, c),
                    forall|j: int| 0 <= j < cells.len() ==> gen0.admits(address_of(j, w), #[trigger] cells@[j]),
                    states.len() == cells.len() + 1,
                    states[0] == gen0,
                    states.last() == cell_generator,
                    forall|k: int|
                        0 <= k < cells.len() ==> #[trigger] states[k].generates(
                            address_of(k, w),
                            states[k + 1],
                            cells@[k],
                        ),
                decreases dimensions.width - x,
            {
                let p = Point { x, y };
                proof {
                    lemma_cell_index(p, dimensions);
                }
                let ghost before_cells = cells@;
                let c = cell_generator.generate(p);
                cells.push(c);
                proof {
                    assert(address_of(before_cells.len() as int, w) == p);
                    states = states.push(cell_generator);
                    assert forall|k: int|
                        0 <= k < cells.len() implies #[trigger] states[k].generates(
                        address_of(k, w),
                        states[k + 1],
                        cells@[k],
                    ) by {
                        if k < before_cells.len() {
                            assert(cells@[k] == before_cells[k]);
                        }
                    }
                }
                x += 1;
            }
            proof {
                assert(y * w + w == (y + 1) * w) by (nonlinear_arith);
            }
            y += 1;
        }
        proof {
            assert(dimensions.height * w == w * dimensions.height) by (nonlinear_arith);
        }
        let cells_to_render = Self::alive_changes(&cells, dimensions);
        renderer.apply_changes(cells_to_render);
        GameBoard { cells, dimensions, renderer }
    }

    /// The eight neighbours of `cell_address`, wrapping round the edges: on a
    /// 10 by 10 board the neighbour left of x = 0 has x = 9, and the one
    /// right of x = 9 has x = 0.
    fn calculate_adjacent_cell_addresses(&self, cell_address: Point) -> (r: [Point; 8])
        requires
            self.wf(),
            on_board(cell_address, self.dims()),
        ensures
            r@ == neighbours(cell_address, self.dims()),
            forall|k: int| 0 <= k < 8 ==> on_board(#[trigger] r@[k], self.dims()),
    {
        let row_above_y = if cell_address.y == 0 {
            self.dimensions.height - 1
        } else {
            cell_address.y - 1
        };
        let column_left_x = if cell_address.x == 0 {
            self.dimensions.width - 1
        } else {
            cell_address.x - 1
        };
        let column_right_x = if cell_address.x == self.dimensions.width - 1 {
            0
        } else {
            cell_address.x + 1
        };
        let row_below_y = if cell_address.y == self.dimensions.height - 1 {
            0
        } else {
            cell_address.y + 1
        };
        let r = [
            Point { x: column_left_x, y: row_above_y },
            Point { x: cell_address.x, y: row_above_y },
            Point { x: column_right_x, y: row_above_y },
            Point { x: column_left_x, y: cell_address.y },
            Point { x: column_right_x, y: cell_address.y },
            Point { x: column_left_x, y: row_below_y },
            Point { x: cell_address.x, y: row_below_y },
            Point { x: column_right_x, y: row_below_y },
        ];
        assert(r@ =~= neighbours(cell_address, self.dims()));
        r
    }

    /// The number of living neighbours of `cell_address`.
    fn count_alive_adjacent_cells(&self, cell_address: Point) -> (r: usize)
        requires
            self.wf(),
            on_board(cell_address, self.dims()),
        ensures
            r == live_neighbours(self.grid(), self.dims(), cell_address),
    {
        let adjacent = self.calculate_adjacent_cell_addresses(cell_address);
        let ghost ps = adjacent@;
        let mut count: usize = 0;
        let mut k: usize = 0;
        while k < 8
            invariant
                self.wf(),
                ps == adjacent@,
                ps == neighbours(cell_address, self.dims()),
                forall|j: int| 0 <= j < 8 ==> on_board(#[trigger] ps[j], self.dims()),
                0 <= k <= 8,
                count == count_alive(self.grid(), self.dims().width as int, ps.subrange(0, k as int)),
                count <= k,
            decreases 8 - k,
        {
            let p = adjacent[k];
            proof {
                assert(self.grid().len() == self.cells.len());
                lemma_cell_index(p, self.dims());
                assert(ps.subrange(0, k + 1).drop_last() =~= ps.subrange(0, k as int));
            }
            let array_index = p.y * self.dimensions.width + p.x;
            match self.cells[array_index] {
                Cell::Alive => count += 1,
                _ => {},
            }
            k += 1;
        }
        assert(ps.subrange(0, 8) =~= ps);
        count
    }

    /// The state that follows `cell` at `cell_address` in the next generation.
    fn calculate_new_cell_state(&self, cell_address: Point, cell: Cell) -> (r: Cell)
        requires
            self.wf(),
            on_board(cell_address, self.dims()),
        ensures
            r == next_cell(cell, live_neighbours(self.grid(), self.dims(), cell_address)),
    {
        let alive_adjacents = self.count_alive_adjacent_cells(cell_address);
        match cell {
            Cell::Alive => {
                if alive_adjacents == 2 || alive_adjacents == 3 {
                    Cell::Alive
                } else {
                    Cell::Dead
                }
            },
            Cell::Dead => {
                if alive_adjacents == 3 {
                    Cell::Alive
                } else {
                    Cell::Dead
                }
            },
        }
    }

    /// The change set that brings a blank display to grid `cells`: every
    /// living cell, in row-major order.
    fn alive_changes(cells: &Vec<Cell>, dimensions: Dimensions) -> (r: Vec<(Point, Cell)>)
        requires
            dimensions.width >= 1,
        ensures
            r@ == change_set(dead_grid(cells@.len()), cells@, dimensions.width as int),
    {
        let ghost g = cells@;
        let ghost w = dimensions.width as int;
        let mut cells_to_render: Vec<(Point, Cell)> = Vec::new();
        let mut i: usize = 0;
        while i < cells.len()
            invariant
                dimensions.width >= 1,
                g == cells@,
                w == dimensions.width,
                0 <= i <= cells.len(),
                cells_to_render@ == changes_upto(dead_grid(g.len()), g, w, i as int),
            decreases cells.len() - i,
        {
            match cells[i] {
                Cell::Alive => {
                    let address = Self::get_cell_address_from_array_index(i, dimensions);
                    cells_to_render.push((address, Cell::Alive));
                },
                Cell::Dead => {},
            }
            i += 1;
        }
        cells_to_render
    }

    /// The next generation of the board, computed from the current grid
    /// alone, and the change set that leads to it.
    fn next_cells(&self) -> (r: (Vec<Cell>, Vec<(Point, Cell)>))
        requires
            self.wf(),
        ensures
            r.0@ == next_generation(self.grid(), self.dims()),
            r.1@ == change_set(self.grid(), r.0@, self.dims().width as int),
    {
        let ghost g = self.grid();
        let ghost d = self.dims();
        let ghost next = next_generation(g, d);
        let n = self.cells.len();
        let mut new_cells: Vec<Cell> = Vec::with_capacity(n);
        let mut cells_to_render: Vec<(Point, Cell)> = Vec::new();
        let mut i: usize = 0;
        while i < n
            invariant
                self.wf(),
                self.grid() == g,
                self.dims() == d,
                n == g.len(),
                next == next_generation(g, d),
                0 <= i <= n,
                new_cells@ == next.subrange(0, i as int),
                cells_to_render@ == changes_upto(g, next, d.width as int, i as int),
            decreases n - i,
        {
            let cell = self.cells[i];
            let cell_address = Self::get_cell_address_from_array_index(i, self.dimensions);
            proof {
                lemma_address_of(i as int, d.width as int, d.height as int);
            }
            let new_cell_state = self.calculate_new_cell_state(cell_address, cell);
            if new_cell_state != cell {
                cells_to_render.push((cell_address, new_cell_state));
            }
            new_cells.push(new_cell_state);
            proof {
                assert(new_cells@ =~= next.subrange(0, i + 1));
            }
            i += 1;
        }
        proof {
            assert(new_cells@ =~= next);
        }
        (new_cells, cells_to_render)
    }

    /// Advance the board by one generation: every cell is computed from the
    /// grid as it was before the call, the new grid replaces the old one,
    /// and the renderer receives, once, the change set between the two (in
    /// row-major order, possibly empty).
    pub fn calculate_iteration(&mut self)
        requires
            old(self).wf(),
        ensures
            final(self).wf(),
            final(self).dims() == old(self).dims(),
            final(self).grid() == next_generation(old(self).grid(), old(self).dims()),
            final(self).rendered() == old(self).rendered().push(
                change_set(old(self).grid(), final(self).grid(), old(self).dims().width as int),
            ),
    {
        let (new_cells, cells_to_render) = self.next_cells();
        self.cells = new_cells;
        self.renderer.apply_changes(cells_to_render);
    }

    /// The address of the `i`-th cell in row-major order.
    fn get_cell_address_from_array_index(i: usize, game_board_size: Dimensions) -> (r: Point)
        requires
            game_board_size.width > 0,
        ensures
            r == address_of(i as int, game_board_size.width as int),
    {
        Point { x: i % game_board_size.width, y: i / game_board_size.width }
    }
}

} // verus!
