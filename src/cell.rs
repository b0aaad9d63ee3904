use vstd::prelude::*;
use std::collections::HashSet;
use crate::geometry::Point;
use crate::text::{append_str, push_char};

verus! {

broadcast use vstd::std_specs::hash::group_hash_axioms;

/// The state of one square of the board.
#[derive(Clone, Copy, PartialEq, Eq, Debug, Structural)]
pub enum Cell {
    Alive,
    Dead,
}

/// Something that hands out the initial state of each cell of a board.
pub trait CellGenerator: Sized {
    /// Whether `c` is a state this generator may hand out for `address`.
    spec fn admits(&self, address: Point, c: Cell) -> bool;

    /// Whether a generator in this state, asked for `address`, may hand out
    /// `c` and move to state `next`.
    spec fn generates(&self, address: Point, next: Self, c: Cell) -> bool;

    /// The initial state of the cell at `address`.
    fn generate(&mut self, address: Point) -> (r: Cell)
        ensures
            old(self).admits(address, r),
            old(self).generates(address, *final(self), r),
            forall|a: Point, c: Cell| #[trigger] final(self).admits(a, c) == old(self).admits(a, c),
    ;
}

/// The cell that a random draw stands for: even numbers give life.
pub fn cell_from_draw(n: u64) -> (r: Cell)
    ensures
        r == (if n % 2 == 0 { Cell::Alive } else { Cell::Dead }),
{
    if n % 2 == 0 {
        Cell::Alive
    } else {
        Cell::Dead
    }
}

#[verifier::external_type_specification]
#[verifier::external_body]
pub struct ExStdRng(rand::rngs::StdRng);

#[verifier::external_type_specification]
#[verifier::external_body]
pub struct ExStepRng(rand::rngs::mock::StepRng);

/// A source of pseudorandom numbers for `RandomCellGenerator`.
pub trait RandomSource {
    /// The next number of the source.
    fn next_u64(&mut self) -> u64;
}

/// Relies on rand::RngCore::next_u64 for StdRng: the next number of the
/// generator. Nothing is known of the number.
#[verifier::external_body]
fn std_rng_next(rng: &mut rand::rngs::StdRng) -> u64 {
    rand::RngCore::next_u64(rng)
}

/// Relies on rand::RngCore::next_u64 for StepRng: the next number of the
/// arithmetic sequence. Nothing more is stated of the number.
#[verifier::external_body]
fn step_rng_next(rng: &mut rand::rngs::mock::StepRng) -> u64 {
    rand::RngCore::next_u64(rng)
}

impl RandomSource for rand::rngs::StdRng {
    fn next_u64(&mut self) -> u64 {
        std_rng_next(self)
    }
}

impl RandomSource for rand::rngs::mock::StepRng {
    fn next_u64(&mut self) -> u64 {
        step_rng_next(self)
    }
}

/// A generator that draws one number per cell from `rng`, whatever the
/// address. The caller supplies the source, so a seeded or stepping source
/// gives the same board every time.
pub struct RandomCellGenerator<RandomT: RandomSource> {
    pub rng: RandomT,
}

impl<RandomT: RandomSource> CellGenerator for RandomCellGenerator<RandomT> {
    open spec fn admits(&self, address: Point, c: Cell) -> bool {
        true
    }

    /// Any draw is possible, and the source moves on in a way that its
    /// crate does not specify.
    open spec fn generates(&self, address: Point, next: Self, c: Cell) -> bool {
        true
    }

    fn generate(&mut self, address: Point) -> (r: Cell) {
        let n = self.rng.next_u64();
        cell_from_draw(n)
    }
}

/// Whether `c` belongs to the pattern language: a living cell, an empty
/// cell, or the end of a row.
pub open spec fn is_pattern_char(c: char) -> bool {
    c == '*' || c == ' ' || c == '\n'
}

/// The cursor `(x, y)` and the set of marked addresses after reading the
/// pattern text `s` from the start.
pub open spec fn scan_pattern(s: Seq<char>) -> (int, int, Set<Point>)
    decreases s.len(),
{
    if s.len() == 0 {
        (0, 0, Set::empty())
    } else {
        let (x, y, marks) = scan_pattern(s.drop_last());
        let c = s.last();
        if c == '*' {
            (x + 1, y, marks.insert(Point { x: x as usize, y: y as usize }))
        } else if c == ' ' {
            (x + 1, y, marks)
        } else if c == '\n' {
            (0, y + 1, marks)
        } else {
            (x, y, marks)
        }
    }
}

/// The addresses marked `*` in the pattern text `s`.
pub open spec fn pattern_marks(s: Seq<char>) -> Set<Point> {
    scan_pattern(s).2
}

/// The error text for a character outside the pattern language.
pub open spec fn invalid_char_message(c: char) -> Seq<char> {
    "Invalid character '"@ + seq![c] + "' specified in UserCellGenerator::from_str()"@
}

/// The hash key of an address: `x` in the high 64 bits, `y` in the low.
pub open spec fn point_key(p: Point) -> int {
    p.x * 0x1_0000_0000_0000_0000 + p.y
}

proof fn lemma_point_key_injective(p: Point, q: Point)
    ensures
        point_key(p) == point_key(q) <==> p == q,
{
    if point_key(p) == point_key(q) {
        vstd::arithmetic::div_mod::lemma_fundamental_div_mod_converse_div(
            point_key(p), 0x1_0000_0000_0000_0000, p.x as int, p.y as int);
        vstd::arithmetic::div_mod::lemma_fundamental_div_mod_converse_div(
            point_key(q), 0x1_0000_0000_0000_0000, q.x as int, q.y as int);
        vstd::arithmetic::div_mod::lemma_fundamental_div_mod_converse_mod(
            point_key(p), 0x1_0000_0000_0000_0000, p.x as int, p.y as int);
        vstd::arithmetic::div_mod::lemma_fundamental_div_mod_converse_mod(
            point_key(q), 0x1_0000_0000_0000_0000, q.x as int, q.y as int);
    }
}

fn key_of(p: Point) -> (r: u128)
    ensures
        r == point_key(p),
{
    (p.x as u128) * 0x1_0000_0000_0000_0000u128 + (p.y as u128)
}

/// A generator that reads a drawn pattern: the addresses marked `*` are
/// alive, all others dead.
pub struct UserCellGenerator {
    alive_cells_list: HashSet<u128>,
}

impl UserCellGenerator {
    /// The addresses that this generator makes alive.
    pub closed spec fn alive(&self) -> Set<Point> {
        Set::new(|p: Point| self.alive_cells_list@.contains(point_key(p) as u128))
    }

    /// Read a pattern: `*` marks the cursor's cell alive and moves right, a
    /// space moves right, a newline moves to the start of the next row. Any
    /// other character is an error that names the first such character.
    pub fn from_str(s: &str) -> (r: Result<UserCellGenerator, String>)
        requires
            s@.len() <= usize::MAX,
        ensures
            r is Ok <==> forall|i: int| 0 <= i < s@.len() ==> is_pattern_char(#[trigger] s@[i]),
            r is Ok ==> r->Ok_0.alive() == pattern_marks(s@),
            r is Err ==> exists|i: int|
                0 <= i < s@.len() && !is_pattern_char(#[trigger] s@[i])
                    && (forall|j: int| 0 <= j < i ==> is_pattern_char(#[trigger] s@[j]))
                    && r->Err_0@ == invalid_char_message(s@[i]),
    {
        let mut x: usize = 0;
        let mut y: usize = 0;
        let mut cell_set: HashSet<u128> = HashSet::new();
        for c in it: s.chars()
            invariant
                it.seq() == s@,
                s@.len() <= usize::MAX,
                x <= it.index(),
                y <= it.index(),
                scan_pattern(s@.subrange(0, it.index() as int)).0 == x,
                scan_pattern(s@.subrange(0, it.index() as int)).1 == y,
                forall|p: Point| #[trigger] scan_pattern(s@.subrange(0, it.index() as int)).2.contains(p)
                    <==> cell_set@.contains(point_key(p) as u128),
                forall|j: int| 0 <= j < it.index() ==> is_pattern_char(#[trigger] s@[j]),
        {
            let ghost k = it.index();
            proof {
                assert(s@.subrange(0, k + 1).drop_last() =~= s@.subrange(0, k as int));
            }
            if c == '*' {
                let ghost before = cell_set@;
                let key = key_of(Point { x, y });
                cell_set.insert(key);
                proof {
                    assert forall|p: Point|
                        #[trigger] scan_pattern(s@.subrange(0, k + 1)).2.contains(p)
                            <==> cell_set@.contains(point_key(p) as u128) by {
                        lemma_point_key_injective(p, Point { x, y });
                    }
                }
                x += 1;
            } else if c == ' ' {
                x += 1;
            } else if c == '\n' {
                x = 0;
                y += 1;
            } else {
                let mut message = String::from_str("Invalid character '");
                push_char(&mut message, c);
                append_str(&mut message, "' specified in UserCellGenerator::from_str()");
                return Err(message);
            }
        }
        proof {
            assert(s@.subrange(0, s@.len() as int) =~= s@);
        }
        let r = UserCellGenerator { alive_cells_list: cell_set };
        proof {
            assert(r.alive() =~= pattern_marks(s@));
        }
        Ok(r)
    }
}

impl CellGenerator for UserCellGenerator {
    open spec fn admits(&self, address: Point, c: Cell) -> bool {
        c == if self.alive().contains(address) { Cell::Alive } else { Cell::Dead }
    }

    /// The pattern does not change, and the cell is the one it marks.
    open spec fn generates(&self, address: Point, next: Self, c: Cell) -> bool {
        next == *self && self.admits(address, c)
    }

    fn generate(&mut self, address: Point) -> (r: Cell) {
        let key = key_of(address);
        if self.alive_cells_list.contains(&key) {
            Cell::Alive
        } else {
            Cell::Dead
        }
    }
}

} // verus!
