use vstd::prelude::*;
use crate::text::{append_str, decimal, decimal_text, push_char};

verus! {

/// A point in a two dimensional grid; units are whatever the caller uses
/// (grid cells, terminal characters).
#[derive(Clone, Copy, PartialEq, Eq, Debug, Hash, Structural)]
pub struct Point {
    pub x: usize,
    pub y: usize,
}

/// Width and height of a rectangular area. A zero in either means that the
/// size is not yet known and has to be worked out by the caller.
#[derive(Clone, Copy, PartialEq, Eq, Debug, Hash, Structural)]
pub struct Dimensions {
    pub width: usize,
    pub height: usize,
}

impl Dimensions {
    /// The number of cells in the area, as a mathematical integer.
    pub open spec fn area(self) -> int {
        self.width * self.height
    }

    /// Dimensions whose width and height are still to be worked out.
    pub fn create_empty() -> (r: Dimensions)
        ensures
            r.width == 0,
            r.height == 0,
    {
        Dimensions { width: 0, height: 0 }
    }

    /// The number of cells in the area.
    pub fn total_area(&self) -> (r: usize)
        requires
            self.area() <= usize::MAX,
        ensures
            r == self.area(),
    {
        self.width * self.height
    }

    /// Whether the height is known.
    pub fn is_height_defined(&self) -> (r: bool)
        ensures
            r == (self.height != 0),
    {
        self.height != 0
    }

    /// Whether the width is known.
    pub fn is_width_defined(&self) -> (r: bool)
        ensures
            r == (self.width != 0),
    {
        self.width != 0
    }
}

/// The value of the decimal digits `s`.
pub open spec fn digits_value(s: Seq<char>) -> int
    decreases s.len(),
{
    if s.len() == 0 {
        0
    } else {
        digits_value(s.drop_last()) * 10 + (s.last() as int - '0' as int)
    }
}

/// `s` is one or more ASCII digits.
pub open spec fn is_digits(s: Seq<char>) -> bool {
    s.len() > 0 && forall|i: int| 0 <= i < s.len() ==> '0' <= #[trigger] s[i] <= '9'
}

/// The number that `s` spells as an unsigned integer: ASCII digits,
/// optionally led by '+', whose value fits a `usize`.
pub open spec fn parsed_usize(s: Seq<char>) -> Option<usize> {
    let body = if s.len() > 0 && s[0] == '+' { s.drop_first() } else { s };
    if is_digits(body) && digits_value(body) <= usize::MAX {
        Some(digits_value(body) as usize)
    } else {
        None
    }
}

/// Relies on FromStr for usize (str::parse): ASCII digits, optionally led by
/// '+', whose value fits a usize; anything else is an error.
#[verifier::external_body]
fn parse_usize(s: &str) -> (r: Option<usize>)
    ensures
        r == parsed_usize(s@),
{
    s.parse::<usize>().ok()
}

/// The pieces of `s` between the occurrences of `sep`; there is always one
/// more piece than there are separators.
pub open spec fn split_on(s: Seq<char>, sep: char) -> Seq<Seq<char>>
    decreases s.len(),
{
    if s.len() == 0 {
        seq![seq![]]
    } else {
        let parts = split_on(s.drop_last(), sep);
        if s.last() == sep {
            parts.push(seq![])
        } else {
            parts.update(parts.len() - 1, parts.last().push(s.last()))
        }
    }
}

proof fn lemma_split_on_nonempty(s: Seq<char>, sep: char)
    ensures
        split_on(s, sep).len() >= 1,
    decreases s.len(),
{
    if s.len() > 0 {
        lemma_split_on_nonempty(s.drop_last(), sep);
    }
}

/// Split `s` at each `sep`.
fn split_chars(s: &str, sep: char) -> (r: Vec<String>)
    ensures
        r@.map_values(|p: String| p@) == split_on(s@, sep),
{
    let mut parts: Vec<String> = Vec::new();
    let mut current = String::new();
    for c in it: s.chars()
        invariant
            it.seq() == s@,
            parts@.map_values(|p: String| p@).push(current@) == split_on(s@.subrange(0, it.index() as int), sep),
    {
        let ghost k = it.index();
        proof {
            assert(s@.subrange(0, k + 1).drop_last() =~= s@.subrange(0, k as int));
            lemma_split_on_nonempty(s@.subrange(0, k as int), sep);
        }
        let ghost before = parts@.map_values(|p: String| p@);
        if c == sep {
            parts.push(current);
            current = String::new();
            proof {
                assert(parts@.map_values(|p: String| p@) =~= before.push(split_on(s@.subrange(0, k as int), sep).last()));
                assert(parts@.map_values(|p: String| p@).push(current@) =~= split_on(s@.subrange(0, k + 1), sep));
            }
        } else {
            push_char(&mut current, c);
            proof {
                assert(parts@.map_values(|p: String| p@).push(current@) =~= split_on(s@.subrange(0, k + 1), sep));
            }
        }
    }
    proof {
        assert(s@.subrange(0, s@.len() as int) =~= s@);
    }
    let ghost before = parts@.map_values(|p: String| p@);
    parts.push(current);
    proof {
        assert(parts@.map_values(|p: String| p@) =~= before.push(current@));
    }
    parts
}

/// Whether `s` and `t` hold the same characters.
fn same_text(s: &str, t: &str) -> (r: bool)
    ensures
        r == (s@ == t@),
{
    let n = s.unicode_len();
    if n != t.unicode_len() {
        return false;
    }
    let mut i: usize = 0;
    while i < n
        invariant
            n == s@.len(),
            n == t@.len(),
            0 <= i <= n,
            forall|j: int| 0 <= j < i ==> s@[j] == t@[j],
        decreases n - i,
    {
        if s.get_char(i) != t.get_char(i) {
            return false;
        }
        i += 1;
    }
    proof {
        assert(s@ =~= t@);
    }
    true
}

/// The error for a text with other than two parts.
pub open spec fn part_count_message(n: nat) -> Seq<char> {
    "Invalid number of dimensions (expected 2, found: "@ + decimal_text(n) + ")"@
}

/// The error for a width that is no number.
pub open spec fn width_message(part: Seq<char>) -> Seq<char> {
    "Failed to parse width (expected: unsigned 16-bit integer, received: \""@ + part + "\")"@
}

/// The error for a height that is no number.
pub open spec fn height_message(part: Seq<char>) -> Seq<char> {
    "Failed to parse height (expected: unsigned 16-bit integer, received: \""@ + part + "\")"@
}

/// How one side of a size is written: its number, or "[calculated]" when
/// it is unknown.
pub open spec fn dimension_text(d: usize) -> Seq<char> {
    if d > 0 { decimal_text(d as nat) } else { "[calculated]"@ }
}

/// Write one side of a size.
fn stringify_dimension(dimension: usize) -> (r: String)
    ensures
        r@ == dimension_text(dimension),
{
    if dimension > 0 {
        decimal(dimension)
    } else {
        String::from_str("[calculated]")
    }
}

impl Dimensions {
    /// Read a size written "WxH". An empty text or "calculated" stands for
    /// a size still to be worked out (zero by zero). A text with other than
    /// one 'x' fails, naming the number of parts; a part that is no unsigned
    /// number fails, naming the part (the width is tried first).
    pub fn from_str(s: &str) -> (r: Result<Dimensions, String>)
        ensures
            (s@.len() == 0 || s@ == "calculated"@) ==> r == Ok::<Dimensions, String>(Dimensions { width: 0, height: 0 }),
            !(s@.len() == 0 || s@ == "calculated"@) ==> {
                let parts = split_on(s@, 'x');
                if parts.len() != 2 {
                    r is Err && r->Err_0@ == part_count_message(parts.len())
                } else if parsed_usize(parts[0]) is None {
                    r is Err && r->Err_0@ == width_message(parts[0])
                } else if parsed_usize(parts[1]) is None {
                    r is Err && r->Err_0@ == height_message(parts[1])
                } else {
                    r == Ok::<Dimensions, String>(Dimensions {
                        width: parsed_usize(parts[0])->0,
                        height: parsed_usize(parts[1])->0,
                    })
                }
            },
    {
        if s.unicode_len() == 0 || same_text(s, "calculated") {
            return Ok(Dimensions::create_empty());
        }
        let parts = split_chars(s, 'x');
        let ghost spec_parts = split_on(s@, 'x');
        if parts.len() != 2 {
            let mut message = String::from_str("Invalid number of dimensions (expected 2, found: ");
            append_str(&mut message, decimal(parts.len()).as_str());
            append_str(&mut message, ")");
            return Err(message);
        }
        proof {
            assert(parts@[0]@ == spec_parts[0]);
            assert(parts@[1]@ == spec_parts[1]);
        }
        match parse_usize(parts[0].as_str()) {
            None => {
                let mut message = String::from_str(
                    "Failed to parse width (expected: unsigned 16-bit integer, received: \"",
                );
                append_str(&mut message, parts[0].as_str());
                append_str(&mut message, "\")");
                Err(message)
            },
            Some(width) => match parse_usize(parts[1].as_str()) {
                None => {
                    let mut message = String::from_str(
                        "Failed to parse height (expected: unsigned 16-bit integer, received: \"",
                    );
                    append_str(&mut message, parts[1].as_str());
                    append_str(&mut message, "\")");
                    Err(message)
                },
                Some(height) => Ok(Dimensions { width, height }),
            },
        }
    }

    /// Write the size as "WxH", an unknown side as "[calculated]"; a size
    /// with both sides unknown is "calculated".
    pub fn to_string(&self) -> (r: String)
        ensures
            (self.width == 0 && self.height == 0) ==> r@ == "calculated"@,
            !(self.width == 0 && self.height == 0) ==> r@ == dimension_text(self.width) + "x"@
                + dimension_text(self.height),
    {
        if self.width == 0 && self.height == 0 {
            String::from_str("calculated")
        } else {
            let mut r = stringify_dimension(self.width);
            append_str(&mut r, "x");
            append_str(&mut r, stringify_dimension(self.height).as_str());
            r
        }
    }
}

impl std::str::FromStr for Dimensions {
    type Err = String;

    fn from_str(s: &str) -> Result<Dimensions, String> {
        Dimensions::from_str(s)
    }
}

} // verus!
