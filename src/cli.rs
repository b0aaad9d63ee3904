use vstd::prelude::*;
use crate::geometry::Dimensions;

verus! {

/// The program's settings, as given on the command line.
pub struct Args {
    /// How many generations are computed per second.
    pub update_frequency: u32,
    /// The size of the board; zero in a side means "as large as the screen".
    pub grid_size: Dimensions,
    /// A pattern file to seed the board from; empty for a random board.
    pub game_board_file: String,
}

} // verus!
