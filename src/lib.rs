//! Conway's Game of Life on a toroidal grid, with a small terminal widget
//! toolkit that renders the board.

pub mod geometry;
mod text;
pub mod cell;
pub mod renderer;
pub mod game_board;
pub mod setup;
pub mod cli;
pub mod lowlevel;
pub mod text_label;
pub mod border;
pub mod canvas;
pub mod count;
pub mod tui_renderer;
