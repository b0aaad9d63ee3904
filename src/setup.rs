use vstd::prelude::*;
use crate::cell::CellGenerator;
use crate::game_board::{address_of, GameBoard};
use crate::geometry::Dimensions;
use crate::renderer::Renderer;

verus! {

/// Start a game on a board of `size`, seeded by `cell_generator`.
pub fn create_game_board<'a, CellGeneratorT: CellGenerator, RendererT: Renderer>(
    cell_generator: CellGeneratorT,
    size: Dimensions,
    renderer: &'a mut RendererT,
) -> (r: GameBoard<'a, RendererT>)
    requires
        size.width >= 1,
        size.height >= 1,
        size.area() <= usize::MAX,
    ensures
        r.wf(),
        r.dims() == size,
        forall|i: int|
            0 <= i < r.grid().len() ==> cell_generator.admits(
                address_of(i, size.width as int),
                #[trigger] r.grid()[i],
            ),
{
    GameBoard::new_from_seed(size, cell_generator, renderer)
}

/// The size of the board: each side the user gave, or else the side that
/// the renderer can show.
pub fn calculate_game_board_size(user_grid_size: Dimensions, renderer_grid_size: Dimensions) -> (r: Dimensions)
    ensures
        r.width == if user_grid_size.width != 0 { user_grid_size.width } else { renderer_grid_size.width },
        r.height == if user_grid_size.height != 0 { user_grid_size.height } else { renderer_grid_size.height },
{
    let height = if user_grid_size.is_height_defined() {
        user_grid_size.height
    } else {
        renderer_grid_size.height
    };
    let width = if user_grid_size.is_width_defined() {
        user_grid_size.width
    } else {
        renderer_grid_size.width
    };
    Dimensions { width, height }
}

} // verus!
