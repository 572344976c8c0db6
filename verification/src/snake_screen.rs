//! The picture of a snake game: every cell of the grid is a square of
//! `GRID_SIZE` pixels, and a border one pixel wide runs round the screen.

use embedded_graphics::pixelcolor::Rgb565;
use vstd::prelude::*;

use crate::frame::{on_outline, Frame};
use crate::geometry::{Point, Rectangle, Size};
use crate::snake::{Game, Position, GRID_SIZE, SCREEN_SIZE};

verus! {

/// The colours of the picture.
#[derive(Clone, Copy)]
pub struct Palette {
    /// The first cell of the snake.
    pub head: Rgb565,
    /// Every other cell of the snake.
    pub body: Rgb565,
    /// The cell that holds the food.
    pub food: Rgb565,
    /// The border round the screen.
    pub border: Rgb565,
}

/// The square of pixels that shows `cell`.
pub open spec fn cell_rect(cell: Position) -> Rectangle {
    Rectangle {
        top_left: Point { x: (cell.x * GRID_SIZE) as i32, y: (cell.y * GRID_SIZE) as i32 },
        size: Size { width: GRID_SIZE as u32, height: GRID_SIZE as u32 },
    }
}

/// The colour of `(x, y)` once the first `count` cells of `snake` have been
/// drawn, head first, over a pixel that showed `under`. A later cell covers
/// an earlier one.
pub open spec fn snake_layer(
    snake: Seq<Position>,
    count: int,
    palette: Palette,
    x: int,
    y: int,
    under: Rgb565,
) -> Rgb565
    decreases count,
{
    if count <= 0 {
        under
    } else if cell_rect(snake[count - 1]).contains(x, y) {
        if count == 1 {
            palette.head
        } else {
            palette.body
        }
    } else {
        snake_layer(snake, count - 1, palette, x, y, under)
    }
}

/// The colour of `(x, y)` in the picture of a game: the border where it
/// runs, else the food on its cell, else the snake on its cells, else
/// `background`.
pub open spec fn game_layer(
    snake: Seq<Position>,
    food: Position,
    palette: Palette,
    x: int,
    y: int,
    background: Rgb565,
) -> Rgb565 {
    if on_outline(0, 0, SCREEN_SIZE as int, SCREEN_SIZE as int, x, y) {
        palette.border
    } else if cell_rect(food).contains(x, y) {
        palette.food
    } else {
        snake_layer(snake, snake.len() as int, palette, x, y, background)
    }
}

/// The square of pixels that shows `cell`.
fn cell_area(cell: Position) -> (area: Rectangle)
    ensures
        area == cell_rect(cell),
{
    Rectangle::new(
        Point::new((cell.x as u32 * GRID_SIZE as u32) as i32, (cell.y as u32 * GRID_SIZE as u32) as i32),
        Size::new(GRID_SIZE as u32, GRID_SIZE as u32),
    )
}

/// Draws the game: clears the frame, then paints the snake cell by cell,
/// the food and the border round the screen.
pub fn draw_game_to_buffer<const N: usize>(frame: &mut Frame<N>, game: &Game, palette: &Palette)
    ensures
        final(frame).same_shape(*old(frame)),
        forall|x: int, y: int|
            old(frame).in_bounds(x, y) ==> #[trigger] final(frame).pixel(x, y) == game_layer(
                game.snake@,
                game.food,
                *palette,
                x,
                y,
                old(frame).background(),
            ),
{
    frame.clear();

    let mut i: usize = 0;
    while i < game.snake.len()
        invariant
            i <= game.snake@.len(),
            frame.same_shape(*old(frame)),
            forall|x: int, y: int|
                old(frame).in_bounds(x, y) ==> #[trigger] frame.pixel(x, y) == snake_layer(
                    game.snake@,
                    i as int,
                    *palette,
                    x,
                    y,
                    old(frame).background(),
                ),
        decreases game.snake@.len() - i,
    {
        let color = if i == 0 {
            palette.head
        } else {
            palette.body
        };
        frame.fill_rect(cell_area(game.snake[i]), color);
        i += 1;
    }

    frame.fill_rect(cell_area(game.food), palette.food);

    let border = Rectangle::new(
        Point::new(0, 0),
        Size::new(SCREEN_SIZE as u32, SCREEN_SIZE as u32),
    );
    frame.stroke_rect(border, palette.border);
}

} // verus!
