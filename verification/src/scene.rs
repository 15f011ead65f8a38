//! The shapes a frame is made of: coloured rectangles on the grid.
//!
//! Nothing here paints. A frame is handed out as a list of [`Rectangle`]s in
//! grid cells, in the order in which they are to be painted; turning cells
//! into pixels is left to whoever owns the window.

use vstd::prelude::*;

verus! {

/// A colour with its opacity: red, green, blue and alpha. Each channel counts
/// hundredths of full intensity, from 0 to 100.
pub type Color = [u8; 4];

/// The colour of the snake's segments: opaque green.
pub const SNAKE_COLOR: Color = [0, 80, 0, 100];

/// The colour of the food: opaque red.
pub const FOOD_COLOR: Color = [100, 0, 0, 100];

/// The colour of the walls: opaque black.
pub const BORDER_COLOR: Color = [0, 0, 0, 100];

/// The colour laid over the arena when the game is over: blue, half
/// transparent.
pub const GAMEOVER_COLOR: Color = [0, 0, 100, 50];

/// The mathematical model of a [`Rectangle`]: its colour, the cell of its
/// top-left corner and its extent in cells.
pub struct Shape {
    pub color: Color,
    pub x: int,
    pub y: int,
    pub width: int,
    pub height: int,
}

impl Shape {
    /// The shape that covers the single cell `(x, y)`.
    pub open spec fn block(color: Color, x: int, y: int) -> Shape {
        Shape { color, x, y, width: 1, height: 1 }
    }
}

/// A coloured, axis-aligned rectangle in grid cells.
#[derive(Clone, Copy, Debug, PartialEq, Eq)]
pub struct Rectangle {
    pub color: Color,
    pub x: i32,
    pub y: i32,
    pub width: i32,
    pub height: i32,
}

impl View for Rectangle {
    type V = Shape;

    open spec fn view(&self) -> Shape {
        Shape {
            color: self.color,
            x: self.x as int,
            y: self.y as int,
            width: self.width as int,
            height: self.height as int,
        }
    }
}

/// The models of a list of rectangles, in order.
pub open spec fn shapes(rectangles: Seq<Rectangle>) -> Seq<Shape> {
    Seq::new(rectangles.len(), |i: int| rectangles[i]@)
}

impl Rectangle {
    /// The rectangle with top-left cell `(x, y)` that is `width` cells wide
    /// and `height` cells high.
    pub fn new(color: Color, x: i32, y: i32, width: i32, height: i32) -> (r: Rectangle)
        ensures
            r@ == (Shape { color, x: x as int, y: y as int, width: width as int, height: height as int }),
    {
        Rectangle { color, x, y, width, height }
    }

    /// The rectangle that covers the single cell `(x, y)`.
    pub fn block(color: Color, x: i32, y: i32) -> (r: Rectangle)
        ensures
            r@ == Shape::block(color, x as int, y as int),
    {
        Rectangle { color, x, y, width: 1, height: 1 }
    }
}

} // verus!
