//! Geometry and colours of the picture: where on the window each cell of
//! the framebuffer goes, and in which colour it is painted.
use vstd::prelude::*;

use crate::{CHIP8_HEIGHT, CHIP8_WIDTH};

verus! {

/// Side of the square that one cell takes on the window, in pixels.
pub const SCALE: u32 = 20;

/// Width of the window, in pixels.
pub const SCREEN_WIDTH: u32 = 1280;

/// Height of the window, in pixels.
pub const SCREEN_HEIGHT: u32 = 640;

/// A rectangle on the window: its top left corner and its size.
#[derive(Clone, Copy, Debug, PartialEq, Eq, Structural)]
pub struct Tile {
    pub x: i32,
    pub y: i32,
    pub width: u32,
    pub height: u32,
}

/// A colour as red, green and blue.
#[derive(Clone, Copy, Debug, PartialEq, Eq, Structural)]
pub struct Rgb {
    pub red: u8,
    pub green: u8,
    pub blue: u8,
}

/// The square of the window that shows the cell `(row, col)`.
pub open spec fn tile_of(row: int, col: int) -> Tile {
    Tile { x: (col * SCALE) as i32, y: (row * SCALE) as i32, width: SCALE, height: SCALE }
}

/// The colour of a cell: black where it is off, green where it is on.
pub open spec fn colour_of(cell: u8) -> Rgb {
    if cell == 0 {
        Rgb { red: 0, green: 0, blue: 0 }
    } else {
        Rgb { red: 0, green: 250, blue: 0 }
    }
}

/// The window is exactly as large as the framebuffer at this scale.
pub proof fn lemma_window_fits()
    ensures
        SCREEN_WIDTH == CHIP8_WIDTH * SCALE,
        SCREEN_HEIGHT == CHIP8_HEIGHT * SCALE,
        forall|row: int, col: int|
            0 <= row < CHIP8_HEIGHT && 0 <= col < CHIP8_WIDTH ==> {
                let t = #[trigger] tile_of(row, col);
                &&& 0 <= t.x && t.x + t.width <= SCREEN_WIDTH
                &&& 0 <= t.y && t.y + t.height <= SCREEN_HEIGHT
            },
{
}

/// The square of the window that shows the cell `(row, col)`.
pub fn tile(row: usize, col: usize) -> (t: Tile)
    requires
        row < CHIP8_HEIGHT,
        col < CHIP8_WIDTH,
    ensures
        t == tile_of(row as int, col as int),
        t.x == col * 20,
        t.y == row * 20,
{
    Tile {
        x: (col as u32 * SCALE) as i32,
        y: (row as u32 * SCALE) as i32,
        width: SCALE,
        height: SCALE,
    }
}

/// The colour in which a cell is painted.
pub fn colour(cell: u8) -> (c: Rgb)
    ensures
        c == colour_of(cell),
{
    if cell == 0 {
        Rgb { red: 0, green: 0, blue: 0 }
    } else {
        Rgb { red: 0, green: 250, blue: 0 }
    }
}

} // verus!
