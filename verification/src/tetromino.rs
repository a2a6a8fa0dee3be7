//! The seven shapes, the four orientations and the five moves.

use vstd::prelude::*;

verus! {

/// What a cell of the board holds: nothing (`E`) or a block of one of the
/// seven shapes.
#[derive(Clone, Copy, PartialEq, Eq, Structural, Debug)]
pub enum Tetromino {
    E,
    I,
    O,
    T,
    S,
    Z,
    J,
    L,
}

impl Tetromino {
    /// True of the seven shapes, false of the empty marker.
    pub open spec fn is_shape(self) -> bool {
        self != Tetromino::E
    }

    /// The display colour of each variant as `0xRRGGBB`.
    pub open spec fn color_code(self) -> u32 {
        match self {
            Tetromino::E => 0x000000,
            Tetromino::I => 0x00F0F0,
            Tetromino::O => 0xF0F000,
            Tetromino::T => 0xA000F0,
            Tetromino::S => 0x00F000,
            Tetromino::Z => 0xF00000,
            Tetromino::J => 0x0000F0,
            Tetromino::L => 0xF0A000,
        }
    }

    /// The display colour as `0xRRGGBB`, ready for a renderer to unpack.
    pub fn get_color(&self) -> (code: u32)
        ensures
            code == self.color_code(),
    {
        match self {
            Tetromino::E => 0x000000,
            Tetromino::I => 0x00F0F0,
            Tetromino::O => 0xF0F000,
            Tetromino::T => 0xA000F0,
            Tetromino::S => 0x00F000,
            Tetromino::Z => 0xF00000,
            Tetromino::J => 0x0000F0,
            Tetromino::L => 0xF0A000,
        }
    }
}

/// One of the four rotation states of a piece.
#[derive(Clone, Copy, PartialEq, Eq, Structural, Debug)]
pub enum Orientation {
    Up,
    Right,
    Down,
    Left,
}

impl Orientation {
    /// The orientation after one rotation: Up, Right, Down, Left and back to Up.
    pub open spec fn turned(self) -> Orientation {
        match self {
            Orientation::Up => Orientation::Right,
            Orientation::Right => Orientation::Down,
            Orientation::Down => Orientation::Left,
            Orientation::Left => Orientation::Up,
        }
    }
}

/// Four rotations bring an orientation back to where it started, and fewer
/// do not.
pub proof fn lemma_rotation_cycle(o: Orientation)
    ensures
        o.turned().turned().turned().turned() == o,
        o.turned() != o,
        o.turned().turned() != o,
        o.turned().turned().turned() != o,
{
}

/// A move that a player can ask for.
#[derive(Clone, Copy, PartialEq, Eq, Structural, Debug)]
pub enum Move {
    Left,
    Right,
    Down,
    Rotate,
    Drop,
}

} // verus!
