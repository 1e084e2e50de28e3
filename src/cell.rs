use vstd::prelude::*;

verus! {

/// One character-grid position: a glyph with foreground and background
/// colours (packed RGBA, red in the most significant byte) and attribute bits.
#[derive(Clone, Copy, Debug, PartialEq, Eq, Structural)]
pub struct Cell {
    pub ch: char,
    pub fg: u32,
    pub bg: u32,
    pub attr: u32,
}

/// Encoded size of a cell on the wire.
pub const CELL_SIZE: usize = 16;

impl Cell {
    /// The canonical blank cell.
    pub open spec fn blank() -> Cell {
        Cell { ch: ' ', fg: 0xffff_ffff, bg: 0, attr: 0 }
    }

    pub fn new(ch: char, fg: u32, bg: u32) -> (r: Cell)
        ensures
            r == (Cell { ch, fg, bg, attr: 0 }),
    {
        Cell { ch, fg, bg, attr: 0 }
    }
}

impl Default for Cell {
    fn default() -> (r: Cell)
        ensures
            r == Cell::blank(),
    {
        Cell { ch: ' ', fg: 0xffff_ffff, bg: 0, attr: 0 }
    }
}

} // verus!
