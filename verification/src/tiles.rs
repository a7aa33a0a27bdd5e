//! The tile-highlight collaborator's state and coordinate arithmetic: it
//! tracks whether a winning set is currently highlighted, refuses a second
//! highlight until a reset, and translates board coordinates into the host's
//! tile coordinates (the board sits inside a two-tile border).

use vstd::prelude::*;

verus! {

/// Why a highlight request was refused.
#[derive(Clone, Copy, PartialEq, Eq, Debug, Structural)]
pub enum HighlightError {
    /// A winning set is already highlighted; reset first.
    AlreadyHighlighted,
}

/// Tracks the highlight state of the board's tiles. Its view is the flag:
/// `true` while a winning set is highlighted.
pub struct TileHighlighter {
    is_highlighted: bool,
}

impl View for TileHighlighter {
    type V = bool;

    closed spec fn view(&self) -> bool {
        self.is_highlighted
    }
}

impl TileHighlighter {
    /// Starts with nothing highlighted.
    pub fn new() -> (t: TileHighlighter)
        ensures
            !t@,
    {
        TileHighlighter { is_highlighted: false }
    }

    /// Translates the winning cells into tile coordinates to paint
    /// highlighted, or refuses when a highlight is already shown. Each board
    /// cell `(r, c)` maps to the tile `(r + 2, c + 2)`.
    pub fn highlight_tiles(&mut self, cells: &Vec<(usize, usize)>) -> (r: Result<
        Vec<(usize, usize)>,
        HighlightError,
    >)
        requires
            forall|i: int|
                0 <= i < cells@.len() ==> (#[trigger] cells@[i]).0 < 6 && cells@[i].1 < 7,
        ensures
            old(self)@ ==> r == Err::<Vec<(usize, usize)>, HighlightError>(
                HighlightError::AlreadyHighlighted,
            ) && final(self)@,
            !old(self)@ ==> final(self)@ && match r {
                Ok(tiles) => tiles@.len() == cells@.len() && forall|i: int|
                    0 <= i < cells@.len() ==> (#[trigger] tiles@[i]).0 == cells@[i].0 + 2
                        && tiles@[i].1 == cells@[i].1 + 2,
                Err(_) => false,
            },
    {
        if self.is_highlighted {
            return Err(HighlightError::AlreadyHighlighted);
        }
        let mut tiles: Vec<(usize, usize)> = Vec::new();
        let mut i: usize = 0;
        while i < cells.len()
            invariant
                i <= cells@.len(),
                tiles@.len() == i,
                forall|j: int|
                    0 <= j < cells@.len() ==> (#[trigger] cells@[j]).0 < 6 && cells@[j].1 < 7,
                forall|j: int|
                    0 <= j < i ==> (#[trigger] tiles@[j]).0 == cells@[j].0 + 2 && tiles@[j].1
                        == cells@[j].1 + 2,
            decreases cells@.len() - i,
        {
            let p = cells[i];
            tiles.push((p.0 + 2, p.1 + 2));
            i = i + 1;
        }
        self.is_highlighted = true;
        Ok(tiles)
    }

    /// Clears the highlight and returns the tile coordinates of the whole
    /// board, to be repainted unhighlighted: the tiles `(r + 2, c + 2)` for
    /// every board cell `(r, c)`, in row-major order.
    pub fn reset_tiles(&mut self) -> (tiles: Vec<(usize, usize)>)
        ensures
            !final(self)@,
            tiles@.len() == 42,
            forall|i: int|
                0 <= i < 42 ==> (#[trigger] tiles@[i]).0 == i / 7 + 2 && tiles@[i].1 == i % 7 + 2,
    {
        let mut tiles: Vec<(usize, usize)> = Vec::new();
        let mut i: usize = 0;
        while i < 42
            invariant
                i <= 42,
                tiles@.len() == i,
                forall|j: int|
                    0 <= j < i ==> (#[trigger] tiles@[j]).0 == j / 7 + 2 && tiles@[j].1 == j % 7
                        + 2,
            decreases 42 - i,
        {
            tiles.push((i / 7 + 2, i % 7 + 2));
            i = i + 1;
        }
        self.is_highlighted = false;
        tiles
    }
}

} // verus!
