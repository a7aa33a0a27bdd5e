//! The game controller: it owns the grid and a finished flag, drives turn
//! order through the grid's placement API, runs the win detector after each
//! successful placement, and resets the session when the board is full or a
//! finished game is played again.

use vstd::prelude::*;

use crate::grid::{
    active_color, can_place, cell_at, col_height, empty_grid, grid_full, grid_wf, Grid, GridView,
};
use crate::win::{is_winning_cell, no_duplicates, seq_has_cell};

verus! {

/// Abstract state of a [`Game`]: the grid and whether the session is
/// finished.
pub ghost struct GameView {
    pub grid: GridView,
    pub finished: bool,
}

/// What one call to [`Game::play_column`] did; the presentation layer reacts
/// to this event.
#[derive(Debug)]
pub enum PlayOutcome {
    /// The board was full, or the game was already finished: the session was
    /// reset instead of placing a checker.
    ResetPerformed,
    /// The column was invalid or full: nothing observable changed.
    Ignored,
    /// A checker settled at `(row, column)`; the game goes on.
    Placed { row: usize, column: usize },
    /// The placement completed at least one four-in-a-row: the game is now
    /// finished and `cells` lists every cell of every winning window through
    /// the placement.
    ConnectedFour { row: usize, column: usize, cells: Vec<(usize, usize)> },
}

/// The board state reached by the successful placement that
/// [`Game::play_column`] performs when no reset intervenes.
pub open spec fn played_grid(g: GridView, column: int) -> GridView {
    crate::grid::place_result(g, column)
}

/// The placement at `(row, column)` produced at least one four-in-a-row.
pub open spec fn placement_wins(cells: Seq<Option<crate::grid::Color>>, row: int, column: int) -> bool {
    exists|r: int, c: int| is_winning_cell(cells, row, column, r, c)
}

/// One game session: the grid plus the finished flag.
pub struct Game {
    grid: Grid,
    is_finished: bool,
}

impl View for Game {
    type V = GameView;

    closed spec fn view(&self) -> GameView {
        GameView { grid: self.grid@, finished: self.is_finished }
    }
}

impl Game {
    /// The controller invariant: the grid it owns is well-formed.
    pub open spec fn wf(&self) -> bool {
        grid_wf(self@.grid)
    }

    /// Starts a session with an empty board, full pools, and the game in
    /// progress.
    pub fn new() -> (g: Game)
        ensures
            g@.grid == empty_grid(),
            !g@.finished,
            g.wf(),
    {
        Game { grid: Grid::new(), is_finished: false }
    }

    /// Whether the session has ended with a four-in-a-row.
    pub fn is_finished(&self) -> (f: bool)
        ensures
            f == self@.finished,
    {
        self.is_finished
    }

    /// Read access to the grid, for the presentation layer's queries.
    pub fn grid(&self) -> (g: &Grid)
        ensures
            g@ == self@.grid,
    {
        &self.grid
    }

    /// Plays one turn: resets if the board is full or the game is finished,
    /// otherwise tries to place the active color's checker into `column`,
    /// silently ignoring an invalid or full column, and runs the win detector
    /// on a successful placement.
    pub fn play_column(&mut self, column: usize) -> (outcome: PlayOutcome)
        requires
            old(self).wf(),
        ensures
            final(self).wf(),
            // A full board or a finished game resets the session; no checker
            // is placed on this call.
            grid_full(old(self)@.grid) || old(self)@.finished ==> outcome
                is ResetPerformed && final(self)@.grid == empty_grid() && !final(self)@.finished,
            // A misplay changes nothing observable.
            !grid_full(old(self)@.grid) && !old(self)@.finished && !can_place(
                old(self)@.grid,
                column as int,
            ) ==> outcome is Ignored && final(self)@ == old(self)@,
            // A successful placement: the grid advances by exactly one checker
            // and the finished flag records whether the placement won.
            !grid_full(old(self)@.grid) && !old(self)@.finished && can_place(
                old(self)@.grid,
                column as int,
            ) ==> {
                let g1 = played_grid(old(self)@.grid, column as int);
                let prow = 5 - col_height(old(self)@.grid.cells, column as int);
                &&& final(self)@.grid == g1
                &&& final(self)@.finished == placement_wins(g1.cells, prow, column as int)
                &&& match outcome {
                    PlayOutcome::Placed { row, column: c2 } => !placement_wins(
                        g1.cells,
                        prow,
                        column as int,
                    ) && row == prow && c2 == column,
                    PlayOutcome::ConnectedFour { row, column: c2, cells } => placement_wins(
                        g1.cells,
                        prow,
                        column as int,
                    ) && row == prow && c2 == column && cells@.len() > 0 && no_duplicates(cells@)
                        && (forall|r: int, c: int|
                        is_winning_cell(g1.cells, prow, column as int, r, c) <==> seq_has_cell(
                            cells@,
                            r,
                            c,
                        )),
                    _ => false,
                }
            },
    {
        if self.grid.is_full() {
            self.restart_game();
            return PlayOutcome::ResetPerformed;
        }
        if self.is_finished {
            self.restart_game();
            return PlayOutcome::ResetPerformed;
        }
        let ghost g0 = self@.grid;
        match self.grid.add_checker_to_column(column) {
            Err(_) => PlayOutcome::Ignored,
            Ok((row, col)) => {
                let ghost g1 = self@.grid;
                match self.grid.find_connected_fours(row, col) {
                    Some(cells) => {
                        proof {
                            // The first recorded cell witnesses the win.
                            assert(seq_has_cell(cells@, cells@[0].0 as int, cells@[0].1 as int));
                            assert(placement_wins(g1.cells, row as int, col as int));
                        }
                        self.is_finished = true;
                        PlayOutcome::ConnectedFour { row, column: col, cells }
                    },
                    None => {
                        proof {
                            assert(!placement_wins(g1.cells, row as int, col as int));
                        }
                        PlayOutcome::Placed { row, column: col }
                    },
                }
            },
        }
    }

    /// Clears the board, refills both pools and marks the game in progress.
    fn restart_game(&mut self)
        ensures
            final(self)@.grid == empty_grid(),
            !final(self)@.finished,
            final(self).wf(),
    {
        self.grid.drop_all_checkers();
        self.is_finished = false;
    }
}

} // verus!
