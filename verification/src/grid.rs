//! The board grid: 6 rows of 7 columns of optional checkers, together with the
//! two players' piece pools. Placement enforces gravity (a checker settles on
//! the lowest empty cell of its column) and turn alternation (the pool sizes
//! determine whose move it is; equal pools mean Red moves).

use vstd::prelude::*;

verus! {

/// A checker's color; `Red` always moves first.
#[derive(Clone, Copy, PartialEq, Eq, Debug, Structural)]
pub enum Color {
    Red,
    Yellow,
}

/// Why a placement request was refused. The grid is left untouched in either
/// case.
#[derive(Clone, Copy, PartialEq, Eq, Debug, Structural)]
pub enum PlacementError {
    /// The column index lies outside `0..7`.
    InvalidColumn,
    /// Every cell of the column is already occupied.
    ColumnFull,
}

/// Abstract state of a [`Grid`]: the 42 cells in row-major order (6 rows of 7
/// columns, row 0 at the top) and how many checkers each player still holds.
pub ghost struct GridView {
    pub cells: Seq<Option<Color>>,
    pub red_pool: int,
    pub yellow_pool: int,
}

/// The cell of `cells` at `row` and `col`, with rows stored row-major.
pub open spec fn cell_at(cells: Seq<Option<Color>>, row: int, col: int) -> Option<Color> {
    cells[row * 7 + col]
}

/// Gravity: an occupied cell never floats above an empty one in its column
/// (row indices grow downward, so row 5 is the bottom row).
pub open spec fn gravity_ok(cells: Seq<Option<Color>>) -> bool {
    forall|row: int, col: int|
        0 <= row < 5 && 0 <= col < 7 && #[trigger] cell_at(cells, row, col) is Some
            ==> cell_at(cells, row + 1, col) is Some
}

/// How many cells of `cells` hold a checker of color `color`.
pub open spec fn count_color(cells: Seq<Option<Color>>, color: Color) -> int
    decreases cells.len(),
{
    if cells.len() == 0 {
        0
    } else {
        count_color(cells.drop_last(), color) + if cells.last() == Some(color) {
            1int
        } else {
            0int
        }
    }
}

/// How many of the cells of column `col` in rows `0..upto` are occupied.
pub open spec fn col_count(cells: Seq<Option<Color>>, col: int, upto: int) -> int
    decreases upto,
{
    if upto <= 0 {
        0
    } else {
        col_count(cells, col, upto - 1) + if cell_at(cells, upto - 1, col) is Some {
            1int
        } else {
            0int
        }
    }
}

/// How many checkers column `col` already holds.
pub open spec fn col_height(cells: Seq<Option<Color>>, col: int) -> int {
    col_count(cells, col, 6)
}

/// A board with every cell empty.
pub open spec fn empty_cells() -> Seq<Option<Color>> {
    Seq::new(42, |i: int| None)
}

/// The state of a freshly created or fully reset grid: an empty board and 21
/// checkers in each pool.
pub open spec fn empty_grid() -> GridView {
    GridView { cells: empty_cells(), red_pool: 21, yellow_pool: 21 }
}

/// Well-formedness of a grid state: the board has its 42 cells, each pool
/// holds exactly the checkers of its color that are not on the board, the
/// pool sizes differ by at most one (Yellow never ahead of Red on the board),
/// and gravity holds.
pub open spec fn grid_wf(g: GridView) -> bool {
    &&& g.cells.len() == 42
    &&& 0 <= g.red_pool
    &&& 0 <= g.yellow_pool
    &&& g.red_pool + count_color(g.cells, Color::Red) == 21
    &&& g.yellow_pool + count_color(g.cells, Color::Yellow) == 21
    &&& (g.yellow_pool == g.red_pool || g.yellow_pool == g.red_pool + 1)
    &&& gravity_ok(g.cells)
}

/// Whose move it is, read off the pool sizes: equal pools mean Red moves,
/// a Yellow pool one ahead means Yellow moves.
pub open spec fn active_color(g: GridView) -> Color {
    if g.yellow_pool == g.red_pool {
        Color::Red
    } else {
        Color::Yellow
    }
}

/// The board is full exactly when the Yellow pool has run out.
pub open spec fn grid_full(g: GridView) -> bool {
    g.yellow_pool == 0
}

/// A checker can be placed into `col` exactly when the column index is valid
/// and the column's top cell is still empty.
pub open spec fn can_place(g: GridView, col: int) -> bool {
    0 <= col < 7 && cell_at(g.cells, 0, col) is None
}

/// The grid state a reset produces, whatever the state before it.
pub open spec fn reset_result(g: GridView) -> GridView {
    empty_grid()
}

/// The grid state after a successful placement into `col`: the active color's
/// checker settles on the lowest empty cell of the column and leaves its pool.
pub open spec fn place_result(g: GridView, col: int) -> GridView {
    let row = 5 - col_height(g.cells, col);
    let color = active_color(g);
    GridView {
        cells: g.cells.update(row * 7 + col, Some(color)),
        red_pool: if color == Color::Red {
            g.red_pool - 1
        } else {
            g.red_pool
        },
        yellow_pool: if color == Color::Yellow {
            g.yellow_pool - 1
        } else {
            g.yellow_pool
        },
    }
}

/// The board grid and the two piece pools.
pub struct Grid {
    cells: Vec<Option<Color>>,
    red_pool: usize,
    yellow_pool: usize,
}

impl View for Grid {
    type V = GridView;

    closed spec fn view(&self) -> GridView {
        GridView {
            cells: self.cells@,
            red_pool: self.red_pool as int,
            yellow_pool: self.yellow_pool as int,
        }
    }
}

impl Grid {
    /// The grid invariant; established by [`Grid::new`] and preserved by every
    /// operation.
    pub open spec fn wf(&self) -> bool {
        grid_wf(self@)
    }

    /// Builds the empty grid with both pools full.
    pub fn new() -> (g: Grid)
        ensures
            g@ == empty_grid(),
            g.wf(),
    {
        let mut cells: Vec<Option<Color>> = Vec::new();
        while cells.len() < 42
            invariant
                cells@.len() <= 42,
                forall|i: int| 0 <= i < cells@.len() ==> cells@[i] is None,
            decreases 42 - cells@.len(),
        {
            cells.push(None);
        }
        let g = Grid { cells, red_pool: 21, yellow_pool: 21 };
        proof {
            assert(g@.cells =~= empty_cells());
            lemma_count_all_none(g@.cells, Color::Red);
            lemma_count_all_none(g@.cells, Color::Yellow);
        }
        g
    }

    /// The board is full exactly when the Yellow pool is empty.
    pub fn is_full(&self) -> (full: bool)
        ensures
            full == grid_full(self@),
    {
        self.yellow_pool == 0
    }

    /// Reads one cell of the board.
    pub fn cell(&self, row: usize, col: usize) -> (c: Option<Color>)
        requires
            self.wf(),
            row < 6,
            col < 7,
        ensures
            c == cell_at(self@.cells, row as int, col as int),
    {
        self.cells[row * 7 + col]
    }

    /// How many checkers Red still holds.
    pub fn red_remaining(&self) -> (n: usize)
        ensures
            n == self@.red_pool,
    {
        self.red_pool
    }

    /// How many checkers Yellow still holds.
    pub fn yellow_remaining(&self) -> (n: usize)
        ensures
            n == self@.yellow_pool,
    {
        self.yellow_pool
    }

    /// Places the active color's checker into `column`. On success it returns
    /// the coordinate the checker settled at: the lowest empty row of the
    /// column, which is `5 - col_height` counted before the move. An invalid
    /// or full column is refused and leaves the grid untouched.
    pub fn add_checker_to_column(&mut self, column: usize) -> (r: Result<
        (usize, usize),
        PlacementError,
    >)
        requires
            old(self).wf(),
        ensures
            final(self).wf(),
            r is Ok <==> can_place(old(self)@, column as int),
            column >= 7 ==> r == Err::<(usize, usize), PlacementError>(
                PlacementError::InvalidColumn,
            ) && final(self)@ == old(self)@,
            column < 7 && !can_place(old(self)@, column as int) ==> r == Err::<
                (usize, usize),
                PlacementError,
            >(PlacementError::ColumnFull) && final(self)@ == old(self)@,
            can_place(old(self)@, column as int) ==> {
                let row = 5 - col_height(old(self)@.cells, column as int);
                &&& 0 <= row < 6
                &&& r == Ok::<(usize, usize), PlacementError>((row as usize, column))
                &&& final(self)@ == place_result(old(self)@, column as int)
                &&& cell_at(old(self)@.cells, row, column as int) is None
                &&& cell_at(final(self)@.cells, row, column as int) == Some(
                    active_color(old(self)@),
                )
            },
    {
        if column >= 7 {
            return Err(PlacementError::InvalidColumn);
        }
        let row_opt = lowest_empty_row(&self.cells, column);
        match row_opt {
            None => {
                assert(!can_place(self@, column as int));
                Err(PlacementError::ColumnFull)
            },
            Some(row) => {
                let ghost g0 = self@;
                let ghost col = column as int;
                proof {
                    // Every cell above the landing row is empty, so the column
                    // profile is exact and the landing row is 5 - height.
                    assert forall|r: int| 0 <= r < 6 implies (#[trigger] cell_at(g0.cells, r, col)
                        is Some <==> r > row) by {
                        if r <= row && cell_at(g0.cells, r, col) is Some {
                            lemma_none_above(g0.cells, col, r, row as int);
                        }
                    }
                    lemma_col_count_profile(g0.cells, col, row as int + 1, 6);
                    assert(col_height(g0.cells, col) == 5 - row);
                    assert(cell_at(g0.cells, 0, col) is None);
                }
                let color = if self.yellow_pool == self.red_pool {
                    proof {
                        // Both pools equal; were they empty, the board would hold
                        // 42 checkers, contradicting the empty landing cell.
                        if self.red_pool == 0 {
                            lemma_count_pair_with_empty(g0.cells, row as int * 7 + col);
                        }
                    }
                    self.red_pool = self.red_pool - 1;
                    Color::Red
                } else {
                    self.yellow_pool = self.yellow_pool - 1;
                    Color::Yellow
                };
                self.cells[row * 7 + column] = Some(color);
                proof {
                    let g1 = self@;
                    let idx = row as int * 7 + col;
                    lemma_count_update(g0.cells, idx, Some(color), Color::Red);
                    lemma_count_update(g0.cells, idx, Some(color), Color::Yellow);
                    assert(g1.cells =~= place_result(g0, col).cells);
                    // Gravity is preserved: the landing cell sits right on top
                    // of the column's filled part.
                    assert forall|r: int, c: int|
                        0 <= r < 5 && 0 <= c < 7 && #[trigger] cell_at(g1.cells, r, c)
                            is Some implies cell_at(g1.cells, r + 1, c) is Some by {
                        if (r + 1) * 7 + c != idx {
                            if r * 7 + c == idx {
                                assert(cell_at(g0.cells, r + 1, c) is Some);
                            } else {
                                assert(cell_at(g0.cells, r, c) is Some);
                            }
                        }
                    }
                }
                Ok((row, column))
            },
        }
    }

    /// Runs the win detector at a just-filled coordinate: returns the set of
    /// all cells of all four-in-a-row windows through `(row, column)`, or
    /// `None` when there is none.
    pub fn find_connected_fours(&self, row: usize, column: usize) -> (result: Option<
        Vec<(usize, usize)>,
    >)
        requires
            self.wf(),
            row < 6,
            column < 7,
        ensures
            match result {
                None => forall|r: int, c: int|
                    !crate::win::is_winning_cell(self@.cells, row as int, column as int, r, c),
                Some(found) => {
                    &&& found@.len() > 0
                    &&& crate::win::no_duplicates(found@)
                    &&& forall|r: int, c: int|
                        crate::win::is_winning_cell(self@.cells, row as int, column as int, r, c)
                            <==> crate::win::seq_has_cell(found@, r, c)
                },
            },
    {
        crate::win::find_wins(&self.cells, row, column)
    }

    /// Returns every placed checker to its owner's pool, emptying the board.
    /// The result does not depend on the state before the call, which makes
    /// resetting idempotent.
    pub fn drop_all_checkers(&mut self)
        ensures
            final(self)@ == reset_result(old(self)@),
            final(self)@ == empty_grid(),
            final(self).wf(),
    {
        let mut cells: Vec<Option<Color>> = Vec::new();
        while cells.len() < 42
            invariant
                cells@.len() <= 42,
                forall|i: int| 0 <= i < cells@.len() ==> cells@[i] is None,
            decreases 42 - cells@.len(),
        {
            cells.push(None);
        }
        self.cells = cells;
        self.red_pool = 21;
        self.yellow_pool = 21;
        proof {
            assert(self@.cells =~= empty_cells());
            lemma_count_all_none(self@.cells, Color::Red);
            lemma_count_all_none(self@.cells, Color::Yellow);
        }
    }
}

/// Finds the lowest empty row of `column`, scanning from the bottom row up.
fn lowest_empty_row(cells: &Vec<Option<Color>>, column: usize) -> (r: Option<usize>)
    requires
        cells@.len() == 42,
        column < 7,
    ensures
        match r {
            Some(row) => row < 6 && cell_at(cells@, row as int, column as int) is None && forall|
                rr: int,
            | row < rr < 6 ==> cell_at(cells@, rr, column as int) is Some,
            None => forall|rr: int| 0 <= rr < 6 ==> cell_at(cells@, rr, column as int) is Some,
        },
{
    let mut i: usize = 6;
    while i > 0
        invariant
            cells@.len() == 42,
            column < 7,
            i <= 6,
            forall|rr: int| i <= rr < 6 ==> cell_at(cells@, rr, column as int) is Some,
        decreases i,
    {
        i = i - 1;
        if cells[i * 7 + column].is_none() {
            return Some(i);
        }
        assert(cell_at(cells@, i as int, column as int) is Some);
    }
    None
}

/// Counts lie between zero and the number of cells.
proof fn lemma_count_bounds(cells: Seq<Option<Color>>, color: Color)
    ensures
        0 <= count_color(cells, color) <= cells.len(),
    decreases cells.len(),
{
    if cells.len() > 0 {
        lemma_count_bounds(cells.drop_last(), color);
    }
}

/// How a single-cell update moves the count of `color`.
proof fn lemma_count_update(cells: Seq<Option<Color>>, i: int, v: Option<Color>, color: Color)
    requires
        0 <= i < cells.len(),
    ensures
        count_color(cells.update(i, v), color) == count_color(cells, color) - (
        if cells[i] == Some(color) {
            1int
        } else {
            0int
        }) + (
        if v == Some(color) {
            1int
        } else {
            0int
        }),
    decreases cells.len(),
{
    let updated = cells.update(i, v);
    if i == cells.len() - 1 {
        assert(updated.drop_last() =~= cells.drop_last());
    } else {
        assert(updated.drop_last() =~= cells.drop_last().update(i, v));
        lemma_count_update(cells.drop_last(), i, v, color);
    }
}

/// A board with an empty cell holds strictly fewer than `len` checkers.
proof fn lemma_count_pair_with_empty(cells: Seq<Option<Color>>, i: int)
    requires
        0 <= i < cells.len(),
        cells[i] is None,
    ensures
        count_color(cells, Color::Red) + count_color(cells, Color::Yellow) <= cells.len() - 1,
    decreases cells.len(),
{
    lemma_count_pair(cells.drop_last());
    if i == cells.len() - 1 {
    } else {
        lemma_count_pair_with_empty(cells.drop_last(), i);
    }
}

/// The two counts together never exceed the number of cells.
proof fn lemma_count_pair(cells: Seq<Option<Color>>)
    ensures
        count_color(cells, Color::Red) + count_color(cells, Color::Yellow) <= cells.len(),
    decreases cells.len(),
{
    if cells.len() > 0 {
        lemma_count_pair(cells.drop_last());
    }
}

/// On a fully occupied board the two counts add up to the number of cells.
proof fn lemma_count_pair_all_some(cells: Seq<Option<Color>>)
    requires
        forall|i: int| 0 <= i < cells.len() ==> cells[i] is Some,
    ensures
        count_color(cells, Color::Red) + count_color(cells, Color::Yellow) == cells.len(),
    decreases cells.len(),
{
    if cells.len() > 0 {
        assert(forall|i: int|
            0 <= i < cells.drop_last().len() ==> #[trigger] cells.drop_last()[i] is Some);
        lemma_count_pair_all_some(cells.drop_last());
        assert(cells[cells.len() - 1] is Some);
        if cells.last() != Some(Color::Red) {
            assert(cells.last() == Some(Color::Yellow));
        }
    }
}

/// Under gravity, every cell at or above an empty cell of a column is empty.
proof fn lemma_none_above(cells: Seq<Option<Color>>, col: int, lo: int, hi: int)
    requires
        gravity_ok(cells),
        0 <= col < 7,
        0 <= lo <= hi < 6,
        cell_at(cells, hi, col) is None,
    ensures
        cell_at(cells, lo, col) is None,
    decreases hi - lo,
{
    if lo < hi {
        if cell_at(cells, lo, col) is Some {
            assert(cell_at(cells, lo + 1, col) is Some);
            lemma_none_above(cells, col, lo + 1, hi);
        }
    }
}

/// Evaluates `col_count` on a column whose occupied cells are exactly the rows
/// at or below a threshold `t`.
proof fn lemma_col_count_profile(cells: Seq<Option<Color>>, col: int, t: int, upto: int)
    requires
        0 <= col < 7,
        0 <= t <= 6,
        0 <= upto <= 6,
        forall|r: int| 0 <= r < 6 ==> (#[trigger] cell_at(cells, r, col) is Some <==> r >= t),
    ensures
        col_count(cells, col, upto) == if upto <= t {
            0int
        } else {
            upto - t
        },
    decreases upto,
{
    if upto > 0 {
        lemma_col_count_profile(cells, col, t, upto - 1);
    }
}

/// `col_count` never exceeds the number of rows it looks at.
proof fn lemma_col_count_bounds(cells: Seq<Option<Color>>, col: int, upto: int)
    requires
        0 <= upto,
    ensures
        0 <= col_count(cells, col, upto) <= upto,
    decreases upto,
{
    if upto > 0 {
        lemma_col_count_bounds(cells, col, upto - 1);
    }
}

/// A sequence of all-empty cells holds no checker of any color.
proof fn lemma_count_all_none(cells: Seq<Option<Color>>, color: Color)
    requires
        forall|i: int| 0 <= i < cells.len() ==> cells[i] is None,
    ensures
        count_color(cells, color) == 0,
    decreases cells.len(),
{
    if cells.len() > 0 {
        lemma_count_all_none(cells.drop_last(), color);
    }
}

/// A column with an empty cell in rows `0..upto` holds fewer than `upto`
/// checkers in those rows.
proof fn lemma_col_count_with_none(cells: Seq<Option<Color>>, col: int, r: int, upto: int)
    requires
        0 <= r < upto <= 6,
        cell_at(cells, r, col) is None,
    ensures
        col_count(cells, col, upto) <= upto - 1,
    decreases upto,
{
    lemma_col_count_bounds(cells, col, upto - 1);
    if r < upto - 1 {
        lemma_col_count_with_none(cells, col, r, upto - 1);
    }
}

/// Turn alternation: under the grid invariant, Red is the active color
/// exactly when an even number of checkers has been placed, and the active
/// player has placed no more checkers than the other. Successful placements
/// therefore go to Red on the 1st, 3rd, 5th, ... move and to Yellow on the
/// even moves.
pub proof fn lemma_turn_alternation(g: GridView)
    requires
        grid_wf(g),
    ensures
        active_color(g) == Color::Red <==> count_color(g.cells, Color::Red) == count_color(
            g.cells,
            Color::Yellow,
        ),
        active_color(g) == Color::Yellow ==> count_color(g.cells, Color::Red) == count_color(
            g.cells,
            Color::Yellow,
        ) + 1,
        active_color(g) == Color::Red <==> (count_color(g.cells, Color::Red) + count_color(
            g.cells,
            Color::Yellow,
        )) % 2 == 0,
{
    let red = count_color(g.cells, Color::Red);
    let yellow = count_color(g.cells, Color::Yellow);
    if g.yellow_pool == g.red_pool {
        assert((red + yellow) % 2 == 0) by {
            assert(red == yellow);
            assert(red + yellow == 2 * red);
        }
    } else {
        assert((red + yellow) % 2 == 1) by {
            assert(red == yellow + 1);
            assert(red + yellow == 2 * yellow + 1);
        }
    }
}

/// Column capacity: under gravity, a column's top cell is occupied exactly
/// when the column already holds its six checkers; placement into such a
/// column is refused and changes nothing.
pub proof fn lemma_column_capacity(cells: Seq<Option<Color>>, col: int)
    requires
        cells.len() == 42,
        gravity_ok(cells),
        0 <= col < 7,
    ensures
        cell_at(cells, 0, col) is Some <==> col_height(cells, col) == 6,
{
    if cell_at(cells, 0, col) is Some {
        assert forall|r: int| 0 <= r < 6 implies (#[trigger] cell_at(cells, r, col)
            is Some <==> r >= 0) by {
            if cell_at(cells, r, col) is None {
                lemma_none_above(cells, col, 0, r);
            }
        }
        lemma_col_count_profile(cells, col, 0, 6);
    } else {
        lemma_col_count_with_none(cells, col, 0, 6);
    }
}

/// Full board: under the grid invariant, the Yellow pool runs out exactly
/// when all 42 checkers have been placed, which is exactly when every cell of
/// the board is occupied.
pub proof fn lemma_full_board(g: GridView)
    requires
        grid_wf(g),
    ensures
        grid_full(g) <==> count_color(g.cells, Color::Red) + count_color(g.cells, Color::Yellow)
            == 42,
        grid_full(g) <==> forall|i: int| 0 <= i < 42 ==> g.cells[i] is Some,
{
    lemma_count_bounds(g.cells, Color::Red);
    lemma_count_bounds(g.cells, Color::Yellow);
    if grid_full(g) {
        assert(g.red_pool == 0);
        assert forall|i: int| 0 <= i < 42 implies g.cells[i] is Some by {
            if g.cells[i] is None {
                lemma_count_pair_with_empty(g.cells, i);
            }
        }
    }
    if forall|i: int| 0 <= i < 42 ==> g.cells[i] is Some {
        lemma_count_pair_all_some(g.cells);
    }
}

/// Idempotent reset: resetting a grid that was just reset produces the very
/// same state, so two consecutive resets are equivalent to one.
pub proof fn lemma_reset_idempotent(g: GridView)
    ensures
        reset_result(reset_result(g)) == reset_result(g),
{
}

} // verus!
