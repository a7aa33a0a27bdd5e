//! The win detector: a pure scan over the board that, given the coordinate of
//! a just-placed checker, collects every cell belonging to a four-in-a-row
//! through that cell. Four axes are examined (horizontal, vertical and both
//! diagonals); on each axis the four length-4 windows containing the placed
//! cell are checked, and every cell of every winning window is reported once.

use vstd::prelude::*;

use crate::grid::{cell_at, Color};

verus! {

/// Row step of the scan axes: horizontal, vertical, down-right, up-right.
pub open spec fn axis_dr(axis: int) -> int {
    if axis == 0 {
        0
    } else if axis == 3 {
        -1
    } else {
        1
    }
}

/// Column step of the scan axes.
pub open spec fn axis_dc(axis: int) -> int {
    if axis == 1 {
        0
    } else {
        1
    }
}

/// Row of the `k`-th cell of the window that starts `off` steps before the
/// placed cell along `axis`.
pub open spec fn wrow(row: int, axis: int, off: int, k: int) -> int {
    row + (off + k) * axis_dr(axis)
}

/// Column of the `k`-th cell of that window.
pub open spec fn wcol(col: int, axis: int, off: int, k: int) -> int {
    col + (off + k) * axis_dc(axis)
}

/// The windows scanned: 4 axes, 4 window offsets each (the placed cell can
/// occupy any of the 4 positions of a window), 4 cells per window.
pub open spec fn valid_window_index(axis: int, off: int, k: int) -> bool {
    0 <= axis < 4 && -3 <= off <= 0 && 0 <= k < 4
}

/// The `k`-th cell of the window lies on the board, is occupied, and matches
/// the placed cell's color.
pub open spec fn window_cell_ok(
    cells: Seq<Option<Color>>,
    row: int,
    col: int,
    axis: int,
    off: int,
    k: int,
) -> bool {
    let r = wrow(row, axis, off, k);
    let c = wcol(col, axis, off, k);
    &&& 0 <= r < 6
    &&& 0 <= c < 7
    &&& cell_at(cells, r, c) is Some
    &&& cell_at(cells, r, c) == cell_at(cells, row, col)
}

/// The window at `off` along `axis` through the placed cell `(row, col)` is a
/// winning window: all four of its cells lie on the board and hold checkers of
/// the placed cell's color.
pub open spec fn win_window_at(
    cells: Seq<Option<Color>>,
    row: int,
    col: int,
    axis: int,
    off: int,
) -> bool {
    forall|k: int| 0 <= k < 4 ==> #[trigger] window_cell_ok(cells, row, col, axis, off, k)
}

/// `(r, c)` belongs to some winning window through the placed cell
/// `(row, col)`.
pub open spec fn is_winning_cell(
    cells: Seq<Option<Color>>,
    row: int,
    col: int,
    r: int,
    c: int,
) -> bool {
    exists|axis: int, off: int, k: int|
        #![trigger win_window_at(cells, row, col, axis, off), wrow(row, axis, off, k)]
        valid_window_index(axis, off, k) && win_window_at(cells, row, col, axis, off) && r == wrow(
            row,
            axis,
            off,
            k,
        ) && c == wcol(col, axis, off, k)
}

/// The coordinate list `s` mentions the cell `(r, c)`.
pub open spec fn seq_has_cell(s: Seq<(usize, usize)>, r: int, c: int) -> bool {
    exists|i: int| 0 <= i < s.len() && (#[trigger] s[i]).0 == r && s[i].1 == c
}

/// The coordinate list `s` mentions no cell twice.
pub open spec fn no_duplicates(s: Seq<(usize, usize)>) -> bool {
    forall|i: int, j: int| 0 <= i < j < s.len() ==> s[i] != s[j]
}

/// No false positives from mixed colors: a window holding two cells of
/// different contents is never a winning window, whatever the rest of the
/// board looks like.
pub proof fn lemma_mixed_window_not_winning(
    cells: Seq<Option<Color>>,
    row: int,
    col: int,
    axis: int,
    off: int,
    k1: int,
    k2: int,
)
    requires
        valid_window_index(axis, off, k1),
        valid_window_index(axis, off, k2),
        cell_at(cells, wrow(row, axis, off, k1), wcol(col, axis, off, k1)) != cell_at(
            cells,
            wrow(row, axis, off, k2),
            wcol(col, axis, off, k2),
        ),
    ensures
        !win_window_at(cells, row, col, axis, off),
{
    if win_window_at(cells, row, col, axis, off) {
        assert(window_cell_ok(cells, row, col, axis, off, k1));
        assert(window_cell_ok(cells, row, col, axis, off, k2));
    }
}

/// Every reported cell carries the placed cell's color: the winning set is
/// monochrome, so four checkers of mixed colors never contribute to it.
pub proof fn lemma_winning_cell_color(cells: Seq<Option<Color>>, row: int, col: int, r: int, c: int)
    requires
        is_winning_cell(cells, row, col, r, c),
    ensures
        cell_at(cells, r, c) is Some,
        cell_at(cells, r, c) == cell_at(cells, row, col),
        0 <= r < 6 && 0 <= c < 7,
{
    let (axis, off, k) = choose|axis: int, off: int, k: int|
        valid_window_index(axis, off, k) && #[trigger] win_window_at(cells, row, col, axis, off)
            && r == #[trigger] wrow(row, axis, off, k) && c == wcol(col, axis, off, k);
    assert(window_cell_ok(cells, row, col, axis, off, k));
}

/// Detection is a property of the board alone: any monochrome window through
/// the placed cell makes each of its four cells a winning cell, however and
/// in whatever order the board reached its current state.
pub proof fn lemma_window_detected(
    cells: Seq<Option<Color>>,
    row: int,
    col: int,
    axis: int,
    off: int,
    k: int,
)
    requires
        valid_window_index(axis, off, k),
        win_window_at(cells, row, col, axis, off),
    ensures
        is_winning_cell(cells, row, col, wrow(row, axis, off, k), wcol(col, axis, off, k)),
{
}

/// Whether the list `found` already mentions `(r, c)`.
fn contains_cell(found: &Vec<(usize, usize)>, r: usize, c: usize) -> (present: bool)
    ensures
        present == seq_has_cell(found@, r as int, c as int),
{
    let mut i: usize = 0;
    while i < found.len()
        invariant
            i <= found@.len(),
            forall|j: int|
                0 <= j < i ==> !((#[trigger] found@[j]).0 == r as int && found@[j].1 == c as int),
        decreases found@.len() - i,
    {
        let p = found[i];
        if p.0 == r && p.1 == c {
            assert((found@[i as int]).0 == r as int && found@[i as int].1 == c as int);
            return true;
        }
        i = i + 1;
    }
    false
}

/// Appends `(r, c)` to `found` unless it is already listed.
fn push_if_absent(found: &mut Vec<(usize, usize)>, r: usize, c: usize)
    ensures
        final(found)@ == old(found)@ || final(found)@ == old(found)@.push((r, c)),
        seq_has_cell(final(found)@, r as int, c as int),
        forall|rr: int, cc: int|
            #![trigger seq_has_cell(final(found)@, rr, cc)]
            seq_has_cell(final(found)@, rr, cc) <==> seq_has_cell(old(found)@, rr, cc) || (rr == r
                as int && cc == c as int),
        no_duplicates(old(found)@) ==> no_duplicates(final(found)@),
{
    let ghost s0 = found@;
    if !contains_cell(found, r, c) {
        found.push((r, c));
        proof {
            let s1 = found@;
            assert(s1[s0.len() as int] == (r, c));
            assert forall|rr: int, cc: int|
                #![trigger seq_has_cell(s1, rr, cc)]
                seq_has_cell(s1, rr, cc) <==> seq_has_cell(s0, rr, cc) || (rr == r as int && cc == c
                as int) by {
                if seq_has_cell(s0, rr, cc) {
                    let i = choose|i: int|
                        0 <= i < s0.len() && (#[trigger] s0[i]).0 == rr && s0[i].1 == cc;
                    assert((s1[i]).0 == rr && s1[i].1 == cc);
                }
                if seq_has_cell(s1, rr, cc) {
                    let i = choose|i: int|
                        0 <= i < s1.len() && (#[trigger] s1[i]).0 == rr && s1[i].1 == cc;
                    if i < s0.len() {
                        assert((s0[i]).0 == rr && s0[i].1 == cc);
                    }
                }
            }
            if no_duplicates(s0) {
                assert forall|i: int, j: int| 0 <= i < j < s1.len() implies s1[i] != s1[j] by {
                    if j == s0.len() {
                        assert((s0[i]).0 != r as int || s0[i].1 != c as int);
                    }
                }
            }
        }
    } else {
        proof {
            assert(found@ == s0);
        }
    }
}

/// Checks one window: true exactly when all four of its cells lie on the
/// board and hold the placed cell's color.
fn check_window(cells: &Vec<Option<Color>>, row: usize, column: usize, axis: usize, off: i32) -> (win:
    bool)
    requires
        cells@.len() == 42,
        row < 6,
        column < 7,
        axis < 4,
        -3 <= off <= 0,
    ensures
        win == win_window_at(cells@, row as int, column as int, axis as int, off as int),
{
    let (dr, dc): (i32, i32) = match axis {
        0 => (0, 1),
        1 => (1, 0),
        2 => (1, 1),
        _ => (-1, 1),
    };
    proof {
        assert(dr as int == axis_dr(axis as int) && dc as int == axis_dc(axis as int));
    }
    let placed = cells[row * 7 + column];
    let mut k: usize = 0;
    while k < 4
        invariant
            cells@.len() == 42,
            row < 6,
            column < 7,
            axis < 4,
            -3 <= off <= 0,
            k <= 4,
            dr as int == axis_dr(axis as int),
            dc as int == axis_dc(axis as int),
            placed == cell_at(cells@, row as int, column as int),
            forall|kk: int|
                0 <= kk < k ==> #[trigger] window_cell_ok(
                    cells@,
                    row as int,
                    column as int,
                    axis as int,
                    off as int,
                    kk,
                ),
        decreases 4 - k,
    {
        let r = row as i32 + (off + k as i32) * dr;
        let c = column as i32 + (off + k as i32) * dc;
        proof {
            assert(r as int == wrow(row as int, axis as int, off as int, k as int));
            assert(c as int == wcol(column as int, axis as int, off as int, k as int));
        }
        if r < 0 || r >= 6 || c < 0 || c >= 7 {
            assert(!window_cell_ok(
                cells@,
                row as int,
                column as int,
                axis as int,
                off as int,
                k as int,
            ));
            return false;
        }
        let cur = cells[(r as usize) * 7 + (c as usize)];
        let same = match (cur, placed) {
            (Some(a), Some(b)) => a == b,
            _ => false,
        };
        if !same {
            assert(!window_cell_ok(
                cells@,
                row as int,
                column as int,
                axis as int,
                off as int,
                k as int,
            ));
            return false;
        }
        assert(window_cell_ok(cells@, row as int, column as int, axis as int, off as int, k as int));
        k = k + 1;
    }
    true
}

/// Scans every window through the placed cell `(row, column)` and returns the
/// set of all cells of all winning windows, or `None` when there is none. The
/// result is a pure function of the board and the coordinate, so detection
/// does not depend on the order earlier checkers were placed in.
pub fn find_wins(cells: &Vec<Option<Color>>, row: usize, column: usize) -> (result: Option<
    Vec<(usize, usize)>,
>)
    requires
        cells@.len() == 42,
        row < 6,
        column < 7,
    ensures
        match result {
            None => forall|r: int, c: int|
                !is_winning_cell(cells@, row as int, column as int, r, c),
            Some(found) => {
                &&& found@.len() > 0
                &&& no_duplicates(found@)
                &&& forall|r: int, c: int|
                    is_winning_cell(cells@, row as int, column as int, r, c) <==> seq_has_cell(
                        found@,
                        r,
                        c,
                    )
            },
        },
{
    let ghost prow = row as int;
    let ghost pcol = column as int;
    let mut found: Vec<(usize, usize)> = Vec::new();
    let mut axis: usize = 0;
    while axis < 4
        invariant
            cells@.len() == 42,
            row < 6,
            column < 7,
            axis <= 4,
            prow == row as int,
            pcol == column as int,
            no_duplicates(found@),
            forall|i: int|
                0 <= i < found@.len() ==> is_winning_cell(
                    cells@,
                    prow,
                    pcol,
                    (#[trigger] found@[i]).0 as int,
                    found@[i].1 as int,
                ),
            forall|a2: int, o2: int, k2: int|
                #![trigger win_window_at(cells@, prow, pcol, a2, o2), wrow(prow, a2, o2, k2)]
                valid_window_index(a2, o2, k2) && a2 < axis && win_window_at(
                    cells@,
                    prow,
                    pcol,
                    a2,
                    o2,
                ) ==> seq_has_cell(found@, wrow(prow, a2, o2, k2), wcol(pcol, a2, o2, k2)),
        decreases 4 - axis,
    {
        let mut oi: usize = 0;
        while oi < 4
            invariant
                cells@.len() == 42,
                row < 6,
                column < 7,
                axis < 4,
                oi <= 4,
                prow == row as int,
                pcol == column as int,
                no_duplicates(found@),
                forall|i: int|
                    0 <= i < found@.len() ==> is_winning_cell(
                        cells@,
                        prow,
                        pcol,
                        (#[trigger] found@[i]).0 as int,
                        found@[i].1 as int,
                    ),
                forall|a2: int, o2: int, k2: int|
                    #![trigger win_window_at(cells@, prow, pcol, a2, o2), wrow(prow, a2, o2, k2)]
                    valid_window_index(a2, o2, k2) && (a2 < axis || (a2 == axis && o2 < oi - 3))
                        && win_window_at(cells@, prow, pcol, a2, o2) ==> seq_has_cell(
                        found@,
                        wrow(prow, a2, o2, k2),
                        wcol(pcol, a2, o2, k2),
                    ),
            decreases 4 - oi,
        {
            let off: i32 = oi as i32 - 3;
            if check_window(cells, row, column, axis, off) {
                let (dr, dc): (i32, i32) = match axis {
                    0 => (0, 1),
                    1 => (1, 0),
                    2 => (1, 1),
                    _ => (-1, 1),
                };
                proof {
                    assert(dr as int == axis_dr(axis as int) && dc as int == axis_dc(axis as int));
                }
                let mut k: usize = 0;
                while k < 4
                    invariant
                        cells@.len() == 42,
                        row < 6,
                        column < 7,
                        axis < 4,
                        oi < 4,
                        off == oi as i32 - 3,
                        k <= 4,
                        prow == row as int,
                        pcol == column as int,
                        dr as int == axis_dr(axis as int),
                        dc as int == axis_dc(axis as int),
                        win_window_at(cells@, prow, pcol, axis as int, off as int),
                        no_duplicates(found@),
                        forall|i: int|
                            0 <= i < found@.len() ==> is_winning_cell(
                                cells@,
                                prow,
                                pcol,
                                (#[trigger] found@[i]).0 as int,
                                found@[i].1 as int,
                            ),
                        forall|a2: int, o2: int, k2: int|
                            #![trigger win_window_at(cells@, prow, pcol, a2, o2), wrow(prow, a2, o2, k2)]
                            valid_window_index(a2, o2, k2) && (a2 < axis || (a2 == axis && o2 < oi
                                - 3)) && win_window_at(cells@, prow, pcol, a2, o2)
                                ==> seq_has_cell(
                                found@,
                                wrow(prow, a2, o2, k2),
                                wcol(pcol, a2, o2, k2),
                            ),
                        forall|k2: int|
                            0 <= k2 < k ==> seq_has_cell(
                                found@,
                                #[trigger] wrow(prow, axis as int, off as int, k2),
                                wcol(pcol, axis as int, off as int, k2),
                            ),
                    decreases 4 - k,
                {
                    proof {
                        assert(window_cell_ok(
                            cells@,
                            prow,
                            pcol,
                            axis as int,
                            off as int,
                            k as int,
                        ));
                    }
                    let r = row as i32 + (off + k as i32) * dr;
                    let c = column as i32 + (off + k as i32) * dc;
                    proof {
                        assert(r as int == wrow(prow, axis as int, off as int, k as int));
                        assert(c as int == wcol(pcol, axis as int, off as int, k as int));
                        assert(0 <= r < 6 && 0 <= c < 7);
                    }
                    let ghost before = found@;
                    push_if_absent(&mut found, r as usize, c as usize);
                    proof {
                        // The pushed cell is a winning cell, witnessed by the
                        // current window.
                        assert(is_winning_cell(cells@, prow, pcol, r as int, c as int));
                        // Everything recorded before is still recorded.
                        assert forall|a2: int, o2: int, k2: int|
                            #![trigger win_window_at(cells@, prow, pcol, a2, o2), wrow(prow, a2, o2, k2)]
                            valid_window_index(a2, o2, k2) && (a2 < axis || (a2 == axis && o2 < oi
                                - 3)) && win_window_at(cells@, prow, pcol, a2, o2)
                                implies seq_has_cell(
                            found@,
                            wrow(prow, a2, o2, k2),
                            wcol(pcol, a2, o2, k2),
                        ) by {
                            assert(seq_has_cell(before, wrow(prow, a2, o2, k2), wcol(pcol, a2, o2, k2)));
                            assert(seq_has_cell(found@, wrow(prow, a2, o2, k2), wcol(pcol, a2, o2, k2)));
                        }
                        assert forall|k2: int| 0 <= k2 < k + 1 implies seq_has_cell(
                            found@,
                            #[trigger] wrow(prow, axis as int, off as int, k2),
                            wcol(pcol, axis as int, off as int, k2),
                        ) by {
                            if k2 < k {
                                assert(seq_has_cell(
                                    before,
                                    wrow(prow, axis as int, off as int, k2),
                                    wcol(pcol, axis as int, off as int, k2),
                                ));
                            }
                        }
                    }
                    k = k + 1;
                }
            }
            oi = oi + 1;
        }
        axis = axis + 1;
    }
    if found.len() == 0 {
        proof {
            assert forall|r: int, c: int| !is_winning_cell(cells@, prow, pcol, r, c) by {
                if is_winning_cell(cells@, prow, pcol, r, c) {
                    let (a2, o2, k2) = choose|a2: int, o2: int, k2: int|
                        valid_window_index(a2, o2, k2) && #[trigger] win_window_at(
                            cells@,
                            prow,
                            pcol,
                            a2,
                            o2,
                        ) && r == #[trigger] wrow(prow, a2, o2, k2) && c == wcol(pcol, a2, o2, k2);
                    assert(seq_has_cell(found@, r, c));
                }
            }
        }
        None
    } else {
        proof {
            assert forall|r: int, c: int|
                is_winning_cell(cells@, prow, pcol, r, c) <==> seq_has_cell(found@, r, c) by {
                if is_winning_cell(cells@, prow, pcol, r, c) {
                    let (a2, o2, k2) = choose|a2: int, o2: int, k2: int|
                        valid_window_index(a2, o2, k2) && #[trigger] win_window_at(
                            cells@,
                            prow,
                            pcol,
                            a2,
                            o2,
                        ) && r == #[trigger] wrow(prow, a2, o2, k2) && c == wcol(pcol, a2, o2, k2);
                    assert(seq_has_cell(found@, r, c));
                }
                if seq_has_cell(found@, r, c) {
                    let i = choose|i: int|
                        0 <= i < found@.len() && (#[trigger] found@[i]).0 == r && found@[i].1 == c;
                    assert(is_winning_cell(cells@, prow, pcol, found@[i].0 as int, found@[i].1 as int));
                }
            }
        }
        Some(found)
    }
}

} // verus!
