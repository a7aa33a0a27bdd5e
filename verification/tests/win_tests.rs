use connect_four::grid::Grid;

fn place_ok(g: &mut Grid, col: usize) -> (usize, usize) {
    g.add_checker_to_column(col).expect("placement should succeed")
}

fn sorted(mut cells: Vec<(usize, usize)>) -> Vec<(usize, usize)> {
    cells.sort();
    cells
}

#[test]
fn horizontal_win_reports_exact_cells() {
    let mut g = Grid::new();
    // Red takes columns 0, 1, 2 on the bottom row while Yellow stacks column 6.
    for col in [0, 6, 1, 6, 2, 6] {
        place_ok(&mut g, col);
    }
    let (row, col) = place_ok(&mut g, 3);
    assert_eq!((row, col), (5, 3));
    let cells = g
        .find_connected_fours(5, 3)
        .expect("a horizontal four should be detected");
    assert_eq!(sorted(cells), vec![(5, 0), (5, 1), (5, 2), (5, 3)]);
}

#[test]
fn mixed_colors_never_win() {
    let mut g = Grid::new();
    // Alternation fills the bottom row Red, Yellow, Red, Yellow: four
    // contiguous pieces of mixed colors yield no winning set.
    for col in [0, 1, 2, 3] {
        let (row, c) = place_ok(&mut g, col);
        assert!(g.find_connected_fours(row, c).is_none());
    }
}

#[test]
fn vertical_win_is_detected() {
    let mut g = Grid::new();
    // Red stacks column 0 while Yellow stacks column 6.
    for col in [0, 6, 0, 6, 0, 6] {
        place_ok(&mut g, col);
    }
    let (row, col) = place_ok(&mut g, 0);
    assert_eq!((row, col), (2, 0));
    let cells = g
        .find_connected_fours(2, 0)
        .expect("a vertical four should be detected");
    assert_eq!(sorted(cells), vec![(2, 0), (3, 0), (4, 0), (5, 0)]);
}

#[test]
fn diagonal_win_completed_at_top() {
    let mut g = Grid::new();
    // Red builds the down-right run (2,0),(3,1),(4,2),(5,3) and completes it
    // last at (2,0); Yellow supplies the cells beneath the run.
    let moves = [3, 0, 2, 0, 2, 0, 1, 1, 1, 6];
    for &col in moves.iter() {
        let (row, c) = place_ok(&mut g, col);
        assert!(g.find_connected_fours(row, c).is_none());
    }
    let (row, col) = place_ok(&mut g, 0);
    assert_eq!((row, col), (2, 0));
    let cells = g
        .find_connected_fours(2, 0)
        .expect("a diagonal four should be detected");
    assert_eq!(sorted(cells), vec![(2, 0), (3, 1), (4, 2), (5, 3)]);
}

#[test]
fn diagonal_win_completed_at_bottom() {
    let mut g = Grid::new();
    // The same down-right run, built in a different order and completed last
    // at its other end (5,3): the detector answers from the board alone, so
    // the placement order does not matter.
    let moves = [2, 0, 2, 0, 1, 0, 0, 4, 1, 6, 1, 5];
    for &col in moves.iter() {
        let (row, c) = place_ok(&mut g, col);
        assert!(g.find_connected_fours(row, c).is_none());
    }
    let (row, col) = place_ok(&mut g, 3);
    assert_eq!((row, col), (5, 3));
    let cells = g
        .find_connected_fours(5, 3)
        .expect("a diagonal four should be detected");
    assert_eq!(sorted(cells), vec![(2, 0), (3, 1), (4, 2), (5, 3)]);
}

#[test]
fn overlapping_windows_report_each_cell_once() {
    let mut g = Grid::new();
    // Red ends up with five in a row on the bottom: both length-4 windows
    // through the final placement win, and the five cells are reported
    // without duplicates.
    for col in [0, 6, 1, 6, 3, 5, 4, 5] {
        place_ok(&mut g, col);
    }
    let (row, col) = place_ok(&mut g, 2);
    assert_eq!((row, col), (5, 2));
    let cells = g
        .find_connected_fours(5, 2)
        .expect("two overlapping fours should be detected");
    assert_eq!(
        sorted(cells),
        vec![(5, 0), (5, 1), (5, 2), (5, 3), (5, 4)]
    );
}

#[test]
fn empty_coordinate_reports_no_win() {
    let g = Grid::new();
    assert!(g.find_connected_fours(5, 3).is_none());
}
