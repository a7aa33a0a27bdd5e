use connect_four::grid::{Color, Grid, PlacementError};

fn place_ok(g: &mut Grid, col: usize) -> (usize, usize) {
    g.add_checker_to_column(col).expect("placement should succeed")
}

fn board_snapshot(g: &Grid) -> Vec<Option<Color>> {
    let mut cells = Vec::new();
    for r in 0..6 {
        for c in 0..7 {
            cells.push(g.cell(r, c));
        }
    }
    cells
}

#[test]
fn new_grid_is_empty_with_full_pools() {
    let g = Grid::new();
    assert_eq!(g.red_remaining(), 21);
    assert_eq!(g.yellow_remaining(), 21);
    assert!(!g.is_full());
    for r in 0..6 {
        for c in 0..7 {
            assert_eq!(g.cell(r, c), None);
        }
    }
}

#[test]
fn turn_alternation_starts_with_red() {
    let mut g = Grid::new();
    let cols = [0, 1, 2, 3, 4, 5, 6, 0, 1, 2];
    for (i, &col) in cols.iter().enumerate() {
        let (row, c) = place_ok(&mut g, col);
        let expected = if i % 2 == 0 { Color::Red } else { Color::Yellow };
        assert_eq!(g.cell(row, c), Some(expected));
    }
    assert_eq!(g.red_remaining(), 16);
    assert_eq!(g.yellow_remaining(), 16);
}

#[test]
fn gravity_stacks_from_bottom() {
    let mut g = Grid::new();
    for n in 0..6 {
        let (row, col) = place_ok(&mut g, 2);
        assert_eq!(col, 2);
        assert_eq!(row, 5 - n);
    }
}

#[test]
fn full_column_is_refused_and_unchanged() {
    let mut g = Grid::new();
    for _ in 0..6 {
        place_ok(&mut g, 4);
    }
    let red_before = g.red_remaining();
    let yellow_before = g.yellow_remaining();
    let snapshot = board_snapshot(&g);
    assert_eq!(g.add_checker_to_column(4), Err(PlacementError::ColumnFull));
    assert_eq!(g.red_remaining(), red_before);
    assert_eq!(g.yellow_remaining(), yellow_before);
    assert_eq!(board_snapshot(&g), snapshot);
}

#[test]
fn invalid_column_is_refused() {
    let mut g = Grid::new();
    assert_eq!(
        g.add_checker_to_column(7),
        Err(PlacementError::InvalidColumn)
    );
    assert_eq!(
        g.add_checker_to_column(usize::MAX),
        Err(PlacementError::InvalidColumn)
    );
    assert_eq!(g.red_remaining(), 21);
    assert_eq!(g.yellow_remaining(), 21);
}

#[test]
fn reset_is_idempotent() {
    let mut g = Grid::new();
    for col in [0, 3, 6, 3, 2] {
        place_ok(&mut g, col);
    }
    g.drop_all_checkers();
    let snap_once = board_snapshot(&g);
    assert!(snap_once.iter().all(|c| c.is_none()));
    assert_eq!((g.red_remaining(), g.yellow_remaining()), (21, 21));
    g.drop_all_checkers();
    assert_eq!(board_snapshot(&g), snap_once);
    assert_eq!((g.red_remaining(), g.yellow_remaining()), (21, 21));
}
