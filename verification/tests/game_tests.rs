use connect_four::game::{Game, PlayOutcome};
use connect_four::tiles::{HighlightError, TileHighlighter};

fn sorted(mut cells: Vec<(usize, usize)>) -> Vec<(usize, usize)> {
    cells.sort();
    cells
}

fn assert_board_empty(game: &Game) {
    for r in 0..6 {
        for c in 0..7 {
            assert_eq!(game.grid().cell(r, c), None);
        }
    }
    assert_eq!(game.grid().red_remaining(), 21);
    assert_eq!(game.grid().yellow_remaining(), 21);
}

#[test]
fn finished_game_resets_on_next_play() {
    let mut game = Game::new();
    // Red wins on the bottom row while Yellow stacks column 6.
    for col in [0, 6, 1, 6, 2, 6] {
        assert!(matches!(
            game.play_column(col),
            PlayOutcome::Placed { .. }
        ));
    }
    let cells = match game.play_column(3) {
        PlayOutcome::ConnectedFour { row, column, cells } => {
            assert_eq!((row, column), (5, 3));
            cells
        }
        other => panic!("expected a connected four, got {:?}", other),
    };
    assert!(game.is_finished());
    assert_eq!(sorted(cells), vec![(5, 0), (5, 1), (5, 2), (5, 3)]);
    // The next play, on any column, resets instead of placing.
    assert!(matches!(
        game.play_column(4),
        PlayOutcome::ResetPerformed
    ));
    assert!(!game.is_finished());
    assert_board_empty(&game);
}

#[test]
fn full_board_resets_without_placing() {
    let mut game = Game::new();
    // A 42-move draw: the board fills completely and no four-in-a-row ever
    // appears, so every play is a plain placement.
    let moves = [
        1, 0, 3, 2, 5, 4, 6, 0, // bottom level of 0..6, plus one level-1 cell
        1, 2, 3, 4, 5, 1, // rest of level 1, one level-2 cell
        6, 3, 0, 5, 2, 6, 4, 1, // level 2 and odd slots of level 3
        0, 3, 2, 5, 4, 6, // rest of level 3
        1, 0, 3, 2, 5, 4, 6, 0, // level 4, one level-5 cell
        1, 2, 3, 4, 5, 6, // rest of level 5
    ];
    assert_eq!(moves.len(), 42);
    for &col in moves.iter() {
        assert!(matches!(
            game.play_column(col),
            PlayOutcome::Placed { .. }
        ));
    }
    assert!(game.grid().is_full());
    assert_eq!(game.grid().yellow_remaining(), 0);
    assert_eq!(game.grid().red_remaining(), 0);
    // The next play resets the session; no checker is placed.
    assert!(matches!(
        game.play_column(0),
        PlayOutcome::ResetPerformed
    ));
    assert!(!game.grid().is_full());
    assert!(!game.is_finished());
    assert_board_empty(&game);
}

#[test]
fn misplays_are_silently_ignored() {
    let mut game = Game::new();
    assert!(matches!(game.play_column(9), PlayOutcome::Ignored));
    for _ in 0..6 {
        assert!(matches!(
            game.play_column(2),
            PlayOutcome::Placed { .. }
        ));
    }
    assert!(matches!(game.play_column(2), PlayOutcome::Ignored));
    assert!(!game.is_finished());
    assert_eq!(game.grid().red_remaining(), 18);
    assert_eq!(game.grid().yellow_remaining(), 18);
}

#[test]
fn placement_reports_coordinates() {
    let mut game = Game::new();
    match game.play_column(6) {
        PlayOutcome::Placed { row, column } => assert_eq!((row, column), (5, 6)),
        other => panic!("expected a placement, got {:?}", other),
    }
    match game.play_column(6) {
        PlayOutcome::Placed { row, column } => assert_eq!((row, column), (4, 6)),
        other => panic!("expected a placement, got {:?}", other),
    }
}

#[test]
fn highlight_translates_and_locks() {
    let mut tiles = TileHighlighter::new();
    let cells = vec![(5usize, 0usize), (5, 1), (5, 2), (5, 3)];
    let painted = tiles
        .highlight_tiles(&cells)
        .expect("the first highlight succeeds");
    assert_eq!(painted, vec![(7, 2), (7, 3), (7, 4), (7, 5)]);
    // A second highlight without a reset is refused, as the collaborator
    // reports a double-highlight.
    assert_eq!(
        tiles.highlight_tiles(&cells),
        Err(HighlightError::AlreadyHighlighted)
    );
}

#[test]
fn reset_tiles_repaints_the_whole_board() {
    let mut tiles = TileHighlighter::new();
    let cells = vec![(0usize, 0usize)];
    tiles.highlight_tiles(&cells).expect("highlight succeeds");
    let painted = tiles.reset_tiles();
    assert_eq!(painted.len(), 42);
    assert_eq!(painted[0], (2, 2));
    assert_eq!(painted[41], (7, 8));
    for r in 0..6 {
        for c in 0..7 {
            assert!(painted.contains(&(r + 2, c + 2)));
        }
    }
    // After a reset a highlight is accepted again.
    assert!(tiles.highlight_tiles(&cells).is_ok());
}
