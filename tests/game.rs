use tui_2048::board::{Grid, MovementDirection, SIZE};
use tui_2048::game::{Game2048, UNDO_LIMIT};

/// Removes the one tile that a move spawned on a cell that `expected` has
/// empty, so that the rest of the board can be compared exactly.
fn fix_gen(board: &mut Grid, expected: &Grid) {
    for i in 0..SIZE {
        for j in 0..SIZE {
            if board[i][j] != expected[i][j]
                && expected[i][j] == 0
                && (board[i][j] == 2 || board[i][j] == 4)
            {
                board[i][j] = 0;
                return;
            }
        }
    }
    panic!("Board does not have a generated value");
}

fn moved_board(start: Grid, d: MovementDirection, expected: &Grid) -> Grid {
    let mut game = Game2048::from_board(start, 0);
    assert!(game.move_fits(&d));
    assert!(game.move_in_direction(&d));
    let mut board = *game.board();
    fix_gen(&mut board, expected);
    board
}

fn count_zeros(board: &Grid) -> usize {
    board.iter().flatten().filter(|&&x| x == 0).count()
}

#[test]
fn test_game_initialization() {
    let game = Game2048::default();
    assert_eq!(game.score(), 0);
    let empty_tiles: usize = count_zeros(game.board());
    assert_eq!(empty_tiles, SIZE * SIZE - 2);
}

#[test]
fn test_move_left() {
    let start = [[2, 2, 0, 0], [0, 0, 0, 0], [0, 0, 0, 0], [0, 0, 0, 0]];
    let expected = [[4, 0, 0, 0], [0, 0, 0, 0], [0, 0, 0, 0], [0, 0, 0, 0]];
    assert_eq!(moved_board(start, MovementDirection::Left, &expected), expected);
}

#[test]
fn test_move_right() {
    let start = [[0, 0, 16, 64], [4, 0, 4, 0], [16, 0, 0, 16], [2048, 0, 0, 16]];
    let expected = [[0, 0, 16, 64], [0, 0, 0, 8], [0, 0, 0, 32], [0, 0, 2048, 16]];
    assert_eq!(moved_board(start, MovementDirection::Right, &expected), expected);
}

#[test]
fn test_move_up() {
    let start = [[2, 0, 0, 0], [2, 0, 0, 0], [4, 0, 0, 0], [8, 0, 0, 0]];
    let expected = [[4, 0, 0, 0], [4, 0, 0, 0], [8, 0, 0, 0], [0, 0, 0, 0]];
    assert_eq!(moved_board(start, MovementDirection::Up, &expected), expected);
}

#[test]
fn test_move_down() {
    let start = [[0, 0, 0, 0], [2, 0, 0, 0], [2, 0, 0, 0], [4, 0, 0, 0]];
    let expected = [[0, 0, 0, 0], [0, 0, 0, 0], [4, 0, 0, 0], [4, 0, 0, 0]];
    assert_eq!(moved_board(start, MovementDirection::Down, &expected), expected);
}

#[test]
fn test_game_over() {
    let game = Game2048::from_board(
        [[2, 8, 4, 16], [8, 2, 16, 4], [32, 4, 2, 32], [2, 16, 32, 2]],
        0,
    );
    assert!(game.game_over());
}

#[test]
fn move_right_scenario_scores_and_spawns_on_an_empty_cell() {
    let start = [[0, 0, 16, 64], [4, 0, 4, 0], [16, 0, 0, 16], [2048, 0, 0, 16]];
    let expected = [[0, 0, 16, 64], [0, 0, 0, 8], [0, 0, 0, 32], [0, 0, 2048, 16]];
    let mut game = Game2048::from_board(start, 0);
    assert!(game.move_in_direction(&MovementDirection::Right));
    assert_eq!(game.score(), 4 + 16);
    let board = *game.board();
    let mut spawned = 0;
    for i in 0..SIZE {
        for j in 0..SIZE {
            if board[i][j] != expected[i][j] {
                assert_eq!(expected[i][j], 0);
                assert!(board[i][j] == 2 || board[i][j] == 4);
                spawned += 1;
            }
        }
    }
    assert_eq!(spawned, 1);
}

#[test]
fn move_left_on_pair_scores_its_value() {
    let mut game = Game2048::from_board([[2, 2, 0, 0], [0; 4], [0; 4], [0; 4]], 0);
    assert!(game.move_in_direction(&MovementDirection::Left));
    assert_eq!(game.score(), 2);
    assert_eq!(game.board()[0][0], 4);
}

#[test]
fn merged_tile_does_not_merge_again_in_one_move() {
    let mut game = Game2048::from_board([[2, 0, 2, 2], [0; 4], [0; 4], [0; 4]], 10);
    assert!(game.move_in_direction(&MovementDirection::Left));
    assert_eq!(game.score(), 12);
    let mut board = *game.board();
    let expected = [[4, 2, 0, 0], [0; 4], [0; 4], [0; 4]];
    fix_gen(&mut board, &expected);
    assert_eq!(board, expected);
}

#[test]
fn four_equal_tiles_make_two_merges() {
    let mut game = Game2048::from_board([[4, 4, 4, 4], [0; 4], [0; 4], [0; 4]], 0);
    assert!(game.move_in_direction(&MovementDirection::Right));
    assert_eq!(game.score(), 8);
    let mut board = *game.board();
    let expected = [[0, 0, 8, 8], [0; 4], [0; 4], [0; 4]];
    fix_gen(&mut board, &expected);
    assert_eq!(board, expected);
}

#[test]
fn no_op_move_changes_nothing() {
    let start = [[2, 4, 0, 0], [8, 0, 0, 0], [0; 4], [0; 4]];
    let mut game = Game2048::from_board(start, 7);
    assert!(!game.move_in_direction(&MovementDirection::Left));
    assert_eq!(*game.board(), start);
    assert_eq!(game.score(), 7);
    assert!(!game.undo());
}

#[test]
fn undo_after_no_op_returns_to_before_the_last_real_move() {
    let start = [[2, 2, 0, 0], [0; 4], [0; 4], [0; 4]];
    let mut checked = false;
    for _ in 0..500 {
        let mut game = Game2048::from_board(start, 0);
        assert!(game.move_in_direction(&MovementDirection::Left));
        // With every tile on the top row, a move up changes nothing.
        if game.board()[1..].iter().flatten().any(|&v| v != 0) {
            continue;
        }
        let after = *game.board();
        assert!(!game.move_in_direction(&MovementDirection::Up));
        assert_eq!(*game.board(), after);
        assert_eq!(game.score(), 2);
        assert!(game.undo());
        assert_eq!(*game.board(), start);
        assert_eq!(game.score(), 0);
        assert!(!game.undo());
        checked = true;
        break;
    }
    assert!(checked);
}

#[test]
fn undo_round_trip_restores_board_and_score() {
    let start = [[2, 2, 4, 0], [0, 4, 0, 4], [0; 4], [8, 0, 0, 8]];
    let mut game = Game2048::from_board(start, 100);
    assert!(game.move_in_direction(&MovementDirection::Left));
    assert_eq!(game.score(), 100 + 2 + 4 + 8);
    assert!(game.undo());
    assert_eq!(*game.board(), start);
    assert_eq!(game.score(), 100);
    assert!(!game.undo());
}

#[test]
fn undo_keeps_only_the_most_recent_snapshots() {
    let dirs = [
        MovementDirection::Left,
        MovementDirection::Up,
        MovementDirection::Right,
        MovementDirection::Down,
    ];
    let mut game = Game2048::from_board([[2, 0, 0, 0], [0; 4], [0; 4], [0; 4]], 0);
    let mut before: Vec<(Grid, u32)> = Vec::new();
    while before.len() < UNDO_LIMIT + 1 {
        assert!(!game.game_over());
        let state = (*game.board(), game.score());
        let mut changed = false;
        for d in dirs.iter() {
            if game.move_fits(d) && game.move_in_direction(d) {
                changed = true;
                break;
            }
        }
        assert!(changed);
        before.push(state);
    }
    for k in 0..UNDO_LIMIT {
        assert!(game.undo());
        let (board, score) = before[UNDO_LIMIT - k];
        assert_eq!(*game.board(), board);
        assert_eq!(game.score(), score);
    }
    assert!(!game.undo());
    assert_eq!(*game.board(), before[1].0);
}

#[test]
fn spawned_tiles_are_four_about_one_time_in_ten() {
    let games = 3000;
    let mut fours = 0;
    let mut tiles = 0;
    for _ in 0..games {
        let game = Game2048::default();
        for v in game.board().iter().flatten() {
            match *v {
                0 => {}
                2 => tiles += 1,
                4 => {
                    tiles += 1;
                    fours += 1;
                }
                other => panic!("unexpected tile {}", other),
            }
        }
    }
    assert_eq!(tiles, 2 * games);
    let share = fours as f64 / tiles as f64;
    assert!(share > 0.07 && share < 0.13, "share of fours: {}", share);
}

#[test]
fn reset_starts_a_fresh_game() {
    let mut game = Game2048::from_board([[2, 2, 0, 0], [0; 4], [0; 4], [0; 4]], 0);
    assert!(game.move_in_direction(&MovementDirection::Left));
    game.reset();
    assert_eq!(game.score(), 0);
    assert_eq!(count_zeros(game.board()), SIZE * SIZE - 2);
    assert!(!game.undo());
}

#[test]
fn place_tile_puts_two_or_four() {
    let mut game = Game2048::from_board([[0; 4]; 4], 0);
    game.place_tile(Some((1, 2)), true);
    game.place_tile(Some((3, 0)), false);
    game.place_tile(None, true);
    assert_eq!(*game.board(), [[0; 4], [0, 0, 2, 0], [0; 4], [4, 0, 0, 0]]);
}

#[test]
fn full_board_with_neighbour_pair_is_not_over() {
    let game = Game2048::from_board(
        [[2, 8, 4, 16], [8, 2, 16, 4], [32, 4, 2, 32], [2, 16, 32, 32]],
        0,
    );
    assert!(!game.game_over());
    let game = Game2048::from_board(
        [[2, 8, 4, 16], [8, 2, 16, 4], [32, 4, 2, 32], [2, 16, 2, 2]],
        0,
    );
    assert!(!game.game_over());
    let game = Game2048::from_board(
        [[2, 8, 4, 16], [8, 2, 16, 4], [32, 4, 2, 32], [2, 16, 32, 0]],
        0,
    );
    assert!(!game.game_over());
}

#[test]
fn game_over_matches_scan_on_all_two_value_boards() {
    for bits in 0u32..(1 << 16) {
        let mut board: Grid = [[0; 4]; 4];
        for i in 0..SIZE {
            for j in 0..SIZE {
                board[i][j] = if bits & (1 << (i * SIZE + j)) != 0 { 4 } else { 2 };
            }
        }
        let mut expected = true;
        for i in 0..SIZE {
            for j in 0..SIZE {
                if j + 1 < SIZE && board[i][j] == board[i][j + 1] {
                    expected = false;
                }
                if i + 1 < SIZE && board[i][j] == board[i + 1][j] {
                    expected = false;
                }
            }
        }
        assert_eq!(Game2048::from_board(board, 0).game_over(), expected);
        board[(bits as usize) % SIZE][(bits as usize / SIZE) % SIZE] = 0;
        assert!(!Game2048::from_board(board, 0).game_over());
    }
}

#[test]
fn move_fits_refuses_a_score_overflow() {
    let game = Game2048::from_board([[2, 2, 0, 0], [0; 4], [0; 4], [0; 4]], u32::MAX - 1);
    assert!(!game.move_fits(&MovementDirection::Left));
    assert!(game.move_fits(&MovementDirection::Up));
    let game = Game2048::from_board([[2, 2, 0, 0], [0; 4], [0; 4], [0; 4]], u32::MAX - 2);
    assert!(game.move_fits(&MovementDirection::Left));
    let game = Game2048::from_board([[1 << 31, 0, 0, 0], [0; 4], [0; 4], [0; 4]], 0);
    assert!(!game.move_fits(&MovementDirection::Left));
}
