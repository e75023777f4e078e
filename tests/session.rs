use tui_2048::board::MovementDirection;
use tui_2048::game::Game2048;
use tui_2048::session::{command_for_key, handle_key, Command, Key, Screen};

const FULL: [[u32; 4]; 4] = [[2, 8, 4, 16], [8, 2, 16, 4], [32, 4, 2, 32], [2, 16, 32, 2]];

#[test]
fn keys_map_to_commands() {
    assert_eq!(command_for_key(Key::Char('q')), Some(Command::Quit));
    assert_eq!(command_for_key(Key::Esc), Some(Command::Quit));
    assert_eq!(command_for_key(Key::Char('a')), Some(Command::Move(MovementDirection::Left)));
    assert_eq!(command_for_key(Key::Right), Some(Command::Move(MovementDirection::Right)));
    assert_eq!(command_for_key(Key::Char('w')), Some(Command::Move(MovementDirection::Up)));
    assert_eq!(command_for_key(Key::Char('s')), Some(Command::Move(MovementDirection::Down)));
    assert_eq!(command_for_key(Key::Char('z')), Some(Command::Undo));
    assert_eq!(command_for_key(Key::Char('u')), Some(Command::Undo));
    assert_eq!(command_for_key(Key::Char('x')), None);
    assert_eq!(command_for_key(Key::Other), None);
}

#[test]
fn quit_key_ends_the_loop() {
    let mut game = Game2048::from_board([[2, 0, 0, 0], [0; 4], [0; 4], [0; 4]], 0);
    assert_eq!(handle_key(&mut game, Screen::Playing, Key::Char('q')), None);
    assert_eq!(handle_key(&mut game, Screen::GameOver, Key::Esc), None);
}

#[test]
fn move_key_moves_and_undo_key_undoes() {
    let start = [[0, 0, 0, 2], [0; 4], [0; 4], [0; 4]];
    let mut game = Game2048::from_board(start, 0);
    assert_eq!(handle_key(&mut game, Screen::Playing, Key::Left), Some(Screen::Playing));
    assert_eq!(game.board()[0][0], 2);
    assert_eq!(handle_key(&mut game, Screen::Playing, Key::Char('u')), Some(Screen::Playing));
    assert_eq!(*game.board(), start);
}

#[test]
fn full_board_leads_to_game_over_screen_and_r_restarts() {
    let mut game = Game2048::from_board(FULL, 50);
    assert_eq!(handle_key(&mut game, Screen::Playing, Key::Other), Some(Screen::GameOver));
    assert_eq!(handle_key(&mut game, Screen::GameOver, Key::Left), Some(Screen::GameOver));
    assert_eq!(*game.board(), FULL);
    assert_eq!(handle_key(&mut game, Screen::GameOver, Key::Char('r')), Some(Screen::Playing));
    assert_eq!(game.score(), 0);
    assert_eq!(game.board().iter().flatten().filter(|&&v| v != 0).count(), 2);
}
