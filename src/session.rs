//! What a key press does to a running game: the decisions of the input loop,
//! apart from reading keys and drawing.

use vstd::prelude::*;
use crate::board::MovementDirection;
use crate::game::{fresh, move_step, undo_step, Game2048};

verus! {

/// A key, as far as the game tells keys apart.
#[derive(Clone, Copy, Debug, PartialEq, Eq, Structural)]
pub enum Key {
    Char(char),
    Esc,
    Left,
    Right,
    Up,
    Down,
    Other,
}

/// Which screen is shown: the board while playing, or the end of the game.
#[derive(Clone, Copy, Debug, PartialEq, Eq, Structural)]
pub enum Screen {
    Playing,
    GameOver,
}

/// What a key asks for while playing.
#[derive(Clone, Copy, Debug, PartialEq, Eq, Structural)]
pub enum Command {
    Move(MovementDirection),
    Undo,
    Quit,
}

/// The command of a key while playing: arrows or w/a/s/d move, u or z undo,
/// q or Esc quit.
pub open spec fn command_of(key: Key) -> Option<Command> {
    match key {
        Key::Char('q') | Key::Esc => Some(Command::Quit),
        Key::Left | Key::Char('a') => Some(Command::Move(MovementDirection::Left)),
        Key::Right | Key::Char('d') => Some(Command::Move(MovementDirection::Right)),
        Key::Up | Key::Char('w') => Some(Command::Move(MovementDirection::Up)),
        Key::Down | Key::Char('s') => Some(Command::Move(MovementDirection::Down)),
        Key::Char('u') | Key::Char('z') => Some(Command::Undo),
        _ => None,
    }
}

/// The command of a key while playing.
pub fn command_for_key(key: Key) -> (r: Option<Command>)
    ensures
        r == command_of(key),
{
    match key {
        Key::Char('q') | Key::Esc => Some(Command::Quit),
        Key::Left | Key::Char('a') => Some(Command::Move(MovementDirection::Left)),
        Key::Right | Key::Char('d') => Some(Command::Move(MovementDirection::Right)),
        Key::Up | Key::Char('w') => Some(Command::Move(MovementDirection::Up)),
        Key::Down | Key::Char('s') => Some(Command::Move(MovementDirection::Down)),
        Key::Char('u') | Key::Char('z') => Some(Command::Undo),
        _ => None,
    }
}

/// Handles one key press on screen `screen`; returns the next screen, or
/// `None` when the key quits.
///
/// While playing, q or Esc quit, a move key moves (a move that would take
/// a tile or the score past `u32` is skipped), u or z undo, and any other
/// key does nothing; then the end-of-game screen follows if the game is
/// over. On that screen, q or Esc quit, r starts a new game, and any other
/// key does nothing.
pub fn handle_key(game: &mut Game2048, screen: Screen, key: Key) -> (next: Option<Screen>)
    requires
        old(game)@.wf(),
    ensures
        final(game)@.wf(),
        screen == Screen::Playing ==> match command_of(key) {
            Some(Command::Quit) => next is None && final(game)@ == old(game)@,
            Some(Command::Move(d)) => {
                &&& old(game)@.fits(d) ==> exists|changed: bool|
                    move_step(old(game)@, d, changed, final(game)@)
                &&& !old(game)@.fits(d) ==> final(game)@ == old(game)@
                &&& next == Some(
                    if final(game)@.is_terminal() { Screen::GameOver } else { Screen::Playing },
                )
            },
            Some(Command::Undo) => {
                &&& exists|undone: bool| undo_step(old(game)@, undone, final(game)@)
                &&& next == Some(
                    if final(game)@.is_terminal() { Screen::GameOver } else { Screen::Playing },
                )
            },
            None => final(game)@ == old(game)@ && next == Some(
                if old(game)@.is_terminal() { Screen::GameOver } else { Screen::Playing },
            ),
        },
        screen == Screen::GameOver ==> match key {
            Key::Char('q') | Key::Esc => next is None && final(game)@ == old(game)@,
            Key::Char('r') => next == Some(Screen::Playing) && fresh(final(game)@),
            _ => next == Some(Screen::GameOver) && final(game)@ == old(game)@,
        },
{
    match screen {
        Screen::Playing => {
            match command_for_key(key) {
                Some(Command::Quit) => {
                    return None;
                },
                Some(Command::Move(d)) => {
                    if game.move_fits(&d) {
                        game.move_in_direction(&d);
                    }
                },
                Some(Command::Undo) => {
                    game.undo();
                },
                None => {},
            }
            if game.game_over() {
                Some(Screen::GameOver)
            } else {
                Some(Screen::Playing)
            }
        },
        Screen::GameOver => match key {
            Key::Char('q') | Key::Esc => None,
            Key::Char('r') => {
                game.reset();
                Some(Screen::Playing)
            },
            _ => Some(Screen::GameOver),
        },
    }
}

} // verus!
