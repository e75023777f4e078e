//! Errors of the program around the engine: terminal I/O, input and setup.
//! The engine itself has none.

use vstd::prelude::*;
use vstd::string::StringExecFns;

verus! {

/// `std::io::Error`, carried through as it is.
#[verifier::external_type_specification]
#[verifier::external_body]
pub struct ExIoError(std::io::Error);

/// What can go wrong around a game.
pub enum GameError {
    /// An I/O error of the terminal.
    IoError(std::io::Error),
    /// Input that could not be understood.
    InputError(String),
    /// A game in a state it should not be in.
    GameStateError(String),
    /// The terminal could not be set up or restored.
    TerminalError(String),
}

/// A result whose error is a [`GameError`].
pub type GameResult<T> = Result<T, GameError>;

/// Relies on the `Display` of `std::io::Error` (through `to_string`): its
/// description, which depends on the system.
#[verifier::external_body]
fn io_error_text(e: &std::io::Error) -> String {
    e.to_string()
}

impl GameError {
    /// The text that names the kind of error and what went wrong.
    pub fn message(&self) -> (r: String)
        ensures
            match self {
                GameError::IoError(_) => r@.subrange(0, 10) == "IO error: "@,
                GameError::InputError(m) => r@ == "Input error: "@ + m@,
                GameError::GameStateError(m) => r@ == "Game state error: "@ + m@,
                GameError::TerminalError(m) => r@ == "Terminal error: "@ + m@,
            },
    {
        match self {
            GameError::IoError(e) => {
                let mut text = String::from_str("IO error: ");
                let detail = io_error_text(e);
                text.append(detail.as_str());
                proof {
                    reveal_strlit("IO error: ");
                }
                assert(text@.subrange(0, 10) =~= "IO error: "@);
                text
            },
            GameError::InputError(m) => String::from_str("Input error: ").concat(m.as_str()),
            GameError::GameStateError(m) => String::from_str("Game state error: ").concat(m.as_str()),
            GameError::TerminalError(m) => String::from_str("Terminal error: ").concat(m.as_str()),
        }
    }
}

impl From<std::io::Error> for GameError {
    fn from(err: std::io::Error) -> (r: GameError) {
        GameError::IoError(err)
    }
}

impl vstd::std_specs::convert::FromSpecImpl<std::io::Error> for GameError {
    open spec fn obeys_from_spec() -> bool {
        true
    }

    open spec fn from_spec(err: std::io::Error) -> GameError {
        GameError::IoError(err)
    }
}

} // verus!
