//! Quoridor errors

use vstd::prelude::*;
use vstd::string::*;

verus! {

/// What the engine answers: a value, or the reason why it refused.
pub type QuoridorResult<T> = Result<T, QuoridorError>;

/// Why the engine rejected a request. Every rejection leaves the game as it
/// was.
#[derive(Clone, Copy, PartialEq, Eq, Structural, Debug, Hash)]
pub enum QuoridorError {
    /// No registered player has the given name, or no pawn stands on the
    /// given cell.
    PlayerNotFound,
    /// The name is already registered.
    DuplicateRegistration,
    /// The game has left the setup phase.
    RegistrationClosed,
    /// Every seat is taken.
    RegistrationFull,
    /// A cell or a wall anchor lies off the board.
    OutOfBounds,
    /// The destination cell holds a pawn.
    OccupiedCell,
    /// A wall blocks the step.
    WallBlocksPath,
    /// The two end points of a wall are not two apart on one axis.
    InvalidWallGeometry,
    /// The wall overlaps or crosses a wall already placed.
    WallCollision,
    /// The wall would cut a player off from its goal edge.
    WallWouldStrandPlayer,
    /// The displacement is neither a step nor a legal jump.
    InvalidJump,
    /// The acting player has no walls left to place.
    NoWallsRemaining,
    /// It is another player's turn, or the game has not started.
    NotPlayersTurn,
    /// The game has a winner.
    GameAlreadyOver,
}

impl QuoridorError {
    /// The text of the message for this error.
    pub open spec fn message(self) -> Seq<char> {
        match self {
            QuoridorError::PlayerNotFound => "Player not found"@,
            QuoridorError::DuplicateRegistration => "Registration error: player already registered"@,
            QuoridorError::RegistrationClosed => "Registration error: game already started"@,
            QuoridorError::RegistrationFull => "Registration error: all seats are taken"@,
            QuoridorError::OutOfBounds => "Invalid move: out of bounds"@,
            QuoridorError::OccupiedCell => "Invalid move: position is not empty"@,
            QuoridorError::WallBlocksPath => "Invalid move: there is a wall in the way"@,
            QuoridorError::InvalidWallGeometry => "Invalid wall: wall points must be distance 2 away"@,
            QuoridorError::WallCollision => "Invalid wall: wall collision"@,
            QuoridorError::WallWouldStrandPlayer => "Invalid wall: wall eliminates all paths"@,
            QuoridorError::InvalidJump => "Invalid jump"@,
            QuoridorError::NoWallsRemaining => "Invalid wall: no walls remaining"@,
            QuoridorError::NotPlayersTurn => "Invalid turn: not your turn"@,
            QuoridorError::GameAlreadyOver => "Invalid turn: game is over"@,
        }
    }

    /// Renders the error for a human reader.
    pub fn to_string(&self) -> (text: String)
        ensures
            text@ == self.message(),
    {
        match self {
            QuoridorError::PlayerNotFound => String::from_str("Player not found"),
            QuoridorError::DuplicateRegistration => String::from_str("Registration error: player already registered"),
            QuoridorError::RegistrationClosed => String::from_str("Registration error: game already started"),
            QuoridorError::RegistrationFull => String::from_str("Registration error: all seats are taken"),
            QuoridorError::OutOfBounds => String::from_str("Invalid move: out of bounds"),
            QuoridorError::OccupiedCell => String::from_str("Invalid move: position is not empty"),
            QuoridorError::WallBlocksPath => String::from_str("Invalid move: there is a wall in the way"),
            QuoridorError::InvalidWallGeometry => String::from_str("Invalid wall: wall points must be distance 2 away"),
            QuoridorError::WallCollision => String::from_str("Invalid wall: wall collision"),
            QuoridorError::WallWouldStrandPlayer => String::from_str("Invalid wall: wall eliminates all paths"),
            QuoridorError::InvalidJump => String::from_str("Invalid jump"),
            QuoridorError::NoWallsRemaining => String::from_str("Invalid wall: no walls remaining"),
            QuoridorError::NotPlayersTurn => String::from_str("Invalid turn: not your turn"),
            QuoridorError::GameAlreadyOver => String::from_str("Invalid turn: game is over"),
        }
    }
}

} // verus!
