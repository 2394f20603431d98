//! The ways a request to the game engine can be turned down.

use vstd::prelude::*;

verus! {

/// Why a request was refused. Every refusal leaves the game as it was, so
/// the caller can simply ask again.
#[derive(Clone, Copy, Debug, PartialEq, Eq, Structural)]
pub enum GameError {
    /// A coordinate lies outside the board.
    OutOfBounds,
    /// A ship would cover a cell that is already occupied.
    Overlap,
    /// The request was malformed, or no move is due.
    InvalidInput,
    /// No free cell was found for the missile token within the attempt limit.
    PlacementExhausted,
}

impl GameError {
    /// The words in which the refusal is announced to the players.
    pub open spec fn label(self) -> Seq<char> {
        match self {
            GameError::OutOfBounds => "Out of bounds!"@,
            GameError::Overlap => "Invalid position or overlapping ships. Try again."@,
            GameError::InvalidInput => "Invalid input. Try again."@,
            GameError::PlacementExhausted => "No free cell was found for the missile token."@,
        }
    }

    /// The words in which the refusal is announced to the players.
    pub fn message(self) -> (text: &'static str)
        ensures
            text@ == self.label(),
    {
        match self {
            GameError::OutOfBounds => "Out of bounds!",
            GameError::Overlap => "Invalid position or overlapping ships. Try again.",
            GameError::InvalidInput => "Invalid input. Try again.",
            GameError::PlacementExhausted => "No free cell was found for the missile token.",
        }
    }
}

} // verus!
