//! The rule violations that engine operations report.
use vstd::prelude::*;

use crate::card::{Card, CardType};

verus! {

/// A rule that an attempted play, gain or buy broke. Every kind is recoverable:
/// the attempt is refused and the game goes on.
#[derive(Copy, Clone, PartialEq, Eq, Structural, Debug)]
pub enum Error {
    /// The card lacks the tag that the operation asks for.
    CardTypeMisMatch { expected: CardType },
    /// The supply has no copy of the card left.
    EmptyPile { card: Card },
    /// The player has fewer coins left than the card costs.
    InsufficientFunds,
    /// The number of players is not one the supply can be set up for.
    NotEnoughPlayers,
    /// It is not the acting player's turn.
    OutOfTurn,
    /// The operation does not belong to the player's current phase.
    WrongPhase,
}

} // verus!
