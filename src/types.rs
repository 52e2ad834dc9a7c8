//! The main types of the engine, gathered in one place.
pub use crate::card::{Card, CardType, Cost, Value};
pub use crate::game::{Game, PartialGame};
pub use crate::player::{Phase, Player, Resources, State};
pub use crate::supply::{Supply, SupplyEntry};
