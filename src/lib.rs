//! A rules engine for a deck-building card game: player zones, supply piles,
//! card effects, attacks and reactions, and the turn phases.
pub mod card;
pub mod player;
pub mod utils;
pub mod supply;
pub mod error;
pub mod callbacks;
pub mod game;
pub mod effects;
pub mod turn;
pub mod types;

pub use callbacks::Callbacks;
