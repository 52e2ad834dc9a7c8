//! The decision boundary: every choice a player makes comes through `Callbacks`.
use vstd::prelude::*;

use crate::card::Card;
use crate::supply::Supply;

verus! {

/// How many items the player may choose.
#[derive(Copy, Clone, PartialEq, Eq, Structural, Debug)]
pub enum ChoiceCountOptions {
    /// Exactly `count` items.
    Exact { count: usize },
    /// Any number of items up to `max`.
    UpTo { max: usize },
    /// Any number of items.
    Any,
}

/// What a client provides so that players can make their choices while card
/// effects resolve. Positions handed back are checked before use; answers out
/// of range are ignored.
pub trait Callbacks {
    /// Asks the given player for a card from the supply, or none.
    fn choose_card_from_supply(&self, player_index: usize, supply: &Supply) -> Option<Card>;

    /// Asks for positions in the player's hand.
    fn choose_cards_from_hand(&self, count: &ChoiceCountOptions, message: &str) -> Vec<usize>;

    /// Asks for positions in the player's discard.
    fn choose_cards_from_discard(&self, count: &ChoiceCountOptions, message: &str) -> Vec<usize>;

    /// Asks for positions in the trash.
    fn choose_cards_from_trash(&self, count: &ChoiceCountOptions, message: &str) -> Vec<usize>;

    /// Asks for `count` positions in a list of cards.
    fn choose_cards_from_selection(
        &self,
        count: usize,
        card_choices: &Vec<Card>,
        message: &str,
    ) -> Vec<usize>;

    /// Asks the given player a yes/no question.
    fn yes_or_no(&self, player_index: usize, prompt: &str) -> bool;

    /// Asks the given player for player indices.
    fn choose_players(
        &self,
        player_index: usize,
        count: &ChoiceCountOptions,
        prompt: &str,
    ) -> Vec<usize>;
}

/// A client that declines every choice: no card, no positions, no players, and
/// "no" to every question. Useful where a test drives the game by hand.
#[derive(Copy, Clone, Debug)]
pub struct TestClient;

impl Callbacks for TestClient {
    fn choose_card_from_supply(&self, player_index: usize, supply: &Supply) -> Option<Card> {
        None
    }

    fn choose_cards_from_hand(&self, count: &ChoiceCountOptions, message: &str) -> Vec<usize> {
        Vec::new()
    }

    fn choose_cards_from_discard(&self, count: &ChoiceCountOptions, message: &str) -> Vec<usize> {
        Vec::new()
    }

    fn choose_cards_from_trash(&self, count: &ChoiceCountOptions, message: &str) -> Vec<usize> {
        Vec::new()
    }

    fn choose_cards_from_selection(
        &self,
        count: usize,
        card_choices: &Vec<Card>,
        message: &str,
    ) -> Vec<usize> {
        Vec::new()
    }

    fn yes_or_no(&self, player_index: usize, prompt: &str) -> bool {
        false
    }

    fn choose_players(
        &self,
        player_index: usize,
        count: &ChoiceCountOptions,
        prompt: &str,
    ) -> Vec<usize> {
        Vec::new()
    }
}

} // verus!
