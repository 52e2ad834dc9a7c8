//! Treasures, buying, and the phases of a turn.
//!
//! A turn is driven step by step: each step returns the `Prompt` that says which
//! choice the player is to make next, and the driver hands that choice to the
//! next step. A refused play or buy leaves the prompt as it was.
use vstd::prelude::*;

use crate::callbacks::Callbacks;
use crate::card::{lemma_only_treasures_have_value, card_cost, has_type, treasure_coins, Card, CardType, ReactionTrigger};
use crate::effects::{action_outcome, moved_to_play, same_but_state};
use crate::error::Error;
use crate::game::Game;
use crate::player::{min_nat, saturating, Phase, Player, Resources, HAND_SIZE};

verus! {

/// The choice the player is asked for next.
#[derive(Copy, Clone, PartialEq, Eq, Structural, Debug)]
pub enum Prompt {
    /// An action card from hand to play, or none to end the action phase.
    ChooseAction,
    /// A card from the supply to buy, or none to end the buy phase.
    ChooseBuy,
    /// The turn is over.
    TurnOver,
}

/// The treasures of `s`, in order.
pub open spec fn treasures_in(s: Seq<Card>) -> Seq<Card>
    decreases s.len(),
{
    if s.len() == 0 {
        Seq::empty()
    } else if has_type(s.last(), CardType::Treasure) {
        treasures_in(s.drop_last()).push(s.last())
    } else {
        treasures_in(s.drop_last())
    }
}

/// The cards of `s` that are not treasures, in order.
pub open spec fn non_treasures_in(s: Seq<Card>) -> Seq<Card>
    decreases s.len(),
{
    if s.len() == 0 {
        Seq::empty()
    } else if has_type(s.last(), CardType::Treasure) {
        non_treasures_in(s.drop_last())
    } else {
        non_treasures_in(s.drop_last()).push(s.last())
    }
}

/// The coins that the treasures of `s` are worth together.
pub open spec fn coins_in(s: Seq<Card>) -> nat
    decreases s.len(),
{
    if s.len() == 0 {
        0
    } else {
        coins_in(s.drop_last()) + treasure_coins(s.last())
    }
}

pub open spec fn add_capped(a: nat, b: nat) -> nat {
    if a + b <= usize::MAX {
        a + b
    } else {
        usize::MAX as nat
    }
}

/// Why `game` refuses player `i` buying `card`, checked in this order; none if it may.
pub open spec fn buy_refusal(game: Game, i: int, card: Card) -> Option<Error> {
    let p = game.players@[i];
    if i != game.current_turn {
        Some(Error::OutOfTurn)
    } else if p.phase != Phase::BuyPhase {
        Some(Error::WrongPhase)
    } else if p.resources.coins_remaining < card_cost(card) {
        Some(Error::InsufficientFunds)
    } else if game.supply.pile(card) == 0 {
        Some(Error::EmptyPile { card })
    } else {
        None
    }
}

/// `after` is `before` once player `i` bought `card`: one copy went from the
/// supply to the discard, its cost and one buy were spent. Reactions to the buy
/// may have changed transient state.
pub open spec fn bought(before: Game, after: Game, i: int, card: Card) -> bool {
    let p = before.players@[i];
    let q = after.players@[i];
    &&& after.wf()
    &&& after.supply@ == before.supply@.insert(card, (before.supply.pile(card) - 1) as nat)
    &&& after.players@.len() == before.players@.len()
    &&& q.discard@ == p.discard@.push(card)
    &&& q.hand == p.hand
    &&& q.deck == p.deck
    &&& q.in_play == p.in_play
    &&& q.phase == p.phase
    &&& q.resources.buys == p.resources.buys - 1
    &&& q.resources.coins_remaining == p.resources.coins_remaining - card_cost(card)
    &&& q.resources.temp_coins == (if p.resources.temp_coins >= card_cost(card) {
        p.resources.temp_coins - card_cost(card)
    } else {
        0
    })
    &&& q.resources.actions == p.resources.actions
    &&& q.resources.coins == p.resources.coins
    &&& forall|j: int| 0 <= j < after.players@.len() && j != i ==> same_but_state(#[trigger] after.players@[j], before.players@[j])
    &&& after.trash == before.trash
    &&& after.extras == before.extras
    &&& after.current_turn == before.current_turn
}

/// The answer names a card of the hand that is no action, while actions are left.
pub open spec fn refused_action(game: Game, i: int, choice: Option<usize>) -> bool {
    let p = game.players@[i];
    &&& p.resources.actions > 0
    &&& choice.is_some()
    &&& choice.unwrap() < p.hand@.len()
    &&& !has_type(p.hand@[choice.unwrap() as int], CardType::Action)
}

/// The answer names an action card of the hand, while actions are left.
pub open spec fn playable_action(game: Game, i: int, choice: Option<usize>) -> bool {
    let p = game.players@[i];
    &&& p.resources.actions > 0
    &&& choice.is_some()
    &&& choice.unwrap() < p.hand@.len()
    &&& has_type(p.hand@[choice.unwrap() as int], CardType::Action)
}

/// The phase and prompt go together: a turn waits in the phase that it prompts for.
pub open spec fn prompt_matches(r: Prompt, p: Player) -> bool {
    &&& r == Prompt::ChooseAction ==> p.phase == Phase::ActionPhase
    &&& r == Prompt::ChooseBuy ==> p.phase == Phase::BuyPhase
    &&& r == Prompt::TurnOver ==> p.phase == Phase::OutOfTurn
}

impl Game {
    /// Plays the treasure at `card_index` of the player's hand: it goes into play
    /// and its value is added to the player's coins. A card that is not a
    /// treasure is refused and nothing changes.
    pub fn play_treasure(&mut self, player_index: usize, card_index: usize) -> (r: Result<(), Error>)
        requires
            player_index < old(self).players@.len(),
            card_index < old(self).players@[player_index as int].hand@.len(),
        ensures
            !has_type(old(self).players@[player_index as int].hand@[card_index as int], CardType::Treasure) ==> r == Err::<(), Error>(Error::CardTypeMisMatch { expected: CardType::Treasure }) && *final(self) == *old(self),
            has_type(old(self).players@[player_index as int].hand@[card_index as int], CardType::Treasure) ==> r == Ok::<(), Error>(()) && played_treasure(*old(self), *final(self), player_index as int, card_index as int),
    {
        if !self.players[player_index].hand[card_index].is_treasure() {
            return Err(Error::CardTypeMisMatch { expected: CardType::Treasure });
        }
        let card = self.remove_from_hand(player_index, card_index);
        let value = card.treasure_value().coins;
        self.players[player_index].resources.coins = self.players[player_index].resources.coins.saturating_add(value);
        self.players[player_index].in_play.push(card);
        Ok(())
    }

    /// Plays every treasure in the player's hand, in hand order.
    pub fn play_all_treasures(&mut self, player_index: usize)
        requires
            player_index < old(self).players@.len(),
        ensures
            final(self).only_player_changed(*old(self), player_index as int),
            final(self).players@[player_index as int].hand@ == non_treasures_in(old(self).players@[player_index as int].hand@),
            final(self).players@[player_index as int].in_play@ == old(self).players@[player_index as int].in_play@ + treasures_in(old(self).players@[player_index as int].hand@),
            final(self).players@[player_index as int].resources == (Resources { coins: add_capped(old(self).players@[player_index as int].resources.coins as nat, coins_in(old(self).players@[player_index as int].hand@)) as usize, ..old(self).players@[player_index as int].resources }),
            final(self).players@[player_index as int].deck == old(self).players@[player_index as int].deck,
            final(self).players@[player_index as int].discard == old(self).players@[player_index as int].discard,
            final(self).players@[player_index as int].state == old(self).players@[player_index as int].state,
            final(self).players@[player_index as int].phase == old(self).players@[player_index as int].phase,
            final(self).players@[player_index as int].uuid == old(self).players@[player_index as int].uuid,
            final(self).players@[player_index as int].player_number == old(self).players@[player_index as int].player_number,
    {
        let ghost p0 = self.players@[player_index as int];
        let mut hand: Vec<Card> = Vec::new();
        std::mem::swap(&mut hand, &mut self.players[player_index].hand);
        let mut i: usize = 0;
        while i < hand.len()
            invariant
                player_index < self.players@.len(),
                p0 == old(self).players@[player_index as int],
                hand@ == p0.hand@,
                0 <= i <= hand@.len(),
                self.only_player_changed(*old(self), player_index as int),
                self.players@[player_index as int].hand@ == non_treasures_in(hand@.subrange(0, i as int)),
                self.players@[player_index as int].in_play@ == p0.in_play@ + treasures_in(hand@.subrange(0, i as int)),
                self.players@[player_index as int].resources == (Resources { coins: add_capped(p0.resources.coins as nat, coins_in(hand@.subrange(0, i as int))) as usize, ..p0.resources }),
                self.players@[player_index as int].deck == p0.deck,
                self.players@[player_index as int].discard == p0.discard,
                self.players@[player_index as int].state == p0.state,
                self.players@[player_index as int].phase == p0.phase,
                self.players@[player_index as int].uuid == p0.uuid,
                self.players@[player_index as int].player_number == p0.player_number,
            decreases hand@.len() - i,
        {
            proof {
                assert(hand@.subrange(0, i + 1).drop_last() =~= hand@.subrange(0, i as int));
            }
            let card = hand[i];
            proof {
                assert(coins_in(hand@.subrange(0, i + 1)) == coins_in(hand@.subrange(0, i as int)) + treasure_coins(card));
            }
            if card.is_treasure() {
                let value = card.treasure_value().coins;
                self.players[player_index].resources.coins = self.players[player_index].resources.coins.saturating_add(value);
                self.players[player_index].in_play.push(card);
                proof {
                    let a = p0.resources.coins as nat;
                    let t = coins_in(hand@.subrange(0, i as int));
                    assert(add_capped(a, t) <= usize::MAX);
                    assert(self.players@[player_index as int].resources.coins == add_capped(a, t + treasure_coins(card)) as usize);
                    assert(self.players@[player_index as int].resources == (Resources { coins: add_capped(p0.resources.coins as nat, coins_in(hand@.subrange(0, i + 1))) as usize, ..p0.resources }));
                    assert(self.players@[player_index as int].in_play@ =~= p0.in_play@ + treasures_in(hand@.subrange(0, i + 1)));
                }
            } else {
                self.players[player_index].hand.push(card);
                proof {
                    lemma_only_treasures_have_value(card);
                }
            }
            i = i + 1;
        }
        proof {
            assert(hand@.subrange(0, hand@.len() as int) =~= hand@);
        }
    }

    /// Why buying `card` would be refused to the player, checking in order the
    /// turn, the phase, the coins left and the pile; none if the buy may go ahead.
    pub fn buy_refusal(&self, player_index: usize, card: Card) -> (r: Option<Error>)
        requires
            self.wf(),
            player_index < self.players@.len(),
        ensures
            r == buy_refusal(*self, player_index as int, card),
    {
        if player_index != self.current_turn {
            return Some(Error::OutOfTurn);
        }
        if self.players[player_index].phase != Phase::BuyPhase {
            return Some(Error::WrongPhase);
        }
        if self.players[player_index].resources.coins_remaining < card.cost().coins {
            return Some(Error::InsufficientFunds);
        }
        if self.supply.count(card) == 0 {
            return Some(Error::EmptyPile { card });
        }
        None
    }

    /// Buys `card` for the player. Refused, with nothing changed, when it is not
    /// the player's turn, the player is not in the buy phase, the player has too
    /// few coins left, or the pile is empty: the first of these that holds is
    /// reported. Otherwise the card is gained to the discard, its cost and one
    /// buy are spent, and a Victory card lets other players react.
    pub fn buy_card<C: Callbacks>(&mut self, player_index: usize, card: Card, callbacks: &C) -> (r: Result<(), Error>)
        requires
            old(self).wf(),
            player_index < old(self).players@.len(),
            old(self).players@[player_index as int].resources.buys > 0,
        ensures
            buy_refusal(*old(self), player_index as int, card).is_some() ==> r == Err::<(), Error>(buy_refusal(*old(self), player_index as int, card).unwrap()) && *final(self) == *old(self),
            buy_refusal(*old(self), player_index as int, card).is_none() ==> r == Ok::<(), Error>(()) && bought(*old(self), *final(self), player_index as int, card),
            buy_refusal(*old(self), player_index as int, card).is_none() && !has_type(card, CardType::Victory) ==> final(self).players@[player_index as int].state == old(self).players@[player_index as int].state && forall|j: int| 0 <= j < final(self).players@.len() && j != player_index ==> final(self).players@[j] == old(self).players@[j],
    {
        if let Some(e) = self.buy_refusal(player_index, card) {
            return Err(e);
        }
        let cost = card.cost().coins;
        card.effects_on_buy(self, player_index);
        self.gain(player_index, card)?;
        let remaining = self.players[player_index].resources.coins_remaining - cost;
        self.players[player_index].resources.coins_remaining = remaining;
        let temp = self.players[player_index].resources.temp_coins.saturating_sub(cost);
        self.players[player_index].resources.temp_coins = temp;
        let buys = self.players[player_index].resources.buys - 1;
        self.players[player_index].resources.buys = buys;
        if card.is_victory() {
            let ghost mid = *self;
            self.check_reactions(player_index, ReactionTrigger::BuyAVictoryCard, callbacks);
            proof {
                assert(self.players@[player_index as int] == mid.players@[player_index as int]);
            }
        }
        Ok(())
    }
}

/// Player `i` of `after` played the treasure at position `k` of its hand in `before`.
pub open spec fn played_treasure(before: Game, after: Game, i: int, k: int) -> bool {
    let p = before.players@[i];
    let q = after.players@[i];
    &&& after.only_player_changed(before, i)
    &&& q.hand@ == p.hand@.remove(k)
    &&& q.in_play@ == p.in_play@.push(p.hand@[k])
    &&& q.resources == (Resources { coins: saturating(p.resources.coins, treasure_coins(p.hand@[k]) as usize), ..p.resources })
    &&& q.deck == p.deck
    &&& q.discard == p.discard
    &&& q.state == p.state
    &&& q.phase == p.phase
    &&& q.uuid == p.uuid
    &&& q.player_number == p.player_number
}

impl Game {
    /// Starts the turn of `player_index`: it becomes the player whose turn it is,
    /// its resources and state are reset, and the action phase begins.
    pub fn turn(&mut self, player_index: usize) -> (r: Prompt)
        requires
            player_index < old(self).players@.len(),
        ensures
            final(self).current_turn == player_index,
            final(self).players@.len() == old(self).players@.len(),
            prompt_matches(r, final(self).players@[player_index as int]),
            r == Prompt::ChooseAction,
            final(self).players@[player_index as int].resources == (Resources { actions: 1, buys: 1, coins: 0, temp_coins: 0, coins_remaining: 0 }),
            !final(self).players@[player_index as int].state.immune,
            final(self).players@[player_index as int].hand == old(self).players@[player_index as int].hand,
            final(self).players@[player_index as int].deck == old(self).players@[player_index as int].deck,
            final(self).players@[player_index as int].discard == old(self).players@[player_index as int].discard,
            final(self).players@[player_index as int].in_play == old(self).players@[player_index as int].in_play,
            final(self).players@[player_index as int].phase == Phase::ActionPhase,
            final(self).wf() == old(self).wf(),
            final(self).supply == old(self).supply,
            final(self).trash == old(self).trash,
            final(self).extras == old(self).extras,
            final(self).started == old(self).started,
            forall|j: int| 0 <= j < final(self).players@.len() && j != player_index ==> final(self).players@[j] == old(self).players@[j],
    {
        self.current_turn = player_index;
        self.players[player_index].reset_state();
        self.players[player_index].phase = Phase::OutOfTurn;
        self.start_action_phase(player_index)
    }

    /// Enters the action phase. A player without actions goes straight on to
    /// the buy phase, and is not asked for an action card.
    pub fn start_action_phase(&mut self, player_index: usize) -> (r: Prompt)
        requires
            player_index < old(self).players@.len(),
        ensures
            final(self).players@.len() == old(self).players@.len(),
            final(self).current_turn == old(self).current_turn,
            prompt_matches(r, final(self).players@[player_index as int]),
            old(self).players@[player_index as int].resources.actions > 0 ==> r == Prompt::ChooseAction && final(self).players@[player_index as int] == (Player { phase: Phase::ActionPhase, ..old(self).players@[player_index as int] }) && final(self).only_player_changed(*old(self), player_index as int),
            old(self).players@[player_index as int].resources.actions == 0 ==> r != Prompt::ChooseAction,
            old(self).players@[player_index as int].resources.actions == 0 && old(self).players@[player_index as int].resources.buys > 0 ==> r == Prompt::ChooseBuy && entered_buy_phase(*old(self), *final(self), player_index as int),
            old(self).players@[player_index as int].resources.actions == 0 ==> buy_phase_entered(*old(self), *final(self), player_index as int, r),
    {
        self.players[player_index].phase = Phase::ActionPhase;
        if self.players[player_index].resources.actions == 0 {
            let ghost entering = *self;
            let r = self.start_buy_phase(player_index);
            proof {
                if entering.players@[player_index as int].resources.buys == 0 {
                    let m = choose|m: Game| #[trigger] entered_buy_phase(entering, m, player_index as int) && cleaned_up(m, *self, player_index as int);
                    assert(entered_buy_phase(*old(self), m, player_index as int));
                }
            }
            return r;
        }
        Prompt::ChooseAction
    }

    /// One step of the action phase, given the player's answer to `ChooseAction`:
    /// no card ends the phase; a card is played if it can be, and the phase ends
    /// once no action is left. A card that cannot be played changes nothing.
    pub fn action_phase<C: Callbacks>(&mut self, player_index: usize, choice: Option<usize>, callbacks: &C) -> (r: Prompt)
        requires
            old(self).wf(),
            player_index < old(self).players@.len(),
            old(self).players@[player_index as int].phase == Phase::ActionPhase,
        ensures
            final(self).players@.len() == old(self).players@.len(),
            final(self).current_turn == old(self).current_turn,
            final(self).wf(),
            prompt_matches(r, final(self).players@[player_index as int]),
            choice.is_none() || old(self).players@[player_index as int].resources.actions == 0 ==> r != Prompt::ChooseAction && buy_phase_entered(*old(self), *final(self), player_index as int, r),
            choice.is_some() && choice.unwrap() >= old(self).players@[player_index as int].hand@.len() && old(self).players@[player_index as int].resources.actions > 0 ==> r == Prompt::ChooseAction && *final(self) == *old(self),
            refused_action(*old(self), player_index as int, choice) ==> r == Prompt::ChooseAction && *final(self) == *old(self),
            playable_action(*old(self), player_index as int, choice) ==> exists|mid: Game, played: Game| moved_to_play(*old(self), mid, player_index as int, choice.unwrap() as int) && #[trigger] action_outcome(old(self).players@[player_index as int].hand@[choice.unwrap() as int], mid, played, player_index as int) && action_step_end(played, *final(self), player_index as int, r),
    {
        let actions = self.players[player_index].resources.actions;
        match choice {
            None => self.start_buy_phase(player_index),
            Some(card_index) => {
                if actions == 0 {
                    return self.start_buy_phase(player_index);
                }
                if card_index >= self.players[player_index].hand.len() {
                    return Prompt::ChooseAction;
                }
                if !self.players[player_index].hand[card_index].is_action() {
                    return Prompt::ChooseAction;
                }
                let ghost before = *self;
                let ghost card = self.players@[player_index as int].hand@[card_index as int];
                let _ = self.play_action_from_hand(player_index, card_index, callbacks);
                let ghost played = *self;
                let ghost mid = choose|mid: Game| moved_to_play(before, mid, player_index as int, card_index as int) && #[trigger] action_outcome(card, mid, played, player_index as int);
                let r = if self.players[player_index].resources.actions == 0 {
                    self.start_buy_phase(player_index)
                } else {
                    Prompt::ChooseAction
                };
                proof {
                    assert(played.players@[player_index as int].phase == mid.players@[player_index as int].phase);
                    assert(action_step_end(played, *self, player_index as int, r));
                }
                r
            },
        }
    }

    /// Enters the buy phase: every treasure in hand is played, and the coins to
    /// spend are the player's coins plus those that effects granted this turn.
    /// A player without buys goes straight on to cleanup.
    pub fn start_buy_phase(&mut self, player_index: usize) -> (r: Prompt)
        requires
            player_index < old(self).players@.len(),
        ensures
            final(self).players@.len() == old(self).players@.len(),
            final(self).current_turn == old(self).current_turn,
            final(self).supply == old(self).supply,
            final(self).extras == old(self).extras,
            prompt_matches(r, final(self).players@[player_index as int]),
            r != Prompt::ChooseAction,
            old(self).players@[player_index as int].resources.buys > 0 ==> r == Prompt::ChooseBuy && entered_buy_phase(*old(self), *final(self), player_index as int),
            old(self).players@[player_index as int].resources.buys == 0 ==> r == Prompt::TurnOver,
            buy_phase_entered(*old(self), *final(self), player_index as int, r),
    {
        self.players[player_index].phase = Phase::BuyPhase;
        self.play_all_treasures(player_index);
        let coins = self.players[player_index].resources.coins;
        let temp = self.players[player_index].resources.temp_coins;
        self.players[player_index].resources.coins_remaining = coins.saturating_add(temp);
        if self.players[player_index].resources.buys == 0 {
            let ghost entered = *self;
            self.cleanup_phase(player_index);
            proof {
                assert(entered_buy_phase(*old(self), entered, player_index as int));
            }
            return Prompt::TurnOver;
        }
        Prompt::ChooseBuy
    }

    /// One step of the buy phase, given the player's answer to `ChooseBuy`: no
    /// card ends the turn; a card is bought if it can be, and the turn ends once
    /// no buy is left. A card that cannot be bought changes nothing.
    pub fn buy_phase<C: Callbacks>(&mut self, player_index: usize, choice: Option<Card>, callbacks: &C) -> (r: Prompt)
        requires
            old(self).wf(),
            player_index < old(self).players@.len(),
            old(self).players@[player_index as int].phase == Phase::BuyPhase,
        ensures
            final(self).players@.len() == old(self).players@.len(),
            final(self).current_turn == old(self).current_turn,
            final(self).wf(),
            prompt_matches(r, final(self).players@[player_index as int]),
            r != Prompt::ChooseAction,
            choice.is_none() || old(self).players@[player_index as int].resources.buys == 0 ==> r == Prompt::TurnOver && cleaned_up(*old(self), *final(self), player_index as int),
            choice.is_some() && old(self).players@[player_index as int].resources.buys > 0 && buy_refusal(*old(self), player_index as int, choice.unwrap()).is_some() ==> r == Prompt::ChooseBuy && *final(self) == *old(self),
            choice.is_some() && old(self).players@[player_index as int].resources.buys > 0 && buy_refusal(*old(self), player_index as int, choice.unwrap()).is_none() ==> exists|mid: Game| #[trigger] bought(*old(self), mid, player_index as int, choice.unwrap()) && buy_step_end(mid, *final(self), player_index as int, r),
    {
        match choice {
            None => {
                self.cleanup_phase(player_index);
                Prompt::TurnOver
            },
            Some(card) => {
                if self.players[player_index].resources.buys == 0 {
                    self.cleanup_phase(player_index);
                    return Prompt::TurnOver;
                }
                match self.buy_card(player_index, card, callbacks) {
                    Ok(()) => {},
                    Err(_) => {
                        return Prompt::ChooseBuy;
                    },
                }
                let ghost mid = *self;
                let r = if self.players[player_index].resources.buys == 0 {
                    self.cleanup_phase(player_index);
                    Prompt::TurnOver
                } else {
                    Prompt::ChooseBuy
                };
                proof {
                    assert(buy_step_end(mid, *self, player_index as int, r));
                }
                r
            },
        }
    }

    /// Cleanup: hand and played cards go to the discard, a new hand is drawn,
    /// and the player is out of turn.
    pub fn cleanup_phase(&mut self, player_index: usize)
        requires
            player_index < old(self).players@.len(),
        ensures
            final(self).players@.len() == old(self).players@.len(),
            final(self).current_turn == old(self).current_turn,
            final(self).supply == old(self).supply,
            final(self).trash == old(self).trash,
            final(self).extras == old(self).extras,
            forall|j: int| 0 <= j < final(self).players@.len() && j != player_index ==> final(self).players@[j] == old(self).players@[j],
            final(self).players@[player_index as int].phase == Phase::OutOfTurn,
            final(self).players@[player_index as int].in_play@.len() == 0,
            final(self).players@[player_index as int].resources == old(self).players@[player_index as int].resources,
            cleaned_up(*old(self), *final(self), player_index as int),
    {
        self.players[player_index].phase = Phase::CleanupPhase;
        self.players[player_index].cleanup();
        let next = self.players[player_index].phase.next();
        self.players[player_index].phase = next;
    }
}

/// Player `i` of `after` entered the buy phase from `before`: treasures from
/// hand are in play, and the coins to spend are counted.
pub open spec fn entered_buy_phase(before: Game, after: Game, i: int) -> bool {
    let p = before.players@[i];
    let q = after.players@[i];
    let coins = add_capped(p.resources.coins as nat, coins_in(p.hand@));
    &&& after.only_player_changed(before, i)
    &&& q.phase == Phase::BuyPhase
    &&& q.hand@ == non_treasures_in(p.hand@)
    &&& q.in_play@ == p.in_play@ + treasures_in(p.hand@)
    &&& q.resources.coins == coins
    &&& q.resources.coins_remaining == add_capped(coins, p.resources.temp_coins as nat)
    &&& q.resources.temp_coins == p.resources.temp_coins
    &&& q.resources.actions == p.resources.actions
    &&& q.resources.buys == p.resources.buys
    &&& q.deck == p.deck
    &&& q.discard == p.discard
    &&& q.state == p.state
}

/// Player `i` of `after` went through cleanup from `before`: hand and played
/// cards were put in the discard, a new hand was drawn, and the player is out
/// of turn with every card kept.
pub open spec fn cleaned_up(before: Game, after: Game, i: int) -> bool {
    let p = before.players@[i];
    let q = after.players@[i];
    &&& after.only_player_changed(before, i)
    &&& q.phase == Phase::OutOfTurn
    &&& q.in_play@.len() == 0
    &&& (q.hand@ + q.deck@ + q.discard@).to_multiset() == (p.hand@ + p.deck@ + p.discard@ + p.in_play@).to_multiset()
    &&& q.hand@.len() == min_nat(HAND_SIZE as nat, p.zone_total() + p.in_play@.len())
    &&& q.resources == p.resources
    &&& q.state == p.state
    &&& q.uuid == p.uuid
    &&& q.player_number == p.player_number
}

/// Entering the buy phase from `before` gave `after` and prompt `r`: with buys
/// left the player is asked for a card; without, cleanup follows at once.
pub open spec fn buy_phase_entered(before: Game, after: Game, i: int, r: Prompt) -> bool {
    &&& before.players@[i].resources.buys > 0 ==> r == Prompt::ChooseBuy && entered_buy_phase(before, after, i)
    &&& before.players@[i].resources.buys == 0 ==> r == Prompt::TurnOver && exists|mid: Game| #[trigger] entered_buy_phase(before, mid, i) && cleaned_up(mid, after, i)
}

/// After an action was played (`played`), the phase goes on while actions are
/// left, and otherwise the buy phase is entered.
pub open spec fn action_step_end(played: Game, after: Game, i: int, r: Prompt) -> bool {
    &&& played.players@[i].resources.actions > 0 ==> r == Prompt::ChooseAction && after == played
    &&& played.players@[i].resources.actions == 0 ==> buy_phase_entered(played, after, i, r)
}

/// After a card was bought (`mid`), the phase goes on while buys are left, and
/// otherwise cleanup follows.
pub open spec fn buy_step_end(mid: Game, after: Game, i: int, r: Prompt) -> bool {
    &&& mid.players@[i].resources.buys > 0 ==> r == Prompt::ChooseBuy && after == mid
    &&& mid.players@[i].resources.buys == 0 ==> r == Prompt::TurnOver && cleaned_up(mid, after, i)
}

} // verus!
