//! The game: players, supply, trash, and the transactions between them.
use vstd::prelude::*;

use crate::callbacks::{Callbacks, ChoiceCountOptions};
use crate::card::{has_type, AttackTarget, Card, CardType};
use crate::error::Error;
use crate::player::{Phase, Player, Resources, HAND_SIZE};
use crate::supply::Supply;

verus! {

/// A player's view of the game, as far as it is defined.
#[derive(Copy, Clone, Debug)]
pub struct PartialGame {}

/// The data for one game.
pub struct Game {
    pub started: bool,
    pub current_turn: usize,
    pub players: Vec<Player>,
    pub supply: Supply,
    pub trash: Vec<Card>,
    pub extras: Supply,
}

/// Copies of each of Estate and Duchy for `n` players.
pub open spec fn victory_pile_size(n: nat) -> nat {
    if n == 2 {
        8
    } else {
        12
    }
}

/// Copies of Province for `n` players.
pub open spec fn province_pile_size(n: nat) -> nat {
    if n == 2 {
        8
    } else if n <= 4 {
        12
    } else if n == 5 {
        15
    } else {
        18
    }
}

/// Copies of Curse for `n` players: ten for each player but one.
pub open spec fn curse_pile_size(n: nat) -> nat {
    (10 * (n - 1)) as nat
}

pub open spec fn supported_player_count(n: nat) -> bool {
    2 <= n <= 6
}

/// The basic piles for `n` players.
pub open spec fn basic_supply(n: nat) -> Map<Card, nat> {
    Map::empty().insert(Card::Copper, 40).insert(Card::Silver, 40).insert(Card::Gold, 40).insert(
        Card::Estate,
        victory_pile_size(n),
    ).insert(Card::Duchy, victory_pile_size(n)).insert(Card::Province, province_pile_size(n)).insert(
        Card::BasicCurse,
        curse_pile_size(n),
    )
}

/// The size of the pile of a kingdom card: victory cards match Estate, others have ten.
pub open spec fn kingdom_pile_size(n: nat, c: Card) -> nat {
    if has_type(c, CardType::Victory) {
        victory_pile_size(n)
    } else {
        10
    }
}

/// The supply for `n` players with the kingdom cards `cards`; a later card's pile
/// replaces an earlier one of the same card.
pub open spec fn supply_for(n: nat, cards: Seq<Card>) -> Map<Card, nat>
    decreases cards.len(),
{
    if cards.len() == 0 {
        basic_supply(n)
    } else {
        supply_for(n, cards.drop_last()).insert(cards.last(), kingdom_pile_size(n, cards.last()))
    }
}

/// The kingdom cards of a default game.
pub open spec fn default_kingdom() -> Seq<Card> {
    seq![Card::Cellar, Card::Market, Card::Merchant, Card::Militia, Card::Mine, Card::Moat,
        Card::Remodel, Card::Smithy, Card::Village, Card::Workshop]
}

/// The players an attack of shape `EveryoneElse` by player `p` of `n` reaches:
/// the others in turn order, starting with the next one.
pub open spec fn everyone_else(p: nat, n: nat) -> Seq<usize> {
    Seq::new(
        (n - 1) as nat,
        |k: int|
            if p + 1 + k < n {
                (p + 1 + k) as usize
            } else {
                (p + 1 + k - n) as usize
            },
    )
}

/// An attack on everyone else passes over the attacker and reaches every other
/// player exactly once, starting with the player after the attacker.
pub proof fn lemma_everyone_else(p: nat, n: nat)
    requires
        p < n,
        n <= usize::MAX,
    ensures
        !everyone_else(p, n).contains(p as usize),
        forall|q: usize| q < n && q != p ==> #[trigger] everyone_else(p, n).contains(q),
        everyone_else(p, n).no_duplicates(),
        n > 1 ==> everyone_else(p, n)[0] == (if p + 1 < n { p + 1 } else { 0 }),
{
    let s = everyone_else(p, n);
    assert forall|q: usize| q < n && q != p implies #[trigger] s.contains(q) by {
        let k: int = if q > p { q - p - 1 } else { q + n - p - 1 };
        assert(s[k] == q);
    }
    assert forall|i: int, j: int| 0 <= i < s.len() && 0 <= j < s.len() && i != j implies s[i]
        != s[j] by {}
}

impl Game {
    pub open spec fn wf(&self) -> bool {
        self.supply.wf() && self.extras.wf()
    }

    /// Cards that player `q` holds outside play, plus every copy left in the
    /// supply. No effect raises it, and playing a card twice lowers it first.
    pub open spec fn stock(&self, q: int) -> nat {
        self.players@[q].hand@.len() + self.players@[q].deck@.len() + self.players@[q].discard@.len()
            + self.supply.total()
    }

    /// `self` came from `before` within one turn, without new cards appearing
    /// for any player and without any player changing phase.
    pub open spec fn no_growth(&self, before: Game) -> bool {
        &&& self.wf()
        &&& self.current_turn == before.current_turn
        &&& self.players@.len() == before.players@.len()
        &&& forall|q: int| 0 <= q < self.players@.len() ==> #[trigger] self.stock(q) <= before.stock(q)
        &&& forall|q: int| 0 <= q < self.players@.len() ==> (#[trigger] self.players@[q]).phase == before.players@[q].phase
    }

    /// Only player `i` differs between `self` and `before`.
    pub open spec fn only_player_changed(&self, before: Game, i: int) -> bool {
        &&& self.started == before.started
        &&& self.current_turn == before.current_turn
        &&& self.supply == before.supply
        &&& self.trash == before.trash
        &&& self.extras == before.extras
        &&& self.players@.len() == before.players@.len()
        &&& forall|j: int| 0 <= j < self.players@.len() && j != i ==> self.players@[j] == before.players@[j]
    }

    /// `self` is `before` with one copy of `card` taken from the supply for player `i`,
    /// whose zones are left to the caller to describe.
    pub open spec fn took_from_supply(&self, before: Game, i: int, card: Card) -> bool {
        &&& self.wf()
        &&& self.started == before.started
        &&& self.current_turn == before.current_turn
        &&& self.supply@ == before.supply@.insert(card, (before.supply.pile(card) - 1) as nat)
        &&& self.supply.total() + 1 == before.supply.total()
        &&& self.trash == before.trash
        &&& self.extras == before.extras
        &&& self.players@.len() == before.players@.len()
        &&& forall|j: int| 0 <= j < self.players@.len() && j != i ==> self.players@[j] == before.players@[j]
        &&& self.players@[i].same_but_zones(before.players@[i])
        &&& self.players@[i].in_play == before.players@[i].in_play
    }

    /// Creates an empty game.
    pub fn new() -> (r: Game)
        ensures
            r.wf(),
            !r.started,
            r.current_turn == 0,
            r.players@.len() == 0,
            r.supply@ == Map::<Card, nat>::empty(),
            r.trash@.len() == 0,
            r.extras@ == Map::<Card, nat>::empty(),
    {
        Game {
            started: false,
            current_turn: 0,
            players: Vec::new(),
            supply: Supply::new(),
            trash: Vec::new(),
            extras: Supply::new(),
        }
    }

    pub fn default_supply_list() -> (r: Vec<Card>)
        ensures
            r@ == default_kingdom(),
    {
        let r = vec![Card::Cellar, Card::Market, Card::Merchant, Card::Militia, Card::Mine,
            Card::Moat, Card::Remodel, Card::Smithy, Card::Village, Card::Workshop];
        assert(r@ =~= default_kingdom());
        r
    }

    /// Sets up the supply for the current players: the basic piles, sized by the
    /// number of players, and one pile for each of `cards`.
    pub fn create_supply(&mut self, cards: Vec<Card>) -> (r: Result<(), Error>)
        requires
            old(self).wf(),
        ensures
            final(self).wf(),
            supported_player_count(old(self).players@.len()) ==> r == Ok::<(), Error>(()) && final(self).supply@ == supply_for(old(self).players@.len(), cards@),
            !supported_player_count(old(self).players@.len()) ==> r == Err::<(), Error>(
                Error::NotEnoughPlayers,
            ) && final(self).supply == old(self).supply,
            final(self).players == old(self).players,
            final(self).trash == old(self).trash,
            final(self).extras == old(self).extras,
            final(self).started == old(self).started,
            final(self).current_turn == old(self).current_turn,
    {
        let player_count = self.player_count();
        let (victory_card_count, province_count, curse_count): (usize, usize, usize) =
            match player_count {
            2 => (8, 8, 10),
            3 => (12, 12, 20),
            4 => (12, 12, 30),
            5 => (12, 15, 40),
            6 => (12, 18, 50),
            _ => {
                return Err(Error::NotEnoughPlayers);
            },
        };
        let ghost n = player_count as nat;
        let mut supply = Supply::new();
        supply.insert(Card::Copper, 40);
        supply.insert(Card::Silver, 40);
        supply.insert(Card::Gold, 40);
        supply.insert(Card::Estate, victory_card_count);
        supply.insert(Card::Duchy, victory_card_count);
        supply.insert(Card::Province, province_count);
        supply.insert(Card::BasicCurse, curse_count);
        proof {
            assert(supply@ =~= supply_for(n, cards@.subrange(0, 0)));
        }
        let mut i: usize = 0;
        while i < cards.len()
            invariant
                0 <= i <= cards@.len(),
                n == player_count,
                supported_player_count(n),
                victory_card_count == victory_pile_size(n),
                supply.wf(),
                supply@ == supply_for(n, cards@.subrange(0, i as int)),
            decreases cards@.len() - i,
        {
            let card = cards[i];
            let count = if card.is_victory() {
                victory_card_count
            } else {
                10
            };
            supply.insert(card, count);
            proof {
                assert(cards@.subrange(0, i + 1).drop_last() =~= cards@.subrange(0, i as int));
            }
            i = i + 1;
        }
        proof {
            assert(cards@.subrange(0, cards@.len() as int) =~= cards@);
        }
        self.supply = supply;
        Ok(())
    }

    /// A player's view of the game.
    pub fn partial_game(&self, player_number: usize) -> (r: PartialGame) {
        PartialGame {  }
    }

    pub fn player_count(&self) -> (r: usize)
        ensures
            r == self.players@.len(),
    {
        self.players.len()
    }

    pub fn add_player(&mut self, player: Player)
        ensures
            final(self).players@ == old(self).players@.push(player),
            final(self).supply == old(self).supply,
            final(self).trash == old(self).trash,
            final(self).extras == old(self).extras,
            final(self).started == old(self).started,
            final(self).current_turn == old(self).current_turn,
    {
        self.players.push(player);
    }

    pub fn get_player(&self, index: usize) -> (r: Option<&Player>)
        ensures
            r.is_some() == (index < self.players@.len()),
            r.is_some() ==> *r.unwrap() == self.players@[index as int],
    {
        if index < self.players.len() {
            Some(&self.players[index])
        } else {
            None
        }
    }

    pub fn get_player_mut(&mut self, index: usize) -> (r: Option<&mut Player>)
        ensures
            r.is_some() == (index < old(self).players@.len()),
            r.is_some() ==> *r.unwrap() == old(self).players@[index as int],
            r.is_some() ==> final(self).players@ == old(self).players@.update(index as int, *final(r.unwrap())),
            r.is_none() ==> *final(self) == *old(self),
            final(self).supply == old(self).supply,
            final(self).trash == old(self).trash,
            final(self).extras == old(self).extras,
            final(self).started == old(self).started,
            final(self).current_turn == old(self).current_turn,
    {
        if index < self.players.len() {
            Some(&mut self.players[index])
        } else {
            None
        }
    }

    /// Takes one copy of `card` from the supply, or reports that its pile is empty.
    fn take_from_supply(&mut self, card: Card) -> (r: Result<(), Error>)
        requires
            old(self).wf(),
        ensures
            final(self).wf(),
            old(self).supply.pile(card) == 0 ==> r == Err::<(), Error>(Error::EmptyPile { card })
                && *final(self) == *old(self),
            old(self).supply.pile(card) > 0 ==> r == Ok::<(), Error>(()) && final(self).supply@
                == old(self).supply@.insert(card, (old(self).supply.pile(card) - 1) as nat)
                && final(self).supply.total() + 1 == old(self).supply.total(),
            final(self).players == old(self).players,
            final(self).trash == old(self).trash,
            final(self).extras == old(self).extras,
            final(self).started == old(self).started,
            final(self).current_turn == old(self).current_turn,
    {
        if self.supply.count(card) == 0 {
            return Err(Error::EmptyPile { card });
        }
        self.supply.take_one(card);
        Ok(())
    }

    /// Gains a copy of `card` from the supply to the player's discard.
    pub fn gain(&mut self, player_index: usize, card: Card) -> (r: Result<(), Error>)
        requires
            old(self).wf(),
            player_index < old(self).players@.len(),
        ensures
            final(self).wf(),
            old(self).supply.pile(card) == 0 ==> r == Err::<(), Error>(Error::EmptyPile { card })
                && *final(self) == *old(self),
            old(self).supply.pile(card) > 0 ==> r == Ok::<(), Error>(()) && final(self).took_from_supply(
                *old(self),
                player_index as int,
                card,
            ) && final(self).players@[player_index as int].discard@ == old(self).players@[player_index as int].discard@.push(card) && final(self).players@[player_index as int].hand == old(self).players@[player_index as int].hand
                && final(self).players@[player_index as int].deck == old(self).players@[player_index as int].deck,
    {
        self.take_from_supply(card)?;
        card.effects_on_gain(self, player_index);
        self.players[player_index].discard.push(card);
        Ok(())
    }

    /// Gains a copy of `card` from the supply to the player's hand.
    pub fn gain_to_hand(&mut self, player_index: usize, card: Card) -> (r: Result<(), Error>)
        requires
            old(self).wf(),
            player_index < old(self).players@.len(),
        ensures
            final(self).wf(),
            old(self).supply.pile(card) == 0 ==> r == Err::<(), Error>(Error::EmptyPile { card })
                && *final(self) == *old(self),
            old(self).supply.pile(card) > 0 ==> r == Ok::<(), Error>(()) && final(self).took_from_supply(
                *old(self),
                player_index as int,
                card,
            ) && final(self).players@[player_index as int].hand@ == old(self).players@[player_index as int].hand@.push(card) && final(self).players@[player_index as int].discard == old(self).players@[player_index as int].discard
                && final(self).players@[player_index as int].deck == old(self).players@[player_index as int].deck,
    {
        self.take_from_supply(card)?;
        card.effects_on_gain(self, player_index);
        self.players[player_index].hand.push(card);
        Ok(())
    }

    /// Gains a copy of `card` from the supply to the top of the player's deck.
    pub fn gain_to_deck_top(&mut self, player_index: usize, card: Card) -> (r: Result<(), Error>)
        requires
            old(self).wf(),
            player_index < old(self).players@.len(),
        ensures
            final(self).wf(),
            old(self).supply.pile(card) == 0 ==> r == Err::<(), Error>(Error::EmptyPile { card })
                && *final(self) == *old(self),
            old(self).supply.pile(card) > 0 ==> r == Ok::<(), Error>(()) && final(self).took_from_supply(
                *old(self),
                player_index as int,
                card,
            ) && final(self).players@[player_index as int].deck@ == seq![card] + old(self).players@[player_index as int].deck@ && final(self).players@[player_index as int].hand
                == old(self).players@[player_index as int].hand && final(self).players@[player_index as int].discard == old(self).players@[player_index as int].discard,
    {
        self.take_from_supply(card)?;
        card.effects_on_gain(self, player_index);
        self.players[player_index].deck.insert(0, card);
        Ok(())
    }

    /// Takes the card at `card_index` out of the player's hand.
    pub fn remove_from_hand(&mut self, player_index: usize, card_index: usize) -> (r: Card)
        requires
            player_index < old(self).players@.len(),
            card_index < old(self).players@[player_index as int].hand@.len(),
        ensures
            r == old(self).players@[player_index as int].hand@[card_index as int],
            final(self).only_player_changed(*old(self), player_index as int),
            final(self).players@[player_index as int].hand@ == old(self).players@[player_index as int].hand@.remove(card_index as int),
            final(self).players@[player_index as int].deck == old(self).players@[player_index as int].deck,
            final(self).players@[player_index as int].discard == old(self).players@[player_index as int].discard,
            final(self).players@[player_index as int].in_play == old(self).players@[player_index as int].in_play,
            final(self).players@[player_index as int].same_but_zones(
                old(self).players@[player_index as int],
            ),
    {
        self.players[player_index].hand.remove(card_index)
    }

    /// Takes up to `count` cards from the top of the player's deck, in order.
    pub fn reveal_cards(&mut self, player_index: usize, count: usize) -> (r: Vec<Card>)
        requires
            player_index < old(self).players@.len(),
        ensures
            r@.len() == crate::player::min_nat(
                count as nat,
                old(self).players@[player_index as int].deck@.len(),
            ),
            r@ == old(self).players@[player_index as int].deck@.subrange(0, r@.len() as int),
            final(self).players@[player_index as int].deck@ == old(self).players@[player_index as int].deck@.subrange(
                r@.len() as int,
                old(self).players@[player_index as int].deck@.len() as int,
            ),
            final(self).only_player_changed(*old(self), player_index as int),
            final(self).players@[player_index as int].hand == old(self).players@[player_index as int].hand,
            final(self).players@[player_index as int].discard == old(self).players@[player_index as int].discard,
            final(self).players@[player_index as int].in_play == old(self).players@[player_index as int].in_play,
            final(self).players@[player_index as int].same_but_zones(
                old(self).players@[player_index as int],
            ),
    {
        let ghost d0 = self.players@[player_index as int].deck@;
        let mut cards: Vec<Card> = Vec::new();
        let mut k: usize = 0;
        while k < count && self.players[player_index].deck.len() > 0
            invariant
                player_index < self.players@.len(),
                self.only_player_changed(*old(self), player_index as int),
                d0 == old(self).players@[player_index as int].deck@,
                k <= count,
                k <= d0.len(),
                cards@ == d0.subrange(0, k as int),
                self.players@[player_index as int].deck@ == d0.subrange(k as int, d0.len() as int),
                self.players@[player_index as int].hand == old(self).players@[player_index as int].hand,
                self.players@[player_index as int].discard == old(self).players@[player_index as int].discard,
                self.players@[player_index as int].in_play == old(self).players@[player_index as int].in_play,
                self.players@[player_index as int].same_but_zones(
                    old(self).players@[player_index as int],
                ),
            decreases count - k,
        {
            let card = self.players[player_index].deck.remove(0);
            cards.push(card);
            proof {
                assert(cards@ =~= d0.subrange(0, k + 1));
                assert(self.players@[player_index as int].deck@ =~= d0.subrange(
                    k + 1,
                    d0.len() as int,
                ));
            }
            k = k + 1;
        }
        cards
    }

    /// The players that an attack of the given shape by `player_index` reaches.
    pub fn get_targets<C: Callbacks>(
        &self,
        player_index: usize,
        target_type: AttackTarget,
        callbacks: &C,
    ) -> (r: Vec<usize>)
        requires
            player_index < self.players@.len(),
        ensures
            target_type == AttackTarget::EveryoneElse ==> r@ == everyone_else(
                player_index as nat,
                self.players@.len(),
            ),
            target_type == AttackTarget::PlayerToLeft ==> r@ == (if self.players@.len() > 1 {
                everyone_else(player_index as nat, self.players@.len()).subrange(0, 1)
            } else {
                Seq::<usize>::empty()
            }),
            target_type == AttackTarget::PlayerOfChoice ==> r@.len() <= 1,
            r@.no_duplicates(),
            forall|k: int| 0 <= k < r@.len() ==> r@[k] < self.players@.len(),
    {
        let n = self.players.len();
        match target_type {
            AttackTarget::EveryoneElse => {
                let mut indices: Vec<usize> = Vec::new();
                let mut k: usize = 0;
                while k + 1 < n
                    invariant
                        n == self.players@.len(),
                        player_index < n,
                        k < n,
                        indices@ == everyone_else(player_index as nat, n as nat).subrange(0, k as int),
                    decreases n - k,
                {
                    let after = n - 1 - player_index;
                    let next = if k < after {
                        player_index + 1 + k
                    } else {
                        k - after
                    };
                    indices.push(next);
                    proof {
                        assert(indices@ =~= everyone_else(player_index as nat, n as nat).subrange(
                            0,
                            k + 1,
                        ));
                    }
                    k = k + 1;
                }
                proof {
                    assert(indices@ =~= everyone_else(player_index as nat, n as nat));
                    lemma_everyone_else(player_index as nat, n as nat);
                }
                indices
            },
            AttackTarget::PlayerToLeft => {
                let mut indices: Vec<usize> = Vec::new();
                if n > 1 {
                    let next = if player_index + 1 < n {
                        player_index + 1
                    } else {
                        0
                    };
                    indices.push(next);
                    proof {
                        assert(indices@ =~= everyone_else(player_index as nat, n as nat).subrange(0, 1));
                    }
                }
                indices
            },
            AttackTarget::PlayerOfChoice => {
                let chosen = callbacks.choose_players(
                    player_index,
                    &ChoiceCountOptions::Exact { count: 1 },
                    "Choose a player to target",
                );
                let mut indices: Vec<usize> = Vec::new();
                if chosen.len() > 0 && chosen[0] < n {
                    indices.push(chosen[0]);
                }
                indices
            },
        }
    }
}

impl Default for Game {
    /// A two-player game: each player has the starting deck, and the supply holds
    /// the basic piles and the default kingdom.
    fn default() -> (r: Game)
        ensures
            r.wf(),
            !r.started,
            r.current_turn == 0,
            r.players@.len() == 2,
            forall|i: int| 0 <= i < 2 ==> (#[trigger] r.players@[i]).player_number == i && r.players@[i].hand@.len() == HAND_SIZE && r.players@[i].deck@.len() == 5 && r.players@[i].discard@.len() == 0 && r.players@[i].in_play@.len() == 0 && r.players@[i].phase == Phase::OutOfTurn && r.players@[i].resources == (Resources { actions: 0, buys: 0, coins: 0, temp_coins: 0, coins_remaining: 0 }),
            r.supply@ == supply_for(2, default_kingdom()),
            r.trash@.len() == 0,
    {
        let mut game = Game::new();
        let mut i: usize = 0;
        while i < 2
            invariant
                0 <= i <= 2,
                game.wf(),
                !game.started,
                game.current_turn == 0,
                game.trash@.len() == 0,
                game.players@.len() == i,
                forall|j: int| 0 <= j < i ==> (#[trigger] game.players@[j]).player_number == j && game.players@[j].hand@.len() == HAND_SIZE && game.players@[j].deck@.len() == 5 && game.players@[j].discard@.len() == 0 && game.players@[j].in_play@.len() == 0 && game.players@[j].phase == Phase::OutOfTurn && game.players@[j].resources == (Resources { actions: 0, buys: 0, coins: 0, temp_coins: 0, coins_remaining: 0 }),
            decreases 2 - i,
        {
            let player = Player::new_with_default_deck(i);
            game.add_player(player);
            i = i + 1;
        }
        let _ = game.create_supply(Game::default_supply_list());
        game
    }
}

} // verus!
