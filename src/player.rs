//! A player: identity, card zones, resources, transient state and phase.
use vstd::prelude::*;
use vstd::multiset::Multiset;
use vstd::seq_lib::group_to_multiset_ensures;
use vstd::seq_lib::lemma_multiset_commutative;

use crate::card::Card;
use crate::utils::shuffle;

use uuid::Uuid;

verus! {

broadcast use group_to_multiset_ensures, lemma_multiset_commutative;

/// The size of a hand drawn at cleanup and at the start of the game.
pub const HAND_SIZE: usize = 5;

/// Per-turn counters of a player.
#[derive(Copy, Clone, PartialEq, Eq, Structural, Debug)]
pub struct Resources {
    pub actions: usize,
    pub buys: usize,
    pub coins: usize,
    pub temp_coins: usize,
    pub coins_remaining: usize,
}

impl Default for Resources {
    fn default() -> (r: Resources)
        ensures
            r == (Resources { actions: 0, buys: 0, coins: 0, temp_coins: 0, coins_remaining: 0 }),
    {
        Resources { actions: 0, buys: 0, coins: 0, temp_coins: 0, coins_remaining: 0 }
    }
}

/// The phases of a player's turn, in the order they are passed through.
#[derive(Copy, Clone, PartialEq, Eq, Structural, Debug)]
pub enum Phase {
    OutOfTurn,
    ActionPhase,
    BuyPhase,
    CleanupPhase,
}

pub open spec fn next_phase(p: Phase) -> Phase {
    match p {
        Phase::OutOfTurn => Phase::ActionPhase,
        Phase::ActionPhase => Phase::BuyPhase,
        Phase::BuyPhase => Phase::CleanupPhase,
        Phase::CleanupPhase => Phase::OutOfTurn,
    }
}

impl Default for Phase {
    fn default() -> (r: Phase)
        ensures
            r == Phase::OutOfTurn,
    {
        Phase::OutOfTurn
    }
}

impl Phase {
    /// The phase that follows this one; the four phases form a cycle.
    pub fn next(&self) -> (r: Self)
        ensures
            r == next_phase(*self),
    {
        match self {
            Phase::OutOfTurn => Phase::ActionPhase,
            Phase::ActionPhase => Phase::BuyPhase,
            Phase::BuyPhase => Phase::CleanupPhase,
            Phase::CleanupPhase => Phase::OutOfTurn,
        }
    }
}

/// Conditions that last at most until the player's next turn.
#[derive(Copy, Clone, PartialEq, Eq, Structural, Debug)]
pub struct State {
    /// The next attack that reaches this player passes it by.
    pub immune: bool,
    pub temp_immune: bool,
    pub merchant_bonus: usize,
}

impl Default for State {
    fn default() -> (r: State)
        ensures
            r == (State { immune: false, temp_immune: false, merchant_bonus: 0 }),
    {
        State { immune: false, temp_immune: false, merchant_bonus: 0 }
    }
}

pub struct Player {
    pub uuid: u128,
    pub player_number: usize,
    pub hand: Vec<Card>,
    pub deck: Vec<Card>,
    pub discard: Vec<Card>,
    pub in_play: Vec<Card>,
    pub resources: Resources,
    pub state: State,
    pub phase: Phase,
}

/// Everything a player holds outside play, as one multiset.
pub open spec fn owned_cards(p: Player) -> Multiset<Card> {
    (p.hand@ + p.deck@ + p.discard@).to_multiset()
}

pub open spec fn min_nat(a: nat, b: nat) -> nat {
    if a <= b {
        a
    } else {
        b
    }
}

/// `after` took the top `n` cards of the deck of `before` into its hand, in order.
pub open spec fn drew_from_deck(before: Player, after: Player, n: nat) -> bool {
    &&& n <= before.deck@.len()
    &&& after.hand@ == before.hand@ + before.deck@.subrange(0, n as int)
    &&& after.deck@ == before.deck@.subrange(n as int, before.deck@.len() as int)
    &&& after.discard == before.discard
}

/// The cards that `after` drew beyond its old hand and its old whole deck.
pub open spec fn drawn_after(before: Player, after: Player) -> Seq<Card> {
    after.hand@.subrange((before.hand@.len() + before.deck@.len()) as int, after.hand@.len() as int)
}

/// The cards at the listed positions of `s`, in the order of `s`.
pub open spec fn picked(s: Seq<Card>, positions: Seq<usize>) -> Seq<Card>
    decreases s.len(),
{
    if s.len() == 0 {
        Seq::empty()
    } else if positions.contains((s.len() - 1) as usize) {
        picked(s.drop_last(), positions).push(s.last())
    } else {
        picked(s.drop_last(), positions)
    }
}

/// The cards at the positions of `s` that are not listed, in the order of `s`.
pub open spec fn kept(s: Seq<Card>, positions: Seq<usize>) -> Seq<Card>
    decreases s.len(),
{
    if s.len() == 0 {
        Seq::empty()
    } else if positions.contains((s.len() - 1) as usize) {
        kept(s.drop_last(), positions)
    } else {
        kept(s.drop_last(), positions).push(s.last())
    }
}

pub proof fn lemma_split_lengths(s: Seq<Card>, positions: Seq<usize>)
    ensures
        picked(s, positions).len() + kept(s, positions).len() == s.len(),
    decreases s.len(),
{
    if s.len() > 0 {
        lemma_split_lengths(s.drop_last(), positions);
    }
}

pub proof fn lemma_split_multiset(s: Seq<Card>, positions: Seq<usize>)
    ensures
        kept(s, positions).to_multiset().add(picked(s, positions).to_multiset()) == s.to_multiset(),
    decreases s.len(),
{
    if s.len() > 0 {
        lemma_split_multiset(s.drop_last(), positions);
        assert(s.drop_last().push(s.last()) =~= s);
        assert(kept(s, positions).to_multiset().add(picked(s, positions).to_multiset()) =~= s.to_multiset());
    } else {
        assert(kept(s, positions).to_multiset().add(picked(s, positions).to_multiset()) =~= s.to_multiset());
    }
}

/// The listed positions below `n`.
pub open spec fn listed_below(positions: Seq<usize>, n: nat) -> Set<usize>
    decreases n,
{
    if n == 0 {
        Set::empty()
    } else if positions.contains((n - 1) as usize) {
        listed_below(positions, (n - 1) as nat).insert((n - 1) as usize)
    } else {
        listed_below(positions, (n - 1) as nat)
    }
}

proof fn lemma_listed_below(s: Seq<Card>, positions: Seq<usize>)
    requires
        s.len() <= usize::MAX,
    ensures
        listed_below(positions, s.len()).finite(),
        listed_below(positions, s.len()).len() == picked(s, positions).len(),
        listed_below(positions, s.len()).subset_of(positions.to_set()),
        forall|i: usize| listed_below(positions, s.len()).contains(i) ==> i < s.len(),
    decreases s.len(),
{
    if s.len() > 0 {
        lemma_listed_below(s.drop_last(), positions);
        let prev = listed_below(positions, (s.len() - 1) as nat);
        let i = (s.len() - 1) as usize;
        if positions.contains(i) {
            assert(!prev.contains(i));
            assert(prev.insert(i).len() == prev.len() + 1);
        }
    }
}

/// No more cards are picked than positions are listed.
pub proof fn lemma_picked_len(s: Seq<Card>, positions: Seq<usize>)
    requires
        s.len() <= usize::MAX,
    ensures
        picked(s, positions).len() <= positions.len(),
{
    lemma_listed_below(s, positions);
    positions.lemma_cardinality_of_set();
    vstd::set_lib::lemma_len_subset(listed_below(positions, s.len()), positions.to_set());
}

fn contains_position(positions: &Vec<usize>, i: usize) -> (r: bool)
    ensures
        r == positions@.contains(i),
{
    let mut j: usize = 0;
    while j < positions.len()
        invariant
            0 <= j <= positions@.len(),
            forall|k: int| 0 <= k < j ==> positions@[k] != i,
        decreases positions@.len() - j,
    {
        if positions[j] == i {
            return true;
        }
        j = j + 1;
    }
    false
}

/// Splits `cards` into the cards at the listed positions and the rest, each in
/// the order it had. Positions out of range are ignored.
fn split_at_positions(cards: Vec<Card>, positions: &Vec<usize>) -> (r: (Vec<Card>, Vec<Card>))
    ensures
        r.0@ == kept(cards@, positions@),
        r.1@ == picked(cards@, positions@),
        r.0@.len() + r.1@.len() == cards@.len(),
{
    let mut rest: Vec<Card> = Vec::new();
    let mut chosen: Vec<Card> = Vec::new();
    let mut i: usize = 0;
    while i < cards.len()
        invariant
            0 <= i <= cards@.len(),
            rest@ == kept(cards@.subrange(0, i as int), positions@),
            chosen@ == picked(cards@.subrange(0, i as int), positions@),
        decreases cards@.len() - i,
    {
        proof {
            assert(cards@.subrange(0, i + 1).drop_last() =~= cards@.subrange(0, i as int));
        }
        if contains_position(positions, i) {
            chosen.push(cards[i]);
        } else {
            rest.push(cards[i]);
        }
        i = i + 1;
    }
    proof {
        assert(cards@.subrange(0, cards@.len() as int) =~= cards@);
        lemma_split_lengths(cards@, positions@);
    }
    (rest, chosen)
}

/// Relies on uuid's `Uuid::new_v4`: a random identifier, given as its 128-bit value.
#[verifier::external_body]
fn new_uuid() -> (r: u128) {
    Uuid::new_v4().as_u128()
}

impl Player {
    /// The fields that no zone transfer touches are the same in both players.
    pub open spec fn same_but_zones(self, other: Player) -> bool {
        &&& self.uuid == other.uuid
        &&& self.player_number == other.player_number
        &&& self.resources == other.resources
        &&& self.state == other.state
        &&& self.phase == other.phase
    }

    /// Constructs a player with the starting deck: seven Coppers and three Estates.
    pub fn new_with_default_deck(player_number: usize) -> (r: Player)
        ensures
            r.player_number == player_number,
            r.hand@.len() == HAND_SIZE,
            r.deck@.len() == 5,
            owned_cards(r) == seq![Card::Copper, Card::Copper, Card::Copper, Card::Copper,
                Card::Copper, Card::Copper, Card::Copper, Card::Estate, Card::Estate,
                Card::Estate].to_multiset(),
            r.discard@.len() == 0,
            r.in_play@.len() == 0,
            r.resources == (Resources { actions: 0, buys: 0, coins: 0, temp_coins: 0, coins_remaining: 0 }),
            r.phase == Phase::OutOfTurn,
    {
        let deck = vec![
            Card::Copper, Card::Copper, Card::Copper, Card::Copper, Card::Copper,
            Card::Copper, Card::Copper, Card::Estate, Card::Estate, Card::Estate,
        ];
        Player::new(player_number, deck)
    }

    /// Constructs a player with the given cards as a shuffled deck, and draws
    /// the opening hand from it.
    pub fn new(player_number: usize, cards: Vec<Card>) -> (r: Player)
        ensures
            r.player_number == player_number,
            r.hand@.len() == min_nat(cards@.len(), HAND_SIZE as nat),
            r.hand@.len() + r.deck@.len() == cards@.len(),
            owned_cards(r) == cards@.to_multiset(),
            r.discard@.len() == 0,
            r.in_play@.len() == 0,
            r.resources == (Resources { actions: 0, buys: 0, coins: 0, temp_coins: 0, coins_remaining: 0 }),
            r.state == (State { immune: false, temp_immune: false, merchant_bonus: 0 }),
            r.phase == Phase::OutOfTurn,
    {
        let uuid = new_uuid();
        let mut deck = cards;
        shuffle(&mut deck);
        let mut player = Player {
            uuid,
            player_number,
            hand: Vec::new(),
            deck,
            discard: Vec::new(),
            in_play: Vec::new(),
            resources: Resources::default(),
            state: State::default(),
            phase: Phase::default(),
        };
        proof {
            assert(player.hand@ + player.deck@ + player.discard@ =~= deck@);
        }
        player.draw_cards(HAND_SIZE);
        proof {
            assert(deck@.len() == deck@.to_multiset().len());
            assert(cards@.len() == cards@.to_multiset().len());
        }
        player
    }

    pub fn hand_size(&self) -> (r: usize)
        ensures
            r == self.hand@.len(),
    {
        self.hand.len()
    }

    /// Draws up to `cards` cards into the hand. When the deck runs out, the
    /// discard is shuffled and becomes the deck; when both are empty, drawing stops.
    pub fn draw_cards(&mut self, cards: usize)
        ensures
            final(self).same_but_zones(*old(self)),
            final(self).in_play == old(self).in_play,
            final(self).hand@.len() == old(self).hand@.len() + min_nat(
                cards as nat,
                old(self).deck@.len() + old(self).discard@.len(),
            ),
            owned_cards(*final(self)) == owned_cards(*old(self)),
            final(self).hand@.len() + final(self).deck@.len() + final(self).discard@.len()
                == old(self).hand@.len() + old(self).deck@.len() + old(self).discard@.len(),
            old(self).discard@.len() == 0 ==> final(self).discard@.len() == 0,
            cards <= old(self).deck@.len() ==> drew_from_deck(*old(self), *final(self), cards as nat),
            cards >= old(self).deck@.len() ==> final(self).hand@.subrange(0, (old(self).hand@.len() + old(self).deck@.len()) as int) == old(self).hand@ + old(self).deck@,
            cards > old(self).deck@.len() ==> final(self).discard@.len() == 0,
            cards > old(self).deck@.len() ==> (drawn_after(*old(self), *final(self)) + final(self).deck@).to_multiset() == old(self).discard@.to_multiset(),
    {
        let ghost h0 = self.hand@;
        let ghost d0 = self.deck@;
        let ghost total = self.deck@.len() + self.discard@.len();
        proof {
            assert(h0 + d0.subrange(0, 0) =~= h0);
            assert(d0.subrange(0, d0.len() as int) =~= d0);
        }
        let mut n: usize = 0;
        while n < cards
            invariant
                0 <= n <= cards,
                self.same_but_zones(*old(self)),
                self.in_play == old(self).in_play,
                self.hand@.len() == old(self).hand@.len() + n,
                self.deck@.len() + self.discard@.len() + n == total,
                total == old(self).deck@.len() + old(self).discard@.len(),
                h0 == old(self).hand@,
                d0 == old(self).deck@,
                owned_cards(*self) == owned_cards(*old(self)),
                old(self).discard@.len() == 0 ==> self.discard@.len() == 0,
                n <= d0.len() ==> drew_from_deck(*old(self), *self, n as nat),
                n >= d0.len() ==> self.hand@.subrange(0, (h0.len() + d0.len()) as int) == h0 + d0,
                self.hand@.len() >= h0.len() + (if n <= d0.len() { n as nat } else { d0.len() }),
                n > d0.len() ==> self.discard@.len() == 0,
                n >= d0.len() ==> (drawn_after(*old(self), *self) + self.deck@ + self.discard@).to_multiset() == old(self).discard@.to_multiset(),
            decreases cards - n,
        {
            if self.deck.len() == 0 {
                if self.discard.len() == 0 {
                    return;
                }
                let ghost unshuffled = self.discard@;
                shuffle(&mut self.discard);
                proof {
                    assert(unshuffled.to_multiset().len() == unshuffled.len());
                    assert(self.discard@.to_multiset().len() == self.discard@.len());
                }
                let ghost pre_swap = *self;
                std::mem::swap(&mut self.deck, &mut self.discard);
                proof {
                    let t = drawn_after(*old(self), *self);
                    assert(t + self.deck@ + self.discard@ =~= t + pre_swap.discard@);
                    assert(t + pre_swap.deck@ + unshuffled =~= t + unshuffled);
                    assert((t + pre_swap.discard@).to_multiset() =~= t.to_multiset().add(pre_swap.discard@.to_multiset()));
                    assert((t + unshuffled).to_multiset() =~= t.to_multiset().add(unshuffled.to_multiset()));
                    assert(self.hand@ + self.deck@ + self.discard@ =~= self.hand@ + (self.deck@
                        + self.discard@));
                    assert(self.deck@ + self.discard@ =~= self.deck@);
                    assert(old(self).hand@ + old(self).deck@ + old(self).discard@ =~= old(self).hand@ + (old(self).deck@
                        + old(self).discard@));
                }
            }
            let ghost before = *self;
            let card = self.deck.remove(0);
            self.hand.push(card);
            proof {
                let s0 = before.hand@ + before.deck@ + before.discard@;
                let s1 = self.hand@ + self.deck@ + self.discard@;
                assert(s1.to_multiset() =~= before.hand@.to_multiset().insert(card).add(
                    before.deck@.to_multiset().remove(card)).add(before.discard@.to_multiset()));
                assert(before.deck@.contains(card)) by {
                    assert(before.deck@[0int] == card);
                }
                assert(s1.to_multiset() =~= s0.to_multiset());
                if n + 1 <= d0.len() {
                    assert(self.hand@ =~= h0 + d0.subrange(0, n + 1));
                    assert(self.deck@ =~= d0.subrange(n + 1, d0.len() as int));
                    if n + 1 == d0.len() {
                        assert(d0.subrange(0, n + 1) =~= d0);
                        assert(self.hand@.subrange(0, (h0.len() + d0.len()) as int) =~= h0 + d0);
                    }
                } else {
                    assert(self.hand@.subrange(0, (h0.len() + d0.len()) as int) =~= before.hand@.subrange(0, (h0.len() + d0.len()) as int));
                }
                if n >= d0.len() {
                    let t0 = drawn_after(*old(self), before);
                    let t1 = drawn_after(*old(self), *self);
                    assert(t1 =~= t0.push(card));
                    assert((t1 + self.deck@ + self.discard@).to_multiset() =~= t0.to_multiset().insert(card).add(before.deck@.to_multiset().remove(card)).add(before.discard@.to_multiset()));
                    assert((t0 + before.deck@ + before.discard@).to_multiset() =~= t0.to_multiset().add(before.deck@.to_multiset()).add(before.discard@.to_multiset()));
                } else if n + 1 == d0.len() {
                    assert(drawn_after(*old(self), *self) =~= Seq::<Card>::empty());
                    assert(drawn_after(*old(self), *self) + self.deck@ + self.discard@ =~= old(self).discard@);
                }
            }
            n = n + 1;
        }
    }
}


impl Player {
    /// The number of cards in deck, hand and discard.
    pub open spec fn zone_total(self) -> nat {
        self.hand@.len() + self.deck@.len() + self.discard@.len()
    }

    /// Gives the player extra actions for this turn (saturating at the largest `usize`).
    pub fn add_actions(&mut self, actions: usize)
        ensures
            final(self).resources == (Resources { actions: saturating(old(self).resources.actions, actions), ..old(self).resources }),
            final(self).hand == old(self).hand,
            final(self).deck == old(self).deck,
            final(self).discard == old(self).discard,
            final(self).in_play == old(self).in_play,
            final(self).state == old(self).state,
            final(self).phase == old(self).phase,
            final(self).uuid == old(self).uuid,
            final(self).player_number == old(self).player_number,
    {
        self.resources.actions = self.resources.actions.saturating_add(actions);
    }

    /// Gives the player extra buys for this turn (saturating at the largest `usize`).
    pub fn add_buys(&mut self, buys: usize)
        ensures
            final(self).resources == (Resources { buys: saturating(old(self).resources.buys, buys), ..old(self).resources }),
            final(self).hand == old(self).hand,
            final(self).deck == old(self).deck,
            final(self).discard == old(self).discard,
            final(self).in_play == old(self).in_play,
            final(self).state == old(self).state,
            final(self).phase == old(self).phase,
            final(self).uuid == old(self).uuid,
            final(self).player_number == old(self).player_number,
    {
        self.resources.buys = self.resources.buys.saturating_add(buys);
    }

    /// Gives the player extra coins for this turn (saturating at the largest `usize`).
    pub fn add_coins(&mut self, coins: usize)
        ensures
            final(self).resources == (Resources { temp_coins: saturating(old(self).resources.temp_coins, coins), ..old(self).resources }),
            final(self).hand == old(self).hand,
            final(self).deck == old(self).deck,
            final(self).discard == old(self).discard,
            final(self).in_play == old(self).in_play,
            final(self).state == old(self).state,
            final(self).phase == old(self).phase,
            final(self).uuid == old(self).uuid,
            final(self).player_number == old(self).player_number,
    {
        self.resources.temp_coins = self.resources.temp_coins.saturating_add(coins);
    }

    /// Moves the cards at the given hand positions to the discard, keeping the
    /// order of the rest of the hand. Positions out of range are ignored.
    pub fn discard_given_indexes(&mut self, indexes: Vec<usize>)
        ensures
            final(self).same_but_zones(*old(self)),
            final(self).hand@ == kept(old(self).hand@, indexes@),
            final(self).discard@ == old(self).discard@ + picked(old(self).hand@, indexes@),
            final(self).hand@.len() + final(self).discard@.len() == old(self).hand@.len() + old(self).discard@.len(),
            final(self).deck == old(self).deck,
            final(self).in_play == old(self).in_play,
            owned_cards(*final(self)) == owned_cards(*old(self)),
    {
        let mut hand: Vec<Card> = Vec::new();
        std::mem::swap(&mut hand, &mut self.hand);
        let (rest, mut chosen) = split_at_positions(hand, &indexes);
        self.hand = rest;
        self.discard.append(&mut chosen);
        proof {
            let h = old(self).hand@;
            lemma_split_multiset(h, indexes@);
            assert(owned_cards(*self) =~= owned_cards(*old(self)));
        }
    }

    /// Moves the cards at the given discard positions to the hand. Positions out
    /// of range are ignored.
    pub fn move_given_indexes_discard_to_hand(&mut self, indexes: Vec<usize>)
        ensures
            final(self).same_but_zones(*old(self)),
            final(self).discard@ == kept(old(self).discard@, indexes@),
            final(self).hand@ == old(self).hand@ + picked(old(self).discard@, indexes@),
            final(self).hand@.len() + final(self).discard@.len() == old(self).hand@.len() + old(self).discard@.len(),
            final(self).deck == old(self).deck,
            final(self).in_play == old(self).in_play,
            owned_cards(*final(self)) == owned_cards(*old(self)),
    {
        let mut discard: Vec<Card> = Vec::new();
        std::mem::swap(&mut discard, &mut self.discard);
        let (rest, mut chosen) = split_at_positions(discard, &indexes);
        self.discard = rest;
        self.hand.append(&mut chosen);
        proof {
            let d = old(self).discard@;
            lemma_split_multiset(d, indexes@);
            assert(owned_cards(*self) =~= owned_cards(*old(self)));
        }
    }

    /// Moves the cards at the given hand positions to `trash`. Positions out of
    /// range are ignored.
    pub fn trash_given_indexes(&mut self, indexes: Vec<usize>, trash: &mut Vec<Card>)
        ensures
            final(self).same_but_zones(*old(self)),
            final(self).hand@ == kept(old(self).hand@, indexes@),
            final(trash)@ == old(trash)@ + picked(old(self).hand@, indexes@),
            final(self).hand@.len() <= old(self).hand@.len(),
            final(trash)@.len() <= old(trash)@.len() + indexes@.len(),
            (final(self).hand@ + final(trash)@).to_multiset() == (old(self).hand@ + old(trash)@).to_multiset(),
            final(self).deck == old(self).deck,
            final(self).discard == old(self).discard,
            final(self).in_play == old(self).in_play,
    {
        let ghost h_len = self.hand.len();
        let mut hand: Vec<Card> = Vec::new();
        std::mem::swap(&mut hand, &mut self.hand);
        let (rest, mut chosen) = split_at_positions(hand, &indexes);
        self.hand = rest;
        trash.append(&mut chosen);
        proof {
            let h = old(self).hand@;
            lemma_split_multiset(h, indexes@);
            lemma_picked_len(h, indexes@);
            assert((self.hand@ + trash@).to_multiset() =~= (old(self).hand@ + old(trash)@).to_multiset());
        }
    }

    /// Starts a turn: one action, one buy, no coins, and no conditions left over.
    pub fn reset_state(&mut self)
        ensures
            final(self).resources == (Resources { actions: 1, buys: 1, coins: 0, temp_coins: 0, coins_remaining: 0 }),
            final(self).state == (State { immune: false, temp_immune: false, merchant_bonus: 0 }),
            final(self).hand == old(self).hand,
            final(self).deck == old(self).deck,
            final(self).discard == old(self).discard,
            final(self).in_play == old(self).in_play,
            final(self).phase == old(self).phase,
            final(self).uuid == old(self).uuid,
            final(self).player_number == old(self).player_number,
    {
        self.resources = Resources { actions: 1, buys: 1, coins: 0, temp_coins: 0, coins_remaining: 0 };
        self.state = State::default();
    }

    /// Ends a turn: hand and played cards go to the discard, and a new hand is drawn.
    pub fn cleanup(&mut self)
        ensures
            final(self).in_play@.len() == 0,
            (final(self).hand@ + final(self).deck@ + final(self).discard@).to_multiset() == (old(self).hand@ + old(self).deck@ + old(self).discard@ + old(self).in_play@).to_multiset(),
            final(self).hand@.len() == min_nat(HAND_SIZE as nat, old(self).zone_total() + old(self).in_play@.len()),
            final(self).same_but_zones(*old(self)),
    {
        let ghost before = *self;
        let mut hand: Vec<Card> = Vec::new();
        std::mem::swap(&mut hand, &mut self.hand);
        self.discard.append(&mut hand);
        let mut played: Vec<Card> = Vec::new();
        std::mem::swap(&mut played, &mut self.in_play);
        self.discard.append(&mut played);
        proof {
            assert(self.hand@ + self.deck@ + self.discard@ =~= self.deck@ + before.discard@ + before.hand@ + before.in_play@);
            let a = before.hand@;
            let b = before.deck@;
            let c = before.discard@;
            let d = before.in_play@;
            assert((b + c + a + d).to_multiset() =~= (a + b + c + d).to_multiset()) by {
                assert((b + c + a + d).to_multiset() =~= b.to_multiset().add(c.to_multiset()).add(a.to_multiset()).add(d.to_multiset()));
                assert((a + b + c + d).to_multiset() =~= a.to_multiset().add(b.to_multiset()).add(c.to_multiset()).add(d.to_multiset()));
            }
        }
        self.draw_cards(HAND_SIZE);
    }
}

/// `a + b`, or the largest `usize` where the sum does not fit.
pub open spec fn saturating(a: usize, b: usize) -> usize {
    if a + b <= usize::MAX {
        (a + b) as usize
    } else {
        usize::MAX
    }
}

} // verus!
