//! What cards do when played, when they attack and when they react, and how an
//! action's effects, its attack and the reactions to it are put together.
use vstd::prelude::*;
use vstd::seq_lib::group_to_multiset_ensures;
use vstd::seq_lib::lemma_multiset_commutative;

use crate::callbacks::{Callbacks, ChoiceCountOptions};
use crate::card::{AttackTarget, card_reaction_trigger, card_cost, has_type, Card, CardType, ReactionTrigger, card_attack_target};
use crate::error::Error;
use crate::game::{everyone_else, lemma_everyone_else, Game};
use crate::player::{min_nat, owned_cards, saturating, Player, Resources, State};

verus! {

broadcast use group_to_multiset_ensures, lemma_multiset_commutative;

pub open spec fn max_nat(a: nat, b: nat) -> nat {
    if a >= b {
        a
    } else {
        b
    }
}

/// The state is unchanged, or the player became immune and nothing else changed.
pub open spec fn immunity_granted(before: State, after: State) -> bool {
    after == before || after == (State { immune: true, ..before })
}

/// Some card in the player's hand answers `t`.
pub open spec fn holds_reaction(p: Player, t: ReactionTrigger) -> bool {
    exists|i: int| 0 <= i < p.hand@.len() && card_reaction_trigger(#[trigger] p.hand@[i]) == Some(t)
}

/// What playing `card` did for player `p`, from `before` to `after`, as far
/// as it does not depend on the player's answers.
pub open spec fn play_outcome(card: Card, before: Game, after: Game, p: int) -> bool {
    &&& after.no_growth(before)
    &&& plain_bonus(card).is_some() ==> after.only_player_changed(before, p) && got_bonus(before.players@[p], after.players@[p], plain_bonus(card).unwrap())
    &&& no_play_effect(card) ==> after == before
    &&& card == Card::CouncilRoom ==> council_room_outcome(before, after, p)
    &&& card == Card::Bandit ==> gained_outcome(before, after, p, Card::Gold)
    &&& card == Card::Cellar || card == Card::Harbinger ==> rearranged(before, after, p, 1)
    &&& card == Card::Library ==> rearranged(before, after, p, 0)
    &&& card == Card::Chapel ==> chapel_outcome(before, after, p)
    &&& card == Card::ThroneRoom ==> throne_room_outcome(before, after, p)
    &&& card == Card::Artisan ==> artisan_outcome(before, after, p)
    &&& card == Card::Cellar ==> after.players@[p].hand@.len() == before.players@[p].hand@.len()
    &&& card == Card::Library ==> after.players@[p].hand@.len() == max_nat(7, before.players@[p].hand@.len()) || (after.players@[p].deck@.len() == 0 && after.players@[p].hand@.len() < 7)
    &&& card == Card::Workshop ==> after == before || exists|c: Card| card_cost(c) <= 4 && #[trigger] gained_outcome(before, after, p, c)
}

/// What resolving `card` as played by `p` did: its effects, then, for an
/// attack on everyone else, the attack.
pub open spec fn action_outcome(card: Card, before: Game, after: Game, p: int) -> bool {
    &&& after.no_growth(before)
    &&& !has_type(card, CardType::Attack) ==> play_outcome(card, before, after, p)
    &&& card_attack_target(card) == Some(AttackTarget::EveryoneElse) ==> attack_outcome(card, before, after, p)
    &&& card == Card::Witch ==> got_bonus(before.players@[p], after.players@[p], (2usize, 0usize, 0usize, 0usize))
    &&& card == Card::Bandit ==> player_gained(before.players@[p], after.players@[p], Card::Gold)
}

/// The player gained `card` to the discard, or stayed as it was.
pub open spec fn player_gained(before: Player, after: Player, card: Card) -> bool {
    &&& after.discard@ == before.discard@.push(card) || after.discard == before.discard
    &&& after.hand == before.hand
    &&& after.deck == before.deck
    &&& after.in_play == before.in_play
    &&& after.same_but_zones(before)
}

/// The card at position `k` of player `i`'s hand went into play and one action
/// was spent; nothing else changed.
pub open spec fn moved_to_play(before: Game, after: Game, i: int, k: int) -> bool {
    let a = before.players@[i];
    let b = after.players@[i];
    &&& after.only_player_changed(before, i)
    &&& after.wf() == before.wf()
    &&& b.hand@ == a.hand@.remove(k)
    &&& b.in_play@ == a.in_play@.push(a.hand@[k])
    &&& b.resources == (Resources { actions: (a.resources.actions - 1) as usize, ..a.resources })
    &&& b.deck == a.deck
    &&& b.discard == a.discard
    &&& b.state == a.state
    &&& b.phase == a.phase
    &&& b.uuid == a.uuid
    &&& b.player_number == a.player_number
}

/// The two players differ at most in their transient state.
pub open spec fn same_but_state(a: Player, b: Player) -> bool {
    &&& a.uuid == b.uuid
    &&& a.player_number == b.player_number
    &&& a.hand == b.hand
    &&& a.deck == b.deck
    &&& a.discard == b.discard
    &&& a.in_play == b.in_play
    &&& a.resources == b.resources
    &&& a.phase == b.phase
}

/// Cards drawn, actions, buys and coins that a plainer action card gives when played.
pub open spec fn plain_bonus(c: Card) -> Option<(usize, usize, usize, usize)> {
    match c {
        Card::Festival => Some((0usize, 2usize, 1usize, 2usize)),
        Card::Laboratory => Some((2usize, 1usize, 0usize, 0usize)),
        Card::Market => Some((1usize, 1usize, 1usize, 1usize)),
        Card::Merchant => Some((1usize, 1usize, 0usize, 0usize)),
        Card::Moat => Some((2usize, 0usize, 0usize, 0usize)),
        Card::Smithy => Some((3usize, 0usize, 0usize, 0usize)),
        Card::Village => Some((1usize, 2usize, 0usize, 0usize)),
        Card::Witch => Some((2usize, 0usize, 0usize, 0usize)),
        _ => None,
    }
}

/// Cards that do nothing when played.
pub open spec fn no_play_effect(c: Card) -> bool {
    match c {
        Card::Copper | Card::Silver | Card::Gold | Card::Estate | Card::Duchy | Card::Province
        | Card::BasicCurse | Card::Gardens | Card::Bureaucrat | Card::Militia | Card::Mine
        | Card::Moneylender | Card::Poacher | Card::Remodel | Card::Sentry | Card::Vassal => true,
        _ => false,
    }
}

/// `after` is `before` having drawn `b.0` cards (as far as deck and discard
/// allow) and received `b.1` actions, `b.2` buys and `b.3` coins.
pub open spec fn got_bonus(before: Player, after: Player, b: (usize, usize, usize, usize)) -> bool {
    &&& after.hand@.len() == before.hand@.len() + min_nat(b.0 as nat, before.deck@.len() + before.discard@.len())
    &&& owned_cards(after) == owned_cards(before)
    &&& after.in_play == before.in_play
    &&& after.resources == (Resources {
        actions: saturating(before.resources.actions, b.1),
        buys: saturating(before.resources.buys, b.2),
        temp_coins: saturating(before.resources.temp_coins, b.3),
        ..before.resources
    })
    &&& after.state == before.state
    &&& after.phase == before.phase
    &&& after.uuid == before.uuid
    &&& after.player_number == before.player_number
}

/// Player `p` only moved cards among hand, deck and discard, and received
/// `actions` more actions.
pub open spec fn rearranged(before: Game, after: Game, p: int, actions: usize) -> bool {
    let a = before.players@[p];
    let b = after.players@[p];
    &&& after.only_player_changed(before, p)
    &&& owned_cards(b) == owned_cards(a)
    &&& b.in_play == a.in_play
    &&& b.resources == (Resources { actions: saturating(a.resources.actions, actions), ..a.resources })
    &&& b.state == a.state
    &&& b.phase == a.phase
    &&& b.uuid == a.uuid
    &&& b.player_number == a.player_number
}

/// Player `p` trashed at most four cards from hand; nothing else changed.
pub open spec fn chapel_outcome(before: Game, after: Game, p: int) -> bool {
    let a = before.players@[p];
    let b = after.players@[p];
    &&& after.players@.len() == before.players@.len()
    &&& forall|j: int| 0 <= j < after.players@.len() && j != p ==> after.players@[j] == before.players@[j]
    &&& after.supply == before.supply
    &&& after.extras == before.extras
    &&& after.started == before.started
    &&& after.current_turn == before.current_turn
    &&& after.trash@.len() <= before.trash@.len() + 4
    &&& after.trash@.subrange(0, before.trash@.len() as int) == before.trash@
    &&& (b.hand@ + after.trash@).to_multiset() == (a.hand@ + before.trash@).to_multiset()
    &&& b.deck == a.deck
    &&& b.discard == a.discard
    &&& b.in_play == a.in_play
    &&& b.same_but_zones(a)
}

/// Player `t` gained a copy of `card` to the discard, or nothing changed where
/// no copy was left.
pub open spec fn gained_outcome(before: Game, after: Game, t: int, card: Card) -> bool {
    &&& before.supply.pile(card) == 0 ==> after == before
    &&& before.supply.pile(card) > 0 ==> {
        &&& after.took_from_supply(before, t, card)
        &&& after.players@[t].discard@ == before.players@[t].discard@.push(card)
        &&& after.players@[t].hand == before.players@[t].hand
        &&& after.players@[t].deck == before.players@[t].deck
    }
}

/// A change to player `i` alone, and to the supply, that adds no card to anyone.
proof fn lemma_no_growth_one_player(before: Game, after: Game, i: int)
    requires
        after.wf(),
        after.current_turn == before.current_turn,
        0 <= i < before.players@.len(),
        after.players@[i].phase == before.players@[i].phase,
        after.players@.len() == before.players@.len(),
        forall|j: int| 0 <= j < after.players@.len() && j != i ==> after.players@[j] == before.players@[j],
        after.supply.total() <= before.supply.total(),
        after.players@[i].zone_total() + after.supply.total() <= before.players@[i].zone_total()
            + before.supply.total(),
    ensures
        after.no_growth(before),
{
    assert forall|q: int| 0 <= q < after.players@.len() implies #[trigger] after.stock(q) <= before.stock(
        q,
    ) by {
        if q != i {
            assert(after.players@[q] == before.players@[q]);
        }
    }
}

proof fn lemma_no_growth_trans(a: Game, b: Game, c: Game)
    requires
        b.no_growth(a),
        c.no_growth(b),
    ensures
        c.no_growth(a),
{
    assert forall|q: int| 0 <= q < c.players@.len() implies #[trigger] c.stock(q) <= a.stock(q) by {
        assert(c.stock(q) <= b.stock(q));
        assert(b.stock(q) <= a.stock(q));
    }
    assert forall|q: int| 0 <= q < c.players@.len() implies (#[trigger] c.players@[q]).phase == a.players@[q].phase by {
        assert(c.players@[q].phase == b.players@[q].phase);
    }
}

/// Draws, actions, buys and coins: the effects of the plainer action cards.
fn basic_effects(game: &mut Game, player_index: usize, cards: usize, actions: usize, buys: usize, coins: usize)
    requires
        old(game).wf(),
        player_index < old(game).players@.len(),
    ensures
        final(game).no_growth(*old(game)),
        final(game).only_player_changed(*old(game), player_index as int),
        got_bonus(old(game).players@[player_index as int], final(game).players@[player_index as int], (cards, actions, buys, coins)),
{
    let ghost before = *game;
    game.players[player_index].draw_cards(cards);
    game.players[player_index].add_actions(actions);
    game.players[player_index].add_buys(buys);
    game.players[player_index].add_coins(coins);
    proof {
        lemma_no_growth_one_player(before, *game, player_index as int);
    }
}

fn cellar<C: Callbacks>(game: &mut Game, player_index: usize, callbacks: &C)
    requires
        old(game).wf(),
        player_index < old(game).players@.len(),
    ensures
        final(game).no_growth(*old(game)),
        rearranged(*old(game), *final(game), player_index as int, 1),
        final(game).players@[player_index as int].hand@.len() == old(game).players@[player_index as int].hand@.len(),
{
    let ghost before = *game;
    game.players[player_index].add_actions(1);
    let max = game.players[player_index].hand.len();
    let indexes = callbacks.choose_cards_from_hand(&ChoiceCountOptions::UpTo { max }, "Choose cards to discard");
    let old_size = game.players[player_index].hand.len();
    game.players[player_index].discard_given_indexes(indexes);
    let count = old_size - game.players[player_index].hand.len();
    game.players[player_index].draw_cards(count);
    proof {
        lemma_no_growth_one_player(before, *game, player_index as int);
    }
}

fn chapel<C: Callbacks>(game: &mut Game, player_index: usize, callbacks: &C)
    requires
        old(game).wf(),
        player_index < old(game).players@.len(),
    ensures
        final(game).no_growth(*old(game)),
        chapel_outcome(*old(game), *final(game), player_index as int),
{
    let ghost before = *game;
    let mut indexes = callbacks.choose_cards_from_hand(&ChoiceCountOptions::UpTo { max: 4 }, "Choose up to 4 cards to trash");
    indexes.truncate(4);
    let mut trash: Vec<Card> = Vec::new();
    std::mem::swap(&mut trash, &mut game.trash);
    game.players[player_index].trash_given_indexes(indexes, &mut trash);
    std::mem::swap(&mut trash, &mut game.trash);
    proof {
        lemma_no_growth_one_player(before, *game, player_index as int);
        assert(game.trash@.subrange(0, before.trash@.len() as int) =~= before.trash@);
    }
}

fn council_room(game: &mut Game, player_index: usize)
    requires
        old(game).wf(),
        player_index < old(game).players@.len(),
    ensures
        final(game).no_growth(*old(game)),
        council_room_outcome(*old(game), *final(game), player_index as int),
{
    let ghost before = *game;
    game.players[player_index].draw_cards(4);
    game.players[player_index].add_buys(1);
    proof {
        lemma_no_growth_one_player(before, *game, player_index as int);
    }
    let ghost own = game.players@[player_index as int];
    let n = game.players.len();
    let mut k: usize = 1;
    while k < n
        invariant
            n == game.players@.len(),
            n == before.players@.len(),
            player_index < n,
            1 <= k <= n,
            game.no_growth(before),
            game.supply == before.supply,
            game.trash == before.trash,
            game.extras == before.extras,
            game.started == before.started,
            game.players@[player_index as int] == own,
            got_bonus(before.players@[player_index as int], own, (4usize, 0usize, 1usize, 0usize)),
            forall|j: int| 0 <= j < n && j != player_index && seat_after(player_index as int, j, n as int) < k ==> drew_one(before.players@[j], #[trigger] game.players@[j]),
            forall|j: int| 0 <= j < n && j != player_index && seat_after(player_index as int, j, n as int) >= k ==> #[trigger] game.players@[j] == before.players@[j],
        decreases n - k,
    {
        let after = n - player_index;
        let index = if k < after {
            player_index + k
        } else {
            k - after
        };
        proof {
            assert(seat_after(player_index as int, index as int, n as int) == k);
        }
        let ghost mid = *game;
        game.players[index].draw_cards(1);
        proof {
            lemma_no_growth_one_player(mid, *game, index as int);
            lemma_no_growth_trans(before, mid, *game);
        }
        k = k + 1;
    }
}

/// How many seats after `p` player `j` sits, going round a table of `n`.
pub open spec fn seat_after(p: int, j: int, n: int) -> int {
    if j > p {
        j - p
    } else {
        j + n - p
    }
}

/// `after` is `before` having drawn one card, if there was one to draw.
pub open spec fn drew_one(before: Player, after: Player) -> bool {
    &&& after.hand@.len() == before.hand@.len() + min_nat(1, before.deck@.len() + before.discard@.len())
    &&& owned_cards(after) == owned_cards(before)
    &&& after.in_play == before.in_play
    &&& after.same_but_zones(before)
}

/// `after` is `before` once player `p` played Council Room: four cards and a
/// buy for `p`, and one card for every other player.
pub open spec fn council_room_outcome(before: Game, after: Game, p: int) -> bool {
    &&& after.players@.len() == before.players@.len()
    &&& after.supply == before.supply
    &&& after.trash == before.trash
    &&& got_bonus(before.players@[p], after.players@[p], (4usize, 0usize, 1usize, 0usize))
    &&& forall|j: int| 0 <= j < after.players@.len() && j != p ==> drew_one(before.players@[j], #[trigger] after.players@[j])
}

fn harbinger<C: Callbacks>(game: &mut Game, player_index: usize, callbacks: &C)
    requires
        old(game).wf(),
        player_index < old(game).players@.len(),
    ensures
        final(game).no_growth(*old(game)),
        rearranged(*old(game), *final(game), player_index as int, 1),
{
    let ghost before = *game;
    game.players[player_index].add_actions(1);
    game.players[player_index].draw_cards(1);
    let indexes = callbacks.choose_cards_from_discard(&ChoiceCountOptions::Exact { count: 1 }, "Choose a card from your discard to put onto your deck.");
    game.players[player_index].move_given_indexes_discard_to_hand(indexes);
    proof {
        lemma_no_growth_one_player(before, *game, player_index as int);
    }
}

/// Draws until the hand holds seven cards; each action card met on top of the
/// deck may be set aside instead, and set-aside cards are discarded at the end.
fn library<C: Callbacks>(game: &mut Game, player_index: usize, callbacks: &C)
    requires
        old(game).wf(),
        player_index < old(game).players@.len(),
    ensures
        final(game).no_growth(*old(game)),
        rearranged(*old(game), *final(game), player_index as int, 0),
        final(game).players@[player_index as int].hand@.len() == max_nat(7, old(game).players@[player_index as int].hand@.len()) || (final(game).players@[player_index as int].deck@.len() == 0 && final(game).players@[player_index as int].hand@.len() < 7),
{
    let ghost before = *game;
    let mut set_aside: Vec<Card> = Vec::new();
    while game.players[player_index].hand.len() < 7
        invariant
            player_index < game.players@.len(),
            game.wf(),
            game.supply == before.supply,
            game.current_turn == before.current_turn,
            game.players@.len() == before.players@.len(),
            forall|j: int| 0 <= j < game.players@.len() && j != player_index ==> game.players@[j] == before.players@[j],
            game.players@[player_index as int].zone_total() + set_aside@.len() == before.players@[player_index as int].zone_total(),
            game.only_player_changed(before, player_index as int),
            owned_cards(game.players@[player_index as int]).add(set_aside@.to_multiset()) == owned_cards(before.players@[player_index as int]),
            game.players@[player_index as int].in_play == before.players@[player_index as int].in_play,
            game.players@[player_index as int].same_but_zones(before.players@[player_index as int]),
            game.players@[player_index as int].hand@.len() <= max_nat(7, before.players@[player_index as int].hand@.len()),
            before.players@[player_index as int].hand@.len() >= 7 ==> game.players@[player_index as int].hand@.len() == before.players@[player_index as int].hand@.len(),
        ensures
            game.players@[player_index as int].hand@.len() == max_nat(7, before.players@[player_index as int].hand@.len()) || (game.players@[player_index as int].deck@.len() == 0 && game.players@[player_index as int].hand@.len() < 7),
        decreases game.players@[player_index as int].deck@.len() + game.players@[player_index as int].discard@.len(),
    {
        let deck_size = game.players[player_index].deck.len();
        if deck_size == 0 {
            if game.players[player_index].discard.len() == 0 {
                break;
            }
            game.players[player_index].draw_cards(1);
        } else {
            let top = game.players[player_index].deck[0];
            if top.is_action() && callbacks.yes_or_no(player_index, "Set this action card aside?") {
                let ghost p0 = game.players@[player_index as int];
                let ghost a0 = set_aside@;
                let card = game.players[player_index].deck.remove(0);
                set_aside.push(card);
                proof {
                    let p1 = game.players@[player_index as int];
                    assert(p0.deck@[0] == card);
                    assert(p0.deck@.to_multiset().count(card) > 0);
                    assert(owned_cards(p1) =~= p0.hand@.to_multiset().add(p0.deck@.to_multiset().remove(card)).add(p0.discard@.to_multiset()));
                    assert(owned_cards(p0) =~= p0.hand@.to_multiset().add(p0.deck@.to_multiset()).add(p0.discard@.to_multiset()));
                    assert(owned_cards(p1).add(set_aside@.to_multiset()) =~= owned_cards(p0).add(a0.to_multiset()));
                }
            } else {
                game.players[player_index].draw_cards(1);
            }
        }
    }
    let ghost p0 = game.players@[player_index as int];
    let ghost a0 = set_aside@;
    game.players[player_index].discard.append(&mut set_aside);
    proof {
        lemma_no_growth_one_player(before, *game, player_index as int);
        let p1 = game.players@[player_index as int];
        assert(p1.hand@ + p1.deck@ + p1.discard@ =~= p0.hand@ + p0.deck@ + p0.discard@ + a0);
        assert(owned_cards(p1) =~= owned_cards(p0).add(a0.to_multiset()));
    }
}

/// Gains a card of the player's choice from the supply to hand, then puts a
/// card of the hand on top of the deck.
fn artisan<C: Callbacks>(game: &mut Game, player_index: usize, callbacks: &C)
    requires
        old(game).wf(),
        player_index < old(game).players@.len(),
    ensures
        final(game).no_growth(*old(game)),
        artisan_outcome(*old(game), *final(game), player_index as int),
{
    let ghost before = *game;
    if let Some(card) = callbacks.choose_card_from_supply(player_index, &game.supply) {
        let _ = game.gain_to_hand(player_index, card);
    }
    proof {
        lemma_no_growth_one_player(before, *game, player_index as int);
    }
    let ghost mid = *game;
    let chosen = callbacks.choose_cards_from_hand(&ChoiceCountOptions::Exact { count: 1 }, "Choose a card to place on top of your deck");
    if chosen.len() > 0 && chosen[0] < game.players[player_index].hand.len() {
        let k = chosen[0];
        let card = game.remove_from_hand(player_index, k);
        game.players[player_index].deck.insert(0, card);
        proof {
            let a = mid.players@[player_index as int];
            let b = game.players@[player_index as int];
            assert(b.deck@ =~= seq![card] + a.deck@);
            assert(b.deck@.drop_first() =~= a.deck@);
            assert(a.hand@.to_multiset().count(card) > 0) by {
                assert(a.hand@[k as int] == card);
            }
            assert((b.hand@ + b.deck@).to_multiset() =~= a.hand@.to_multiset().remove(card).add(a.deck@.to_multiset().insert(card)));
            assert((a.hand@ + a.deck@).to_multiset() =~= a.hand@.to_multiset().add(a.deck@.to_multiset()));
            assert((b.hand@ + b.deck@).to_multiset() =~= (a.hand@ + a.deck@).to_multiset());
        }
    }
    proof {
        lemma_no_growth_one_player(mid, *game, player_index as int);
        lemma_no_growth_trans(before, mid, *game);
        let a = before.players@[player_index as int];
        let m = mid.players@[player_index as int];
        if mid.supply != before.supply {
            let c = m.hand@.last();
            assert(m.hand@ =~= a.hand@.push(c));
            assert((m.hand@ + m.deck@).to_multiset() =~= a.hand@.to_multiset().insert(c).add(a.deck@.to_multiset()));
            assert((a.hand@ + a.deck@).to_multiset() =~= a.hand@.to_multiset().add(a.deck@.to_multiset()));
            assert((m.hand@ + m.deck@).to_multiset() =~= (a.hand@ + a.deck@).to_multiset().insert(c));
            assert(artisan_gained(before, *game, player_index as int, c));
        }
    }
}

/// Artisan's gain: a copy of `c` left the supply and joined player `p`'s hand
/// and deck.
pub open spec fn artisan_gained(before: Game, after: Game, p: int, c: Card) -> bool {
    let a = before.players@[p];
    let b = after.players@[p];
    &&& before.supply.pile(c) > 0
    &&& after.supply@ == before.supply@.insert(c, (before.supply.pile(c) - 1) as nat)
    &&& (b.hand@ + b.deck@).to_multiset() == (a.hand@ + a.deck@).to_multiset().insert(c)
}

/// Player `p` gained a card to hand, where the pile allowed, then put at most
/// one card of the hand on top of the deck; discard and play are untouched.
pub open spec fn artisan_outcome(before: Game, after: Game, p: int) -> bool {
    let a = before.players@[p];
    let b = after.players@[p];
    &&& after.players@.len() == before.players@.len()
    &&& forall|j: int| 0 <= j < after.players@.len() && j != p ==> after.players@[j] == before.players@[j]
    &&& after.trash == before.trash
    &&& after.extras == before.extras
    &&& b.discard == a.discard
    &&& b.in_play == a.in_play
    &&& b.same_but_zones(a)
    &&& b.deck == a.deck || (b.deck@.len() == a.deck@.len() + 1 && b.deck@.drop_first() == a.deck@)
    &&& (after.supply == before.supply && (b.hand@ + b.deck@).to_multiset() == (a.hand@ + a.deck@).to_multiset()) || exists|c: Card| #[trigger] artisan_gained(before, after, p, c)
}

/// Gains a card costing up to four coins.
fn workshop<C: Callbacks>(game: &mut Game, player_index: usize, callbacks: &C)
    requires
        old(game).wf(),
        player_index < old(game).players@.len(),
    ensures
        final(game).no_growth(*old(game)),
        *final(game) == *old(game) || exists|c: Card| card_cost(c) <= 4 && #[trigger] gained_outcome(*old(game), *final(game), player_index as int, c),
{
    let ghost before = *game;
    if let Some(card) = callbacks.choose_card_from_supply(player_index, &game.supply) {
        if card.cost().coins <= 4 {
            let _ = game.gain(player_index, card);
            proof {
                assert(gained_outcome(before, *game, player_index as int, card));
            }
        }
    }
    proof {
        lemma_no_growth_one_player(before, *game, player_index as int);
    }
}

/// Gains a Gold for the player who plays Bandit.
fn bandit(game: &mut Game, player_index: usize)
    requires
        old(game).wf(),
        player_index < old(game).players@.len(),
    ensures
        final(game).no_growth(*old(game)),
        gained_outcome(*old(game), *final(game), player_index as int, Card::Gold),
{
    let ghost before = *game;
    let _ = game.gain(player_index, Card::Gold);
    proof {
        lemma_no_growth_one_player(before, *game, player_index as int);
    }
}

/// Bandit's attack: the target reveals the top two cards of the deck, trashes a
/// revealed treasure other than Copper (of two, the one they choose), and
/// discards the rest.
fn bandit_attack<C: Callbacks>(game: &mut Game, target: usize, callbacks: &C)
    requires
        old(game).wf(),
        target < old(game).players@.len(),
    ensures
        final(game).no_growth(*old(game)),
        forall|j: int| 0 <= j < final(game).players@.len() && j != target ==> final(game).players@[j] == old(game).players@[j],
        bandit_outcome(*old(game), *final(game), target as int),
{
    let ghost before = *game;
    let mut cards = game.reveal_cards(target, 2);
    let mut choices: Vec<usize> = Vec::new();
    let mut i: usize = 0;
    let ghost revealed = cards@;
    while i < cards.len()
        invariant
            i <= cards@.len(),
            cards@ == revealed,
            forall|k: int| 0 <= k < choices@.len() ==> choices@[k] < i && bandit_prey(cards@[choices@[k] as int]),
            forall|j: int| 0 <= j < i && bandit_prey(cards@[j]) ==> choices@.contains(j as usize),
        decreases cards@.len() - i,
    {
        let ghost before_push = choices@;
        if cards[i].is_treasure() && cards[i] != Card::Copper {
            choices.push(i);
        }
        proof {
            assert forall|j: int| 0 <= j < i + 1 && bandit_prey(cards@[j]) implies choices@.contains(j as usize) by {
                if j < i {
                    let m = choose|m: int| 0 <= m < before_push.len() && before_push[m] == j as usize;
                    assert(choices@[m] == j as usize);
                } else {
                    assert(choices@[choices@.len() - 1] == i);
                }
            }
        }
        i = i + 1;
    }
    let ghost mut taken: int = -1;
    if choices.len() > 0 {
        let index = if choices.len() == 1 {
            choices[0]
        } else {
            let answer = callbacks.choose_cards_from_selection(1, &cards, "Choose a card to trash.");
            if answer.len() > 0 && answer[0] < cards.len() && (answer[0] == choices[0] || answer[0] == choices[1]) {
                answer[0]
            } else {
                choices[0]
            }
        };
        proof {
            assert(bandit_prey(revealed[index as int]));
            taken = index as int;
        }
        let card = cards.remove(index);
        game.trash.push(card);
    }
    proof {
        if choices@.len() == 0 {
            assert forall|j: int| 0 <= j < revealed.len() implies !bandit_prey(#[trigger] revealed[j]) by {
                if bandit_prey(revealed[j]) {
                    assert(choices@.contains(j as usize));
                }
            }
        }
    }
    game.players[target].discard.append(&mut cards);
    proof {
        lemma_no_growth_one_player(before, *game, target as int);
        if choices@.len() > 0 {
            assert(bandit_took(before.players@[target as int], game.players@[target as int], before.trash@, game.trash@, taken));
        }
    }
}

/// Bandit took the revealed card at position `j` to the trash, and the other
/// revealed cards went to the discard.
pub open spec fn bandit_took(p: Player, q: Player, trash_before: Seq<Card>, trash_after: Seq<Card>, j: int) -> bool {
    let revealed = p.deck@.subrange(0, min_nat(2, p.deck@.len()) as int);
    &&& 0 <= j < revealed.len()
    &&& bandit_prey(revealed[j])
    &&& trash_after == trash_before.push(revealed[j])
    &&& q.discard@ == p.discard@ + revealed.remove(j)
}

/// What the attack of `card` did to a target that was not passed over, from
/// `before` to `after`; `game` is the whole game afterwards.
pub open spec fn attack_hit(card: Card, before: Player, after: Player, game: Game) -> bool {
    &&& after.hand == before.hand
    &&& after.in_play == before.in_play
    &&& after.resources == before.resources
    &&& after.phase == before.phase
    &&& after.uuid == before.uuid
    &&& after.player_number == before.player_number
    &&& card == Card::Witch ==> after.deck == before.deck && (after.discard@ == before.discard@.push(Card::BasicCurse) || (after.discard == before.discard && game.supply.pile(Card::BasicCurse) == 0))
    &&& card == Card::Bandit ==> bandit_hit(before, after)
    &&& card_attack_target(card).is_none() ==> after.deck == before.deck && after.discard == before.discard
}

/// What Bandit's attack did to one player: the top two cards of the deck (or
/// as many as there are) were revealed; at most one of them, a treasure other
/// than Copper, is gone, where there was one; the rest are in the discard.
pub open spec fn bandit_hit(before: Player, after: Player) -> bool {
    let k = min_nat(2, before.deck@.len());
    let revealed = before.deck@.subrange(0, k as int);
    &&& after.deck@ == before.deck@.subrange(k as int, before.deck@.len() as int)
    &&& (exists|j: int| 0 <= j < revealed.len() && bandit_prey(revealed[j])) ==> exists|j: int| 0 <= j < revealed.len() && bandit_prey(revealed[j]) && after.discard@ == before.discard@ + revealed.remove(j)
    &&& !(exists|j: int| 0 <= j < revealed.len() && bandit_prey(revealed[j])) ==> after.discard@ == before.discard@ + revealed
}

/// What an attack of shape `EveryoneElse` by player `p` did, from `before` the
/// card was played to `after`: every other player ends without immunity; one
/// immune beforehand was passed over; one neither immune nor holding a reaction
/// to attacks was hit.
pub open spec fn attack_outcome(card: Card, before: Game, after: Game, p: int) -> bool {
    forall|k: int| 0 <= k < before.players@.len() - 1 ==> {
        let t = #[trigger] everyone_else(p as nat, before.players@.len())[k] as int;
        &&& !after.players@[t].state.immune
        &&& before.players@[t].state.immune ==> immune_spared(after.players@[t], before.players@[t])
        &&& !before.players@[t].state.immune && !holds_reaction(before.players@[t], ReactionTrigger::OtherPlayerPlaysAttack) ==> attack_hit(card, before.players@[t], after.players@[t], after)
    }
}

/// What Bandit may take: a treasure other than Copper.
pub open spec fn bandit_prey(c: Card) -> bool {
    has_type(c, CardType::Treasure) && c != Card::Copper
}

/// `after` is `before` once Bandit attacked player `t`: the top two cards of the
/// deck (or as many as there are) were revealed; if one of them is a treasure
/// other than Copper, exactly one such card went to the trash; the others went
/// to the discard.
pub open spec fn bandit_outcome(before: Game, after: Game, t: int) -> bool {
    let p = before.players@[t];
    let q = after.players@[t];
    let k = min_nat(2, p.deck@.len());
    let revealed = p.deck@.subrange(0, k as int);
    &&& q.deck@ == p.deck@.subrange(k as int, p.deck@.len() as int)
    &&& q.hand == p.hand
    &&& q.in_play == p.in_play
    &&& q.same_but_zones(p)
    &&& after.supply == before.supply
    &&& (exists|j: int| 0 <= j < revealed.len() && bandit_prey(revealed[j])) ==> exists|j: int| bandit_took(p, q, before.trash@, after.trash@, j)
    &&& !(exists|j: int| 0 <= j < revealed.len() && bandit_prey(revealed[j])) ==> after.trash == before.trash && q.discard@ == p.discard@ + revealed
}

/// Witch's attack: the target gains a Curse, if any is left.
fn witch_attack(game: &mut Game, target: usize)
    requires
        old(game).wf(),
        target < old(game).players@.len(),
    ensures
        final(game).no_growth(*old(game)),
        forall|j: int| 0 <= j < final(game).players@.len() && j != target ==> final(game).players@[j] == old(game).players@[j],
        gained_outcome(*old(game), *final(game), target as int, Card::BasicCurse),
{
    let ghost before = *game;
    let _ = game.gain(target, Card::BasicCurse);
    proof {
        lemma_no_growth_one_player(before, *game, target as int);
    }
}

/// Throne Room: the player picks an action card from hand, whose effects then
/// resolve twice before it goes into play. Any other answer does nothing.
fn throne_room<C: Callbacks>(game: &mut Game, player_index: usize, callbacks: &C)
    requires
        old(game).wf(),
        player_index < old(game).players@.len(),
    ensures
        final(game).no_growth(*old(game)),
        throne_room_outcome(*old(game), *final(game), player_index as int),
    decreases old(game).stock(player_index as int), 0int,
{
    let ghost before = *game;
    let chosen = callbacks.choose_cards_from_hand(&ChoiceCountOptions::UpTo { max: 1 }, "Choose card to play twice");
    if chosen.len() == 0 || chosen[0] >= game.players[player_index].hand.len() {
        return;
    }
    if !game.players[player_index].hand[chosen[0]].is_action() {
        return;
    }
    let ghost k = chosen[0] as int;
    let card = game.remove_from_hand(player_index, chosen[0]);
    proof {
        lemma_no_growth_one_player(before, *game, player_index as int);
        assert(game.stock(player_index as int) < before.stock(player_index as int));
    }
    let ghost removed = *game;
    game.action_effects(player_index, card, callbacks);
    let ghost once = *game;
    proof {
        assert(game.stock(player_index as int) <= removed.stock(player_index as int));
    }
    game.action_effects(player_index, card, callbacks);
    let ghost twice = *game;
    game.players[player_index].in_play.push(card);
    proof {
        lemma_no_growth_one_player(twice, *game, player_index as int);
        assert(game.stock(player_index as int) == twice.stock(player_index as int));
        lemma_no_growth_trans(before, removed, once);
        lemma_no_growth_trans(before, once, twice);
        lemma_no_growth_trans(before, twice, *game);
        assert(game.players@[player_index as int].in_play@.last() == before.players@[player_index as int].hand@[k]);
    }
}

/// Throne Room did nothing, or an action card of the hand was taken out, its
/// effects ran, and it went into play last.
pub open spec fn throne_room_outcome(before: Game, after: Game, p: int) -> bool {
    after == before || exists|k: int| 0 <= k < before.players@[p].hand@.len() && has_type(#[trigger] before.players@[p].hand@[k], CardType::Action) && after.players@[p].in_play@.len() > 0 && after.players@[p].in_play@.last() == before.players@[p].hand@[k] && after.stock(p) < before.stock(p)
}

impl Card {
    /// What this card does when a player gains it, by a buy or otherwise. No
    /// card of the catalog has such an effect yet; gains call this hook.
    pub fn effects_on_gain(&self, game: &mut Game, player_index: usize)
        ensures
            *final(game) == *old(game),
    {
    }

    /// What this card does when a player buys it, before it is gained. No card
    /// of the catalog has such an effect yet; buys call this hook.
    pub fn effects_on_buy(&self, game: &mut Game, player_index: usize)
        ensures
            *final(game) == *old(game),
    {
    }

    /// What this card does when played, to its player and possibly to others.
    pub fn effects_on_play<C: Callbacks>(&self, game: &mut Game, player_index: usize, callbacks: &C)
        requires
            old(game).wf(),
            player_index < old(game).players@.len(),
        ensures
            play_outcome(*self, *old(game), *final(game), player_index as int),
        decreases old(game).stock(player_index as int), 1int,
    {
        match self {
            Card::Artisan => artisan(game, player_index, callbacks),
            Card::Bandit => bandit(game, player_index),
            Card::Cellar => cellar(game, player_index, callbacks),
            Card::Chapel => chapel(game, player_index, callbacks),
            Card::CouncilRoom => council_room(game, player_index),
            Card::Festival => basic_effects(game, player_index, 0, 2, 1, 2),
            Card::Harbinger => harbinger(game, player_index, callbacks),
            Card::Laboratory => basic_effects(game, player_index, 2, 1, 0, 0),
            Card::Library => library(game, player_index, callbacks),
            Card::Market => basic_effects(game, player_index, 1, 1, 1, 1),
            Card::Merchant => basic_effects(game, player_index, 1, 1, 0, 0),
            Card::Moat => basic_effects(game, player_index, 2, 0, 0, 0),
            Card::Smithy => basic_effects(game, player_index, 3, 0, 0, 0),
            Card::ThroneRoom => throne_room(game, player_index, callbacks),
            Card::Village => basic_effects(game, player_index, 1, 2, 0, 0),
            Card::Witch => basic_effects(game, player_index, 2, 0, 0, 0),
            Card::Workshop => workshop(game, player_index, callbacks),
            _ => {},
        }
    }

    /// What this card's attack does to `target`; nothing for a card that does not attack.
    pub fn attack_effects<C: Callbacks>(&self, game: &mut Game, target: usize, callbacks: &C)
        requires
            old(game).wf(),
            target < old(game).players@.len(),
        ensures
            final(game).no_growth(*old(game)),
            forall|j: int| 0 <= j < final(game).players@.len() && j != target ==> final(game).players@[j] == old(game).players@[j],
            *self == Card::Bandit ==> bandit_outcome(*old(game), *final(game), target as int),
            *self == Card::Witch ==> gained_outcome(*old(game), *final(game), target as int, Card::BasicCurse),
            card_attack_target(*self).is_none() ==> *final(game) == *old(game),
            attack_hit(*self, old(game).players@[target as int], final(game).players@[target as int], *final(game)),
            final(game).players@[target as int].state == old(game).players@[target as int].state,
            final(game).supply.pile(Card::BasicCurse) <= old(game).supply.pile(Card::BasicCurse),
    {
        match self {
            Card::Bandit => bandit_attack(game, target, callbacks),
            Card::Witch => witch_attack(game, target),
            _ => {},
        }
    }

    /// What this card does for `player_index` when its trigger fires, given the
    /// player's answer to whether to use it: Moat, used, makes the player immune
    /// to the next attack. Other cards do nothing.
    pub fn react(&self, game: &mut Game, player_index: usize, answer: bool)
        requires
            player_index < old(game).players@.len(),
        ensures
            *self == Card::Moat && answer ==> final(game).players@ == old(game).players@.update(player_index as int, Player { state: State { immune: true, ..old(game).players@[player_index as int].state }, ..old(game).players@[player_index as int] }) && final(game).supply == old(game).supply && final(game).trash == old(game).trash && final(game).extras == old(game).extras && final(game).started == old(game).started && final(game).current_turn == old(game).current_turn,
            !(*self == Card::Moat && answer) ==> *final(game) == *old(game),
    {
        match self {
            Card::Moat => {
                if answer {
                    game.players[player_index].state.immune = true;
                    proof {
                        assert(game.players@ =~= old(game).players@.update(player_index as int, Player { state: State { immune: true, ..old(game).players@[player_index as int].state }, ..old(game).players@[player_index as int] }));
                    }
                }
            },
            _ => {},
        }
    }

    /// Asks the player whether to use this reaction card, and reacts.
    pub fn reaction_effects<C: Callbacks>(&self, game: &mut Game, player_index: usize, callbacks: &C)
        requires
            player_index < old(game).players@.len(),
        ensures
            final(game).players@.len() == old(game).players@.len(),
            forall|j: int| 0 <= j < final(game).players@.len() && j != player_index ==> final(game).players@[j] == old(game).players@[j],
            same_but_state(final(game).players@[player_index as int], old(game).players@[player_index as int]),
            immunity_granted(old(game).players@[player_index as int].state, final(game).players@[player_index as int].state),
            card_reaction_trigger(*self).is_none() ==> *final(game) == *old(game),
            final(game).supply == old(game).supply,
            final(game).trash == old(game).trash,
            final(game).extras == old(game).extras,
            final(game).started == old(game).started,
            final(game).current_turn == old(game).current_turn,
    {
        match self {
            Card::Moat => {
                let answer = callbacks.yes_or_no(player_index, "Use moat?");
                self.react(game, player_index, answer);
            },
            _ => {},
        }
    }
}

impl Game {
    /// Resolves `card` as if `player_index` had played it: its effects, then, for
    /// an attack, its targets, the reactions of the other players, and the attack
    /// on each target in turn. Spends no action; cards such as Throne Room call it.
    pub fn action_effects<C: Callbacks>(&mut self, player_index: usize, card: Card, callbacks: &C)
        requires
            old(self).wf(),
            player_index < old(self).players@.len(),
        ensures
            action_outcome(card, *old(self), *final(self), player_index as int),
            !has_type(card, CardType::Attack) && plain_bonus(card).is_some() ==> final(self).only_player_changed(*old(self), player_index as int) && got_bonus(old(self).players@[player_index as int], final(self).players@[player_index as int], plain_bonus(card).unwrap()),
            no_play_effect(card) ==> *final(self) == *old(self),
        decreases old(self).stock(player_index as int), 2int,
    {
        let ghost before = *self;
        let ghost n_players = self.players.len();
        card.effects_on_play(self, player_index, callbacks);
        if card.is_attack() {
            if let Some(shape) = card.attack_target() {
                let ghost played = *self;
                let targets = self.get_targets(player_index, shape, callbacks);
                self.check_reactions(player_index, ReactionTrigger::OtherPlayerPlaysAttack, callbacks);
                let ghost reacted = *self;
                proof {
                    assert(reacted.no_growth(played)) by {
                        assert forall|q: int| 0 <= q < reacted.players@.len() implies #[trigger] reacted.stock(q) <= played.stock(q) by {
                            assert(same_but_state(reacted.players@[q], played.players@[q]));
                        }
                    }
                }
                self.apply_attack(card, &targets, callbacks);
                proof {
                    lemma_no_growth_trans(before, played, reacted);
                    lemma_no_growth_trans(before, reacted, *self);
                    if shape == AttackTarget::EveryoneElse {
                        let n = before.players@.len();
                        assert(n == n_players);
                        lemma_everyone_else(player_index as nat, n);
                        assert forall|k: int| 0 <= k < n - 1 implies {
                            let t = #[trigger] everyone_else(player_index as nat, n)[k] as int;
                            &&& !self.players@[t].state.immune
                            &&& before.players@[t].state.immune ==> immune_spared(self.players@[t], before.players@[t])
                            &&& !before.players@[t].state.immune && !holds_reaction(before.players@[t], ReactionTrigger::OtherPlayerPlaysAttack) ==> attack_hit(card, before.players@[t], self.players@[t], *self)
                        } by {
                            let t = everyone_else(player_index as nat, n)[k] as int;
                            assert(targets@[k] as int == t);
                            assert(t != player_index) by {
                                if t == player_index {
                                    assert(everyone_else(player_index as nat, n).contains(player_index));
                                }
                            }
                            assert(played.players@[t] == before.players@[t]);
                            assert(same_but_state(reacted.players@[t], played.players@[t]));
                            assert(immunity_granted(played.players@[t].state, reacted.players@[t].state));
                        }
                    }
                }
            }
        }
    }

    /// Plays the action card at `card_index` of the player's hand: it goes into
    /// play, one action is spent, and its effects resolve. A card that is not an
    /// action is refused and nothing changes.
    pub fn play_action_from_hand<C: Callbacks>(&mut self, player_index: usize, card_index: usize, callbacks: &C) -> (r: Result<(), Error>)
        requires
            old(self).wf(),
            player_index < old(self).players@.len(),
            card_index < old(self).players@[player_index as int].hand@.len(),
            old(self).players@[player_index as int].resources.actions > 0,
        ensures
            final(self).no_growth(*old(self)),
            !has_type(old(self).players@[player_index as int].hand@[card_index as int], CardType::Action) ==> r == Err::<(), Error>(Error::CardTypeMisMatch { expected: CardType::Action }) && *final(self) == *old(self),
            has_type(old(self).players@[player_index as int].hand@[card_index as int], CardType::Action) ==> r == Ok::<(), Error>(()) && final(self).stock(player_index as int) < old(self).stock(player_index as int),
            has_type(old(self).players@[player_index as int].hand@[card_index as int], CardType::Action) ==> played_plain(*old(self), *final(self), player_index as int, card_index as int),
            has_type(old(self).players@[player_index as int].hand@[card_index as int], CardType::Action) ==> exists|mid: Game| moved_to_play(*old(self), mid, player_index as int, card_index as int) && #[trigger] action_outcome(old(self).players@[player_index as int].hand@[card_index as int], mid, *final(self), player_index as int),
    {
        if !self.players[player_index].hand[card_index].is_action() {
            return Err(Error::CardTypeMisMatch { expected: CardType::Action });
        }
        let ghost before = *self;
        let card = self.remove_from_hand(player_index, card_index);
        self.players[player_index].in_play.push(card);
        self.players[player_index].resources.actions = self.players[player_index].resources.actions - 1;
        proof {
            lemma_no_growth_one_player(before, *self, player_index as int);
        }
        let ghost played = *self;
        self.action_effects(player_index, card, callbacks);
        proof {
            lemma_no_growth_trans(before, played, *self);
        }
        Ok(())
    }

    /// Lets every player but `player_index` answer `reaction_trigger` with the
    /// reaction cards in their hand. Only transient state changes.
    pub fn check_reactions<C: Callbacks>(&mut self, player_index: usize, reaction_trigger: ReactionTrigger, callbacks: &C)
        requires
            player_index < old(self).players@.len(),
        ensures
            final(self).players@.len() == old(self).players@.len(),
            forall|j: int| 0 <= j < final(self).players@.len() ==> same_but_state(#[trigger] final(self).players@[j], old(self).players@[j]),
            forall|j: int| 0 <= j < final(self).players@.len() ==> immunity_granted(old(self).players@[j].state, (#[trigger] final(self).players@[j]).state),
            forall|j: int| 0 <= j < final(self).players@.len() && (j == player_index || !holds_reaction(old(self).players@[j], reaction_trigger)) ==> #[trigger] final(self).players@[j] == old(self).players@[j],
            final(self).players@[player_index as int] == old(self).players@[player_index as int],
            final(self).supply == old(self).supply,
            final(self).trash == old(self).trash,
            final(self).extras == old(self).extras,
            final(self).started == old(self).started,
            final(self).current_turn == old(self).current_turn,
    {
        let n = self.players.len();
        let mut q: usize = 0;
        while q < n
            invariant
                n == self.players@.len(),
                n == old(self).players@.len(),
                player_index < n,
                forall|j: int| 0 <= j < n ==> same_but_state(#[trigger] self.players@[j], old(self).players@[j]),
                forall|j: int| 0 <= j < n ==> immunity_granted(old(self).players@[j].state, (#[trigger] self.players@[j]).state),
                forall|j: int| 0 <= j < n && (j == player_index || !holds_reaction(old(self).players@[j], reaction_trigger)) ==> #[trigger] self.players@[j] == old(self).players@[j],
                self.players@[player_index as int] == old(self).players@[player_index as int],
                self.supply == old(self).supply,
                self.trash == old(self).trash,
                self.extras == old(self).extras,
                self.started == old(self).started,
                self.current_turn == old(self).current_turn,
            decreases n - q,
        {
            if q != player_index {
                let mut i: usize = 0;
                while i < self.players[q].hand.len()
                    invariant
                        n == self.players@.len(),
                        n == old(self).players@.len(),
                        player_index < n,
                        q < n,
                        q != player_index,
                        forall|j: int| 0 <= j < n ==> same_but_state(#[trigger] self.players@[j], old(self).players@[j]),
                        forall|j: int| 0 <= j < n ==> immunity_granted(old(self).players@[j].state, (#[trigger] self.players@[j]).state),
                        forall|j: int| 0 <= j < n && (j == player_index || !holds_reaction(old(self).players@[j], reaction_trigger)) ==> #[trigger] self.players@[j] == old(self).players@[j],
                        self.players@[player_index as int] == old(self).players@[player_index as int],
                        self.supply == old(self).supply,
                        self.trash == old(self).trash,
                        self.extras == old(self).extras,
                        self.started == old(self).started,
                        self.current_turn == old(self).current_turn,
                    decreases self.players@[q as int].hand@.len() - i,
                {
                    let card = self.players[q].hand[i];
                    let fires = match card.reaction_trigger() {
                        Some(t) => t == reaction_trigger,
                        None => false,
                    };
                    if fires {
                        let ghost mid = *self;
                        card.reaction_effects(self, q, callbacks);
                        proof {
                            assert(holds_reaction(old(self).players@[q as int], reaction_trigger)) by {
                                assert(old(self).players@[q as int].hand@[i as int] == card);
                            }
                            assert forall|j: int| 0 <= j < n implies same_but_state(#[trigger] self.players@[j], old(self).players@[j]) by {
                                if j != q {
                                    assert(self.players@[j] == mid.players@[j]);
                                } else {
                                    assert(same_but_state(self.players@[j], mid.players@[j]));
                                }
                            }
                            assert forall|j: int| 0 <= j < n implies immunity_granted(old(self).players@[j].state, (#[trigger] self.players@[j]).state) by {
                                if j != q {
                                    assert(self.players@[j] == mid.players@[j]);
                                }
                            }
                            assert forall|j: int| 0 <= j < n && (j == player_index || !holds_reaction(old(self).players@[j], reaction_trigger)) implies #[trigger] self.players@[j] == old(self).players@[j] by {
                                assert(j != q);
                                assert(self.players@[j] == mid.players@[j]);
                            }
                        }
                    }
                    i = i + 1;
                }
            }
            q = q + 1;
        }
    }

    /// Applies the attack of `card` to each of `targets` in order. A target whose
    /// immunity is set is passed over; either way its immunity is cleared right
    /// after, so it covers one attack only.
    pub fn apply_attack<C: Callbacks>(&mut self, card: Card, targets: &Vec<usize>, callbacks: &C)
        requires
            old(self).wf(),
            targets@.no_duplicates(),
            forall|k: int| 0 <= k < targets@.len() ==> targets@[k] < old(self).players@.len(),
        ensures
            final(self).no_growth(*old(self)),
            forall|k: int| 0 <= k < targets@.len() ==> !(#[trigger] final(self).players@[targets@[k] as int]).state.immune,
            forall|k: int| 0 <= k < targets@.len() && old(self).players@[targets@[k] as int].state.immune ==> immune_spared(#[trigger] final(self).players@[targets@[k] as int], old(self).players@[targets@[k] as int]),
            forall|j: usize| j < final(self).players@.len() && !targets@.contains(j) ==> final(self).players@[j as int] == old(self).players@[j as int],
            forall|k: int| 0 <= k < targets@.len() && !old(self).players@[targets@[k] as int].state.immune ==> attack_hit(card, old(self).players@[targets@[k] as int], #[trigger] final(self).players@[targets@[k] as int], *final(self)),
    {
        let ghost before = *self;
        let mut k: usize = 0;
        while k < targets.len()
            invariant
                before == *old(self),
                k <= targets@.len(),
                targets@.no_duplicates(),
                forall|m: int| 0 <= m < targets@.len() ==> targets@[m] < before.players@.len(),
                self.no_growth(before),
                forall|m: int| 0 <= m < k ==> !(#[trigger] self.players@[targets@[m] as int]).state.immune,
                forall|m: int| 0 <= m < k && before.players@[targets@[m] as int].state.immune ==> immune_spared(#[trigger] self.players@[targets@[m] as int], before.players@[targets@[m] as int]),
                forall|j: usize| j < self.players@.len() && !targets@.subrange(0, k as int).contains(j) ==> self.players@[j as int] == before.players@[j as int],
                forall|m: int| 0 <= m < k && !before.players@[targets@[m] as int].state.immune ==> attack_hit(card, before.players@[targets@[m] as int], #[trigger] self.players@[targets@[m] as int], *self),
            decreases targets@.len() - k,
        {
            let t = targets[k];
            proof {
                assert(!targets@.subrange(0, k as int).contains(t)) by {
                    if targets@.subrange(0, k as int).contains(t) {
                        let m = choose|m: int| 0 <= m < k && targets@.subrange(0, k as int)[m] == t;
                        assert(targets@[m] == targets@[k as int]);
                    }
                }
            }
            let ghost mid = *self;
            if !self.players[t].state.immune {
                card.attack_effects(self, t, callbacks);
            }
            let ghost attacked = *self;
            self.players[t].state.immune = false;
            proof {
                lemma_no_growth_one_player(attacked, *self, t as int);
                lemma_no_growth_trans(mid, attacked, *self);
                lemma_no_growth_trans(before, mid, *self);
                assert forall|j: usize| j < self.players@.len() && !targets@.subrange(0, k + 1).contains(j) implies self.players@[j as int] == before.players@[j as int] by {
                    assert(j != t) by {
                        assert(targets@.subrange(0, k + 1)[k as int] == t);
                    }
                    if targets@.subrange(0, k as int).contains(j) {
                        let m = choose|m: int| 0 <= m < k && targets@.subrange(0, k as int)[m] == j;
                        assert(targets@.subrange(0, k + 1)[m] == j);
                    }
                }
                assert forall|m: int| 0 <= m < k + 1 implies !(#[trigger] self.players@[targets@[m] as int]).state.immune by {
                    if m < k {
                        assert(targets@[m] != t);
                    }
                }
                assert forall|m: int| 0 <= m < k + 1 && before.players@[targets@[m] as int].state.immune implies immune_spared(#[trigger] self.players@[targets@[m] as int], before.players@[targets@[m] as int]) by {
                    if m < k {
                        assert(targets@[m] != t);
                    }
                }
                assert(mid.players@[t as int] == before.players@[t as int]);
                assert forall|m: int| 0 <= m < k + 1 && !before.players@[targets@[m] as int].state.immune implies attack_hit(card, before.players@[targets@[m] as int], #[trigger] self.players@[targets@[m] as int], *self) by {
                    if m < k {
                        assert(targets@[m] != t);
                        assert(self.players@[targets@[m] as int] == mid.players@[targets@[m] as int]);
                        assert(self.supply.pile(Card::BasicCurse) <= mid.supply.pile(Card::BasicCurse));
                    } else {
                        assert(targets@[m] == t);
                        assert(self.supply == attacked.supply);
                    }
                }
            }
            k = k + 1;
        }
        proof {
            assert(targets@.subrange(0, targets@.len() as int) =~= targets@);
        }
    }
}

/// An attack passed `after` by: nothing of it changed but its immunity.
pub open spec fn immune_spared(after: Player, before: Player) -> bool {
    &&& after.hand == before.hand
    &&& after.deck == before.deck
    &&& after.discard == before.discard
    &&& after.in_play == before.in_play
    &&& after.resources == before.resources
    &&& after.phase == before.phase
}

/// Where the card at position `k` of the hand of player `i` is a plainer action
/// that does not attack, `after` is `before` once that card was played: it is
/// in play, one action is spent, and its bonus is received.
pub open spec fn played_plain(before: Game, after: Game, i: int, k: int) -> bool {
    let p = before.players@[i];
    let card = p.hand@[k];
    !has_type(card, CardType::Attack) && plain_bonus(card).is_some() ==> {
        &&& after.only_player_changed(before, i)
        &&& after.players@[i].in_play@ == p.in_play@.push(card)
        &&& after.players@[i].hand@.len() + 1 == p.hand@.len() + min_nat(plain_bonus(card).unwrap().0 as nat, p.deck@.len() + p.discard@.len())
        &&& after.players@[i].resources == (Resources {
            actions: saturating((p.resources.actions - 1) as usize, plain_bonus(card).unwrap().1),
            buys: saturating(p.resources.buys, plain_bonus(card).unwrap().2),
            temp_coins: saturating(p.resources.temp_coins, plain_bonus(card).unwrap().3),
            ..p.resources
        })
    }
}

} // verus!
