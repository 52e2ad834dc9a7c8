use std::cell::{Cell, RefCell};

use victoire::callbacks::{Callbacks, ChoiceCountOptions, TestClient};
use victoire::card::{AttackTarget, Card, CardType, ReactionTrigger};
use victoire::error::Error;
use victoire::game::Game;
use victoire::player::{Phase, Player};
use victoire::supply::Supply;
use victoire::turn::Prompt;
use victoire::utils::shuffle;

/// A client that answers from scripts and counts how often it was asked.
#[derive(Default)]
struct Scripted {
    hand: RefCell<Vec<Vec<usize>>>,
    supply: RefCell<Vec<Option<Card>>>,
    players: RefCell<Vec<Vec<usize>>>,
    answer: Cell<bool>,
    asked: Cell<usize>,
}

impl Scripted {
    fn ask(&self) {
        self.asked.set(self.asked.get() + 1);
    }
}

impl Callbacks for Scripted {
    fn choose_card_from_supply(&self, _player_index: usize, _supply: &Supply) -> Option<Card> {
        self.ask();
        let mut s = self.supply.borrow_mut();
        if s.is_empty() {
            None
        } else {
            s.remove(0)
        }
    }

    fn choose_cards_from_hand(&self, _count: &ChoiceCountOptions, _message: &str) -> Vec<usize> {
        self.ask();
        let mut s = self.hand.borrow_mut();
        if s.is_empty() {
            Vec::new()
        } else {
            s.remove(0)
        }
    }

    fn choose_cards_from_discard(&self, _count: &ChoiceCountOptions, _message: &str) -> Vec<usize> {
        self.ask();
        Vec::new()
    }

    fn choose_cards_from_trash(&self, _count: &ChoiceCountOptions, _message: &str) -> Vec<usize> {
        self.ask();
        Vec::new()
    }

    fn choose_cards_from_selection(&self, _count: usize, _cards: &Vec<Card>, _message: &str) -> Vec<usize> {
        self.ask();
        vec![1]
    }

    fn yes_or_no(&self, _player_index: usize, _prompt: &str) -> bool {
        self.ask();
        self.answer.get()
    }

    fn choose_players(&self, _player_index: usize, _count: &ChoiceCountOptions, _prompt: &str) -> Vec<usize> {
        self.ask();
        let mut s = self.players.borrow_mut();
        if s.is_empty() {
            Vec::new()
        } else {
            s.remove(0)
        }
    }
}

fn player_with(hand: Vec<Card>, deck: Vec<Card>, discard: Vec<Card>) -> Player {
    let mut p = Player::new(0, Vec::new());
    p.hand = hand;
    p.deck = deck;
    p.discard = discard;
    p
}

fn game_with_players(n: usize) -> Game {
    let mut game = Game::new();
    for i in 0..n {
        game.add_player(Player::new_with_default_deck(i));
    }
    game.create_supply(Game::default_supply_list()).unwrap();
    game
}

fn sorted(mut v: Vec<Card>) -> Vec<String> {
    let mut names: Vec<String> = v.drain(..).map(|c| c.name().to_string()).collect();
    names.sort();
    names
}

#[test]
fn gain_takes_one_copy_to_discard() {
    let mut game = game_with_players(2);
    let before = game.supply.count(Card::Smithy);
    assert_eq!(before, 10);
    assert_eq!(game.gain(1, Card::Smithy), Ok(()));
    assert_eq!(game.supply.count(Card::Smithy), 9);
    assert_eq!(game.players[1].discard, vec![Card::Smithy]);
    assert_eq!(game.players[0].discard.len(), 0);
}

#[test]
fn gain_from_empty_pile_changes_nothing() {
    let mut game = game_with_players(2);
    game.supply.insert(Card::Gold, 0);
    assert_eq!(game.gain(0, Card::Gold), Err(Error::EmptyPile { card: Card::Gold }));
    assert_eq!(game.supply.count(Card::Gold), 0);
    assert!(game.players[0].discard.is_empty());
    // a card without a pile cannot be gained either
    assert_eq!(game.gain_to_hand(0, Card::Witch), Err(Error::EmptyPile { card: Card::Witch }));
    assert_eq!(game.players[0].hand.len(), 5);
}

#[test]
fn gain_to_hand_and_deck_top() {
    let mut game = game_with_players(2);
    game.gain_to_hand(0, Card::Village).unwrap();
    assert_eq!(game.players[0].hand.len(), 6);
    assert_eq!(game.players[0].hand[5], Card::Village);
    game.gain_to_deck_top(0, Card::Silver).unwrap();
    assert_eq!(game.players[0].deck[0], Card::Silver);
    assert_eq!(game.players[0].deck.len(), 6);
    assert_eq!(game.supply.count(Card::Silver), 39);
}

#[test]
fn draw_reshuffles_discard_and_keeps_every_card() {
    let mut p = player_with(
        vec![Card::Copper],
        vec![Card::Silver, Card::Gold],
        vec![Card::Estate, Card::Duchy, Card::Province],
    );
    p.draw_cards(4);
    assert_eq!(p.hand.len(), 5);
    assert_eq!(p.deck.len() + p.discard.len(), 1);
    assert_eq!(p.hand[1], Card::Silver);
    assert_eq!(p.hand[2], Card::Gold);
    let mut all = p.hand.clone();
    all.extend(p.deck.iter().copied());
    all.extend(p.discard.iter().copied());
    assert_eq!(
        sorted(all),
        sorted(vec![Card::Copper, Card::Silver, Card::Gold, Card::Estate, Card::Duchy, Card::Province])
    );
    p.draw_cards(10);
    assert_eq!(p.hand.len(), 6);
    assert!(p.deck.is_empty() && p.discard.is_empty());
}

#[test]
fn draw_from_empty_deck_and_discard_does_nothing() {
    let mut p = player_with(vec![Card::Copper], Vec::new(), Vec::new());
    p.draw_cards(3);
    assert_eq!(p.hand, vec![Card::Copper]);
}

fn buying_game() -> Game {
    let mut game = game_with_players(2);
    game.current_turn = 0;
    let p = &mut game.players[0];
    p.phase = Phase::BuyPhase;
    p.resources.buys = 1;
    p.resources.coins_remaining = 5;
    p.resources.temp_coins = 2;
    game
}

#[test]
fn buy_refused_out_of_turn() {
    let mut game = buying_game();
    game.current_turn = 1;
    assert_eq!(game.buy_card(0, Card::Silver, &TestClient), Err(Error::OutOfTurn));
    assert_eq!(game.supply.count(Card::Silver), 40);
    assert_eq!(game.players[0].resources.buys, 1);
}

#[test]
fn buy_refused_in_wrong_phase() {
    let mut game = buying_game();
    game.players[0].phase = Phase::ActionPhase;
    assert_eq!(game.buy_card(0, Card::Silver, &TestClient), Err(Error::WrongPhase));
    assert_eq!(game.supply.count(Card::Silver), 40);
}

#[test]
fn buy_refused_without_funds() {
    let mut game = buying_game();
    assert_eq!(game.buy_card(0, Card::Gold, &TestClient), Err(Error::InsufficientFunds));
    assert_eq!(game.supply.count(Card::Gold), 40);
    assert_eq!(game.players[0].resources.coins_remaining, 5);
}

#[test]
fn buy_refused_on_empty_pile() {
    let mut game = buying_game();
    game.supply.insert(Card::Silver, 0);
    assert_eq!(game.buy_card(0, Card::Silver, &TestClient), Err(Error::EmptyPile { card: Card::Silver }));
    assert!(game.players[0].discard.is_empty());
}

#[test]
fn buy_checks_turn_before_phase_and_funds() {
    let mut game = buying_game();
    game.current_turn = 1;
    game.players[0].phase = Phase::ActionPhase;
    game.players[0].resources.coins_remaining = 0;
    assert_eq!(game.buy_card(0, Card::Gold, &TestClient), Err(Error::OutOfTurn));
    game.current_turn = 0;
    assert_eq!(game.buy_card(0, Card::Gold, &TestClient), Err(Error::WrongPhase));
}

#[test]
fn buy_spends_cost_and_a_buy() {
    let mut game = buying_game();
    assert_eq!(game.buy_card(0, Card::Silver, &TestClient), Ok(()));
    let p = &game.players[0];
    assert_eq!(p.discard, vec![Card::Silver]);
    assert_eq!(p.resources.buys, 0);
    assert_eq!(p.resources.coins_remaining, 2);
    assert_eq!(p.resources.temp_coins, 0);
    assert_eq!(game.supply.count(Card::Silver), 39);
}

#[test]
fn everyone_else_in_turn_order_after_attacker() {
    let game = game_with_players(4);
    assert_eq!(game.get_targets(2, AttackTarget::EveryoneElse, &TestClient), vec![3, 0, 1]);
    assert_eq!(game.get_targets(0, AttackTarget::EveryoneElse, &TestClient), vec![1, 2, 3]);
    assert_eq!(game.get_targets(3, AttackTarget::PlayerToLeft, &TestClient), vec![0]);
}

#[test]
fn player_of_choice_ignores_bad_answers() {
    let game = game_with_players(3);
    let client = Scripted::default();
    client.players.borrow_mut().push(vec![2]);
    client.players.borrow_mut().push(vec![7]);
    assert_eq!(game.get_targets(0, AttackTarget::PlayerOfChoice, &client), vec![2]);
    assert_eq!(game.get_targets(0, AttackTarget::PlayerOfChoice, &client), Vec::<usize>::new());
}

#[test]
fn immunity_covers_one_attack_only() {
    let mut game = game_with_players(3);
    game.players[1].state.immune = true;
    game.apply_attack(Card::Witch, &vec![1, 2], &TestClient);
    assert!(game.players[1].discard.is_empty());
    assert!(!game.players[1].state.immune);
    assert_eq!(game.players[2].discard, vec![Card::BasicCurse]);
    game.apply_attack(Card::Witch, &vec![1, 2], &TestClient);
    assert_eq!(game.players[1].discard, vec![Card::BasicCurse]);
    assert_eq!(game.supply.count(Card::BasicCurse), 17);
}

#[test]
fn moat_answers_a_witch() {
    let mut game = game_with_players(2);
    game.players[1].hand = vec![Card::Moat];
    game.players[0].hand.push(Card::Witch);
    game.players[0].resources.actions = 1;
    let client = Scripted::default();
    client.answer.set(true);
    game.play_action_from_hand(0, 5, &client).unwrap();
    assert!(game.players[1].discard.is_empty());
    assert!(!game.players[1].state.immune);
    assert_eq!(game.players[0].hand.len(), 7);
    assert_eq!(game.supply.count(Card::BasicCurse), 10);
}

#[test]
fn reactions_skip_the_attacker() {
    let mut game = game_with_players(2);
    game.players[0].hand = vec![Card::Moat];
    let client = Scripted::default();
    client.answer.set(true);
    game.check_reactions(0, ReactionTrigger::OtherPlayerPlaysAttack, &client);
    assert!(!game.players[0].state.immune);
    assert_eq!(client.asked.get(), 0);
}

#[test]
fn gardens_counts_owned_cards() {
    let mut p = player_with(vec![Card::Copper; 5], vec![Card::Copper; 15], vec![Card::Estate; 5]);
    p.in_play = vec![Card::Gold; 9];
    assert_eq!(Card::Gardens.victory_points(&p), 3);
    assert_eq!(Card::Gardens.victory_points(&p), 3);
    p.in_play.extend(vec![Card::Copper; 6]);
    assert_eq!(Card::Gardens.victory_points(&p), 4);
    let mut q = player_with(Vec::new(), Vec::new(), Vec::new());
    q.in_play = vec![Card::Copper; 10];
    assert_eq!(Card::Gardens.victory_points(&q), 1);
    assert_eq!(Card::Province.victory_points(&p), 6);
    assert_eq!(Card::BasicCurse.victory_points(&p), -1);
    assert_eq!(Card::Smithy.victory_points(&p), 0);
}

#[test]
fn two_player_supply() {
    let game = Game::default();
    assert_eq!(game.supply.count(Card::Estate), 8);
    assert_eq!(game.supply.count(Card::Duchy), 8);
    assert_eq!(game.supply.count(Card::Province), 8);
    assert_eq!(game.supply.count(Card::BasicCurse), 10);
    assert_eq!(game.supply.count(Card::Copper), 40);
    assert_eq!(game.supply.count(Card::Market), 10);
    assert_eq!(game.supply.count(Card::Witch), 0);
}

#[test]
fn supply_scales_with_players() {
    let game = game_with_players(5);
    assert_eq!(game.supply.count(Card::Estate), 12);
    assert_eq!(game.supply.count(Card::Province), 15);
    assert_eq!(game.supply.count(Card::BasicCurse), 40);
    let mut game = game_with_players(3);
    game.create_supply(vec![Card::Gardens]).unwrap();
    assert_eq!(game.supply.count(Card::Gardens), 12);
    assert_eq!(game.supply.count(Card::BasicCurse), 20);
}

#[test]
fn supply_refused_for_one_player() {
    let mut game = Game::new();
    game.add_player(Player::new_with_default_deck(0));
    assert_eq!(game.create_supply(Game::default_supply_list()), Err(Error::NotEnoughPlayers));
    assert_eq!(game.supply.count(Card::Copper), 0);
}

#[test]
fn no_actions_skips_straight_to_buying() {
    let mut game = game_with_players(2);
    let p = &mut game.players[0];
    p.resources.actions = 0;
    p.resources.buys = 1;
    p.hand.push(Card::Village);
    let client = Scripted::default();
    let prompt = game.start_action_phase(0);
    assert_eq!(prompt, Prompt::ChooseBuy);
    assert_eq!(game.players[0].phase, Phase::BuyPhase);
    assert_eq!(client.asked.get(), 0);
}

#[test]
fn silver_adds_two_coins_in_buy_phase() {
    let mut game = game_with_players(2);
    let p = &mut game.players[0];
    p.hand = vec![Card::Estate, Card::Silver, Card::Village];
    p.resources.buys = 1;
    p.resources.temp_coins = 1;
    assert_eq!(game.start_buy_phase(0), Prompt::ChooseBuy);
    let p = &game.players[0];
    assert_eq!(p.resources.coins_remaining, 3);
    assert_eq!(p.in_play, vec![Card::Silver]);
    assert_eq!(p.hand, vec![Card::Estate, Card::Village]);
}

#[test]
fn play_treasure_checks_type() {
    let mut game = game_with_players(2);
    game.players[0].hand = vec![Card::Estate, Card::Gold];
    assert_eq!(
        game.play_treasure(0, 0),
        Err(Error::CardTypeMisMatch { expected: CardType::Treasure })
    );
    assert_eq!(game.play_treasure(0, 1), Ok(()));
    assert_eq!(game.players[0].resources.coins, 3);
    assert_eq!(game.players[0].in_play, vec![Card::Gold]);
    assert_eq!(game.players[0].hand, vec![Card::Estate]);
}

#[test]
fn play_action_checks_type() {
    let mut game = game_with_players(2);
    game.players[0].hand = vec![Card::Copper];
    game.players[0].resources.actions = 1;
    assert_eq!(
        game.play_action_from_hand(0, 0, &TestClient),
        Err(Error::CardTypeMisMatch { expected: CardType::Action })
    );
    assert_eq!(game.players[0].resources.actions, 1);
    assert_eq!(game.players[0].hand, vec![Card::Copper]);
}

#[test]
fn throne_room_plays_smithy_twice() {
    let mut game = game_with_players(2);
    let p = &mut game.players[0];
    p.hand = vec![Card::ThroneRoom, Card::Smithy];
    p.deck = vec![Card::Copper; 8];
    p.resources.actions = 1;
    let client = Scripted::default();
    client.hand.borrow_mut().push(vec![0]);
    game.play_action_from_hand(0, 0, &client).unwrap();
    let p = &game.players[0];
    assert_eq!(p.hand.len(), 6);
    assert_eq!(p.deck.len(), 2);
    assert_eq!(p.in_play, vec![Card::ThroneRoom, Card::Smithy]);
    assert_eq!(p.resources.actions, 0);
}

#[test]
fn chapel_trashes_up_to_four() {
    let mut game = game_with_players(2);
    game.players[0].hand = vec![Card::Chapel, Card::Copper, Card::Estate, Card::Copper, Card::Estate, Card::Gold];
    game.players[0].resources.actions = 1;
    let client = Scripted::default();
    client.hand.borrow_mut().push(vec![0, 1, 2, 3, 4]);
    game.play_action_from_hand(0, 0, &client).unwrap();
    assert_eq!(game.trash, vec![Card::Copper, Card::Estate, Card::Copper, Card::Estate]);
    assert_eq!(game.players[0].hand, vec![Card::Gold]);
}

#[test]
fn cellar_discards_and_draws_as_many() {
    let mut game = game_with_players(2);
    let p = &mut game.players[0];
    p.hand = vec![Card::Cellar, Card::Estate, Card::Estate, Card::Copper];
    p.deck = vec![Card::Gold, Card::Gold, Card::Silver];
    p.resources.actions = 1;
    let client = Scripted::default();
    client.hand.borrow_mut().push(vec![0, 1]);
    game.play_action_from_hand(0, 0, &client).unwrap();
    let p = &game.players[0];
    assert_eq!(p.hand, vec![Card::Copper, Card::Gold, Card::Gold]);
    assert_eq!(p.discard, vec![Card::Estate, Card::Estate]);
    assert_eq!(p.resources.actions, 1);
}

#[test]
fn council_room_others_draw_one() {
    let mut game = game_with_players(3);
    game.players[1].hand.push(Card::CouncilRoom);
    game.players[1].resources.actions = 1;
    game.play_action_from_hand(1, 5, &TestClient).unwrap();
    assert_eq!(game.players[1].hand.len(), 5 + 4);
    assert_eq!(game.players[1].resources.buys, 1);
    assert_eq!(game.players[0].hand.len(), 6);
    assert_eq!(game.players[2].hand.len(), 6);
}

#[test]
fn bandit_trashes_a_silver() {
    let mut game = game_with_players(2);
    game.players[1].deck = vec![Card::Silver, Card::Copper, Card::Estate];
    game.players[0].hand.push(Card::Bandit);
    game.players[0].resources.actions = 1;
    game.play_action_from_hand(0, 5, &TestClient).unwrap();
    assert_eq!(game.trash, vec![Card::Silver]);
    assert_eq!(game.players[1].discard, vec![Card::Copper]);
    assert_eq!(game.players[1].deck, vec![Card::Estate]);
    assert_eq!(game.players[0].discard, vec![Card::Gold]);
}

#[test]
fn full_turn_by_steps() {
    let mut game = game_with_players(2);
    game.players[0].hand = vec![Card::Village, Card::Copper, Card::Copper, Card::Silver, Card::Estate];
    game.players[0].deck = vec![Card::Estate; 10];
    let client = Scripted::default();
    assert_eq!(game.turn(0), Prompt::ChooseAction);
    assert_eq!(game.action_phase(0, Some(4), &client), Prompt::ChooseAction);
    assert_eq!(game.players[0].resources.actions, 1);
    assert_eq!(game.action_phase(0, Some(0), &client), Prompt::ChooseAction);
    assert_eq!(game.players[0].resources.actions, 2);
    assert_eq!(game.action_phase(0, None, &client), Prompt::ChooseBuy);
    assert_eq!(game.players[0].resources.coins_remaining, 4);
    assert_eq!(game.buy_phase(0, Some(Card::Gold), &client), Prompt::ChooseBuy);
    assert_eq!(game.buy_phase(0, Some(Card::Smithy), &client), Prompt::TurnOver);
    let p = &game.players[0];
    assert_eq!(p.phase, Phase::OutOfTurn);
    assert_eq!(p.hand.len(), 5);
    assert!(p.in_play.is_empty());
    assert_eq!(p.hand.len() + p.deck.len() + p.discard.len(), 16);
}

#[test]
fn phases_cycle() {
    assert_eq!(Phase::OutOfTurn.next(), Phase::ActionPhase);
    assert_eq!(Phase::ActionPhase.next(), Phase::BuyPhase);
    assert_eq!(Phase::BuyPhase.next(), Phase::CleanupPhase);
    assert_eq!(Phase::CleanupPhase.next(), Phase::OutOfTurn);
}

#[test]
fn card_facts() {
    assert_eq!(Card::Market.cost().coins, 5);
    assert_eq!(Card::Gold.treasure_value().coins, 3);
    assert_eq!(Card::Estate.treasure_value().coins, 0);
    assert_eq!(Card::Moat.types(), vec![CardType::Action, CardType::Reaction]);
    assert!(Card::Witch.is_attack() && Card::Witch.is_action());
    assert!(Card::BasicCurse.is_curse() && !Card::BasicCurse.is_victory());
    assert!(Card::Moat.is_reaction());
    assert_eq!(Card::Witch.attack_target(), Some(AttackTarget::EveryoneElse));
    assert_eq!(Card::Moat.reaction_trigger(), Some(ReactionTrigger::OtherPlayerPlaysAttack));
    assert_eq!(Card::CouncilRoom.name(), "Council Room");
}

#[test]
fn shuffle_keeps_items_and_reorders() {
    let original: Vec<u32> = (0..64).collect();
    let mut changed = false;
    for _ in 0..5 {
        let mut v = original.clone();
        shuffle(&mut v);
        let mut s = v.clone();
        s.sort();
        assert_eq!(s, original);
        if v != original {
            changed = true;
        }
    }
    assert!(changed);
}

#[test]
fn players_get_distinct_ids() {
    let a = Player::new_with_default_deck(0);
    let b = Player::new_with_default_deck(1);
    assert_ne!(a.uuid, b.uuid);
    assert_eq!(b.player_number, 1);
}

#[test]
fn cleanup_draws_a_new_hand() {
    let mut p = player_with(vec![Card::Copper; 3], vec![Card::Estate; 2], Vec::new());
    p.in_play = vec![Card::Gold];
    p.cleanup();
    assert_eq!(p.hand.len(), 5);
    assert!(p.in_play.is_empty());
    assert_eq!(p.hand.len() + p.deck.len() + p.discard.len(), 6);
}

#[test]
fn reveal_takes_from_top() {
    let mut game = game_with_players(2);
    game.players[1].deck = vec![Card::Gold, Card::Estate, Card::Copper];
    assert_eq!(game.reveal_cards(1, 2), vec![Card::Gold, Card::Estate]);
    assert_eq!(game.players[1].deck, vec![Card::Copper]);
    assert_eq!(game.reveal_cards(1, 5), vec![Card::Copper]);
    assert!(game.players[1].deck.is_empty());
}

#[test]
fn remove_from_hand_returns_card() {
    let mut game = game_with_players(2);
    game.players[0].hand = vec![Card::Estate, Card::Gold];
    assert_eq!(game.remove_from_hand(0, 1), Card::Gold);
    assert_eq!(game.players[0].hand, vec![Card::Estate]);
}

#[test]
fn player_access() {
    let mut game = game_with_players(2);
    assert_eq!(game.player_count(), 2);
    assert!(game.get_player(2).is_none());
    assert_eq!(game.get_player(1).unwrap().player_number, 1);
    game.get_player_mut(1).unwrap().resources.buys = 4;
    assert_eq!(game.players[1].resources.buys, 4);
    assert!(game.get_player_mut(5).is_none());
    let _view = game.partial_game(0);
}

#[test]
fn supply_entries() {
    let mut supply = Supply::new();
    supply.insert(Card::Moat, 10);
    supply.insert(Card::Moat, 3);
    assert_eq!(supply.entries.len(), 1);
    assert_eq!(supply.get(Card::Moat).unwrap().count, 3);
    assert!(supply.get(Card::Witch).is_none());
    supply.get_mut(Card::Moat).unwrap().count = 1;
    assert_eq!(supply.count(Card::Moat), 1);
    supply.take_one(Card::Moat);
    assert_eq!(supply.count(Card::Moat), 0);
}

#[test]
fn move_discard_to_hand() {
    let mut p = player_with(vec![Card::Copper], Vec::new(), vec![Card::Estate, Card::Gold, Card::Silver]);
    p.move_given_indexes_discard_to_hand(vec![1, 9]);
    assert_eq!(p.hand, vec![Card::Copper, Card::Gold]);
    assert_eq!(p.discard, vec![Card::Estate, Card::Silver]);
    assert_eq!(p.hand_size(), 2);
}

#[test]
fn resources_add_up() {
    let mut p = player_with(Vec::new(), Vec::new(), Vec::new());
    p.add_actions(2);
    p.add_buys(1);
    p.add_coins(3);
    p.add_coins(usize::MAX);
    assert_eq!(p.resources.actions, 2);
    assert_eq!(p.resources.buys, 1);
    assert_eq!(p.resources.temp_coins, usize::MAX);
}

#[test]
fn buy_refusal_names_first_failing_check() {
    let mut game = buying_game();
    assert_eq!(game.buy_refusal(0, Card::Silver), None);
    assert_eq!(game.buy_refusal(0, Card::Province), Some(Error::InsufficientFunds));
    assert_eq!(game.buy_refusal(1, Card::Silver), Some(Error::OutOfTurn));
    game.supply.insert(Card::Silver, 0);
    assert_eq!(game.buy_refusal(0, Card::Silver), Some(Error::EmptyPile { card: Card::Silver }));
}

#[test]
fn declined_buy_ends_turn() {
    let mut game = buying_game();
    game.players[0].deck = vec![Card::Copper; 10];
    assert_eq!(game.buy_phase(0, None, &TestClient), Prompt::TurnOver);
    assert_eq!(game.players[0].phase, Phase::OutOfTurn);
    assert_eq!(game.players[0].hand.len(), 5);
}

#[test]
fn refused_buy_asks_again() {
    let mut game = buying_game();
    assert_eq!(game.buy_phase(0, Some(Card::Province), &TestClient), Prompt::ChooseBuy);
    assert_eq!(game.players[0].resources.buys, 1);
    assert_eq!(game.supply.count(Card::Province), 8);
}

#[test]
fn refused_action_asks_again() {
    let mut game = game_with_players(2);
    game.players[0].hand = vec![Card::Copper, Card::Estate];
    assert_eq!(game.turn(0), Prompt::ChooseAction);
    assert_eq!(game.action_phase(0, Some(0), &TestClient), Prompt::ChooseAction);
    assert_eq!(game.action_phase(0, Some(8), &TestClient), Prompt::ChooseAction);
    assert_eq!(game.players[0].hand, vec![Card::Copper, Card::Estate]);
    assert_eq!(game.players[0].resources.actions, 1);
}

#[test]
fn test_client_declines() {
    let game = game_with_players(2);
    let c = TestClient;
    assert!(c.choose_card_from_supply(0, &game.supply).is_none());
    assert!(c.choose_cards_from_hand(&ChoiceCountOptions::Any, "x").is_empty());
    assert!(!c.yes_or_no(0, "x"));
    assert!(c.choose_players(0, &ChoiceCountOptions::Exact { count: 1 }, "x").is_empty());
}

#[test]
fn witch_curses_everyone_else() {
    let mut game = game_with_players(3);
    game.players[0].hand.push(Card::Witch);
    game.players[0].resources.actions = 1;
    game.play_action_from_hand(0, 5, &TestClient).unwrap();
    assert_eq!(game.players[1].discard, vec![Card::BasicCurse]);
    assert_eq!(game.players[2].discard, vec![Card::BasicCurse]);
    assert!(game.players[0].discard.is_empty());
    assert_eq!(game.supply.count(Card::BasicCurse), 18);
    assert_eq!(game.players[0].hand.len(), 7);
}

#[test]
fn artisan_gains_to_hand_then_tops_deck() {
    let mut game = game_with_players(2);
    game.players[0].hand = vec![Card::Artisan, Card::Estate];
    game.players[0].resources.actions = 1;
    let client = Scripted::default();
    client.supply.borrow_mut().push(Some(Card::Gold));
    client.hand.borrow_mut().push(vec![0]);
    game.play_action_from_hand(0, 0, &client).unwrap();
    assert_eq!(game.players[0].hand, vec![Card::Gold]);
    assert_eq!(game.players[0].deck[0], Card::Estate);
    assert_eq!(game.supply.count(Card::Gold), 39);
}

#[test]
fn workshop_gains_cheap_cards_only() {
    let mut game = game_with_players(2);
    game.players[0].hand = vec![Card::Workshop, Card::Workshop];
    game.players[0].resources.actions = 2;
    let client = Scripted::default();
    client.supply.borrow_mut().push(Some(Card::Gold));
    client.supply.borrow_mut().push(Some(Card::Smithy));
    game.play_action_from_hand(0, 0, &client).unwrap();
    assert!(game.players[0].discard.is_empty());
    game.play_action_from_hand(0, 0, &client).unwrap();
    assert_eq!(game.players[0].discard, vec![Card::Smithy]);
}

#[test]
fn library_draws_to_seven_setting_actions_aside() {
    let mut game = game_with_players(2);
    let p = &mut game.players[0];
    p.hand = vec![Card::Library, Card::Copper, Card::Copper];
    p.deck = vec![Card::Village, Card::Gold, Card::Silver, Card::Smithy, Card::Estate, Card::Duchy, Card::Copper];
    p.resources.actions = 1;
    let client = Scripted::default();
    client.answer.set(true);
    game.play_action_from_hand(0, 0, &client).unwrap();
    let p = &game.players[0];
    assert_eq!(p.hand, vec![Card::Copper, Card::Copper, Card::Gold, Card::Silver, Card::Estate, Card::Duchy, Card::Copper]);
    assert_eq!(p.discard, vec![Card::Village, Card::Smithy]);
    assert!(p.deck.is_empty());
}

#[test]
fn harbinger_takes_from_discard() {
    let mut game = game_with_players(2);
    let p = &mut game.players[0];
    p.hand = vec![Card::Harbinger];
    p.deck = vec![Card::Copper];
    p.discard = vec![Card::Gold];
    p.resources.actions = 1;
    game.play_action_from_hand(0, 0, &TestClient).unwrap();
    let p = &game.players[0];
    assert_eq!(p.hand, vec![Card::Copper]);
    assert_eq!(p.resources.actions, 1);
    assert_eq!(p.discard, vec![Card::Gold]);
}

#[test]
fn placeholder_cards_say_so() {
    assert_eq!(Card::Mine.description(), "PLACEHOLDER CARD");
    assert_eq!(Card::Market.description(), "");
    assert!(Card::Mine.types().is_empty());
}

#[test]
fn moat_reacts_only_when_used() {
    let mut game = game_with_players(2);
    Card::Moat.react(&mut game, 1, false);
    assert!(!game.players[1].state.immune);
    Card::Moat.react(&mut game, 1, true);
    assert!(game.players[1].state.immune);
    Card::Smithy.react(&mut game, 0, true);
    assert!(!game.players[0].state.immune);
}

#[test]
fn cellar_keeps_hand_size() {
    let mut game = game_with_players(2);
    let p = &mut game.players[0];
    p.hand = vec![Card::Cellar, Card::Estate, Card::Estate, Card::Copper, Card::Duchy];
    p.deck = vec![Card::Gold];
    p.discard = vec![Card::Silver; 3];
    p.resources.actions = 1;
    let client = Scripted::default();
    client.hand.borrow_mut().push(vec![0, 1, 3]);
    game.play_action_from_hand(0, 0, &client).unwrap();
    assert_eq!(game.players[0].hand.len(), 4);
}

#[test]
fn bandit_with_two_treasures_trashes_the_chosen_one() {
    let mut game = game_with_players(2);
    game.players[1].deck = vec![Card::Silver, Card::Gold];
    game.players[1].discard = vec![Card::Estate];
    let client = Scripted::default();
    Card::Bandit.attack_effects(&mut game, 1, &client);
    assert_eq!(game.trash, vec![Card::Gold]);
    assert_eq!(game.players[1].discard, vec![Card::Estate, Card::Silver]);
    assert!(game.players[1].deck.is_empty());
}
