//! Cards: their identity, cost, type tags, treasure value and victory points.
use vstd::prelude::*;

use crate::player::Player;

verus! {

/// A type tag of a card; a card may carry several.
#[derive(Copy, Clone, PartialEq, Eq, Structural, Debug)]
pub enum CardType {
    Treasure,
    Victory,
    Curse,
    Action,
    Attack,
    Reaction,
}

/// What a card costs to buy.
#[derive(Copy, Clone, PartialEq, Eq, Structural, Debug)]
pub struct Cost {
    pub coins: usize,
}

impl Cost {
    pub fn new(coins: usize) -> (r: Cost)
        ensures
            r.coins == coins,
    {
        Cost { coins }
    }
}

/// The coins a treasure grants when played.
#[derive(Copy, Clone, PartialEq, Eq, Structural, Debug)]
pub struct Value {
    pub coins: usize,
}

impl Value {
    pub fn new(coins: usize) -> (r: Value)
        ensures
            r.coins == coins,
    {
        Value { coins }
    }
}

impl Default for Value {
    fn default() -> (r: Value)
        ensures
            r.coins == 0,
    {
        Value { coins: 0 }
    }
}

/// Which players an attack reaches.
#[derive(Copy, Clone, PartialEq, Eq, Structural, Debug)]
pub enum AttackTarget {
    /// Every other player, in turn order starting left of the attacker.
    EveryoneElse,
    /// The next player in turn order.
    PlayerToLeft,
    /// One player that the attacker picks.
    PlayerOfChoice,
}

/// The event a reaction card answers to.
#[derive(Copy, Clone, PartialEq, Eq, Structural, Debug)]
pub enum ReactionTrigger {
    OtherPlayerPlaysAttack,
    BuyAVictoryCard,
}

/// The card catalog. Cards carry no state: every copy of a card is the same value.
#[derive(Copy, Clone, PartialEq, Eq, Structural, Debug)]
pub enum Card {
    Copper,
    Silver,
    Gold,
    Estate,
    Duchy,
    Province,
    BasicCurse,
    Artisan,
    Bandit,
    Bureaucrat,
    Cellar,
    Chapel,
    CouncilRoom,
    Festival,
    Gardens,
    Harbinger,
    Laboratory,
    Library,
    Market,
    Merchant,
    Militia,
    Mine,
    Moat,
    Moneylender,
    Poacher,
    Remodel,
    Sentry,
    Smithy,
    ThroneRoom,
    Vassal,
    Village,
    Witch,
    Workshop,
}

/// The type tags of a card, in the order the card lists them.
pub open spec fn card_types(c: Card) -> Seq<CardType> {
    match c {
        Card::Copper | Card::Silver | Card::Gold => seq![CardType::Treasure],
        Card::Estate | Card::Duchy | Card::Province | Card::Gardens => seq![CardType::Victory],
        Card::BasicCurse => seq![CardType::Curse],
        Card::Bandit | Card::Witch => seq![CardType::Action, CardType::Attack],
        Card::Moat => seq![CardType::Action, CardType::Reaction],
        Card::Artisan | Card::Cellar | Card::Chapel | Card::CouncilRoom | Card::Festival
        | Card::Harbinger | Card::Laboratory | Card::Library | Card::Market | Card::Merchant
        | Card::Smithy | Card::ThroneRoom | Card::Village | Card::Workshop => seq![CardType::Action],
        // cards whose effects are not part of the catalog yet carry no tags
        _ => Seq::empty(),
    }
}

pub open spec fn has_type(c: Card, t: CardType) -> bool {
    card_types(c).contains(t)
}

pub open spec fn card_cost(c: Card) -> nat {
    match c {
        Card::Copper | Card::BasicCurse => 0,
        Card::Estate | Card::Cellar | Card::Chapel | Card::Moat => 2,
        Card::Silver | Card::Harbinger | Card::Merchant | Card::Vassal | Card::Village
        | Card::Workshop => 3,
        Card::Bureaucrat | Card::Gardens | Card::Militia | Card::Moneylender | Card::Poacher
        | Card::Remodel | Card::Smithy | Card::ThroneRoom => 4,
        Card::Duchy | Card::Bandit | Card::CouncilRoom | Card::Festival | Card::Laboratory
        | Card::Library | Card::Market | Card::Mine | Card::Sentry | Card::Witch => 5,
        Card::Gold | Card::Artisan => 6,
        Card::Province => 8,
    }
}

pub open spec fn treasure_coins(c: Card) -> nat {
    match c {
        Card::Copper => 1,
        Card::Silver => 2,
        Card::Gold => 3,
        _ => 0,
    }
}

/// The number of cards a player owns: deck, hand, discard and in play.
pub open spec fn owned_count(p: Player) -> nat {
    p.deck@.len() + p.hand@.len() + p.discard@.len() + p.in_play@.len()
}

pub open spec fn card_victory_points(c: Card, p: Player) -> int {
    match c {
        Card::Estate => 1,
        Card::Duchy => 3,
        Card::Province => 6,
        Card::BasicCurse => -1,
        Card::Gardens => owned_count(p) as int / 10,
        _ => 0,
    }
}

pub open spec fn card_attack_target(c: Card) -> Option<AttackTarget> {
    match c {
        Card::Bandit | Card::Witch => Some(AttackTarget::EveryoneElse),
        _ => None,
    }
}

pub open spec fn card_reaction_trigger(c: Card) -> Option<ReactionTrigger> {
    match c {
        Card::Moat => Some(ReactionTrigger::OtherPlayerPlaysAttack),
        _ => None,
    }
}

/// A card's victory points depend on nothing but the sizes of the owner's four
/// zones: two players whose zones have the same sizes score it the same, and so
/// does one player scored twice.
pub proof fn lemma_victory_points_depend_on_zone_sizes(c: Card, p: Player, q: Player)
    requires
        p.deck@.len() == q.deck@.len(),
        p.hand@.len() == q.hand@.len(),
        p.discard@.len() == q.discard@.len(),
        p.in_play@.len() == q.in_play@.len(),
    ensures
        card_victory_points(c, p) == card_victory_points(c, q),
{
}

/// Only treasures are worth coins.
pub proof fn lemma_only_treasures_have_value(c: Card)
    ensures
        !has_type(c, CardType::Treasure) ==> treasure_coins(c) == 0,
{
    if treasure_coins(c) > 0 {
        assert(card_types(c)[0] == CardType::Treasure);
    }
}

impl Card {
    pub fn name(&self) -> (r: &'static str) {
        match self {
            Card::Copper => "Copper",
            Card::Silver => "Silver",
            Card::Gold => "Gold",
            Card::Estate => "Estate",
            Card::Duchy => "Duchy",
            Card::Province => "Province",
            Card::BasicCurse => "BasicCurse",
            Card::Artisan => "Artisan",
            Card::Bandit => "Bandit",
            Card::Bureaucrat => "Bureaucrat",
            Card::Cellar => "Cellar",
            Card::Chapel => "Chapel",
            Card::CouncilRoom => "Council Room",
            Card::Festival => "Festival",
            Card::Gardens => "Gardens",
            Card::Harbinger => "Harbinger",
            Card::Laboratory => "Laboratory",
            Card::Library => "Library",
            Card::Market => "Market",
            Card::Merchant => "Merchant",
            Card::Militia => "Militia",
            Card::Mine => "Mine",
            Card::Moat => "Moat",
            Card::Moneylender => "Moneylender",
            Card::Poacher => "Poacher",
            Card::Remodel => "Remodel",
            Card::Sentry => "Sentry",
            Card::Smithy => "Smithy",
            Card::ThroneRoom => "Throne Room",
            Card::Vassal => "Vassal",
            Card::Village => "Village",
            Card::Witch => "Witch",
            Card::Workshop => "Workshop",
        }
    }

    /// A description of the card's effects; cards whose effects are not part
    /// of the catalog yet say so.
    pub fn description(&self) -> (r: &'static str) {
        match self {
            Card::Bureaucrat | Card::Militia | Card::Mine | Card::Moneylender | Card::Poacher
            | Card::Remodel | Card::Sentry | Card::Vassal => "PLACEHOLDER CARD",
            _ => "",
        }
    }

    pub fn types(&self) -> (r: Vec<CardType>)
        ensures
            r@ == card_types(*self),
    {
        match self {
            Card::Copper | Card::Silver | Card::Gold => vec![CardType::Treasure],
            Card::Estate | Card::Duchy | Card::Province | Card::Gardens => vec![CardType::Victory],
            Card::BasicCurse => vec![CardType::Curse],
            Card::Bandit | Card::Witch => vec![CardType::Action, CardType::Attack],
            Card::Moat => vec![CardType::Action, CardType::Reaction],
            Card::Artisan | Card::Cellar | Card::Chapel | Card::CouncilRoom | Card::Festival
            | Card::Harbinger | Card::Laboratory | Card::Library | Card::Market | Card::Merchant
            | Card::Smithy | Card::ThroneRoom | Card::Village | Card::Workshop => vec![CardType::Action],
            _ => Vec::new(),
        }
    }

    pub fn cost(&self) -> (r: Cost)
        ensures
            r.coins == card_cost(*self),
    {
        let coins: usize = match self {
            Card::Copper | Card::BasicCurse => 0,
            Card::Estate | Card::Cellar | Card::Chapel | Card::Moat => 2,
            Card::Silver | Card::Harbinger | Card::Merchant | Card::Vassal | Card::Village
            | Card::Workshop => 3,
            Card::Bureaucrat | Card::Gardens | Card::Militia | Card::Moneylender | Card::Poacher
            | Card::Remodel | Card::Smithy | Card::ThroneRoom => 4,
            Card::Duchy | Card::Bandit | Card::CouncilRoom | Card::Festival | Card::Laboratory
            | Card::Library | Card::Market | Card::Mine | Card::Sentry | Card::Witch => 5,
            Card::Gold | Card::Artisan => 6,
            Card::Province => 8,
        };
        Cost::new(coins)
    }

    pub fn treasure_value(&self) -> (r: Value)
        ensures
            r.coins == treasure_coins(*self),
    {
        match self {
            Card::Copper => Value::new(1),
            Card::Silver => Value::new(2),
            Card::Gold => Value::new(3),
            _ => Value::default(),
        }
    }

    /// Points this card is worth to `player`; recomputed from the player's zones on each call.
    pub fn victory_points(&self, player: &Player) -> (r: isize)
        ensures
            r as int == card_victory_points(*self, *player),
    {
        match self {
            Card::Estate => 1,
            Card::Duchy => 3,
            Card::Province => 6,
            Card::BasicCurse => -1,
            Card::Gardens => {
                let owned: u128 = player.deck.len() as u128 + player.hand.len() as u128
                    + player.discard.len() as u128 + player.in_play.len() as u128;
                (owned / 10) as isize
            },
            _ => 0,
        }
    }

    pub fn attack_target(&self) -> (r: Option<AttackTarget>)
        ensures
            r == card_attack_target(*self),
    {
        match self {
            Card::Bandit | Card::Witch => Some(AttackTarget::EveryoneElse),
            _ => None,
        }
    }

    pub fn reaction_trigger(&self) -> (r: Option<ReactionTrigger>)
        ensures
            r == card_reaction_trigger(*self),
    {
        match self {
            Card::Moat => Some(ReactionTrigger::OtherPlayerPlaysAttack),
            _ => None,
        }
    }

    /// Does this card carry the tag `t`?
    pub fn has_type(&self, t: CardType) -> (r: bool)
        ensures
            r == has_type(*self, t),
    {
        let types = self.types();
        let mut i: usize = 0;
        while i < types.len()
            invariant
                types@ == card_types(*self),
                0 <= i <= types@.len(),
                forall|j: int| 0 <= j < i ==> types@[j] != t,
            decreases types@.len() - i,
        {
            if types[i] == t {
                return true;
            }
            i = i + 1;
        }
        false
    }

    pub fn is_action(&self) -> (r: bool)
        ensures
            r == has_type(*self, CardType::Action),
    {
        self.has_type(CardType::Action)
    }

    pub fn is_attack(&self) -> (r: bool)
        ensures
            r == has_type(*self, CardType::Attack),
    {
        self.has_type(CardType::Attack)
    }

    pub fn is_reaction(&self) -> (r: bool)
        ensures
            r == has_type(*self, CardType::Reaction),
    {
        self.has_type(CardType::Reaction)
    }

    pub fn is_treasure(&self) -> (r: bool)
        ensures
            r == has_type(*self, CardType::Treasure),
    {
        self.has_type(CardType::Treasure)
    }

    pub fn is_victory(&self) -> (r: bool)
        ensures
            r == has_type(*self, CardType::Victory),
    {
        self.has_type(CardType::Victory)
    }

    pub fn is_curse(&self) -> (r: bool)
        ensures
            r == has_type(*self, CardType::Curse),
    {
        self.has_type(CardType::Curse)
    }
}

} // verus!
