//! The supply: for each card, the number of copies that can still be gained.
use vstd::prelude::*;

use crate::card::Card;

verus! {

/// One pile of the supply.
#[derive(Copy, Clone, PartialEq, Eq, Structural, Debug)]
pub struct SupplyEntry {
    pub card: Card,
    pub count: usize,
}

/// The piles of the supply, at most one for each card.
///
/// The piles are a `Vec` kept free of repeated cards (see `wf`), viewed as a
/// map from card to count: a hash or ordered map keyed by `Card`, whose `Eq`,
/// `Hash` and `Ord` are derived, would give no provable facts about its contents.
pub struct Supply {
    pub entries: Vec<SupplyEntry>,
}

/// The number of copies in all the piles of `s`.
pub open spec fn entries_total(s: Seq<SupplyEntry>) -> nat
    decreases s.len(),
{
    if s.len() == 0 {
        0
    } else {
        entries_total(s.drop_last()) + s.last().count as nat
    }
}

pub proof fn lemma_total_update(s: Seq<SupplyEntry>, i: int, e: SupplyEntry)
    requires
        0 <= i < s.len(),
    ensures
        entries_total(s.update(i, e)) + s[i].count == entries_total(s) + e.count,
    decreases s.len(),
{
    if i < s.len() - 1 {
        lemma_total_update(s.drop_last(), i, e);
        assert(s.update(i, e).drop_last() =~= s.drop_last().update(i, e));
    } else {
        assert(s.update(i, e).drop_last() =~= s.drop_last());
    }
}

impl View for Supply {
    type V = Map<Card, nat>;

    open spec fn view(&self) -> Map<Card, nat> {
        Map::new(|c: Card| self.holds(c), |c: Card| self.entries@[self.index_of(c)].count as nat)
    }
}

impl Supply {
    /// No two piles are of the same card.
    pub open spec fn wf(&self) -> bool {
        forall|i: int, j: int|
            0 <= i < j < self.entries@.len() ==> self.entries@[i].card != self.entries@[j].card
    }

    pub open spec fn holds(&self, c: Card) -> bool {
        exists|i: int| 0 <= i < self.entries@.len() && self.entries@[i].card == c
    }

    pub open spec fn index_of(&self, c: Card) -> int {
        choose|i: int| 0 <= i < self.entries@.len() && self.entries@[i].card == c
    }

    /// The copies left of `c`; a card without a pile has none.
    pub open spec fn pile(&self, c: Card) -> nat {
        if self@.contains_key(c) {
            self@[c]
        } else {
            0
        }
    }

    /// The copies left in all the piles.
    pub open spec fn total(&self) -> nat {
        entries_total(self.entries@)
    }

    pub proof fn lemma_index_of(&self, i: int)
        requires
            self.wf(),
            0 <= i < self.entries@.len(),
        ensures
            self.index_of(self.entries@[i].card) == i,
            self@.contains_key(self.entries@[i].card),
            self@[self.entries@[i].card] == self.entries@[i].count,
    {
        let c = self.entries@[i].card;
        assert(self.holds(c));
        let j = self.index_of(c);
        if j < i {
            assert(self.entries@[j].card != self.entries@[i].card);
        } else if j > i {
            assert(self.entries@[i].card != self.entries@[j].card);
        }
    }

    pub fn new() -> (r: Supply)
        ensures
            r.wf(),
            r@ == Map::<Card, nat>::empty(),
            r.total() == 0,
    {
        let r = Supply { entries: Vec::new() };
        assert(r@ =~= Map::<Card, nat>::empty());
        r
    }

    /// The position of the pile of `card`, if there is one.
    fn find(&self, card: Card) -> (r: Option<usize>)
        requires
            self.wf(),
        ensures
            r.is_none() ==> !self@.contains_key(card),
            r.is_some() ==> r.unwrap() < self.entries@.len() && self.entries@[r.unwrap() as int].card
                == card && self.index_of(card) == r.unwrap(),
    {
        let mut i: usize = 0;
        while i < self.entries.len()
            invariant
                self.wf(),
                0 <= i <= self.entries@.len(),
                forall|k: int| 0 <= k < i ==> self.entries@[k].card != card,
            decreases self.entries@.len() - i,
        {
            if self.entries[i].card == card {
                proof {
                    self.lemma_index_of(i as int);
                }
                return Some(i);
            }
            i = i + 1;
        }
        None
    }

    /// Sets the pile of `card` to `count` copies, adding the pile if it is missing.
    pub fn insert(&mut self, card: Card, count: usize)
        requires
            old(self).wf(),
        ensures
            final(self).wf(),
            final(self)@ == old(self)@.insert(card, count as nat),
    {
        let entry = SupplyEntry { card, count };
        match self.find(card) {
            Some(i) => {
                let ghost before = *self;
                self.entries.set(i, entry);
                proof {
                    assert forall|k: Card| #[trigger] self.holds(k) == before.holds(k) by {
                        if before.holds(k) {
                            let j = before.index_of(k);
                            assert(self.entries@[j].card == k);
                        }
                        if self.holds(k) {
                            let j = self.index_of(k);
                            assert(before.entries@[j].card == k);
                        }
                    }
                    assert forall|k: Card| before.holds(k) implies self@[k] == #[trigger] before@.insert(
                        card,
                        count as nat,
                    )[k] by {
                        let j = before.index_of(k);
                        before.lemma_index_of(j);
                        self.lemma_index_of(j);
                    }
                    assert(self@ =~= before@.insert(card, count as nat));
                }
            },
            None => {
                let ghost before = *self;
                self.entries.push(entry);
                proof {
                    let n = before.entries@.len() as int;
                    assert forall|k: Card| #[trigger] self.holds(k) == (before.holds(k) || k == card) by {
                        if before.holds(k) {
                            let j = before.index_of(k);
                            assert(self.entries@[j].card == k);
                        }
                        if k == card {
                            assert(self.entries@[n].card == k);
                        }
                        if self.holds(k) && k != card {
                            let j = self.index_of(k);
                            assert(before.entries@[j].card == k);
                        }
                    }
                    assert forall|k: Card| self.holds(k) implies self@[k] == #[trigger] before@.insert(
                        card,
                        count as nat,
                    )[k] by {
                        let j = self.index_of(k);
                        self.lemma_index_of(j);
                        if j < n {
                            before.lemma_index_of(j);
                        }
                    }
                    assert(self@ =~= before@.insert(card, count as nat));
                }
            },
        }
    }

    /// The pile of `card`, if the supply has one.
    pub fn get(&self, card: Card) -> (r: Option<&SupplyEntry>)
        requires
            self.wf(),
        ensures
            r.is_none() == !self@.contains_key(card),
            r.is_some() ==> r.unwrap().card == card && r.unwrap().count == self@[card],
    {
        match self.find(card) {
            Some(i) => {
                proof {
                    self.lemma_index_of(i as int);
                }
                Some(&self.entries[i])
            },
            None => None,
        }
    }

    /// The pile of `card` to change in place, if the supply has one. A caller
    /// that changes the entry's card must keep the cards of the piles distinct.
    pub fn get_mut(&mut self, card: Card) -> (r: Option<&mut SupplyEntry>)
        requires
            old(self).wf(),
        ensures
            r.is_none() == !old(self)@.contains_key(card),
            r.is_none() ==> *final(self) == *old(self),
            r.is_some() ==> r.unwrap().card == card && r.unwrap().count == old(self)@[card],
            r.is_some() ==> final(self).entries@ == old(self).entries@.update(old(self).index_of(card), *final(r.unwrap())),
    {
        match self.find(card) {
            Some(i) => {
                proof {
                    self.lemma_index_of(i as int);
                }
                Some(&mut self.entries[i])
            },
            None => None,
        }
    }

    /// The copies left of `card`; zero where the supply has no pile of it.
    pub fn count(&self, card: Card) -> (r: usize)
        requires
            self.wf(),
        ensures
            r == self.pile(card),
    {
        match self.get(card) {
            Some(entry) => entry.count,
            None => 0,
        }
    }

    /// Takes one copy of `card` from its pile.
    pub fn take_one(&mut self, card: Card)
        requires
            old(self).wf(),
            old(self).pile(card) > 0,
        ensures
            final(self).wf(),
            final(self)@ == old(self)@.insert(card, (old(self).pile(card) - 1) as nat),
            final(self).total() + 1 == old(self).total(),
    {
        let i = self.find(card).unwrap();
        let ghost before = *self;
        proof {
            before.lemma_index_of(i as int);
        }
        let entry = SupplyEntry { card, count: self.entries[i].count - 1 };
        self.entries.set(i, entry);
        proof {
            lemma_total_update(before.entries@, i as int, entry);
            assert forall|k: Card| #[trigger] self.holds(k) == before.holds(k) by {
                if before.holds(k) {
                    let j = before.index_of(k);
                    assert(self.entries@[j].card == k);
                }
                if self.holds(k) {
                    let j = self.index_of(k);
                    assert(before.entries@[j].card == k);
                }
            }
            assert forall|k: Card| before.holds(k) implies self@[k] == #[trigger] before@.insert(
                card,
                (before.pile(card) - 1) as nat,
            )[k] by {
                let j = before.index_of(k);
                before.lemma_index_of(j);
                self.lemma_index_of(j);
            }
            assert(self@ =~= before@.insert(card, (before.pile(card) - 1) as nat));
        }
    }
}

impl Default for Supply {
    fn default() -> (r: Supply)
        ensures
            r.wf(),
            r@ == Map::<Card, nat>::empty(),
    {
        Supply::new()
    }
}

} // verus!
