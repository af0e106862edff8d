//! An ordered collection of cards: due-selection, text search, removal.
//!
//! A card's identity is its position in the sequence *at the time of
//! lookup*.  [`Deck::remove`] compacts by swapping the last card into the
//! freed slot, so every previously obtained position is invalid after a
//! removal and must be re-fetched.

use vstd::prelude::*;

use crate::card::Card;
use crate::date::Date;
use crate::text::{contains_seq, str_contains};

verus! {

/// A named, ordered collection of cards.  Order is insertion order; it
/// has no scheduling meaning but fixes iteration and search order.
pub struct Deck {
    pub name: String,
    pub cards: Vec<Card>,
}

/// The position a due-selection scan starting at `i` picks: the first
/// position at or after `i` that is due and not the skipped one.
pub open spec fn first_due_from(cards: Seq<Card>, today: Date, skip: int, i: int) -> Option<int>
    decreases cards.len() - i,
{
    if i < 0 || i >= cards.len() {
        None
    } else if i != skip && cards[i].spec_is_due(today) {
        Some(i)
    } else {
        first_due_from(cards, today, skip, i + 1)
    }
}

/// The position `after` names, when it is usable as a skip: in range,
/// otherwise no position is skipped.
pub open spec fn skip_index(cards: Seq<Card>, after: Option<usize>) -> int {
    match after {
        Some(p) => if p < cards.len() {
            p as int
        } else {
            -1
        },
        None => -1,
    }
}

/// The due-selection policy: the first due card in sequence order,
/// except that the just-reviewed position `after` is deferred — it is
/// picked only when no other card is due.
pub open spec fn spec_due_pick(cards: Seq<Card>, today: Date, after: Option<usize>) -> Option<
    int,
> {
    let skip = skip_index(cards, after);
    match first_due_from(cards, today, skip, 0) {
        Some(j) => Some(j),
        None => if 0 <= skip && cards[skip].spec_is_due(today) {
            Some(skip)
        } else {
            None
        },
    }
}

proof fn lemma_first_due_from_props(cards: Seq<Card>, today: Date, skip: int, i: int)
    requires
        0 <= i,
    ensures
        match first_due_from(cards, today, skip, i) {
            Some(j) => i <= j < cards.len() && j != skip && cards[j].spec_is_due(today)
                && forall|k: int|
                i <= k < j ==> k == skip || !cards[k].spec_is_due(today),
            None => forall|k: int|
                i <= k < cards.len() ==> k == skip || !cards[k].spec_is_due(today),
        },
    decreases cards.len() - i,
{
    if i < cards.len() {
        lemma_first_due_from_props(cards, today, skip, i + 1);
    }
}

/// What the due-selection policy guarantees: a pick is a due position;
/// no pick means nothing is due.
pub proof fn lemma_due_pick_sound(cards: Seq<Card>, today: Date, after: Option<usize>)
    ensures
        match spec_due_pick(cards, today, after) {
            Some(j) => 0 <= j < cards.len() && cards[j].spec_is_due(today),
            None => forall|k: int| 0 <= k < cards.len() ==> !cards[k].spec_is_due(today),
        },
{
    lemma_first_due_from_props(cards, today, skip_index(cards, after), 0);
}

/// Fairness without a skip: the policy picks the earliest due position.
pub proof fn lemma_due_pick_least(cards: Seq<Card>, today: Date)
    ensures
        match spec_due_pick(cards, today, None) {
            Some(j) => 0 <= j < cards.len() && cards[j].spec_is_due(today) && forall|k: int|
                0 <= k < j ==> !cards[k].spec_is_due(today),
            None => forall|k: int| 0 <= k < cards.len() ==> !cards[k].spec_is_due(today),
        },
{
    lemma_first_due_from_props(cards, today, -1, 0);
}

/// A just-reviewed card that is still due is not picked again while any
/// other card is due: the pick exists and differs from `p`.
pub proof fn lemma_due_pick_defers_reviewed(cards: Seq<Card>, today: Date, p: usize, q: int)
    requires
        p < cards.len(),
        0 <= q < cards.len(),
        q != p,
        cards[q].spec_is_due(today),
    ensures
        spec_due_pick(cards, today, Some(p)) is Some,
        spec_due_pick(cards, today, Some(p)) != Some(p as int),
{
    lemma_first_due_from_props(cards, today, p as int, 0);
}

/// Once no other card is due, a still-due just-reviewed card is offered
/// again.
pub proof fn lemma_due_pick_reoffers_reviewed(cards: Seq<Card>, today: Date, p: usize)
    requires
        p < cards.len(),
        cards[p as int].spec_is_due(today),
        forall|k: int| 0 <= k < cards.len() && k != p ==> !cards[k].spec_is_due(today),
    ensures
        spec_due_pick(cards, today, Some(p)) == Some(p as int),
{
    lemma_first_due_from_props(cards, today, p as int, 0);
}

/// A card created due at `today` (as [`crate::card::Card::new`] makes
/// it) is picked immediately by due-selection on a single-card deck.
pub proof fn lemma_new_card_immediately_due(c: Card, today: Date)
    requires
        c.due_date == today,
    ensures
        spec_due_pick(seq![c], today, None) == Some(0int),
{
    assert(c.spec_is_due(today));
    assert(first_due_from(seq![c], today, -1, 0) == Some(0int));
}

/// The text the search matches against and displays for a card.
pub open spec fn card_text(c: Card, back: bool) -> Seq<char> {
    if back {
        c.back.text@
    } else {
        c.front.text@
    }
}

/// Whether the search with query `q` over the chosen side selects card
/// `c`.  The empty query matches nothing.
pub open spec fn search_match(c: Card, back: bool, q: Seq<char>) -> bool {
    q.len() > 0 && contains_seq(card_text(c, back), q)
}

impl Deck {
    /// An empty deck with the given name.
    pub fn new(name: String) -> (d: Deck)
        ensures
            d.name == name,
            d.cards@.len() == 0,
    {
        Deck { name, cards: Vec::new() }
    }

    /// Appends a card; the returned position is its position at insertion
    /// time only, not a durable identity.
    pub fn add(&mut self, card: Card) -> (pos: usize)
        ensures
            final(self).cards@ == old(self).cards@.push(card),
            final(self).name == old(self).name,
            pos == old(self).cards@.len(),
    {
        let pos = self.cards.len();
        self.cards.push(card);
        pos
    }

    /// Removes the card at `position` by swapping the last card into its
    /// slot and shrinking.  Every previously obtained position is invalid
    /// afterwards.
    pub fn remove(&mut self, position: usize)
        requires
            position < old(self).cards@.len(),
        ensures
            final(self).cards@ == old(self).cards@.update(
                position as int,
                old(self).cards@.last(),
            ).drop_last(),
            final(self).name == old(self).name,
    {
        self.cards.swap_remove(position);
    }

    /// The position of the card to review next, or nothing when no card
    /// is due.  Scans in sequence order and prefers the earliest due
    /// card; a just-reviewed position handed in as `after` is deferred
    /// and returned only when no other card is due.
    pub fn due_card(&self, today: &Date, after: Option<usize>) -> (r: Option<usize>)
        ensures
            match r {
                Some(p) => spec_due_pick(self.cards@, *today, after) == Some(p as int),
                None => spec_due_pick(self.cards@, *today, after) is None,
            },
    {
        let ghost skip = skip_index(self.cards@, after);
        let n = self.cards.len();
        let skip_opt: Option<usize> = match after {
            Some(p) => if p < n {
                Some(p)
            } else {
                None
            },
            None => None,
        };
        let mut i: usize = 0;
        while i < n
            invariant
                i <= n,
                n == self.cards@.len(),
                skip == skip_index(self.cards@, after),
                (match skip_opt {
                    Some(p) => skip == p && p < n,
                    None => skip == -1,
                }),
                first_due_from(self.cards@, *today, skip, 0) == first_due_from(
                    self.cards@,
                    *today,
                    skip,
                    i as int,
                ),
            decreases n - i,
        {
            let skip_here = match skip_opt {
                Some(p) => p == i,
                None => false,
            };
            if !skip_here && self.cards[i].is_due(today) {
                return Some(i);
            }
            i = i + 1;
        }
        match skip_opt {
            Some(p) => {
                if self.cards[p].is_due(today) {
                    Some(p)
                } else {
                    None
                }
            },
            None => None,
        }
    }

    /// All cards whose chosen side's text contains `text`, as
    /// `(position, text of that side)` pairs in sequence order.  The
    /// match is case-sensitive, and the empty query matches nothing.
    /// Returned positions are valid only until the next mutation.
    pub fn search(&self, back_search: bool, text: String) -> (r: Vec<(usize, String)>)
        ensures
            forall|k: int|
                0 <= k < r@.len() ==> (#[trigger] r@[k]).0 < self.cards@.len() && search_match(
                    self.cards@[r@[k].0 as int],
                    back_search,
                    text@,
                ) && r@[k].1@ == card_text(self.cards@[r@[k].0 as int], back_search),
            forall|k1: int, k2: int| 0 <= k1 < k2 < r@.len() ==> r@[k1].0 < r@[k2].0,
            forall|i: int|
                0 <= i < self.cards@.len() && search_match(self.cards@[i], back_search, text@)
                    ==> exists|k: int| 0 <= k < r@.len() && (#[trigger] r@[k]).0 == i,
    {
        let mut r: Vec<(usize, String)> = Vec::new();
        let n = self.cards.len();
        let query_empty = text.as_str().unicode_len() == 0;
        let mut i: usize = 0;
        while i < n
            invariant
                i <= n,
                n == self.cards@.len(),
                query_empty == (text@.len() == 0),
                forall|k: int|
                    0 <= k < r@.len() ==> (#[trigger] r@[k]).0 < i && search_match(
                        self.cards@[r@[k].0 as int],
                        back_search,
                        text@,
                    ) && r@[k].1@ == card_text(self.cards@[r@[k].0 as int], back_search),
                forall|k1: int, k2: int| 0 <= k1 < k2 < r@.len() ==> r@[k1].0 < r@[k2].0,
                forall|j: int|
                    0 <= j < i && search_match(self.cards@[j], back_search, text@) ==> exists|
                        k: int,
                    | 0 <= k < r@.len() && (#[trigger] r@[k]).0 == j,
            decreases n - i,
        {
            let side_text = if back_search {
                &self.cards[i].back.text
            } else {
                &self.cards[i].front.text
            };
            if !query_empty && str_contains(side_text.as_str(), text.as_str()) {
                let ghost prev = r@;
                r.push((i, side_text.clone()));
                proof {
                    assert forall|j: int|
                        0 <= j < i + 1 && search_match(
                            self.cards@[j],
                            back_search,
                            text@,
                        ) implies exists|k: int|
                        0 <= k < r@.len() && (#[trigger] r@[k]).0 == j by {
                        if j == i {
                            assert(r@[r@.len() - 1].0 == j);
                        } else {
                            let k = choose|k: int| 0 <= k < prev.len() && (#[trigger] prev[k]).0
                                == j;
                            assert(r@[k].0 == j);
                        }
                    }
                }
            }
            i = i + 1;
        }
        r
    }
}

} // verus!
