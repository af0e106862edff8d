//! The study-session engine: a set of decks, a current deck, a current
//! card, and the edit/search buffers the presentation layer binds to.
//!
//! All operations are pure in-memory state transitions; the clock is
//! passed in explicitly (see [`crate::date::Date::current`] for the real
//! one), so sessions are reproducible with a fixed date.  Card positions
//! handed out by `search` and due-selection are transient: any mutation
//! of a deck invalidates them.

use vstd::prelude::*;

use crate::card::{Card, Grade, Side};
use crate::date::Date;
use crate::deck::{
    card_text, lemma_due_pick_sound, search_match, spec_due_pick, Deck,
};
use crate::field::Field;
use crate::schedule::Schedule;

verus! {

/// A study session over a set of decks.
pub struct App {
    pub schedule: Schedule,
    pub decks: Vec<Deck>,
    pub current_deck: usize,
    pub current_card: Option<usize>,
    pub card_front: String,
    pub card_back: String,
    pub search_text: String,
    pub back_search: bool,
}

/// Decks and cards of `b` agree with `a` except for card `c` of deck
/// `d`; deck names and counts are untouched.
pub open spec fn only_card_changed(a: App, b: App, d: int, c: int) -> bool {
    &&& b.decks@.len() == a.decks@.len()
    &&& forall|k: int| 0 <= k < a.decks@.len() && k != d ==> b.decks@[k] == a.decks@[k]
    &&& b.decks@[d].name == a.decks@[d].name
    &&& b.decks@[d].cards@.len() == a.decks@[d].cards@.len()
    &&& forall|k: int|
        0 <= k < a.decks@[d].cards@.len() && k != c ==> b.decks@[d].cards@[k]
            == a.decks@[d].cards@[k]
}

impl App {
    /// The session is usable: the schedule is a valid table and the
    /// current-card position, if any, points into the current deck.
    pub open spec fn wf(self) -> bool {
        &&& self.schedule.wf()
        &&& match self.current_card {
            Some(c) => self.current_deck < self.decks@.len() && (c as int)
                < self.decks@[self.current_deck as int].cards@.len(),
            None => true,
        }
    }

    /// The cards of the current deck.
    pub open spec fn cur_cards(self) -> Seq<Card> {
        self.decks@[self.current_deck as int].cards@
    }

    /// The card the session currently points at.
    pub open spec fn cur_card(self) -> Card {
        self.cur_cards()[self.current_card->Some_0 as int]
    }

    /// A fresh session with the given interval table and no decks.
    pub fn new(schedule: Schedule) -> (a: App)
        requires
            schedule.wf(),
        ensures
            a.schedule == schedule,
            a.decks@.len() == 0,
            a.current_deck == 0,
            a.current_card is None,
            a.card_front@.len() == 0,
            a.card_back@.len() == 0,
            a.search_text@.len() == 0,
            a.back_search == false,
            a.wf(),
    {
        App {
            schedule,
            decks: Vec::new(),
            current_deck: 0,
            current_card: None,
            card_front: String::new(),
            card_back: String::new(),
            search_text: String::new(),
            back_search: false,
        }
    }

    /// Appends a fresh empty deck with the given name.
    pub fn new_deck(&mut self, deck_name: String)
        ensures
            final(self).decks@.len() == old(self).decks@.len() + 1,
            forall|k: int|
                0 <= k < old(self).decks@.len() ==> final(self).decks@[k] == old(self).decks@[k],
            final(self).decks@.last().name == deck_name,
            final(self).decks@.last().cards@.len() == 0,
            final(self).schedule == old(self).schedule,
            final(self).current_deck == old(self).current_deck,
            final(self).current_card == old(self).current_card,
            final(self).card_front == old(self).card_front,
            final(self).card_back == old(self).card_back,
            final(self).search_text == old(self).search_text,
            final(self).back_search == old(self).back_search,
            old(self).wf() ==> final(self).wf(),
    {
        let d = Deck::new(deck_name);
        self.decks.push(d);
    }

    /// Makes `card_index` of the current deck the current card and loads
    /// its text into the edit buffers.
    pub fn change_card(&mut self, card_index: usize)
        requires
            old(self).wf(),
            old(self).current_deck < old(self).decks@.len(),
            (card_index as int) < old(self).decks@[old(self).current_deck as int].cards@.len(),
        ensures
            final(self).current_card == Some(card_index),
            final(self).card_front@ == old(self).cur_cards()[card_index as int].front.text@,
            final(self).card_back@ == old(self).cur_cards()[card_index as int].back.text@,
            final(self).decks == old(self).decks,
            final(self).schedule == old(self).schedule,
            final(self).current_deck == old(self).current_deck,
            final(self).search_text == old(self).search_text,
            final(self).back_search == old(self).back_search,
            final(self).wf(),
    {
        self.current_card = Some(card_index);
        self.card_front = self.decks[self.current_deck].cards[card_index].front.text.clone();
        self.card_back = self.decks[self.current_deck].cards[card_index].back.text.clone();
    }

    /// Picks the next card to review in the current deck and makes it
    /// current.  Returns `(a card is available, it differs from the one
    /// already current)`.  The previously current position is handed to
    /// the due-selection as the just-reviewed card, so it is deferred
    /// while any other card is due.  With no usable current deck nothing
    /// is available.
    pub fn get_card_for_revision(&mut self, today: &Date) -> (r: (bool, bool))
        requires
            old(self).wf(),
        ensures
            final(self).wf(),
            final(self).schedule == old(self).schedule,
            final(self).decks == old(self).decks,
            final(self).current_deck == old(self).current_deck,
            final(self).search_text == old(self).search_text,
            final(self).back_search == old(self).back_search,
            old(self).current_deck as int >= old(self).decks@.len() ==> r == (false, false)
                && final(self).current_card is None && final(self).card_front == old(self).card_front && final(self).card_back == old(self).card_back,
            (old(self).current_deck as int) < old(self).decks@.len() ==> match spec_due_pick(
                old(self).cur_cards(),
                *today,
                old(self).current_card,
            ) {
                Some(j) => final(self).current_card matches Some(c) && c as int == j && (if old(self).current_card == Some(j as usize) {
                    r == (true, false) && final(self).card_front == old(self).card_front && final(self).card_back == old(self).card_back
                } else {
                    r == (true, true) && final(self).card_front@ == old(self).cur_cards()[j].front.text@
                        && final(self).card_back@ == old(self).cur_cards()[j].back.text@
                }),
                None => r == (false, false) && final(self).current_card is None && final(self).card_front == old(self).card_front && final(self).card_back == old(self).card_back,
            },
    {
        if self.current_deck >= self.decks.len() {
            self.current_card = None;
            return (false, false);
        }
        let after = self.current_card;
        let pick = self.decks[self.current_deck].due_card(today, after);
        proof {
            lemma_due_pick_sound(self.decks@[self.current_deck as int].cards@, *today, after);
        }
        match pick {
            Some(j) => {
                let same = match after {
                    Some(p) => p == j,
                    None => false,
                };
                if same {
                    (true, false)
                } else {
                    self.change_card(j);
                    (true, true)
                }
            },
            None => {
                self.current_card = None;
                (false, false)
            },
        }
    }

    /// The back text of the current card, or empty when none is current.
    pub fn get_answer(&self) -> (r: String)
        requires
            self.wf(),
        ensures
            r@ == match self.current_card {
                Some(_) => self.cur_card().back.text@,
                None => Seq::<char>::empty(),
            },
    {
        match self.current_card {
            Some(c) => self.decks[self.current_deck].cards[c].back.text.clone(),
            None => String::new(),
        }
    }

    /// The front text of the current card, or empty when none is current.
    pub fn get_question(&self) -> (r: String)
        requires
            self.wf(),
        ensures
            r@ == match self.current_card {
                Some(_) => self.cur_card().front.text@,
                None => Seq::<char>::empty(),
            },
    {
        match self.current_card {
            Some(c) => self.decks[self.current_deck].cards[c].front.text.clone(),
            None => String::new(),
        }
    }

    /// The current deck's name, or a placeholder when there is none.
    pub fn current_deck_name(&self) -> (r: String)
        ensures
            r@ == if (self.current_deck as int) < self.decks@.len() {
                self.decks@[self.current_deck as int].name@
            } else {
                "No decks"@
            },
    {
        if self.current_deck < self.decks.len() {
            self.decks[self.current_deck].name.clone()
        } else {
            String::from_str("No decks")
        }
    }

    /// Appends a fresh placeholder card (tier zero, due today) to the
    /// current deck and makes it current.  Fails, clearing the current
    /// card, when there is no usable current deck.
    pub fn create_card(&mut self, today: &Date) -> (r: bool)
        requires
            old(self).wf(),
        ensures
            final(self).wf(),
            r == ((old(self).current_deck as int) < old(self).decks@.len()),
            final(self).schedule == old(self).schedule,
            final(self).current_deck == old(self).current_deck,
            final(self).search_text == old(self).search_text,
            final(self).back_search == old(self).back_search,
            !r ==> final(self).current_card is None && final(self).decks == old(self).decks
                && final(self).card_front == old(self).card_front && final(self).card_back == old(self).card_back,
            r ==> ({
                let d = old(self).current_deck as int;
                let n = old(self).cur_cards().len() as int;
                &&& final(self).decks@.len() == old(self).decks@.len()
                &&& forall|k: int| 0 <= k < old(self).decks@.len() && k != d ==> final(self).decks@[k] == old(self).decks@[k]
                &&& final(self).decks@[d].name == old(self).decks@[d].name
                &&& final(self).cur_cards().len() == n + 1
                &&& forall|k: int| 0 <= k < n ==> final(self).cur_cards()[k] == old(self).cur_cards()[k]
                &&& final(self).cur_cards().last().front.text@ == "New front"@
                &&& final(self).cur_cards().last().front.audio_path is None
                &&& final(self).cur_cards().last().back.text@ == "New back"@
                &&& final(self).cur_cards().last().back.audio_path is None
                &&& final(self).cur_cards().last().interval_tier == 0
                &&& final(self).cur_cards().last().due_date == *today
                &&& final(self).current_card matches Some(c) && c as int == n
                &&& final(self).card_front@ == "New front"@
                &&& final(self).card_back@ == "New back"@
            }),
    {
        if self.current_deck >= self.decks.len() {
            self.current_card = None;
            return false;
        }
        let front = Field::new(String::from_str("New front"));
        let back = Field::new(String::from_str("New back"));
        let card = Card::new(front, back, today);
        let d = self.current_deck;
        let pos = self.decks[d].add(card);
        self.change_card(pos);
        true
    }

    /// Writes the edit buffers back into the current card's text;
    /// scheduling state and audio handles stay untouched.
    pub fn edit_card(&mut self)
        requires
            old(self).wf(),
            old(self).current_card is Some,
        ensures
            final(self).wf(),
            only_card_changed(
                *old(self),
                *final(self),
                old(self).current_deck as int,
                old(self).current_card->Some_0 as int,
            ),
            final(self).cur_card().front.text@ == old(self).card_front@,
            final(self).cur_card().back.text@ == old(self).card_back@,
            final(self).cur_card().front.audio_path == old(self).cur_card().front.audio_path,
            final(self).cur_card().back.audio_path == old(self).cur_card().back.audio_path,
            final(self).cur_card().interval_tier == old(self).cur_card().interval_tier,
            final(self).cur_card().due_date == old(self).cur_card().due_date,
            final(self).schedule == old(self).schedule,
            final(self).current_deck == old(self).current_deck,
            final(self).current_card == old(self).current_card,
            final(self).card_front == old(self).card_front,
            final(self).card_back == old(self).card_back,
            final(self).search_text == old(self).search_text,
            final(self).back_search == old(self).back_search,
    {
        let d = self.current_deck;
        let c = self.current_card.unwrap();
        let ft = self.card_front.clone();
        let bt = self.card_back.clone();
        self.decks[d].cards[c].edit(ft, bt);
    }

    /// All cards of the current deck whose chosen side contains the
    /// search text, in sequence order; empty when there is no usable
    /// current deck.  The returned positions are invalid after any
    /// mutation of the deck.
    pub fn search(&self) -> (r: Vec<(usize, String)>)
        ensures
            (self.current_deck as int) < self.decks@.len() ==> {
                let cards = self.cur_cards();
                &&& forall|k: int|
                    0 <= k < r@.len() ==> (#[trigger] r@[k]).0 < cards.len() && search_match(
                        cards[r@[k].0 as int],
                        self.back_search,
                        self.search_text@,
                    ) && r@[k].1@ == card_text(cards[r@[k].0 as int], self.back_search)
                &&& forall|k1: int, k2: int| 0 <= k1 < k2 < r@.len() ==> r@[k1].0 < r@[k2].0
                &&& forall|i: int|
                    0 <= i < cards.len() && search_match(cards[i], self.back_search, self.search_text@)
                        ==> exists|k: int| 0 <= k < r@.len() && (#[trigger] r@[k]).0 == i
            },
            self.current_deck as int >= self.decks@.len() ==> r@.len() == 0,
    {
        if self.current_deck >= self.decks.len() {
            return Vec::new();
        }
        self.decks[self.current_deck].search(self.back_search, self.search_text.clone())
    }

    /// Applies a review outcome to the current card's scheduling state.
    pub fn card_revised(&mut self, grade: Grade, today: &Date)
        requires
            old(self).wf(),
            old(self).current_card is Some,
            today.valid(),
        ensures
            final(self).wf(),
            only_card_changed(
                *old(self),
                *final(self),
                old(self).current_deck as int,
                old(self).current_card->Some_0 as int,
            ),
            final(self).cur_card() == crate::card::spec_review(
                old(self).cur_card(),
                grade,
                *today,
                old(self).schedule,
            ),
            final(self).schedule == old(self).schedule,
            final(self).current_deck == old(self).current_deck,
            final(self).current_card == old(self).current_card,
            final(self).card_front == old(self).card_front,
            final(self).card_back == old(self).card_back,
            final(self).search_text == old(self).search_text,
            final(self).back_search == old(self).back_search,
    {
        let d = self.current_deck;
        let c = self.current_card.unwrap();
        self.decks[d].cards[c].review(grade, today, &self.schedule);
    }

    /// Removes the current card from the current deck (swapping the last
    /// card into its slot) and clears the current card.  All previously
    /// obtained positions are invalid afterwards.
    pub fn delete_card(&mut self)
        requires
            old(self).wf(),
            old(self).current_card is Some,
        ensures
            final(self).wf(),
            final(self).current_card is None,
            final(self).decks@.len() == old(self).decks@.len(),
            forall|k: int|
                0 <= k < old(self).decks@.len() && k != old(self).current_deck as int ==> final(self).decks@[k] == old(self).decks@[k],
            final(self).decks@[old(self).current_deck as int].name == old(self).decks@[old(self).current_deck as int].name,
            final(self).cur_cards() == old(self).cur_cards().update(
                old(self).current_card->Some_0 as int,
                old(self).cur_cards().last(),
            ).drop_last(),
            final(self).schedule == old(self).schedule,
            final(self).current_deck == old(self).current_deck,
            final(self).card_front == old(self).card_front,
            final(self).card_back == old(self).card_back,
            final(self).search_text == old(self).search_text,
            final(self).back_search == old(self).back_search,
    {
        let d = self.current_deck;
        let c = self.current_card.unwrap();
        self.decks[d].remove(c);
        self.current_card = None;
    }

    /// The audio handle to hand to the audio collaborator for the
    /// current card's front side, if it has one.
    pub fn play_front_audio(&self) -> (r: Option<String>)
        requires
            self.wf(),
            self.current_card is Some,
        ensures
            match self.cur_card().front.audio_path {
                Some(p) => r matches Some(s) && s@ == p@,
                None => r is None,
            },
    {
        match &self.decks[self.current_deck].cards[self.current_card.unwrap()].front.audio_path {
            Some(p) => Some(p.clone()),
            None => None,
        }
    }

    /// The audio handle to hand to the audio collaborator for the
    /// current card's back side, if it has one.
    pub fn play_back_audio(&self) -> (r: Option<String>)
        requires
            self.wf(),
            self.current_card is Some,
        ensures
            match self.cur_card().back.audio_path {
                Some(p) => r matches Some(s) && s@ == p@,
                None => r is None,
            },
    {
        match &self.decks[self.current_deck].cards[self.current_card.unwrap()].back.audio_path {
            Some(p) => Some(p.clone()),
            None => None,
        }
    }

    /// Stores an audio handle on the current card's front side.  The
    /// handle is an opaque reference; any file work behind it belongs to
    /// the audio collaborator.
    pub fn change_front_audio(&mut self, path: String)
        requires
            old(self).wf(),
            old(self).current_card is Some,
        ensures
            final(self).wf(),
            only_card_changed(
                *old(self),
                *final(self),
                old(self).current_deck as int,
                old(self).current_card->Some_0 as int,
            ),
            final(self).cur_card().front.audio_path == Some(path),
            final(self).cur_card().front.text == old(self).cur_card().front.text,
            final(self).cur_card().back == old(self).cur_card().back,
            final(self).cur_card().interval_tier == old(self).cur_card().interval_tier,
            final(self).cur_card().due_date == old(self).cur_card().due_date,
            final(self).schedule == old(self).schedule,
            final(self).current_deck == old(self).current_deck,
            final(self).current_card == old(self).current_card,
            final(self).card_front == old(self).card_front,
            final(self).card_back == old(self).card_back,
            final(self).search_text == old(self).search_text,
            final(self).back_search == old(self).back_search,
    {
        let d = self.current_deck;
        let c = self.current_card.unwrap();
        self.decks[d].cards[c].set_audio(Side::Front, path);
    }

    /// Stores an audio handle on the current card's back side.
    pub fn change_back_audio(&mut self, path: String)
        requires
            old(self).wf(),
            old(self).current_card is Some,
        ensures
            final(self).wf(),
            only_card_changed(
                *old(self),
                *final(self),
                old(self).current_deck as int,
                old(self).current_card->Some_0 as int,
            ),
            final(self).cur_card().back.audio_path == Some(path),
            final(self).cur_card().back.text == old(self).cur_card().back.text,
            final(self).cur_card().front == old(self).cur_card().front,
            final(self).cur_card().interval_tier == old(self).cur_card().interval_tier,
            final(self).cur_card().due_date == old(self).cur_card().due_date,
            final(self).schedule == old(self).schedule,
            final(self).current_deck == old(self).current_deck,
            final(self).current_card == old(self).current_card,
            final(self).card_front == old(self).card_front,
            final(self).card_back == old(self).card_back,
            final(self).search_text == old(self).search_text,
            final(self).back_search == old(self).back_search,
    {
        let d = self.current_deck;
        let c = self.current_card.unwrap();
        self.decks[d].cards[c].set_audio(Side::Back, path);
    }

    /// Whether the current card's front side carries an audio handle.
    pub fn front_audio_exists(&self) -> (r: bool)
        requires
            self.wf(),
            self.current_card is Some,
        ensures
            r == (self.cur_card().front.audio_path is Some),
    {
        self.decks[self.current_deck].cards[self.current_card.unwrap()].front.audio_path.is_some()
    }

    /// Whether the current card's back side carries an audio handle.
    pub fn back_audio_exists(&self) -> (r: bool)
        requires
            self.wf(),
            self.current_card is Some,
        ensures
            r == (self.cur_card().back.audio_path is Some),
    {
        self.decks[self.current_deck].cards[self.current_card.unwrap()].back.audio_path.is_some()
    }
}

} // verus!
