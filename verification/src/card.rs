//! One study item and its review state machine.

use vstd::prelude::*;

use crate::date::{spec_day_number, spec_le, spec_plus_days, Date};
use crate::field::Field;
use crate::schedule::Schedule;

verus! {

/// The review outcome supplied by the user.
#[derive(Clone, Copy, Debug)]
pub enum Grade {
    Wrong,
    Difficult,
    Easy,
}

/// Which side of a card an operation addresses.
#[derive(Clone, Copy, Debug)]
pub enum Side {
    Front,
    Back,
}

/// One study item: two content sides plus scheduling state.  The tier
/// indexes the schedule's interval table; the due date decides when the
/// card next comes up for review.
pub struct Card {
    pub front: Field,
    pub back: Field,
    pub interval_tier: usize,
    pub due_date: Date,
}

/// The card a review with grade `g` at date `today` moves card `c` to:
/// Wrong resets the tier to zero and makes the card due immediately;
/// Difficult keeps the tier; Easy moves it one step up, capped at the
/// table's last tier.  Either of the latter two postpones the card by
/// the tier's configured interval.
pub open spec fn spec_review(c: Card, g: Grade, today: Date, s: Schedule) -> Card {
    match g {
        Grade::Wrong => (Card { interval_tier: 0, due_date: today, ..c }),
        Grade::Difficult => (Card {
            due_date: spec_plus_days(today, s.spec_interval(c.interval_tier as int) as nat),
            ..c
        }),
        Grade::Easy => {
            let t = s.spec_next_tier(c.interval_tier as int);
            (Card {
                interval_tier: t as usize,
                due_date: spec_plus_days(today, s.spec_interval(t) as nat),
                ..c
            })
        },
    }
}

impl Card {
    /// A card is due when its due date is on or before `today`.
    pub open spec fn spec_is_due(self, today: Date) -> bool {
        spec_le(self.due_date, today)
    }

    /// The tier stays within the configured table.
    pub open spec fn tier_ok(self, s: Schedule) -> bool {
        self.interval_tier as int <= s.spec_max_tier()
    }

    /// A fresh card: tier zero, due today.
    pub fn new(front: Field, back: Field, today: &Date) -> (c: Card)
        ensures
            c.front == front,
            c.back == back,
            c.interval_tier == 0,
            c.due_date == *today,
    {
        Card { front, back, interval_tier: 0, due_date: *today }
    }

    /// Whether the card is due at `today`.
    pub fn is_due(&self, today: &Date) -> (r: bool)
        ensures
            r == self.spec_is_due(*today),
    {
        self.due_date <= *today
    }

    /// Applies one review outcome to the card's scheduling state; the
    /// content sides stay untouched.
    pub fn review(&mut self, grade: Grade, today: &Date, schedule: &Schedule)
        requires
            today.valid(),
            schedule.wf(),
        ensures
            *final(self) == spec_review(*old(self), grade, *today, *schedule),
            grade matches Grade::Wrong ==> final(self).interval_tier == 0 && final(self).due_date
                == *today,
            final(self).front == old(self).front,
            final(self).back == old(self).back,
            old(self).tier_ok(*schedule) ==> final(self).tier_ok(*schedule),
            final(self).due_date.valid(),
            spec_le(*today, final(self).due_date),
    {
        match grade {
            Grade::Wrong => {
                self.interval_tier = 0;
                self.due_date = *today;
            },
            Grade::Difficult => {
                let n = schedule.interval(self.interval_tier);
                self.due_date = today.plus_days(n);
                proof {
                    Date::lemma_plus_days_day_number(*today, n as nat);
                    crate::date::lemma_day_number_bounded(*today);
                    crate::date::lemma_le_iff_day_number_le(*today, self.due_date);
                }
            },
            Grade::Easy => {
                let max = schedule.max_tier();
                let t = if self.interval_tier < max {
                    self.interval_tier + 1
                } else {
                    max
                };
                self.interval_tier = t;
                let n = schedule.interval(t);
                self.due_date = today.plus_days(n);
                proof {
                    Date::lemma_plus_days_day_number(*today, n as nat);
                    crate::date::lemma_day_number_bounded(*today);
                    crate::date::lemma_le_iff_day_number_le(*today, self.due_date);
                }
            },
        }
    }

    /// Replaces the text of both sides; scheduling state and audio
    /// references stay untouched.
    pub fn edit(&mut self, front_text: String, back_text: String)
        ensures
            final(self).front.text == front_text,
            final(self).back.text == back_text,
            final(self).front.audio_path == old(self).front.audio_path,
            final(self).back.audio_path == old(self).back.audio_path,
            final(self).interval_tier == old(self).interval_tier,
            final(self).due_date == old(self).due_date,
    {
        self.front.text = front_text;
        self.back.text = back_text;
    }

    /// Stores an audio handle on the named side; nothing else changes.
    pub fn set_audio(&mut self, side: Side, handle: String)
        ensures
            match side {
                Side::Front => final(self).front.audio_path == Some(handle) && final(self).back
                    == old(self).back && final(self).front.text == old(self).front.text,
                Side::Back => final(self).back.audio_path == Some(handle) && final(self).front
                    == old(self).front && final(self).back.text == old(self).back.text,
            },
            final(self).interval_tier == old(self).interval_tier,
            final(self).due_date == old(self).due_date,
    {
        match side {
            Side::Front => {
                self.front.audio_path = Some(handle);
            },
            Side::Back => {
                self.back.audio_path = Some(handle);
            },
        }
    }

    /// Clears the audio handle of the named side; nothing else changes.
    pub fn clear_audio(&mut self, side: Side)
        ensures
            match side {
                Side::Front => final(self).front.audio_path is None && final(self).back == old(
                    self,
                ).back && final(self).front.text == old(self).front.text,
                Side::Back => final(self).back.audio_path is None && final(self).front == old(
                    self,
                ).front && final(self).back.text == old(self).back.text,
            },
            final(self).interval_tier == old(self).interval_tier,
            final(self).due_date == old(self).due_date,
    {
        match side {
            Side::Front => {
                self.front.audio_path = None;
            },
            Side::Back => {
                self.back.audio_path = None;
            },
        }
    }

    /// Whether the named side carries an audio handle.
    pub fn has_audio(&self, side: Side) -> (r: bool)
        ensures
            r == match side {
                Side::Front => self.front.audio_path is Some,
                Side::Back => self.back.audio_path is Some,
            },
    {
        match side {
            Side::Front => self.front.audio_path.is_some(),
            Side::Back => self.back.audio_path.is_some(),
        }
    }
}

/// Over two successive Easy reviews (the second at the same date or
/// later) the due date moves forward or stays equal, never backward: the
/// tier never drops, so the configured interval never shrinks.
pub proof fn lemma_easy_due_monotone(c: Card, t1: Date, t2: Date, s: Schedule)
    requires
        s.wf(),
        c.tier_ok(s),
        t1.valid(),
        t2.valid(),
        spec_day_number(t1) <= spec_day_number(t2),
    ensures
        ({
            let c1 = spec_review(c, Grade::Easy, t1, s);
            let c2 = spec_review(c1, Grade::Easy, t2, s);
            &&& spec_day_number(c1.due_date) <= spec_day_number(c2.due_date)
            &&& spec_le(c1.due_date, c2.due_date)
        }),
{
    let len = s.intervals@.len() as int;
    vstd::std_specs::vec::axiom_spec_len(&s.intervals);
    assert(len <= usize::MAX);
    let tier1 = s.spec_next_tier(c.interval_tier as int);
    assert(0 <= tier1 < len);
    let c1 = spec_review(c, Grade::Easy, t1, s);
    assert(c1.interval_tier as int == tier1);
    let tier2 = s.spec_next_tier(tier1);
    assert(tier1 <= tier2 < len);
    s.lemma_interval_monotone(tier1, tier2);
    Date::lemma_plus_days_day_number(t1, s.spec_interval(tier1) as nat);
    Date::lemma_plus_days_day_number(t2, s.spec_interval(tier2) as nat);
    let c2 = spec_review(c1, Grade::Easy, t2, s);
    assert(c2.due_date == spec_plus_days(t2, s.spec_interval(tier2) as nat));
    crate::date::lemma_le_iff_day_number_le(c1.due_date, c2.due_date);
}

} // verus!
