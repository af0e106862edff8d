use smart_learner::app::App;
use smart_learner::card::{Card, Grade, Side};
use smart_learner::date::{is_leap_year, month_length, Date};
use smart_learner::deck::Deck;
use smart_learner::field::Field;
use smart_learner::schedule::Schedule;

fn date(day: u8, month: u8, year: u16) -> Date {
    Date { day, month, year }
}

fn card(front: &str, back: &str, due: Date) -> Card {
    Card::new(
        Field::new(front.to_string()),
        Field::new(back.to_string()),
        &due,
    )
}

fn schedule() -> Schedule {
    Schedule::new(vec![0, 1, 3, 7]).unwrap()
}

#[test]
fn leap_year_boundaries() {
    assert!(!is_leap_year(&1900));
    assert!(is_leap_year(&2000));
    assert!(is_leap_year(&2024));
    assert!(!is_leap_year(&2023));
}

#[test]
fn month_lengths() {
    assert_eq!(month_length(&1, &2023), 31);
    assert_eq!(month_length(&2, &2023), 28);
    assert_eq!(month_length(&2, &2024), 29);
    assert_eq!(month_length(&2, &2000), 29);
    assert_eq!(month_length(&2, &1900), 28);
    assert_eq!(month_length(&4, &2023), 30);
    assert_eq!(month_length(&12, &2023), 31);
}

#[test]
fn difference_adjacent_year_boundary() {
    let a = date(31, 12, 2023);
    let b = date(1, 1, 2024);
    assert_eq!(a.difference(&b), 1);
}

#[test]
fn difference_is_symmetric() {
    let a = date(15, 6, 2021);
    let b = date(3, 2, 2024);
    assert_eq!(a.difference(&b), b.difference(&a));
    let c = date(31, 12, 2023);
    let d = date(1, 1, 2024);
    assert_eq!(c.difference(&d), d.difference(&c));
}

#[test]
fn difference_zero_only_on_equal_dates() {
    let a = date(29, 2, 2024);
    assert_eq!(a.difference(&a), 0);
    let b = date(1, 3, 2024);
    assert_ne!(a.difference(&b), 0);
}

#[test]
fn difference_across_february() {
    assert_eq!(date(28, 2, 2023).difference(&date(1, 3, 2023)), 1);
    assert_eq!(date(28, 2, 2024).difference(&date(1, 3, 2024)), 2);
    assert_eq!(date(1, 1, 2023).difference(&date(1, 1, 2024)), 365);
    assert_eq!(date(1, 1, 2024).difference(&date(1, 1, 2025)), 366);
}

#[test]
fn date_ordering() {
    assert!(date(1, 1, 2024) > date(31, 12, 2023));
    assert!(date(2, 5, 2024) < date(3, 5, 2024));
    assert!(date(2, 5, 2024) <= date(2, 5, 2024));
    assert_eq!(date(2, 5, 2024), date(2, 5, 2024));
    assert_ne!(date(2, 5, 2024), date(2, 6, 2024));
}

#[test]
fn plus_days_rolls_over() {
    assert_eq!(date(31, 12, 2023).plus_days(1), date(1, 1, 2024));
    assert_eq!(date(28, 2, 2024).plus_days(1), date(29, 2, 2024));
    assert_eq!(date(28, 2, 2024).plus_days(2), date(1, 3, 2024));
    assert_eq!(date(28, 2, 2023).plus_days(1), date(1, 3, 2023));
    assert_eq!(date(1, 1, 2024).plus_days(366), date(1, 1, 2025));
}

#[test]
fn plus_days_saturates_at_calendar_end() {
    let end = date(31, 12, u16::MAX);
    assert_eq!(end.plus_days(10), end);
}

#[test]
fn date_validity() {
    assert!(date(29, 2, 2024).is_valid());
    assert!(!date(29, 2, 2023).is_valid());
    assert!(!date(31, 4, 2023).is_valid());
    assert!(!date(0, 1, 2023).is_valid());
    assert!(!date(5, 13, 2023).is_valid());
}

#[test]
fn current_date_is_in_calendar_range() {
    let d = Date::current();
    assert!(1 <= d.day && d.day <= 31);
    assert!(1 <= d.month && d.month <= 12);
}

#[test]
fn schedule_accepts_only_usable_tables() {
    assert!(Schedule::new(vec![]).is_none());
    assert!(Schedule::new(vec![1, 2]).is_none());
    assert!(Schedule::new(vec![0, 3, 1]).is_none());
    assert!(Schedule::new(vec![0]).is_some());
    assert!(Schedule::new(vec![0, 0, 1, 1, 3]).is_some());
}

#[test]
fn schedule_interval_clamps_to_last_tier() {
    let s = schedule();
    assert_eq!(s.interval(0), 0);
    assert_eq!(s.interval(2), 3);
    assert_eq!(s.interval(3), 7);
    assert_eq!(s.interval(9), 7);
    assert_eq!(s.max_tier(), 3);
}

#[test]
fn new_card_is_due_today() {
    let today = date(5, 6, 2024);
    let c = card("f", "b", today);
    assert_eq!(c.interval_tier, 0);
    assert!(c.is_due(&today));
}

#[test]
fn wrong_review_resets_tier_and_makes_due_today() {
    let s = schedule();
    let today = date(5, 6, 2024);
    let mut c = card("f", "b", date(1, 1, 2024));
    c.review(Grade::Easy, &today, &s);
    assert_eq!(c.interval_tier, 1);
    c.review(Grade::Wrong, &today, &s);
    assert_eq!(c.interval_tier, 0);
    assert_eq!(c.due_date, today);
    assert!(c.is_due(&today));
}

#[test]
fn easy_review_raises_tier_and_postpones() {
    let s = schedule();
    let today = date(5, 6, 2024);
    let mut c = card("f", "b", today);
    c.review(Grade::Easy, &today, &s);
    assert_eq!(c.interval_tier, 1);
    assert_eq!(c.due_date, date(6, 6, 2024));
    assert!(!c.is_due(&today));
}

#[test]
fn repeated_easy_reviews_never_move_due_backward() {
    let s = schedule();
    let mut today = date(5, 6, 2024);
    let mut c = card("f", "b", today);
    let mut last_due = c.due_date;
    for _ in 0..6 {
        today = c.due_date;
        c.review(Grade::Easy, &today, &s);
        assert!(last_due <= c.due_date);
        last_due = c.due_date;
    }
    assert_eq!(c.interval_tier, 3);
}

#[test]
fn difficult_review_keeps_tier() {
    let s = schedule();
    let today = date(5, 6, 2024);
    let mut c = card("f", "b", today);
    c.review(Grade::Easy, &today, &s);
    c.review(Grade::Difficult, &today, &s);
    assert_eq!(c.interval_tier, 1);
    assert_eq!(c.due_date, date(6, 6, 2024));
}

#[test]
fn card_edit_touches_only_text() {
    let today = date(5, 6, 2024);
    let mut c = card("f", "b", today);
    c.set_audio(Side::Front, "clip.ogg".to_string());
    c.edit("front two".to_string(), "back two".to_string());
    assert_eq!(c.front.text, "front two");
    assert_eq!(c.back.text, "back two");
    assert_eq!(c.front.audio_path.as_deref(), Some("clip.ogg"));
    assert_eq!(c.interval_tier, 0);
    assert_eq!(c.due_date, today);
}

#[test]
fn card_audio_set_and_clear() {
    let today = date(5, 6, 2024);
    let mut c = card("f", "b", today);
    assert!(!c.has_audio(Side::Front));
    assert!(!c.has_audio(Side::Back));
    c.set_audio(Side::Back, "b.ogg".to_string());
    assert!(c.has_audio(Side::Back));
    assert!(!c.has_audio(Side::Front));
    c.clear_audio(Side::Back);
    assert!(!c.has_audio(Side::Back));
}

#[test]
fn due_card_prefers_earliest_sequence_position() {
    let today = date(10, 6, 2024);
    let mut deck = Deck::new("d".to_string());
    deck.add(card("A", "a", today));
    deck.add(card("B", "b", date(15, 6, 2024)));
    deck.add(card("C", "c", today));
    assert_eq!(deck.due_card(&today, None), Some(0));
}

#[test]
fn due_card_defers_just_reviewed_position() {
    let today = date(10, 6, 2024);
    let mut deck = Deck::new("d".to_string());
    deck.add(card("A", "a", today));
    deck.add(card("B", "b", date(15, 6, 2024)));
    deck.add(card("C", "c", today));
    assert_eq!(deck.due_card(&today, Some(0)), Some(2));
    assert_eq!(deck.due_card(&today, Some(2)), Some(0));
}

#[test]
fn due_card_reoffers_reviewed_when_alone() {
    let today = date(10, 6, 2024);
    let mut deck = Deck::new("d".to_string());
    deck.add(card("A", "a", today));
    deck.add(card("B", "b", date(15, 6, 2024)));
    assert_eq!(deck.due_card(&today, Some(0)), Some(0));
}

#[test]
fn due_card_none_when_nothing_due() {
    let today = date(10, 6, 2024);
    let mut deck = Deck::new("d".to_string());
    assert_eq!(deck.due_card(&today, None), None);
    deck.add(card("A", "a", date(11, 6, 2024)));
    assert_eq!(deck.due_card(&today, None), None);
}

#[test]
fn search_empty_query_matches_nothing() {
    let today = date(10, 6, 2024);
    let mut deck = Deck::new("d".to_string());
    deck.add(card("apple", "fruit", today));
    let r = deck.search(false, "".to_string());
    assert!(r.is_empty());
}

#[test]
fn search_finds_substrings_in_order() {
    let today = date(10, 6, 2024);
    let mut deck = Deck::new("d".to_string());
    deck.add(card("apple", "fruit", today));
    deck.add(card("banana", "fruit too", today));
    deck.add(card("avocado", "not a fruit?", today));
    let r = deck.search(false, "a".to_string());
    assert_eq!(r.len(), 3);
    assert_eq!(r[0], (0, "apple".to_string()));
    assert_eq!(r[1], (1, "banana".to_string()));
    assert_eq!(r[2], (2, "avocado".to_string()));
    let r = deck.search(false, "av".to_string());
    assert_eq!(r, vec![(2, "avocado".to_string())]);
    assert!(deck.search(false, "Apple".to_string()).is_empty());
}

#[test]
fn search_on_back_side() {
    let today = date(10, 6, 2024);
    let mut deck = Deck::new("d".to_string());
    deck.add(card("apple", "fruit", today));
    deck.add(card("banana", "fruit too", today));
    let r = deck.search(true, "too".to_string());
    assert_eq!(r, vec![(1, "fruit too".to_string())]);
}

#[test]
fn remove_invalidates_cached_positions() {
    let today = date(10, 6, 2024);
    let mut deck = Deck::new("d".to_string());
    deck.add(card("apple", "1", today));
    deck.add(card("banana", "2", today));
    deck.add(card("avocado", "3", today));
    let cached = deck.search(false, "avocado".to_string());
    assert_eq!(cached[0].0, 2);
    deck.remove(0);
    // The swap moved the last card into slot 0; the cached position 2 is
    // now out of bounds and must not be used again.
    assert_eq!(deck.cards.len(), 2);
    assert!(cached[0].0 >= deck.cards.len());
    let fresh = deck.search(false, "avocado".to_string());
    assert_eq!(fresh, vec![(0, "avocado".to_string())]);
}

#[test]
fn add_returns_insertion_position() {
    let today = date(10, 6, 2024);
    let mut deck = Deck::new("d".to_string());
    assert_eq!(deck.add(card("A", "a", today)), 0);
    assert_eq!(deck.add(card("B", "b", today)), 1);
}

#[test]
fn app_deck_and_card_flow() {
    let today = date(10, 6, 2024);
    let mut app = App::new(schedule());
    assert_eq!(app.current_deck_name(), "No decks");
    assert!(!app.create_card(&today));
    app.new_deck("spanish".to_string());
    assert_eq!(app.current_deck_name(), "spanish");
    assert!(app.create_card(&today));
    assert_eq!(app.card_front, "New front");
    assert_eq!(app.card_back, "New back");
    app.card_front = "hola".to_string();
    app.card_back = "hello".to_string();
    app.edit_card();
    assert_eq!(app.get_question(), "hola");
    assert_eq!(app.get_answer(), "hello");
}

#[test]
fn app_single_card_round_trip() {
    let today = date(10, 6, 2024);
    let mut app = App::new(schedule());
    app.new_deck("d".to_string());
    assert!(app.create_card(&today));
    app.current_card = None;
    let r = app.get_card_for_revision(&today);
    assert_eq!(r, (true, true));
    assert_eq!(app.get_question(), "New front");
}

#[test]
fn app_wrong_answer_is_not_repeated_while_others_are_due() {
    let today = date(10, 6, 2024);
    let mut app = App::new(schedule());
    app.new_deck("d".to_string());
    assert!(app.create_card(&today));
    assert!(app.create_card(&today));
    app.card_front = "second".to_string();
    app.edit_card();
    app.current_card = None;

    let r = app.get_card_for_revision(&today);
    assert_eq!(r, (true, true));
    assert_eq!(app.get_question(), "New front");
    app.card_revised(Grade::Wrong, &today);

    // The wrong answer left the card due today, but the other due card
    // comes first now.
    let r = app.get_card_for_revision(&today);
    assert_eq!(r, (true, true));
    assert_eq!(app.get_question(), "second");
    app.card_revised(Grade::Easy, &today);

    // Only the failed card is still due: it is re-offered.
    let r = app.get_card_for_revision(&today);
    assert_eq!(r, (true, true));
    assert_eq!(app.get_question(), "New front");
    app.card_revised(Grade::Easy, &today);

    let r = app.get_card_for_revision(&today);
    assert_eq!(r, (false, false));
}

#[test]
fn app_keeps_current_card_when_it_is_the_only_due_one() {
    let today = date(10, 6, 2024);
    let mut app = App::new(schedule());
    app.new_deck("d".to_string());
    assert!(app.create_card(&today));
    let r = app.get_card_for_revision(&today);
    // The just-created card is current and still the only due card, so
    // the selection keeps it without reloading.
    assert_eq!(r, (true, false));
}

#[test]
fn app_search_uses_buffers() {
    let today = date(10, 6, 2024);
    let mut app = App::new(schedule());
    assert!(app.search().is_empty());
    app.new_deck("d".to_string());
    assert!(app.create_card(&today));
    app.card_front = "uno".to_string();
    app.card_back = "one".to_string();
    app.edit_card();
    app.search_text = "un".to_string();
    app.back_search = false;
    let r = app.search();
    assert_eq!(r, vec![(0, "uno".to_string())]);
    app.back_search = true;
    assert!(app.search().is_empty());
    app.search_text = "ne".to_string();
    assert_eq!(app.search(), vec![(0, "one".to_string())]);
}

#[test]
fn app_delete_card_clears_current() {
    let today = date(10, 6, 2024);
    let mut app = App::new(schedule());
    app.new_deck("d".to_string());
    assert!(app.create_card(&today));
    assert!(app.create_card(&today));
    app.change_card(0);
    app.delete_card();
    assert_eq!(app.decks[0].cards.len(), 1);
    let r = app.get_card_for_revision(&today);
    assert_eq!(r, (true, true));
}

#[test]
fn app_audio_handles() {
    let today = date(10, 6, 2024);
    let mut app = App::new(schedule());
    app.new_deck("d".to_string());
    assert!(app.create_card(&today));
    assert!(!app.front_audio_exists());
    assert!(!app.back_audio_exists());
    assert_eq!(app.play_front_audio(), None);
    app.change_front_audio("word.ogg".to_string());
    assert!(app.front_audio_exists());
    assert!(!app.back_audio_exists());
    assert_eq!(app.play_front_audio(), Some("word.ogg".to_string()));
    app.change_back_audio("word-b.ogg".to_string());
    assert_eq!(app.play_back_audio(), Some("word-b.ogg".to_string()));
}

#[test]
fn app_out_of_range_deck_is_treated_as_no_deck() {
    let today = date(10, 6, 2024);
    let mut app = App::new(schedule());
    app.new_deck("d".to_string());
    app.current_deck = 3;
    assert_eq!(app.current_deck_name(), "No decks");
    assert_eq!(app.get_card_for_revision(&today), (false, false));
    assert!(app.search().is_empty());
    assert!(!app.create_card(&today));
}

#[test]
fn plus_days_zero_is_identity() {
    let d = date(29, 2, 2024);
    assert_eq!(d.plus_days(0), d);
}

#[test]
fn app_answer_empty_without_current_card() {
    let mut app = App::new(schedule());
    app.new_deck("d".to_string());
    assert_eq!(app.get_answer(), "");
    assert_eq!(app.get_question(), "");
}
