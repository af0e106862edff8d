//! Spaced-repetition flashcard engine: calendar arithmetic, per-card review
//! scheduling, due-card selection and in-deck text search, with machine-checked
//! contracts.

pub mod app;
pub mod card;
pub mod date;
pub mod deck;
pub mod field;
pub mod schedule;
pub mod text;
