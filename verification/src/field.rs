//! One side of a flashcard.

use vstd::prelude::*;

verus! {

/// One side of a card: text content plus an optional opaque audio handle.
/// The engine never interprets the handle; it only stores and clears it,
/// and the audio collaborator resolves it to playable data.
pub struct Field {
    pub text: String,
    pub audio_path: Option<String>,
}

impl Field {
    /// A side with the given text and no audio.
    pub fn new(text: String) -> (f: Field)
        ensures
            f.text == text,
            f.audio_path is None,
    {
        Field { text, audio_path: None }
    }
}

} // verus!
