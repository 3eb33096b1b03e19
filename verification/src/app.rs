//! The application state around the editor: a running flag, the editor
//! itself, and the index of the word being typed.

use vstd::prelude::*;
use crate::input::Input;

verus! {

/// The text the application seeds the editor with at start.
pub open spec fn initial_text() -> Seq<char> {
    "the quick brown fox jumps over the lazy dog"@
}

/// Application state.
#[derive(Debug)]
pub struct App {
    /// Is the application running?
    pub running: bool,
    pub input: Input,
    pub word_index: usize,
}

impl App {
    /// The application is well formed when its editor is.
    pub open spec fn wf(self) -> bool {
        self.input.wf()
    }

    /// Constructs a new application: running, with the editor seeded with the
    /// initial text and the cursor at its end, and the word index at 0.
    pub fn new() -> (r: App)
        ensures
            r.wf(),
            r.running,
            r.input.value@ == initial_text(),
            r.input.cursor == initial_text().len(),
            r.word_index == 0,
    {
        App {
            running: true,
            input: Input::new("the quick brown fox jumps over the lazy dog".to_owned()),
            word_index: 0,
        }
    }

    /// Handles the tick event of the terminal.
    pub fn tick(&self) {
    }

    /// Sets running to false to quit the application; nothing else changes.
    pub fn quit(&mut self)
        ensures
            !final(self).running,
            final(self).input == old(self).input,
            final(self).word_index == old(self).word_index,
    {
        self.running = false;
    }
}

impl Default for App {
    /// The same state as `App::new`.
    fn default() -> (r: App)
        ensures
            r.wf(),
            r.running,
            r.input.value@ == initial_text(),
            r.input.cursor == initial_text().len(),
            r.word_index == 0,
    {
        App::new()
    }
}

} // verus!
