//! Dispatch of decoded key events: application-level commands quit the
//! application; everything else goes to the editor.

use vstd::prelude::*;
use crate::app::App;
use crate::input::{step, KeyCode, KeyModifiers};

verus! {

/// Whether a decoded key event is an application-level quit command:
/// Escape with any modifiers, or the word modifier (control) together with
/// `c` or `C`.
pub open spec fn is_quit(code: KeyCode, modifiers: KeyModifiers) -> bool {
    ||| code is Esc
    ||| (modifiers is Word && (code == KeyCode::Char('c') || code == KeyCode::Char('C')))
}

/// Handles one decoded key event and updates the application state: a quit
/// command stops the application and leaves the editor alone; any other
/// event steps the editor and leaves the running flag alone.
pub fn handle_key_events(code: KeyCode, modifiers: KeyModifiers, app: &mut App)
    requires
        old(app).wf(),
    ensures
        final(app).wf(),
        final(app).word_index == old(app).word_index,
        is_quit(code, modifiers) ==> {
            &&& !final(app).running
            &&& final(app).input == old(app).input
        },
        !is_quit(code, modifiers) ==> {
            &&& final(app).running == old(app).running
            &&& final(app).input.value@ == step(
                old(app).input.value@,
                old(app).input.cursor as int,
                code,
                modifiers,
            ).0
            &&& final(app).input.cursor as int == step(
                old(app).input.value@,
                old(app).input.cursor as int,
                code,
                modifiers,
            ).1
        },
{
    match (modifiers, code) {
        (_, KeyCode::Esc) => {
            app.quit();
        },
        (KeyModifiers::Word, KeyCode::Char('c')) | (KeyModifiers::Word, KeyCode::Char('C')) => {
            app.quit();
        },
        _ => {
            app.input.handle_event(code, modifiers);
        },
    }
}

} // verus!
