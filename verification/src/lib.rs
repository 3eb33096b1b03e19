//! A verified single-line text-editing component for terminal applications.
//!
//! The library owns a character buffer and a cursor offset, both counted in
//! Unicode codepoints, and mutates them in response to decoded key events:
//! character insertion, character and word deletion, and character and word
//! cursor movement. Terminal rendering and the event loop live outside the
//! library; they read the buffer and cursor through the public interface.

pub mod app;
pub mod handler;
pub mod input;
