//! Tests of the single-line editor: one per documented behavior, with the
//! word-wise scans exercised on concrete text.

use line_input::input::{Input, KeyCode, KeyModifiers};

fn buf(s: &str) -> Vec<char> {
    s.chars().collect()
}

fn editor(s: &str, cursor: usize) -> Input {
    Input {
        value: buf(s),
        cursor,
    }
}

#[test]
fn new_starts_with_cursor_at_end() {
    let ed = Input::new(String::from("hello"));
    assert_eq!(ed.value, buf("hello"));
    assert_eq!(ed.cursor, 5);
}

#[test]
fn default_is_empty() {
    let ed = Input::default();
    assert_eq!(ed.value, buf(""));
    assert_eq!(ed.cursor, 0);
}

#[test]
fn insert_mid_line_places_char_and_advances() {
    let mut ed = editor("abc", 1);
    ed.handle_event(KeyCode::Char('x'), KeyModifiers::Plain);
    assert_eq!(ed.value, buf("axbc"));
    assert_eq!(ed.cursor, 2);
}

#[test]
fn insert_at_end_appends() {
    let mut ed = editor("abc", 3);
    ed.handle_event(KeyCode::Char('d'), KeyModifiers::Plain);
    assert_eq!(ed.value, buf("abcd"));
    assert_eq!(ed.cursor, 4);
}

#[test]
fn insert_with_shift_behaves_like_plain() {
    let mut ed = editor("abc", 0);
    ed.handle_event(KeyCode::Char('X'), KeyModifiers::Shift);
    assert_eq!(ed.value, buf("Xabc"));
    assert_eq!(ed.cursor, 1);
}

#[test]
fn backspace_removes_previous_char() {
    let mut ed = editor("abc", 2);
    ed.handle_event(KeyCode::Backspace, KeyModifiers::Plain);
    assert_eq!(ed.value, buf("ac"));
    assert_eq!(ed.cursor, 1);
}

#[test]
fn backspace_at_zero_is_noop() {
    let mut ed = editor("abc", 0);
    ed.handle_event(KeyCode::Backspace, KeyModifiers::Plain);
    assert_eq!(ed.value, buf("abc"));
    assert_eq!(ed.cursor, 0);
}

#[test]
fn delete_at_end_is_noop() {
    let mut ed = editor("abc", 3);
    ed.handle_event(KeyCode::Delete, KeyModifiers::Plain);
    assert_eq!(ed.value, buf("abc"));
    assert_eq!(ed.cursor, 3);
}

#[test]
fn delete_mid_line_is_noop() {
    // Forward delete only fires with the cursor at the end of the buffer,
    // so in the middle of the line it changes nothing.
    let mut ed = editor("abc", 1);
    ed.handle_event(KeyCode::Delete, KeyModifiers::Plain);
    assert_eq!(ed.value, buf("abc"));
    assert_eq!(ed.cursor, 1);
}

#[test]
fn left_moves_back_and_stops_at_zero() {
    let mut ed = editor("ab", 1);
    ed.handle_event(KeyCode::Left, KeyModifiers::Plain);
    assert_eq!(ed.cursor, 0);
    ed.handle_event(KeyCode::Left, KeyModifiers::Plain);
    assert_eq!(ed.cursor, 0);
    assert_eq!(ed.value, buf("ab"));
}

#[test]
fn right_moves_forward() {
    let mut ed = editor("ab", 0);
    ed.handle_event(KeyCode::Right, KeyModifiers::Plain);
    assert_eq!(ed.cursor, 1);
    assert_eq!(ed.value, buf("ab"));
}

#[test]
fn right_at_end_is_noop() {
    let mut ed = editor("ab", 2);
    ed.handle_event(KeyCode::Right, KeyModifiers::Plain);
    assert_eq!(ed.value, buf("ab"));
    assert_eq!(ed.cursor, 2);
}

#[test]
fn word_move_backward_lands_at_word_starts() {
    let mut ed = editor("the quick brown fox", 19);
    ed.handle_event(KeyCode::Left, KeyModifiers::Word);
    assert_eq!(ed.cursor, 16);
    ed.handle_event(KeyCode::Left, KeyModifiers::Word);
    assert_eq!(ed.cursor, 10);
    assert_eq!(ed.value, buf("the quick brown fox"));
}

#[test]
fn word_move_backward_to_start() {
    let mut ed = editor("the quick brown fox", 10);
    ed.handle_event(KeyCode::Left, KeyModifiers::Word);
    assert_eq!(ed.cursor, 4);
    ed.handle_event(KeyCode::Left, KeyModifiers::Word);
    assert_eq!(ed.cursor, 0);
    ed.handle_event(KeyCode::Left, KeyModifiers::Word);
    assert_eq!(ed.cursor, 0);
}

#[test]
fn word_delete_backward_removes_last_word() {
    let mut ed = editor("the quick brown fox", 19);
    ed.handle_event(KeyCode::Backspace, KeyModifiers::Word);
    assert_eq!(ed.value, buf("the quick brown "));
    assert_eq!(ed.cursor, 16);
}

#[test]
fn word_delete_backward_keeps_text_after_cursor() {
    let mut ed = editor("the quick brown fox", 9);
    ed.handle_event(KeyCode::Backspace, KeyModifiers::Word);
    assert_eq!(ed.value, buf("the  brown fox"));
    assert_eq!(ed.cursor, 4);
}

#[test]
fn word_delete_backward_at_zero_is_noop() {
    let mut ed = editor("the quick", 0);
    ed.handle_event(KeyCode::Backspace, KeyModifiers::Word);
    assert_eq!(ed.value, buf("the quick"));
    assert_eq!(ed.cursor, 0);
}

#[test]
fn word_move_forward_lands_on_next_word_char() {
    let mut ed = editor("the quick", 0);
    ed.handle_event(KeyCode::Right, KeyModifiers::Word);
    assert_eq!(ed.cursor, 4);
    assert_eq!(ed.value, buf("the quick"));
}

#[test]
fn word_move_forward_without_next_word_lands_at_end() {
    let mut ed = editor("the quick", 4);
    ed.handle_event(KeyCode::Right, KeyModifiers::Word);
    assert_eq!(ed.cursor, 9);
    ed.handle_event(KeyCode::Right, KeyModifiers::Word);
    assert_eq!(ed.cursor, 9);
}

#[test]
fn word_delete_forward_removes_word_and_following_boundary() {
    let mut ed = editor("the quick brown fox", 0);
    ed.handle_event(KeyCode::Delete, KeyModifiers::Word);
    assert_eq!(ed.value, buf("quick brown fox"));
    assert_eq!(ed.cursor, 0);
}

#[test]
fn word_delete_forward_mid_word() {
    let mut ed = editor("the quick brown fox", 5);
    ed.handle_event(KeyCode::Delete, KeyModifiers::Word);
    assert_eq!(ed.value, buf("the qbrown fox"));
    assert_eq!(ed.cursor, 5);
}

#[test]
fn word_delete_forward_at_end_is_noop() {
    let mut ed = editor("the quick", 9);
    ed.handle_event(KeyCode::Delete, KeyModifiers::Word);
    assert_eq!(ed.value, buf("the quick"));
    assert_eq!(ed.cursor, 9);
}

#[test]
fn unrecognized_key_or_modifier_is_ignored() {
    let mut ed = editor("abc", 1);
    ed.handle_event(KeyCode::Other, KeyModifiers::Plain);
    assert_eq!(ed.value, buf("abc"));
    assert_eq!(ed.cursor, 1);
    ed.handle_event(KeyCode::Char('x'), KeyModifiers::Other);
    assert_eq!(ed.value, buf("abc"));
    assert_eq!(ed.cursor, 1);
    ed.handle_event(KeyCode::Char('x'), KeyModifiers::Word);
    assert_eq!(ed.value, buf("abc"));
    assert_eq!(ed.cursor, 1);
}

#[test]
fn cursor_stays_in_bounds_over_a_mixed_sequence() {
    let mut ed = Input::new(String::from("the quick brown fox"));
    let events = [
        (KeyCode::Backspace, KeyModifiers::Word),
        (KeyCode::Left, KeyModifiers::Word),
        (KeyCode::Char('!'), KeyModifiers::Plain),
        (KeyCode::Right, KeyModifiers::Word),
        (KeyCode::Delete, KeyModifiers::Word),
        (KeyCode::Backspace, KeyModifiers::Plain),
        (KeyCode::Left, KeyModifiers::Plain),
        (KeyCode::Right, KeyModifiers::Plain),
        (KeyCode::Delete, KeyModifiers::Plain),
        (KeyCode::Char('z'), KeyModifiers::Shift),
    ];
    for (code, mods) in events {
        ed.handle_event(code, mods);
        assert!(ed.cursor <= ed.value.len());
    }
}

#[test]
fn unicode_insertion_and_deletion_count_codepoints() {
    // "cafe" followed by a combining acute accent: five codepoints, although
    // the accented letter displays as one character.
    let mut ed = Input::new(String::from("cafe\u{301}"));
    assert_eq!(ed.cursor, 5);
    ed.handle_event(KeyCode::Backspace, KeyModifiers::Plain);
    assert_eq!(ed.value, buf("cafe"));
    assert_eq!(ed.cursor, 4);
    ed.handle_event(KeyCode::Char('\u{301}'), KeyModifiers::Plain);
    assert_eq!(ed.value, buf("cafe\u{301}"));
    assert_eq!(ed.cursor, 5);
}

#[test]
fn unicode_cursor_movement_is_per_codepoint() {
    let mut ed = Input::new(String::from("a\u{301}b"));
    assert_eq!(ed.cursor, 3);
    ed.handle_event(KeyCode::Left, KeyModifiers::Plain);
    ed.handle_event(KeyCode::Left, KeyModifiers::Plain);
    assert_eq!(ed.cursor, 1);
    ed.handle_event(KeyCode::Char('x'), KeyModifiers::Plain);
    assert_eq!(ed.value, buf("ax\u{301}b"));
    assert_eq!(ed.cursor, 2);
}

#[test]
fn text_returns_the_buffer_as_a_string() {
    let ed = editor("the quick brown fox", 3);
    assert_eq!(ed.text(), String::from("the quick brown fox"));
    assert_eq!(ed.cursor_offset(), 3);
    let ed = editor("a\u{301}b", 0);
    assert_eq!(ed.text(), String::from("a\u{301}b"));
}
