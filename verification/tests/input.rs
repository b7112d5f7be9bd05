//! Text fields.
use solite::input::{InputState, InputType};
use std::time::{Duration, Instant};

#[test]
fn insert_typed_chars_grow_value() {
    let mut s = InputState::default();
    assert!(s.insert('h'));
    assert!(s.insert('i'));
    assert_eq!(s.value(), "hi");
    assert_eq!(s.caret(), 2);
}

#[test]
fn backspace_deletes_previous_char() {
    let mut s = InputState::default();
    s.set_value("ab");
    assert!(s.backspace());
    assert_eq!(s.value(), "a");
    assert_eq!(s.caret(), 1);
    assert!(s.backspace());
    assert_eq!(s.value(), "");
    assert!(!s.backspace(), "no-op at start of field");
}

#[test]
fn arrows_clamp_at_ends() {
    let mut s = InputState::default();
    s.set_value("abc");
    assert!(!s.move_right(), "already at end");
    assert!(s.move_left());
    assert!(s.move_left());
    assert!(s.move_left());
    assert!(!s.move_left(), "already at start");
    assert_eq!(s.caret(), 0);
}

#[test]
fn multibyte_caret_uses_char_boundaries() {
    let mut s = InputState::default();
    s.insert_str("héllo");
    assert_eq!(s.caret(), 5);
    s.move_left();
    s.backspace();
    assert_eq!(s.value(), "hélo");
    s.move_left();
    s.backspace();
    assert_eq!(s.value(), "hlo");
    assert_eq!(s.caret(), 1);
}

#[test]
fn readonly_blocks_edits_but_allows_caret() {
    let mut s = InputState::default();
    s.set_value("hi");
    s.set_readonly(true);
    assert!(!s.insert('x'));
    assert!(!s.backspace());
    assert!(s.move_left(), "caret movement is still allowed");
}

#[test]
fn render_keeps_caret_out_of_text() {
    let mut s = InputState::default();
    s.set_value("ab");
    let (text, ph) = s.render(true);
    assert_eq!(text, "ab");
    assert!(!ph);
}

#[test]
fn render_shows_placeholder_when_empty() {
    let mut s = InputState::default();
    s.set_placeholder(Some("type here".into()));
    let (text, ph) = s.render(false);
    assert_eq!(text, "type here");
    assert!(ph);
    let (text, ph) = s.render(true);
    assert_eq!(text, "type here");
    assert!(ph);
    s.insert('a');
    let (text, ph) = s.render(true);
    assert_eq!(text, "a");
    assert!(!ph);
}

#[test]
fn render_masks_password_chars() {
    let mut s = InputState::default();
    s.set_value("hunter2");
    s.set_masked(true);
    let (text, _) = s.render(false);
    assert!(text.chars().all(|c| c == '\u{2022}'));
    assert_eq!(s.value(), "hunter2");
    assert_eq!(text.chars().count(), 7);
}

#[test]
fn ctrl_left_jumps_by_word() {
    let mut s = InputState::default();
    s.set_value("hello world here");
    s.move_end();
    assert!(s.move_word_left_extending(false));
    assert_eq!(s.caret(), 12);
    assert!(s.move_word_left_extending(false));
    assert_eq!(s.caret(), 6);
    assert!(s.move_word_left_extending(false));
    assert_eq!(s.caret(), 0);
}

#[test]
fn ctrl_right_jumps_by_word() {
    let mut s = InputState::default();
    s.set_value("hello world here");
    s.move_home();
    assert!(s.move_word_right_extending(false));
    assert_eq!(s.caret(), 5);
    assert!(s.move_word_right_extending(false));
    assert_eq!(s.caret(), 11);
    assert!(s.move_word_right_extending(false));
    assert_eq!(s.caret(), 16);
}

#[test]
fn ctrl_shift_right_extends_selection_by_word() {
    let mut s = InputState::default();
    s.set_value("foo bar");
    s.move_home();
    assert!(s.move_word_right_extending(true));
    assert_eq!(s.selection_start(), 0);
    assert_eq!(s.selection_end(), 3);
}

#[test]
fn ctrl_backspace_deletes_previous_word() {
    let mut s = InputState::default();
    s.set_value("hello world");
    s.move_end();
    assert!(s.delete_word_left());
    assert_eq!(s.value(), "hello ");
    assert!(s.delete_word_left());
    assert_eq!(s.value(), "");
}

#[test]
fn ctrl_delete_removes_next_word() {
    let mut s = InputState::default();
    s.set_value("hello world");
    s.move_home();
    assert!(s.delete_word_right());
    assert_eq!(s.value(), " world");
}

#[test]
fn caret_byte_index_counts_bytes() {
    let mut s = InputState::default();
    s.set_value("héllo");
    s.move_home();
    s.move_right();
    s.move_right();
    assert_eq!(s.caret(), 2);
    assert_eq!(s.caret_byte_index(), 3);
    s.set_masked(true);
    assert_eq!(s.display_caret_byte_index(), 6);
}

#[test]
fn typing_replaces_selection() {
    let mut s = InputState::default();
    s.set_value("abcdef");
    s.set_selection(1, 4);
    assert_eq!((s.selection_start(), s.selection_end()), (1, 4));
    assert!(s.insert('X'));
    assert_eq!(s.value(), "aXef");
    assert_eq!(s.caret(), 2);
    assert_eq!(s.selection_start(), s.selection_end());
}

#[test]
fn backspace_after_insert_restores_text() {
    let mut s = InputState::default();
    s.set_value("abc");
    s.move_left();
    assert!(s.insert('ß'));
    assert_eq!(s.value(), "abßc");
    assert!(s.backspace());
    assert_eq!(s.value(), "abc");
    assert_eq!(s.caret(), 2);
}

#[test]
fn opposite_moves_cancel() {
    let mut s = InputState::default();
    s.set_value("abc");
    assert!(s.move_left());
    assert_eq!(s.caret(), 2);
    assert!(s.move_right());
    assert_eq!(s.caret(), 3);
}

#[test]
fn select_all_selects_everything_once() {
    let mut s = InputState::default();
    s.set_value("abc");
    assert!(s.select_all());
    assert_eq!((s.selection_start(), s.selection_end()), (0, 3));
    assert!(!s.select_all());
    assert!(s.delete_forward());
    assert_eq!(s.value(), "");
}

#[test]
fn number_fields_take_numeric_chars_only() {
    let mut s = InputState::default();
    s.set_type("number");
    assert!(matches!(s.kind(), InputType::Number));
    assert!(s.insert_numeric_char('-'));
    assert!(s.insert_numeric_char('4'));
    assert!(!s.insert_numeric_char('x'));
    assert_eq!(s.value(), "-4");
    assert!(s.is_numeric_like());
}

#[test]
fn checkboxes_flip_and_show_their_state() {
    let mut s = InputState::default();
    s.set_type("checkbox");
    assert!(s.is_checked_like());
    assert_eq!(s.render(false).0, "off");
    assert!(s.toggle_checked());
    assert!(s.checked());
    assert_eq!(s.render(false).0, "on");
    s.set_disabled(true);
    assert!(!s.toggle_checked());
    assert!(s.checked());
}

#[test]
fn caret_blinks_every_interval() {
    let start = Instant::now();
    let mut s = InputState::default();
    s.show_caret_from(start);
    assert!(s.blink_visible());
    assert!(!s.tick_blink(start + Duration::from_millis(499)));
    assert!(s.blink_visible());
    let due = s.next_blink_at().expect("the clock reaches that far");
    assert!(due > start);
    assert!(s.tick_blink(due));
    assert!(!s.blink_visible());
    assert!(!s.tick_blink(due));
}
