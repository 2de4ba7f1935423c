use tui_common::key::{KeyCode, KeyEvent, KeyModifiers};
use tui_common::text_input::TextInput;

fn key(code: KeyCode) -> KeyEvent {
    KeyEvent::new(code, KeyModifiers::NONE)
}
fn ctrl(c: char) -> KeyEvent {
    KeyEvent::new(KeyCode::Char(c), KeyModifiers::CONTROL)
}

#[test]
fn insert_and_backspace_at_end() {
    let mut t = TextInput::new();
    for c in "abc".chars() {
        t.insert(c);
    }
    assert_eq!(t.text(), "abc");
    assert_eq!(t.cursor_col(), 3);
    t.backspace();
    assert_eq!(t.text(), "ab");
    assert_eq!(t.cursor_col(), 2);
}

#[test]
fn mid_string_insert_and_delete() {
    let mut t = TextInput::with_text("ac");
    t.left(); // cursor between a and c
    t.insert('b');
    assert_eq!(t.text(), "abc");
    assert_eq!(t.cursor_col(), 2);
    t.home();
    t.delete_forward(); // delete 'a'
    assert_eq!(t.text(), "bc");
    assert_eq!(t.cursor_col(), 0);
}

#[test]
fn backspace_and_left_are_noops_at_start() {
    let mut t = TextInput::with_text("x");
    t.home();
    t.left();
    assert_eq!(t.cursor_col(), 0);
    t.backspace();
    assert_eq!(t.text(), "x");
    // Delete-forward at end is a no-op too.
    t.end();
    t.delete_forward();
    assert_eq!(t.text(), "x");
}

#[test]
fn home_end_and_cursor_col() {
    let mut t = TextInput::with_text("hello");
    assert_eq!(t.cursor_col(), 5);
    t.home();
    assert_eq!(t.cursor_col(), 0);
    t.right();
    t.right();
    assert_eq!(t.cursor_col(), 2);
    t.end();
    assert_eq!(t.cursor_col(), 5);
}

#[test]
fn delete_word_back_eats_trailing_spaces_then_word() {
    let mut t = TextInput::with_text("foo bar baz");
    t.delete_word_back();
    assert_eq!(t.text(), "foo bar ");
    t.delete_word_back();
    assert_eq!(t.text(), "foo ");
    t.delete_word_back();
    assert_eq!(t.text(), "");
    assert_eq!(t.cursor_col(), 0);
}

#[test]
fn utf8_cursor_stays_on_char_boundaries() {
    let mut t = TextInput::new();
    t.insert('é');
    t.insert('🦀');
    assert_eq!(t.text(), "é🦀");
    assert_eq!(t.cursor_col(), 2);
    t.backspace(); // remove the crab, not a partial byte
    assert_eq!(t.text(), "é");
    assert_eq!(t.cursor_col(), 1);
    t.left();
    t.insert('x'); // insert before the é
    assert_eq!(t.text(), "xé");
}

#[test]
fn handle_key_consumes_edits_but_not_enter_or_esc() {
    let mut t = TextInput::new();
    assert!(t.handle_key(key(KeyCode::Char('h'))));
    assert!(t.handle_key(key(KeyCode::Char('i'))));
    assert_eq!(t.text(), "hi");
    assert!(t.handle_key(ctrl('w'))); // word-delete
    assert_eq!(t.text(), "");
    // Enter / Esc are not editing actions — the prompt handles them.
    assert!(!t.handle_key(key(KeyCode::Enter)));
    assert!(!t.handle_key(key(KeyCode::Esc)));
    // A Ctrl-modified char that isn't a known chord is left alone.
    assert!(!t.handle_key(ctrl('t')));
    assert_eq!(t.text(), "");
}

#[test]
fn handle_key_ignores_super_modified_chars() {
    // Super/Cmd-modified chars (e.g. Cmd+V on terminals that report
    // the modifier) must NOT be typed as text — they belong to the
    // OS / global dispatcher.
    let mut t = TextInput::new();
    let cmd_v = KeyEvent::new(KeyCode::Char('v'), KeyModifiers::SUPER);
    assert!(!t.handle_key(cmd_v), "Super+char should not be consumed");
    assert_eq!(t.text(), "", "Super+char must not be inserted");
    // Plain char still inserts.
    assert!(t.handle_key(key(KeyCode::Char('v'))));
    assert_eq!(t.text(), "v");
}

#[test]
fn insert_str_pastes_at_cursor() {
    let mut t = TextInput::with_text("ad");
    t.left();
    t.insert_str("bc");
    assert_eq!(t.text(), "abcd");
    assert_eq!(t.cursor_col(), 3);
}

#[test]
fn trimmed_strips_surrounding_whitespace_only() {
    let t = TextInput::with_text("  a b\t\n");
    assert_eq!(t.trimmed(), "a b");
    assert_eq!(t.text(), "  a b\t\n");
    let t = TextInput::with_text("\u{3000}x\u{a0}");
    assert_eq!(t.trimmed(), "x");
    let t = TextInput::with_text(" \t ");
    assert_eq!(t.trimmed(), "");
    let t = TextInput::with_text("plain");
    assert_eq!(t.trimmed(), "plain");
}

#[test]
fn clear_and_is_empty() {
    let mut t = TextInput::with_text("abc");
    assert!(!t.is_empty());
    t.clear();
    assert!(t.is_empty());
    assert_eq!(t.text(), "");
    assert_eq!(t.cursor_col(), 0);
    assert!(TextInput::new().is_empty());
    assert!(TextInput::default().is_empty());
}

#[test]
fn conversions_put_cursor_at_end() {
    let t = TextInput::from("héllo");
    assert_eq!(t.text(), "héllo");
    assert_eq!(t.cursor_col(), 5);
    let t = TextInput::from(String::from("ab"));
    assert_eq!(t.text(), "ab");
    assert_eq!(t.cursor_col(), 2);
    let u = t.clone();
    assert_eq!(u.text(), "ab");
    assert_eq!(u.cursor_col(), 2);
}

#[test]
fn right_stops_at_end_and_steps_over_wide_chars() {
    let mut t = TextInput::with_text("a🦀b");
    t.home();
    t.right();
    t.right();
    assert_eq!(t.cursor_col(), 2);
    t.insert('x');
    assert_eq!(t.text(), "a🦀xb");
    t.end();
    t.right();
    assert_eq!(t.cursor_col(), 4);
}

#[test]
fn delete_forward_removes_a_whole_multibyte_char() {
    let mut t = TextInput::with_text("é🦀z");
    t.home();
    t.right();
    t.delete_forward();
    assert_eq!(t.text(), "éz");
    assert_eq!(t.cursor_col(), 1);
}

#[test]
fn delete_word_back_only_touches_text_before_cursor() {
    let mut t = TextInput::with_text("one two three");
    t.home();
    for _ in 0..8 {
        t.right();
    }
    // cursor after "one two "
    t.delete_word_back();
    assert_eq!(t.text(), "one three");
    assert_eq!(t.cursor_col(), 4);
    let mut t = TextInput::with_text("   ");
    t.delete_word_back();
    assert_eq!(t.text(), "");
}

#[test]
fn handle_key_emacs_chords_and_movement() {
    let mut t = TextInput::with_text("abc");
    assert!(t.handle_key(ctrl('a')));
    assert_eq!(t.cursor_col(), 0);
    assert!(t.handle_key(ctrl('e')));
    assert_eq!(t.cursor_col(), 3);
    assert!(t.handle_key(key(KeyCode::Left)));
    assert!(t.handle_key(key(KeyCode::Backspace)));
    assert_eq!(t.text(), "ac");
    assert!(t.handle_key(key(KeyCode::Delete)));
    assert_eq!(t.text(), "a");
    assert!(t.handle_key(key(KeyCode::Home)));
    assert!(t.handle_key(key(KeyCode::Right)));
    assert!(t.handle_key(key(KeyCode::End)));
    assert_eq!(t.cursor_col(), 1);
    // Alt-modified chars and non-editing keys are not consumed.
    assert!(!t.handle_key(KeyEvent::new(KeyCode::Char('x'), KeyModifiers::ALT)));
    assert!(!t.handle_key(key(KeyCode::Tab)));
    assert!(!t.handle_key(key(KeyCode::F(1))));
    assert_eq!(t.text(), "a");
    // Shift does not stop a character from being typed.
    assert!(t.handle_key(KeyEvent::new(KeyCode::Char('B'), KeyModifiers::SHIFT)));
    assert_eq!(t.text(), "aB");
}

#[test]
fn typing_then_backspace_restores_state() {
    let mut t = TextInput::with_text("héllo");
    t.home();
    t.right();
    t.insert('🦀');
    t.backspace();
    assert_eq!(t.text(), "héllo");
    assert_eq!(t.cursor_col(), 1);
    t.insert('q');
    t.left();
    t.delete_forward();
    assert_eq!(t.text(), "héllo");
    assert_eq!(t.cursor_col(), 1);
}

#[test]
fn handle_key_leaves_modified_editing_keys_to_the_caller() {
    let mut t = TextInput::with_text("abc");
    let ctrl_backspace = KeyEvent::new(KeyCode::Backspace, KeyModifiers::CONTROL);
    assert!(!t.handle_key(ctrl_backspace));
    assert_eq!(t.text(), "abc");
    assert_eq!(t.cursor_col(), 3);
    let super_left = KeyEvent::new(KeyCode::Left, KeyModifiers::SUPER);
    assert!(!t.handle_key(super_left));
    assert_eq!(t.cursor_col(), 3);
    let alt_home = KeyEvent::new(KeyCode::Home, KeyModifiers::ALT);
    assert!(!t.handle_key(alt_home));
    assert_eq!(t.cursor_col(), 3);
    for code in [KeyCode::Delete, KeyCode::Right, KeyCode::End] {
        assert!(!t.handle_key(KeyEvent::new(code, KeyModifiers::CONTROL)));
    }
    assert_eq!(t.text(), "abc");
    // Shift alone does not stop an editing key.
    assert!(t.handle_key(KeyEvent::new(KeyCode::Left, KeyModifiers::SHIFT)));
    assert_eq!(t.cursor_col(), 2);
}
