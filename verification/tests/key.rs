use tui_common::key::{contains_modifier, KeyCode, KeyEvent, KeyModifiers};

#[test]
fn modifier_bits_follow_the_terminal_model() {
    assert_eq!(KeyModifiers::SHIFT, 1);
    assert_eq!(KeyModifiers::CONTROL, 2);
    assert_eq!(KeyModifiers::ALT, 4);
    assert_eq!(KeyModifiers::SUPER, 8);
    assert_eq!(KeyModifiers::NONE, 0);
    let both = KeyModifiers::CONTROL | KeyModifiers::ALT;
    assert!(contains_modifier(both, KeyModifiers::CONTROL));
    assert!(contains_modifier(both, KeyModifiers::ALT));
    assert!(!contains_modifier(both, KeyModifiers::SUPER));
    assert!(contains_modifier(both, KeyModifiers::NONE));
    let k = KeyEvent::new(KeyCode::Char('q'), both);
    assert_eq!(k.code, KeyCode::Char('q'));
    assert_eq!(k.modifiers, 6);
}
