use tui_gpu::keys::{
    scancode_from_char, scancode_from_symbol, KeySymbol, DOOM_KEY_ESCAPE, DOOM_KEY_FIRE,
    DOOM_KEY_STRAFE_L, DOOM_KEY_UP, DOOM_KEY_USE,
};
use tui_gpu::term_keys::{
    encode_term_key_event, f_key_sequence, handle_tui_key_event, rgb_demo_should_exit,
    term_key_to_bytes, TermKey, TermKeyCode, TermKeyKind, TermModifiers, TerminalKeyAction,
};

fn mods() -> TermModifiers {
    TermModifiers { shift: false, control: false, alt: false, super_key: false, hyper: false, meta: false }
}

fn press(code: TermKeyCode) -> TermKey {
    TermKey { code, kind: TermKeyKind::Press, modifiers: mods() }
}

#[test]
fn doom_scancodes_of_characters() {
    assert_eq!(scancode_from_char('w'), Some(DOOM_KEY_UP));
    assert_eq!(scancode_from_char('W'), Some(DOOM_KEY_UP));
    assert_eq!(scancode_from_char('q'), Some(DOOM_KEY_STRAFE_L));
    assert_eq!(scancode_from_char(' '), Some(DOOM_KEY_USE));
    assert_eq!(scancode_from_char('f'), Some(DOOM_KEY_FIRE));
    assert_eq!(scancode_from_char('k'), Some(b'K'));
    assert_eq!(scancode_from_char('7'), Some(b'7'));
    assert_eq!(scancode_from_char(','), Some(b','));
    assert_eq!(scancode_from_char('é'), None);
    assert_eq!(scancode_from_char('!'), None);
}

#[test]
fn doom_scancodes_of_symbols() {
    assert_eq!(scancode_from_symbol(KeySymbol::Escape), Some(DOOM_KEY_ESCAPE));
    assert_eq!(scancode_from_symbol(KeySymbol::Home), Some(b'H'));
    assert_eq!(scancode_from_symbol(KeySymbol::PageDown), Some(b'6'));
    assert_eq!(scancode_from_symbol(KeySymbol::Char('d')), scancode_from_char('D'));
}

#[test]
fn function_key_sequences() {
    assert_eq!(f_key_sequence(1), Some(b"\x1bOP".to_vec()));
    assert_eq!(f_key_sequence(5), Some(b"\x1b[15~".to_vec()));
    assert_eq!(f_key_sequence(12), Some(b"\x1b[24~".to_vec()));
    assert_eq!(f_key_sequence(0), None);
    assert_eq!(f_key_sequence(13), None);
}

#[test]
fn terminal_encodings_of_keys() {
    assert_eq!(encode_term_key_event(press(TermKeyCode::Up)), Some(b"\x1b[A".to_vec()));
    assert_eq!(encode_term_key_event(press(TermKeyCode::BackTab)), Some(b"\x1b[Z".to_vec()));
    assert_eq!(encode_term_key_event(press(TermKeyCode::Char('é'))), Some("é".as_bytes().to_vec()));
    let mut ctrl = press(TermKeyCode::Char('C'));
    ctrl.modifiers.control = true;
    assert_eq!(encode_term_key_event(ctrl), Some(vec![0x03]));
    let mut alt = press(TermKeyCode::Char('x'));
    alt.modifiers.alt = true;
    assert_eq!(encode_term_key_event(alt), Some(vec![0x1b, b'x']));
    assert_eq!(encode_term_key_event(press(TermKeyCode::Null)), None);
}

#[test]
fn feed_encodings_of_keys() {
    assert_eq!(term_key_to_bytes(press(TermKeyCode::Delete)), Some(b"\x1b[3~".to_vec()));
    assert_eq!(term_key_to_bytes(press(TermKeyCode::Char('a'))), Some(vec![b'a']));
    assert_eq!(term_key_to_bytes(press(TermKeyCode::Char('é'))), Some(vec![0xe9]));
    assert_eq!(term_key_to_bytes(press(TermKeyCode::F(1))), None);
}

#[test]
fn feed_bytes_match_shell_bytes_for_plain_keys() {
    for code in [TermKeyCode::Up, TermKeyCode::Enter, TermKeyCode::Tab, TermKeyCode::Char('a')] {
        assert_eq!(term_key_to_bytes(press(code)), encode_term_key_event(press(code)));
    }
}

#[test]
fn rgb_demo_exit_keys() {
    assert!(rgb_demo_should_exit(press(TermKeyCode::Char('q'))));
    assert!(rgb_demo_should_exit(press(TermKeyCode::Esc)));
    let mut ctrl_c = press(TermKeyCode::Char('c'));
    ctrl_c.modifiers.control = true;
    assert!(rgb_demo_should_exit(ctrl_c));
    let mut shift_q = press(TermKeyCode::Char('q'));
    shift_q.modifiers.shift = true;
    assert!(!rgb_demo_should_exit(shift_q));
    assert!(!rgb_demo_should_exit(press(TermKeyCode::Char('c'))));
}

#[test]
fn terminal_view_key_actions() {
    let mut release = press(TermKeyCode::Char('a'));
    release.kind = TermKeyKind::Release;
    assert_eq!(handle_tui_key_event(release), TerminalKeyAction::Ignore);
    let mut ctrl_q = press(TermKeyCode::Char('Q'));
    ctrl_q.modifiers.control = true;
    assert_eq!(handle_tui_key_event(ctrl_q), TerminalKeyAction::Exit);
    assert_eq!(handle_tui_key_event(press(TermKeyCode::Enter)), TerminalKeyAction::Write(b"\r".to_vec()));
    assert_eq!(handle_tui_key_event(press(TermKeyCode::Other)), TerminalKeyAction::Ignore);
}
