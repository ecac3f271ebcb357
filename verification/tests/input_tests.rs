use russee::input::{map_key, Action, KeyCode, KeyEvent};

fn key(code: KeyCode, ctrl: bool, alt: bool) -> KeyEvent {
    KeyEvent { code, ctrl, alt }
}

#[test]
fn plain_letter_inserts() {
    assert_eq!(
        map_key(key(KeyCode::Char('a'), false, false)),
        Action::Insert('a')
    );
}

#[test]
fn shifted_capital_inserts() {
    // Shift is folded into the character itself.
    assert_eq!(
        map_key(key(KeyCode::Char('A'), false, false)),
        Action::Insert('A')
    );
}

#[test]
fn shifted_symbol_inserts() {
    assert_eq!(
        map_key(key(KeyCode::Char('_'), false, false)),
        Action::Insert('_')
    );
    assert_eq!(
        map_key(key(KeyCode::Char('('), false, false)),
        Action::Insert('(')
    );
}

#[test]
fn ctrl_chords_map() {
    assert_eq!(map_key(key(KeyCode::Char('c'), true, false)), Action::Quit);
    assert_eq!(
        map_key(key(KeyCode::Char('o'), true, false)),
        Action::OpenInEditor
    );
    assert_eq!(
        map_key(key(KeyCode::Char('w'), true, false)),
        Action::DeleteWord
    );
    assert_eq!(
        map_key(key(KeyCode::Char('u'), true, false)),
        Action::ClearLine
    );
    assert_eq!(
        map_key(key(KeyCode::Char('p'), true, false)),
        Action::SelectPrev
    );
    assert_eq!(
        map_key(key(KeyCode::Char('n'), true, false)),
        Action::SelectNext
    );
    assert_eq!(
        map_key(key(KeyCode::Char('j'), true, false)),
        Action::SelectNext
    );
    assert_eq!(
        map_key(key(KeyCode::Char('k'), true, false)),
        Action::SelectPrev
    );
}

#[test]
fn alt_c_toggles_case() {
    assert_eq!(
        map_key(key(KeyCode::Char('c'), false, true)),
        Action::ToggleCase
    );
}

#[test]
fn ctrl_t_toggles_preview() {
    assert_eq!(
        map_key(key(KeyCode::Char('t'), true, false)),
        Action::TogglePreview
    );
}

#[test]
fn alt_arrows_scroll_preview() {
    assert_eq!(map_key(key(KeyCode::Up, false, true)), Action::PreviewUp);
    assert_eq!(map_key(key(KeyCode::Down, false, true)), Action::PreviewDown);
}

#[test]
fn navigation_and_control_keys() {
    assert_eq!(map_key(key(KeyCode::Enter, false, false)), Action::Accept);
    assert_eq!(map_key(key(KeyCode::Tab, false, false)), Action::SwitchMode);
    assert_eq!(map_key(key(KeyCode::Esc, false, false)), Action::Quit);
    assert_eq!(map_key(key(KeyCode::Up, false, false)), Action::SelectPrev);
    assert_eq!(map_key(key(KeyCode::Down, false, false)), Action::SelectNext);
}

#[test]
fn unbound_keys_do_nothing() {
    assert_eq!(map_key(key(KeyCode::Char('z'), true, false)), Action::NoOp);
    assert_eq!(map_key(key(KeyCode::Left, false, true)), Action::NoOp);
    assert_eq!(map_key(key(KeyCode::Other, false, false)), Action::NoOp);
    // Control wins over Alt.
    assert_eq!(map_key(key(KeyCode::Char('c'), true, true)), Action::Quit);
}
