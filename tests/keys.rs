use ls_pretty::buffer::CursorDirection;
use ls_pretty::keys::{dispatch, Command, Focus, Key};

fn focus() -> Focus {
    Focus {
        unsaved_alert: false,
        terminal: false,
        viewing: false,
        editing: false,
        help: false,
    }
}

#[test]
fn listing_keys() {
    let f = focus();
    assert_eq!(dispatch(f, Key::Char('j', false)), Command::SelectDown);
    assert_eq!(dispatch(f, Key::Up), Command::SelectUp);
    assert_eq!(dispatch(f, Key::Enter), Command::OpenSelected);
    assert_eq!(dispatch(f, Key::Char('a', false)), Command::ToggleHidden);
    assert_eq!(dispatch(f, Key::Char('h', false)), Command::ToggleHelp);
    assert_eq!(dispatch(f, Key::Char('q', false)), Command::Quit);
    assert_eq!(dispatch(f, Key::Char('c', true)), Command::Quit);
    assert_eq!(dispatch(f, Key::Char('t', true)), Command::ToggleTerminal);
    assert_eq!(dispatch(f, Key::Char('x', false)), Command::Nothing);
}

#[test]
fn editing_keys() {
    let f = Focus { viewing: true, editing: true, ..focus() };
    assert_eq!(dispatch(f, Key::Down), Command::MoveCursor(CursorDirection::Down));
    assert_eq!(dispatch(f, Key::Left), Command::MoveCursor(CursorDirection::Left));
    assert_eq!(dispatch(f, Key::Enter), Command::EditKey('\n'));
    assert_eq!(dispatch(f, Key::Backspace), Command::EditKey('\u{8}'));
    assert_eq!(dispatch(f, Key::Char('x', false)), Command::EditKey('x'));
    assert_eq!(dispatch(f, Key::Char('s', true)), Command::Save);
    assert_eq!(dispatch(f, Key::Char('e', false)), Command::ToggleEditMode);
    assert_eq!(dispatch(f, Key::Esc), Command::CloseFile);
    let reading = Focus { editing: false, ..f };
    assert_eq!(dispatch(reading, Key::Down), Command::ScrollDown);
    assert_eq!(dispatch(reading, Key::Char('x', false)), Command::Nothing);
}

#[test]
fn terminal_keys() {
    let f = Focus { terminal: true, ..focus() };
    assert_eq!(dispatch(f, Key::Char('l', false)), Command::TerminalKey('l'));
    assert_eq!(dispatch(f, Key::Enter), Command::TerminalKey('\n'));
    assert_eq!(dispatch(f, Key::Backspace), Command::TerminalKey('\u{8}'));
    assert_eq!(dispatch(f, Key::Char('c', true)), Command::Interrupt);
    assert_eq!(dispatch(f, Key::Up), Command::Nothing);
    assert_eq!(dispatch(f, Key::Char('q', false)), Command::ToggleTerminal);
}

#[test]
fn alert_keys() {
    let f = Focus { unsaved_alert: true, viewing: true, ..focus() };
    assert_eq!(dispatch(f, Key::Char('s', false)), Command::SaveAndClose);
    assert_eq!(dispatch(f, Key::Char('d', false)), Command::DiscardChanges);
    assert_eq!(dispatch(f, Key::Char('c', false)), Command::DismissAlert);
    assert_eq!(dispatch(f, Key::Esc), Command::DismissAlert);
    assert_eq!(dispatch(f, Key::Char('x', false)), Command::Nothing);
    assert_eq!(dispatch(f, Key::Char('t', true)), Command::Nothing);
    assert_eq!(dispatch(f, Key::Down), Command::Nothing);
}
