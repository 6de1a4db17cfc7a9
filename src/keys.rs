//! What each key does, given what has the focus: the browser's key map.
use vstd::prelude::*;
use crate::buffer::CursorDirection;

verus! {

/// A key as the event loop reads it.
#[derive(Clone, Copy, Debug, PartialEq, Eq, Structural)]
pub enum Key {
    /// A character key, and whether Control was held.
    Char(char, bool),
    Up,
    Down,
    Left,
    Right,
    Enter,
    Esc,
    Backspace,
    Other,
}

/// What is on screen and takes keys.
#[derive(Clone, Copy, Debug, PartialEq, Eq, Structural)]
pub struct Focus {
    /// The unsaved-changes alert is up.
    pub unsaved_alert: bool,
    /// The terminal panel is open.
    pub terminal: bool,
    /// A document is shown.
    pub viewing: bool,
    /// Keys edit the document.
    pub editing: bool,
    /// The help popup is up.
    pub help: bool,
}

/// What the event loop is to do for a key.
#[derive(Clone, Copy, Debug, PartialEq, Eq, Structural)]
pub enum Command {
    Nothing,
    Quit,
    DismissAlert,
    ToggleTerminal,
    CloseFile,
    ToggleHelp,
    ToggleHidden,
    ToggleEditMode,
    MoveCursor(CursorDirection),
    ScrollUp,
    ScrollDown,
    SelectUp,
    SelectDown,
    OpenSelected,
    /// Hand the character to the terminal session.
    TerminalKey(char),
    /// Type the character into the document.
    EditKey(char),
    Save,
    SaveAndClose,
    DiscardChanges,
    /// Send an interrupt (Control-C) to the shell.
    Interrupt,
}

/// Up or down: the cursor moves while editing, the document scrolls while
/// reading, the selection moves over the listing.
pub open spec fn vertical_command(f: Focus, up: bool) -> Command {
    if f.unsaved_alert || f.terminal {
        Command::Nothing
    } else if f.viewing && f.editing {
        Command::MoveCursor(
            if up {
                CursorDirection::Up
            } else {
                CursorDirection::Down
            },
        )
    } else if f.viewing {
        if up {
            Command::ScrollUp
        } else {
            Command::ScrollDown
        }
    } else if !f.help {
        if up {
            Command::SelectUp
        } else {
            Command::SelectDown
        }
    } else {
        Command::Nothing
    }
}

/// A key that types `c` into the terminal or the document, if either takes
/// keys, and otherwise does `fallback`.
pub open spec fn typed_or(f: Focus, c: char, fallback: Command) -> Command {
    if f.unsaved_alert {
        Command::Nothing
    } else if f.terminal {
        Command::TerminalKey(c)
    } else if f.editing {
        Command::EditKey(c)
    } else {
        fallback
    }
}

/// The key map.
pub open spec fn command_for(f: Focus, key: Key) -> Command {
    match key {
        Key::Char('q', _) | Key::Esc => if f.unsaved_alert {
            Command::DismissAlert
        } else if f.terminal {
            Command::ToggleTerminal
        } else if f.viewing {
            Command::CloseFile
        } else if f.help {
            Command::ToggleHelp
        } else {
            Command::Quit
        },
        Key::Up | Key::Char('k', _) => vertical_command(f, true),
        Key::Down | Key::Char('j', _) => vertical_command(f, false),
        Key::Enter => typed_or(
            f,
            '\n',
            if !f.help && !f.viewing {
                Command::OpenSelected
            } else {
                Command::Nothing
            },
        ),
        Key::Left => if f.editing && !f.unsaved_alert {
            Command::MoveCursor(CursorDirection::Left)
        } else {
            Command::Nothing
        },
        Key::Right => if f.editing && !f.unsaved_alert {
            Command::MoveCursor(CursorDirection::Right)
        } else {
            Command::Nothing
        },
        Key::Char('a', _) => typed_or(
            f,
            'a',
            if !f.help && !f.viewing {
                Command::ToggleHidden
            } else {
                Command::Nothing
            },
        ),
        Key::Char('h', _) => typed_or(
            f,
            'h',
            if !f.viewing {
                Command::ToggleHelp
            } else {
                Command::Nothing
            },
        ),
        Key::Char('t', true) => if !f.unsaved_alert {
            Command::ToggleTerminal
        } else {
            Command::Nothing
        },
        Key::Char('s', true) => if f.viewing && f.editing {
            Command::Save
        } else if f.unsaved_alert {
            Command::SaveAndClose
        } else {
            Command::Nothing
        },
        Key::Char('e', _) => if f.viewing && !f.unsaved_alert {
            Command::ToggleEditMode
        } else {
            Command::Nothing
        },
        Key::Char('d', _) => if f.unsaved_alert {
            Command::DiscardChanges
        } else if f.editing {
            Command::EditKey('d')
        } else {
            Command::Nothing
        },
        Key::Char('c', true) => if f.unsaved_alert {
            Command::Nothing
        } else if f.terminal {
            Command::Interrupt
        } else {
            Command::Quit
        },
        Key::Backspace => typed_or(f, '\u{8}', Command::Nothing),
        Key::Char(c, _) => if f.unsaved_alert {
            if c == 's' {
                Command::SaveAndClose
            } else if c == 'c' {
                Command::DismissAlert
            } else {
                Command::Nothing
            }
        } else {
            typed_or(f, c, Command::Nothing)
        },
        Key::Other => Command::Nothing,
    }
}

fn vertical(f: Focus, up: bool) -> (r: Command)
    ensures
        r == vertical_command(f, up),
{
    if f.unsaved_alert || f.terminal {
        Command::Nothing
    } else if f.viewing && f.editing {
        Command::MoveCursor(
            if up {
                CursorDirection::Up
            } else {
                CursorDirection::Down
            },
        )
    } else if f.viewing {
        if up {
            Command::ScrollUp
        } else {
            Command::ScrollDown
        }
    } else if !f.help {
        if up {
            Command::SelectUp
        } else {
            Command::SelectDown
        }
    } else {
        Command::Nothing
    }
}

fn typed(f: Focus, c: char, fallback: Command) -> (r: Command)
    ensures
        r == typed_or(f, c, fallback),
{
    if f.unsaved_alert {
        Command::Nothing
    } else if f.terminal {
        Command::TerminalKey(c)
    } else if f.editing {
        Command::EditKey(c)
    } else {
        fallback
    }
}

/// What `key` does when `focus` describes the screen.
pub fn dispatch(focus: Focus, key: Key) -> (r: Command)
    ensures
        r == command_for(focus, key),
{
    let f = focus;
    match key {
        Key::Char('q', _) | Key::Esc => if f.unsaved_alert {
            Command::DismissAlert
        } else if f.terminal {
            Command::ToggleTerminal
        } else if f.viewing {
            Command::CloseFile
        } else if f.help {
            Command::ToggleHelp
        } else {
            Command::Quit
        },
        Key::Up | Key::Char('k', _) => vertical(f, true),
        Key::Down | Key::Char('j', _) => vertical(f, false),
        Key::Enter => typed(
            f,
            '\n',
            if !f.help && !f.viewing {
                Command::OpenSelected
            } else {
                Command::Nothing
            },
        ),
        Key::Left => if f.editing && !f.unsaved_alert {
            Command::MoveCursor(CursorDirection::Left)
        } else {
            Command::Nothing
        },
        Key::Right => if f.editing && !f.unsaved_alert {
            Command::MoveCursor(CursorDirection::Right)
        } else {
            Command::Nothing
        },
        Key::Char('a', _) => typed(
            f,
            'a',
            if !f.help && !f.viewing {
                Command::ToggleHidden
            } else {
                Command::Nothing
            },
        ),
        Key::Char('h', _) => typed(
            f,
            'h',
            if !f.viewing {
                Command::ToggleHelp
            } else {
                Command::Nothing
            },
        ),
        Key::Char('t', true) => if !f.unsaved_alert {
            Command::ToggleTerminal
        } else {
            Command::Nothing
        },
        Key::Char('s', true) => if f.viewing && f.editing {
            Command::Save
        } else if f.unsaved_alert {
            Command::SaveAndClose
        } else {
            Command::Nothing
        },
        Key::Char('e', _) => if f.viewing && !f.unsaved_alert {
            Command::ToggleEditMode
        } else {
            Command::Nothing
        },
        Key::Char('d', _) => if f.unsaved_alert {
            Command::DiscardChanges
        } else if f.editing {
            Command::EditKey('d')
        } else {
            Command::Nothing
        },
        Key::Char('c', true) => if f.unsaved_alert {
            Command::Nothing
        } else if f.terminal {
            Command::Interrupt
        } else {
            Command::Quit
        },
        Key::Backspace => typed(f, '\u{8}', Command::Nothing),
        Key::Char(c, _) => if f.unsaved_alert {
            if c == 's' {
                Command::SaveAndClose
            } else if c == 'c' {
                Command::DismissAlert
            } else {
                Command::Nothing
            }
        } else {
            typed(f, c, Command::Nothing)
        },
        Key::Other => Command::Nothing,
    }
}

} // verus!
