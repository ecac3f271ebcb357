//! Key presses and the editing/navigation actions they stand for.
use vstd::prelude::*;

verus! {

/// What the user asked for with one key press.
#[derive(Debug, Clone, Copy, PartialEq, Eq, Structural)]
pub enum Action {
    Insert(char),
    Backspace,
    Delete,
    DeleteWord,
    ClearLine,
    MoveLeft,
    MoveRight,
    MoveHome,
    MoveEnd,
    SelectNext,
    SelectPrev,
    PageDown,
    PageUp,
    SwitchMode,
    ToggleRegex,
    ToggleCase,
    Accept,
    OpenInEditor,
    TogglePreview,
    PreviewUp,
    PreviewDown,
    Quit,
    /// A key with no binding.
    NoOp,
}

/// The key of a key press, as far as the finder tells keys apart.
#[derive(Debug, Clone, Copy, PartialEq, Eq, Structural)]
pub enum KeyCode {
    Char(char),
    Esc,
    Enter,
    Tab,
    Backspace,
    Delete,
    Left,
    Right,
    Home,
    End,
    Up,
    Down,
    PageUp,
    PageDown,
    /// Any other key (function keys, media keys, ...).
    Other,
}

/// A key press: the key and whether Control and Alt were held.
/// (Shift is not recorded: it is already reflected in `Char`'s character.)
#[derive(Debug, Clone, Copy, PartialEq, Eq, Structural)]
pub struct KeyEvent {
    pub code: KeyCode,
    pub ctrl: bool,
    pub alt: bool,
}

/// The binding table. Control chords are looked up first, then Alt chords, then
/// plain keys; any character typed without Control or Alt is inserted.
pub open spec fn action_for(key: KeyEvent) -> Action {
    if key.ctrl {
        match key.code {
            KeyCode::Char('c') | KeyCode::Char('q') => Action::Quit,
            KeyCode::Char('o') => Action::OpenInEditor,
            KeyCode::Char('t') => Action::TogglePreview,
            KeyCode::Char('r') => Action::ToggleRegex,
            KeyCode::Char('w') => Action::DeleteWord,
            KeyCode::Char('u') => Action::ClearLine,
            KeyCode::Char('a') => Action::MoveHome,
            KeyCode::Char('e') => Action::MoveEnd,
            KeyCode::Char('p') | KeyCode::Char('k') => Action::SelectPrev,
            KeyCode::Char('n') | KeyCode::Char('j') => Action::SelectNext,
            _ => Action::NoOp,
        }
    } else if key.alt {
        match key.code {
            KeyCode::Char('c') | KeyCode::Char('C') => Action::ToggleCase,
            KeyCode::Up => Action::PreviewUp,
            KeyCode::Down => Action::PreviewDown,
            _ => Action::NoOp,
        }
    } else {
        match key.code {
            KeyCode::Esc => Action::Quit,
            KeyCode::Enter => Action::Accept,
            KeyCode::Tab => Action::SwitchMode,
            KeyCode::Backspace => Action::Backspace,
            KeyCode::Delete => Action::Delete,
            KeyCode::Left => Action::MoveLeft,
            KeyCode::Right => Action::MoveRight,
            KeyCode::Home => Action::MoveHome,
            KeyCode::End => Action::MoveEnd,
            KeyCode::Up => Action::SelectPrev,
            KeyCode::Down => Action::SelectNext,
            KeyCode::PageUp => Action::PageUp,
            KeyCode::PageDown => Action::PageDown,
            KeyCode::Char(c) => Action::Insert(c),
            KeyCode::Other => Action::NoOp,
        }
    }
}

/// Maps a key press to an action.
pub fn map_key(key: KeyEvent) -> (a: Action)
    ensures
        a == action_for(key),
{
    if key.ctrl {
        return match key.code {
            KeyCode::Char('c') | KeyCode::Char('q') => Action::Quit,
            KeyCode::Char('o') => Action::OpenInEditor,
            KeyCode::Char('t') => Action::TogglePreview,
            KeyCode::Char('r') => Action::ToggleRegex,
            KeyCode::Char('w') => Action::DeleteWord,
            KeyCode::Char('u') => Action::ClearLine,
            KeyCode::Char('a') => Action::MoveHome,
            KeyCode::Char('e') => Action::MoveEnd,
            KeyCode::Char('p') | KeyCode::Char('k') => Action::SelectPrev,
            KeyCode::Char('n') | KeyCode::Char('j') => Action::SelectNext,
            _ => Action::NoOp,
        };
    }
    if key.alt {
        // Case toggle on Alt+C avoids the legacy Tab == Ctrl+I collision.
        return match key.code {
            KeyCode::Char('c') | KeyCode::Char('C') => Action::ToggleCase,
            KeyCode::Up => Action::PreviewUp,
            KeyCode::Down => Action::PreviewDown,
            _ => Action::NoOp,
        };
    }
    match key.code {
        KeyCode::Esc => Action::Quit,
        KeyCode::Enter => Action::Accept,
        KeyCode::Tab => Action::SwitchMode,
        KeyCode::Backspace => Action::Backspace,
        KeyCode::Delete => Action::Delete,
        KeyCode::Left => Action::MoveLeft,
        KeyCode::Right => Action::MoveRight,
        KeyCode::Home => Action::MoveHome,
        KeyCode::End => Action::MoveEnd,
        KeyCode::Up => Action::SelectPrev,
        KeyCode::Down => Action::SelectNext,
        KeyCode::PageUp => Action::PageUp,
        KeyCode::PageDown => Action::PageDown,
        // Shifted characters arrive as their shifted form, so capitals and
        // symbols insert correctly.
        KeyCode::Char(c) => Action::Insert(c),
        KeyCode::Other => Action::NoOp,
    }
}

/// Every character typed without Control or Alt is inserted as typed.
pub proof fn law_plain_chars_insert(c: char)
    ensures
        action_for(KeyEvent { code: KeyCode::Char(c), ctrl: false, alt: false }) == Action::Insert(
            c,
        ),
{
}

} // verus!
