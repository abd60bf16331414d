use crate::app::Message;
use crate::goto::is_digit;
use vstd::prelude::*;

verus! {

/// A key press, as far as the viewer tells keys apart.
#[derive(Clone, Copy, PartialEq, Eq, Structural, Debug)]
pub enum Key {
    Char(char),
    Esc,
    Left,
    Right,
    Up,
    Down,
    PageUp,
    PageDown,
    Home,
    End,
    Backspace,
    Enter,
    Other,
}

/// What a character key asks for while pages are shown.
pub open spec fn char_message(c: char) -> Option<Message> {
    if c == 'q' {
        Some(Message::Quit)
    } else if c == 'l' || c == ' ' {
        Some(Message::NextPage)
    } else if c == 'h' {
        Some(Message::PrevPage)
    } else if c == 'g' {
        Some(Message::FirstPage)
    } else if c == 'G' {
        Some(Message::LastPage)
    } else if c == '+' || c == '=' {
        Some(Message::ZoomIn)
    } else if c == '-' {
        Some(Message::ZoomOut)
    } else if c == '0' {
        Some(Message::ZoomReset)
    } else if c == 'k' {
        Some(Message::ScrollUp)
    } else if c == 'j' {
        Some(Message::ScrollDown)
    } else if c == 'H' {
        Some(Message::ScrollLeft)
    } else if c == 'L' {
        Some(Message::ScrollRight)
    } else if c == 'd' {
        Some(Message::CycleLayout)
    } else if c == 'n' {
        Some(Message::ToggleDarkMode)
    } else if c == 'f' {
        Some(Message::ToggleFullscreen)
    } else if c == 'p' {
        Some(Message::EnterGoto)
    } else {
        None
    }
}

/// What a key asks for while pages are shown.
pub open spec fn key_message(key: Key) -> Option<Message> {
    match key {
        Key::Char(c) => char_message(c),
        Key::Esc => Some(Message::Quit),
        Key::Right | Key::PageDown => Some(Message::NextPage),
        Key::Left | Key::PageUp => Some(Message::PrevPage),
        Key::Home => Some(Message::FirstPage),
        Key::End => Some(Message::LastPage),
        Key::Up => Some(Message::ScrollUp),
        Key::Down => Some(Message::ScrollDown),
        Key::Backspace | Key::Enter | Key::Other => None,
    }
}

/// What a key asks for while a page number is typed: digits go into the
/// number, the other keys edit, confirm or cancel it.
pub open spec fn goto_key_message(key: Key) -> Option<Message> {
    match key {
        Key::Char(c) => if is_digit(c) {
            Some(Message::GotoInput(c))
        } else {
            None
        },
        Key::Backspace => Some(Message::GotoBackspace),
        Key::Enter => Some(Message::GotoConfirm),
        Key::Esc => Some(Message::GotoCancel),
        _ => None,
    }
}

fn char_to_message(c: char) -> (r: Option<Message>)
    ensures
        r == char_message(c),
{
    if c == 'q' {
        Some(Message::Quit)
    } else if c == 'l' || c == ' ' {
        Some(Message::NextPage)
    } else if c == 'h' {
        Some(Message::PrevPage)
    } else if c == 'g' {
        Some(Message::FirstPage)
    } else if c == 'G' {
        Some(Message::LastPage)
    } else if c == '+' || c == '=' {
        Some(Message::ZoomIn)
    } else if c == '-' {
        Some(Message::ZoomOut)
    } else if c == '0' {
        Some(Message::ZoomReset)
    } else if c == 'k' {
        Some(Message::ScrollUp)
    } else if c == 'j' {
        Some(Message::ScrollDown)
    } else if c == 'H' {
        Some(Message::ScrollLeft)
    } else if c == 'L' {
        Some(Message::ScrollRight)
    } else if c == 'd' {
        Some(Message::CycleLayout)
    } else if c == 'n' {
        Some(Message::ToggleDarkMode)
    } else if c == 'f' {
        Some(Message::ToggleFullscreen)
    } else if c == 'p' {
        Some(Message::EnterGoto)
    } else {
        None
    }
}

/// Maps a key to what it asks for while pages are shown.
pub fn key_to_message(key: Key) -> (r: Option<Message>)
    ensures
        r == key_message(key),
{
    match key {
        Key::Char(c) => char_to_message(c),
        Key::Esc => Some(Message::Quit),
        Key::Right | Key::PageDown => Some(Message::NextPage),
        Key::Left | Key::PageUp => Some(Message::PrevPage),
        Key::Home => Some(Message::FirstPage),
        Key::End => Some(Message::LastPage),
        Key::Up => Some(Message::ScrollUp),
        Key::Down => Some(Message::ScrollDown),
        Key::Backspace | Key::Enter | Key::Other => None,
    }
}

/// Maps a key to what it asks for while a page number is typed.
pub fn key_to_goto_message(key: Key) -> (r: Option<Message>)
    ensures
        r == goto_key_message(key),
{
    match key {
        Key::Char(c) => {
            let code: u32 = c as u32;
            if 48 <= code && code <= 57 {
                Some(Message::GotoInput(c))
            } else {
                None
            }
        },
        Key::Backspace => Some(Message::GotoBackspace),
        Key::Enter => Some(Message::GotoConfirm),
        Key::Esc => Some(Message::GotoCancel),
        _ => None,
    }
}

} // verus!
