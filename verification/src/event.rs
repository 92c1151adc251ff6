//! The input vocabulary of the client: what a key press means. The terminal
//! backend hands keys over as plain `KeyInput` values; the translation table
//! here decides, and is the single source of truth for the bindings.

use vstd::prelude::*;

verus! {

/// Which way a movement event goes: within the focused panel, or across
/// panels.
#[derive(Clone, Copy, Debug, PartialEq, Eq, Structural)]
pub enum Direction {
    Up,
    Down,
    RightPanel,
    LeftPanel,
    UpPanel,
    DownPanel,
}

/// How a seek event addresses the track: an absolute position, a relative
/// step, or a percentage of the length.
#[derive(Clone, Copy, Debug, PartialEq, Eq, Structural)]
pub enum SeekMode {
    Absolute(i64),
    Relative(i64),
    Percent(usize),
}

/// Everything the interface can ask of the client.
#[derive(Clone, Copy, Debug, PartialEq, Eq, Structural)]
pub enum Event {
    Move(Direction),
    Play,
    Pause,
    Stop,
    Shuffle,
    Volume(i64),
    Download,
    Auto,
    Next,
    Prev,
    Seek(SeekMode),
    GoToCurrent,
    Repeat,
    Quit,
    Enter,
}

/// One key press, as the terminal reports it: a printable character, one of
/// the named keys the bindings use, or anything else.
#[derive(Clone, Copy, Debug, PartialEq, Eq, Structural)]
pub enum KeyInput {
    Char(char),
    Enter,
    Left,
    Right,
    Other,
}

/// The key bindings: which event, if any, a key press raises.
pub open spec fn spec_translate_event(key: KeyInput) -> Option<Event> {
    match key {
        KeyInput::Char(c) => if c == 'q' {
            Some(Event::Quit)
        } else if c == 'T' {
            Some(Event::Download)
        } else if c == 'j' {
            Some(Event::Move(Direction::Down))
        } else if c == 'J' {
            Some(Event::Move(Direction::DownPanel))
        } else if c == 'k' {
            Some(Event::Move(Direction::Up))
        } else if c == 'K' {
            Some(Event::Move(Direction::UpPanel))
        } else if c == 'L' {
            Some(Event::Move(Direction::RightPanel))
        } else if c == 'H' {
            Some(Event::Move(Direction::LeftPanel))
        } else if c == ' ' {
            Some(Event::Pause)
        } else if c == 'd' {
            Some(Event::Volume(-5i64))
        } else if c == 'f' {
            Some(Event::Volume(5i64))
        } else if c == '<' {
            Some(Event::Prev)
        } else if c == '>' {
            Some(Event::Next)
        } else if c == 'a' {
            Some(Event::Auto)
        } else if c == 'y' {
            Some(Event::Shuffle)
        } else if c == 'g' {
            Some(Event::GoToCurrent)
        } else if c == 'r' {
            Some(Event::Repeat)
        } else if c == '&' {
            Some(Event::Seek(SeekMode::Percent(10usize)))
        } else if c == 'e' {
            Some(Event::Seek(SeekMode::Percent(20usize)))
        } else if c == '"' {
            Some(Event::Seek(SeekMode::Percent(30usize)))
        } else if c == '\'' {
            Some(Event::Seek(SeekMode::Percent(40usize)))
        } else if c == '(' {
            Some(Event::Seek(SeekMode::Percent(50usize)))
        } else if c == '-' {
            Some(Event::Seek(SeekMode::Percent(60usize)))
        } else if c == 'u' {
            Some(Event::Seek(SeekMode::Percent(70usize)))
        } else if c == '_' {
            Some(Event::Seek(SeekMode::Percent(80usize)))
        } else if c == 'c' {
            Some(Event::Seek(SeekMode::Percent(90usize)))
        } else if c == 'z' {
            Some(Event::Seek(SeekMode::Percent(0usize)))
        } else {
            None
        },
        KeyInput::Enter => Some(Event::Enter),
        KeyInput::Right => Some(Event::Seek(SeekMode::Relative(5i64))),
        KeyInput::Left => Some(Event::Seek(SeekMode::Relative(-5i64))),
        KeyInput::Other => None,
    }
}

/// Translates one key press through the binding table; an unbound key means
/// nothing.
pub fn translate_event(key: &KeyInput) -> (r: Option<Event>)
    ensures
        r == spec_translate_event(*key),
{
    match key {
        KeyInput::Char(c) => {
            let c = *c;
            if c == 'q' {
                Some(Event::Quit)
            } else if c == 'T' {
                Some(Event::Download)
            } else if c == 'j' {
                Some(Event::Move(Direction::Down))
            } else if c == 'J' {
                Some(Event::Move(Direction::DownPanel))
            } else if c == 'k' {
                Some(Event::Move(Direction::Up))
            } else if c == 'K' {
                Some(Event::Move(Direction::UpPanel))
            } else if c == 'L' {
                Some(Event::Move(Direction::RightPanel))
            } else if c == 'H' {
                Some(Event::Move(Direction::LeftPanel))
            } else if c == ' ' {
                Some(Event::Pause)
            } else if c == 'd' {
                Some(Event::Volume(-5i64))
            } else if c == 'f' {
                Some(Event::Volume(5i64))
            } else if c == '<' {
                Some(Event::Prev)
            } else if c == '>' {
                Some(Event::Next)
            } else if c == 'a' {
                Some(Event::Auto)
            } else if c == 'y' {
                Some(Event::Shuffle)
            } else if c == 'g' {
                Some(Event::GoToCurrent)
            } else if c == 'r' {
                Some(Event::Repeat)
            } else if c == '&' {
                Some(Event::Seek(SeekMode::Percent(10usize)))
            } else if c == 'e' {
                Some(Event::Seek(SeekMode::Percent(20usize)))
            } else if c == '"' {
                Some(Event::Seek(SeekMode::Percent(30usize)))
            } else if c == '\'' {
                Some(Event::Seek(SeekMode::Percent(40usize)))
            } else if c == '(' {
                Some(Event::Seek(SeekMode::Percent(50usize)))
            } else if c == '-' {
                Some(Event::Seek(SeekMode::Percent(60usize)))
            } else if c == 'u' {
                Some(Event::Seek(SeekMode::Percent(70usize)))
            } else if c == '_' {
                Some(Event::Seek(SeekMode::Percent(80usize)))
            } else if c == 'c' {
                Some(Event::Seek(SeekMode::Percent(90usize)))
            } else if c == 'z' {
                Some(Event::Seek(SeekMode::Percent(0usize)))
            } else {
                None
            }
        },
        KeyInput::Enter => Some(Event::Enter),
        KeyInput::Right => Some(Event::Seek(SeekMode::Relative(5i64))),
        KeyInput::Left => Some(Event::Seek(SeekMode::Relative(-5i64))),
        KeyInput::Other => None,
    }
}

} // verus!
