use vstd::prelude::*;

verus! {

/// Canonical movement directions for snake input.
#[derive(Debug, Clone, Copy, PartialEq, Eq, Structural)]
pub enum Direction {
    Up,
    Down,
    Left,
    Right,
}

impl Direction {
    /// The direction that points the other way.
    pub open spec fn reversed(self) -> Direction {
        match self {
            Direction::Up => Direction::Down,
            Direction::Down => Direction::Up,
            Direction::Left => Direction::Right,
            Direction::Right => Direction::Left,
        }
    }

    /// Returns the opposite direction.
    #[must_use]
    pub fn opposite(self) -> (other: Self)
        ensures
            other == self.reversed(),
    {
        match self {
            Self::Up => Self::Down,
            Self::Down => Self::Up,
            Self::Left => Self::Right,
            Self::Right => Self::Left,
        }
    }
}

/// High-level input events consumed by the game loop.
#[derive(Debug, Clone, Copy, PartialEq, Eq, Structural)]
pub enum GameInput {
    Direction(Direction),
    Pause,
    Quit,
    Confirm,
}

/// The key of a key press, as far as the game tells keys apart.
#[derive(Debug, Clone, Copy, PartialEq, Eq, Structural)]
pub enum KeyCode {
    Up,
    Down,
    Left,
    Right,
    Enter,
    Esc,
    /// A character key.
    Char(char),
    /// Any other key.
    Other,
}

/// The modifier keys held during a key press, as far as the game reads
/// them.
#[derive(Debug, Clone, Copy, PartialEq, Eq, Structural)]
pub struct KeyModifiers {
    pub control: bool,
}

impl KeyModifiers {
    /// No modifier key.
    #[must_use]
    pub fn none() -> (modifiers: Self)
        ensures
            !modifiers.control,
    {
        KeyModifiers { control: false }
    }

    /// The control key alone.
    #[must_use]
    pub fn control() -> (modifiers: Self)
        ensures
            modifiers.control,
    {
        KeyModifiers { control: true }
    }

    /// Whether every modifier of `other` is held.
    #[must_use]
    pub fn contains(self, other: KeyModifiers) -> (held: bool)
        ensures
            held == (other.control ==> self.control),
    {
        !other.control || self.control
    }
}

/// One key press.
#[derive(Debug, Clone, Copy, PartialEq, Eq, Structural)]
pub struct KeyEvent {
    pub code: KeyCode,
    pub modifiers: KeyModifiers,
}

impl KeyEvent {
    /// A press of the key `code` while `modifiers` are held.
    #[must_use]
    pub fn new(code: KeyCode, modifiers: KeyModifiers) -> (event: Self)
        ensures
            event == (KeyEvent { code, modifiers }),
    {
        KeyEvent { code, modifiers }
    }
}

/// Non-blocking input poller for keyboard sources.
#[derive(Debug, Default)]
pub struct InputHandler;

impl InputHandler {
    /// Builds a new input handler.
    #[must_use]
    pub fn new() -> (handler: Self)
        ensures
            handler == InputHandler,
    {
        Self
    }

    /// Turns what one poll of the terminal found into an input event: a key
    /// press into what it means, and no event, or an event that is no key
    /// press, into nothing.
    #[must_use]
    pub fn poll_input(&mut self, polled: Option<KeyEvent>) -> (input: Option<GameInput>)
        ensures
            input == match polled {
                Some(key_event) => key_meaning(key_event),
                None => None,
            },
    {
        match polled {
            Some(key_event) => map_key_event(key_event),
            None => None,
        }
    }
}

/// Whether a direction change is legal: anything but an immediate turn
/// around.
#[must_use]
pub fn direction_change_is_valid(current: Direction, next: Direction) -> (valid: bool)
    ensures
        valid == (next != current.reversed()),
{
    next != current.opposite()
}

/// What a key press means to the game.
///
/// Control with `c` quits. The arrow keys and `w`, `a`, `s`, `d` steer,
/// `p` and escape pause, `q` quits, enter and space confirm; letters count
/// in either case. Every other key means nothing.
pub open spec fn key_meaning(key_event: KeyEvent) -> Option<GameInput> {
    if key_event.code == KeyCode::Char('c') && key_event.modifiers.control {
        Some(GameInput::Quit)
    } else {
        match key_event.code {
            KeyCode::Up => Some(GameInput::Direction(Direction::Up)),
            KeyCode::Down => Some(GameInput::Direction(Direction::Down)),
            KeyCode::Left => Some(GameInput::Direction(Direction::Left)),
            KeyCode::Right => Some(GameInput::Direction(Direction::Right)),
            KeyCode::Enter => Some(GameInput::Confirm),
            KeyCode::Esc => Some(GameInput::Pause),
            KeyCode::Char(c) => if c == 'w' || c == 'W' {
                Some(GameInput::Direction(Direction::Up))
            } else if c == 's' || c == 'S' {
                Some(GameInput::Direction(Direction::Down))
            } else if c == 'a' || c == 'A' {
                Some(GameInput::Direction(Direction::Left))
            } else if c == 'd' || c == 'D' {
                Some(GameInput::Direction(Direction::Right))
            } else if c == 'p' || c == 'P' {
                Some(GameInput::Pause)
            } else if c == 'q' || c == 'Q' {
                Some(GameInput::Quit)
            } else if c == ' ' {
                Some(GameInput::Confirm)
            } else {
                None
            },
            KeyCode::Other => None,
        }
    }
}

/// Maps a key press to the input event it stands for, if any.
pub fn map_key_event(key_event: KeyEvent) -> (input: Option<GameInput>)
    ensures
        input == key_meaning(key_event),
{
    let key_code = key_event.code;
    if matches!(key_code, KeyCode::Char('c')) && key_event.modifiers.contains(KeyModifiers::control()) {
        return Some(GameInput::Quit);
    }
    match key_code {
        KeyCode::Up | KeyCode::Char('w') | KeyCode::Char('W') => Some(
            GameInput::Direction(Direction::Up),
        ),
        KeyCode::Down | KeyCode::Char('s') | KeyCode::Char('S') => Some(
            GameInput::Direction(Direction::Down),
        ),
        KeyCode::Left | KeyCode::Char('a') | KeyCode::Char('A') => Some(
            GameInput::Direction(Direction::Left),
        ),
        KeyCode::Right | KeyCode::Char('d') | KeyCode::Char('D') => Some(
            GameInput::Direction(Direction::Right),
        ),
        KeyCode::Char('p') | KeyCode::Char('P') | KeyCode::Esc => Some(GameInput::Pause),
        KeyCode::Char('q') | KeyCode::Char('Q') => Some(GameInput::Quit),
        KeyCode::Enter | KeyCode::Char(' ') => Some(GameInput::Confirm),
        _ => None,
    }
}

} // verus!
