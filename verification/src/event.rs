use vstd::prelude::*;

verus! {

/// The keys the dashboard tells apart.
#[derive(Debug, Clone, Copy, PartialEq, Eq, Structural)]
pub enum KeyCode {
    Char(char),
    Tab,
    BackTab,
    Up,
    Down,
    Left,
    Right,
    Other,
}

/// A key press: the key and whether Control was held.
#[derive(Debug, Clone, Copy, PartialEq, Eq, Structural)]
pub struct KeyInput {
    pub code: KeyCode,
    pub ctrl: bool,
}

/// What one read of the terminal produced.
#[derive(Debug, Clone, Copy, PartialEq, Eq, Structural)]
pub enum TermInput {
    Key(KeyInput),
    Other,
}

/// What the main loop acts on.
#[derive(Debug, Clone, Copy, PartialEq, Eq, Structural)]
pub enum AppEvent {
    Key(KeyInput),
    Tick,
    Quit,
}

/// Whether a key press asks to quit: `q`, or Control and `c`.
pub open spec fn is_quit_key(k: KeyInput) -> bool {
    k.code == KeyCode::Char('q') || (k.code == KeyCode::Char('c') && k.ctrl)
}

/// The event for the outcome of one poll of the terminal: `None` when the
/// poll timed out.
pub open spec fn event_for(polled: Option<TermInput>) -> AppEvent {
    match polled {
        Some(TermInput::Key(k)) => if is_quit_key(k) {
            AppEvent::Quit
        } else {
            AppEvent::Key(k)
        },
        _ => AppEvent::Tick,
    }
}

/// Keys that select the next device: Tab, Down and Right.
pub open spec fn is_next_key(code: KeyCode) -> bool {
    code == KeyCode::Tab || code == KeyCode::Down || code == KeyCode::Right
}

/// Keys that select the previous device: Shift-Tab, Up and Left.
pub open spec fn is_prev_key(code: KeyCode) -> bool {
    code == KeyCode::BackTab || code == KeyCode::Up || code == KeyCode::Left
}

/// Turns terminal input into main-loop events.
pub struct EventHandler;

impl EventHandler {
    pub fn new() -> (r: Self)
        ensures
            r == EventHandler,
    {
        EventHandler
    }

    /// The event for the outcome of one poll: `q` and Control-C quit, other
    /// keys pass through, and a timeout or a non-key input is a tick.
    pub fn next(&self, polled: Option<TermInput>) -> (r: AppEvent)
        ensures
            r == event_for(polled),
    {
        match polled {
            Some(TermInput::Key(k)) => {
                let quit = match k.code {
                    KeyCode::Char(ch) => ch == 'q' || (ch == 'c' && k.ctrl),
                    _ => false,
                };
                if quit {
                    AppEvent::Quit
                } else {
                    AppEvent::Key(k)
                }
            },
            _ => AppEvent::Tick,
        }
    }
}

/// `q`, with or without Control, and Control-C quit; a poll that times out
/// or reads anything but a key is a tick.
pub proof fn law_quit_keys_quit(ctrl: bool)
    ensures
        event_for(Some(TermInput::Key((KeyInput { code: KeyCode::Char('q'), ctrl })))) == AppEvent::Quit,
        event_for(Some(TermInput::Key((KeyInput { code: KeyCode::Char('c'), ctrl: true }))))
            == AppEvent::Quit,
        event_for(None) == AppEvent::Tick,
        event_for(Some(TermInput::Other)) == AppEvent::Tick,
{
}

} // verus!
