//! The decisions of the event source: which intervals it accepts, and which
//! event, if any, it sends on for what became ready.

use vstd::prelude::*;
use crate::event::{Event, KeyEvent, MouseEvent};

verus! {

/// Why a pair of intervals was turned down.
#[derive(Clone, Copy, Debug, PartialEq, Eq, Structural)]
pub enum ConfigError {
    /// The tick interval is zero.
    ZeroTickInterval,
    /// The render interval is zero.
    ZeroRenderInterval,
}

/// The two cadences of the event source, in milliseconds, both above zero.
#[derive(Clone, Copy, Debug, PartialEq, Eq, Structural)]
pub struct Intervals {
    pub tick_ms: u64,
    pub render_ms: u64,
}

/// What the terminal reported.
#[derive(Clone, Debug, PartialEq, Eq)]
pub enum Input {
    FocusGained,
    FocusLost,
    Key(KeyEvent),
    Mouse(MouseEvent),
    Paste(String),
    Resize(u16, u16),
}

/// What became ready in one round of waiting on the terminal and the two timers.
#[derive(Clone, Debug, PartialEq, Eq)]
pub enum Ready {
    /// The terminal reported something.
    Input(Input),
    /// The terminal sent something that could not be decoded.
    Garbled,
    /// The terminal has nothing more to report.
    Ended,
    /// The tick interval elapsed.
    Tick,
    /// The render interval elapsed.
    Render,
}

/// The intervals that an event source accepts.
pub open spec fn accepted(tick_ms: u64, render_ms: u64) -> bool {
    tick_ms > 0 && render_ms > 0
}

/// The verdict on a pair of intervals: the pair itself, or the first interval
/// that is zero.
pub open spec fn verdict(tick_ms: u64, render_ms: u64) -> Result<Intervals, ConfigError> {
    if tick_ms == 0 {
        Err(ConfigError::ZeroTickInterval)
    } else if render_ms == 0 {
        Err(ConfigError::ZeroRenderInterval)
    } else {
        Ok(Intervals { tick_ms, render_ms })
    }
}

/// The event that the source sends on for what became ready: terminal input
/// as the event of the same kind, but nothing for a key that was not pressed
/// or for a change of focus; an error for input that could not be decoded;
/// a tick or a render for the timer that elapsed.
pub open spec fn sent(ready: Ready) -> Option<Event> {
    match ready {
        Ready::Input(Input::Key(k)) => if k.pressed() {
            Some(Event::Key(k))
        } else {
            None
        },
        Ready::Input(Input::Mouse(m)) => Some(Event::Mouse(m)),
        Ready::Input(Input::Paste(s)) => Some(Event::Paste(s)),
        Ready::Input(Input::Resize(w, h)) => Some(Event::Resize(w, h)),
        Ready::Input(Input::FocusGained) => None,
        Ready::Input(Input::FocusLost) => None,
        Ready::Garbled => Some(Event::Error),
        Ready::Ended => None,
        Ready::Tick => Some(Event::Tick),
        Ready::Render => Some(Event::Render),
    }
}

impl Intervals {
    /// Whether both intervals are above zero.
    pub open spec fn valid(self) -> bool {
        accepted(self.tick_ms, self.render_ms)
    }

    /// Accepts the two intervals if neither is zero, and names the first that is.
    pub fn new(tick_ms: u64, render_ms: u64) -> (r: Result<Intervals, ConfigError>)
        ensures
            r == verdict(tick_ms, render_ms),
            r is Ok <==> accepted(tick_ms, render_ms),
            r matches Ok(i) ==> i.valid(),
    {
        if tick_ms == 0 {
            Err(ConfigError::ZeroTickInterval)
        } else if render_ms == 0 {
            Err(ConfigError::ZeroRenderInterval)
        } else {
            Ok(Intervals { tick_ms, render_ms })
        }
    }
}

/// Decides what the event source sends on for what became ready.
pub fn emit(ready: Ready) -> (r: Option<Event>)
    ensures
        r == sent(ready),
{
    match ready {
        Ready::Input(input) => match input {
            Input::Key(k) => if k.is_press() {
                Some(Event::Key(k))
            } else {
                None
            },
            Input::Mouse(m) => Some(Event::Mouse(m)),
            Input::Paste(s) => Some(Event::Paste(s)),
            Input::Resize(w, h) => Some(Event::Resize(w, h)),
            Input::FocusGained => None,
            Input::FocusLost => None,
        },
        Ready::Garbled => Some(Event::Error),
        Ready::Ended => None,
        Ready::Tick => Some(Event::Tick),
        Ready::Render => Some(Event::Render),
    }
}

/// Every key event that the source sends on is a press.
pub proof fn lemma_only_presses_sent(ready: Ready)
    ensures
        sent(ready) matches Some(Event::Key(k)) ==> k.pressed(),
{
}

} // verus!
