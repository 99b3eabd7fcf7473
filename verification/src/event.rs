//! The events that drive the runtime, and the terminal input they are made from.

use vstd::prelude::*;

verus! {

/// Modifier bit: a shift key.
pub const SHIFT: u8 = 0x01;

/// Modifier bit: a control key.
pub const CONTROL: u8 = 0x02;

/// Modifier bit: an alt key.
pub const ALT: u8 = 0x04;

/// Modifier bit: a super key.
pub const SUPER: u8 = 0x08;

/// Modifier bit: a hyper key.
pub const HYPER: u8 = 0x10;

/// Modifier bit: a meta key.
pub const META: u8 = 0x20;

/// The modifier keys held down while a key or mouse event happened, one bit each.
#[derive(Clone, Copy, Debug, PartialEq, Eq, Structural)]
pub struct KeyModifiers {
    pub bits: u8,
}

/// The keyboard state that came with a key event, one bit each.
#[derive(Clone, Copy, Debug, PartialEq, Eq, Structural)]
pub struct KeyEventState {
    pub bits: u8,
}

/// What happened to the key.
#[derive(Clone, Copy, Debug, PartialEq, Eq, Structural)]
pub enum KeyEventKind {
    Press,
    Repeat,
    Release,
}

/// A media key.
#[derive(Clone, Copy, Debug, PartialEq, Eq, Structural)]
pub enum MediaKeyCode {
    Play,
    Pause,
    PlayPause,
    Reverse,
    Stop,
    FastForward,
    Rewind,
    TrackNext,
    TrackPrevious,
    Record,
    LowerVolume,
    RaiseVolume,
    MuteVolume,
}

/// A modifier key reported as a key of its own.
#[derive(Clone, Copy, Debug, PartialEq, Eq, Structural)]
pub enum ModifierKeyCode {
    LeftShift,
    LeftControl,
    LeftAlt,
    LeftSuper,
    LeftHyper,
    LeftMeta,
    RightShift,
    RightControl,
    RightAlt,
    RightSuper,
    RightHyper,
    RightMeta,
    IsoLevel3Shift,
    IsoLevel5Shift,
}

/// The key itself.
#[derive(Clone, Copy, Debug, PartialEq, Eq, Structural)]
pub enum KeyCode {
    Backspace,
    Enter,
    Left,
    Right,
    Up,
    Down,
    Home,
    End,
    PageUp,
    PageDown,
    Tab,
    BackTab,
    Delete,
    Insert,
    F(u8),
    Char(char),
    Null,
    Esc,
    CapsLock,
    ScrollLock,
    NumLock,
    PrintScreen,
    Pause,
    Menu,
    KeypadBegin,
    Media(MediaKeyCode),
    Modifier(ModifierKeyCode),
}

/// One key action with the modifiers held at the time.
#[derive(Clone, Copy, Debug, PartialEq, Eq, Structural)]
pub struct KeyEvent {
    pub code: KeyCode,
    pub modifiers: KeyModifiers,
    pub kind: KeyEventKind,
    pub state: KeyEventState,
}

/// A mouse button.
#[derive(Clone, Copy, Debug, PartialEq, Eq, Structural)]
pub enum MouseButton {
    Left,
    Right,
    Middle,
}

/// What the mouse did.
#[derive(Clone, Copy, Debug, PartialEq, Eq, Structural)]
pub enum MouseEventKind {
    Down(MouseButton),
    Up(MouseButton),
    Drag(MouseButton),
    Moved,
    ScrollDown,
    ScrollUp,
    ScrollLeft,
    ScrollRight,
}

/// One mouse action, where it happened, and the modifiers held at the time.
#[derive(Clone, Copy, Debug, PartialEq, Eq, Structural)]
pub struct MouseEvent {
    pub kind: MouseEventKind,
    pub column: u16,
    pub row: u16,
    pub modifiers: KeyModifiers,
}

/// One item of the merged event stream.
///
/// `Error` asks for an error notice, `Tick` ages the scenes, `Render` and
/// `Resize` ask for a redraw, and the three input events go to the topmost
/// scene that takes input.
#[derive(Clone, Debug, PartialEq, Eq)]
pub enum Event {
    Error,
    Tick,
    Render,
    Key(KeyEvent),
    Mouse(MouseEvent),
    Paste(String),
    Resize(u16, u16),
}

impl KeyModifiers {
    /// No modifier at all.
    pub fn none() -> (m: Self)
        ensures
            m.bits == 0,
    {
        KeyModifiers { bits: 0 }
    }

    /// The control key alone.
    pub fn control() -> (m: Self)
        ensures
            m.bits == CONTROL,
    {
        KeyModifiers { bits: CONTROL }
    }

    /// Whether every bit of `mask` is set.
    pub open spec fn holds(self, mask: u8) -> bool {
        self.bits & mask == mask
    }

    /// Whether every bit of `mask` is set.
    pub fn contains(&self, mask: u8) -> (r: bool)
        ensures
            r == self.holds(mask),
    {
        self.bits & mask == mask
    }
}

impl KeyEvent {
    /// A key press with no keyboard state.
    pub fn new(code: KeyCode, modifiers: KeyModifiers) -> (k: Self)
        ensures
            k == (KeyEvent {
                code,
                modifiers,
                kind: KeyEventKind::Press,
                state: KeyEventState { bits: 0 },
            }),
    {
        KeyEvent { code, modifiers, kind: KeyEventKind::Press, state: KeyEventState { bits: 0 } }
    }

    /// Whether this is a press, as opposed to a repeat or a release.
    pub open spec fn pressed(self) -> bool {
        self.kind is Press
    }

    /// Whether this is a press, as opposed to a repeat or a release.
    pub fn is_press(&self) -> (r: bool)
        ensures
            r == self.pressed(),
    {
        match self.kind {
            KeyEventKind::Press => true,
            KeyEventKind::Repeat => false,
            KeyEventKind::Release => false,
        }
    }

    /// The interrupt chord: a press of lower-case `c` with the control key and
    /// nothing else held, and no keyboard state.
    pub open spec fn interrupts(self) -> bool {
        &&& self.code == KeyCode::Char('c')
        &&& self.modifiers.bits == CONTROL
        &&& self.kind is Press
        &&& self.state.bits == 0
    }

    /// Whether this key event is the interrupt chord.
    pub fn is_interrupt(&self) -> (r: bool)
        ensures
            r == self.interrupts(),
    {
        let letter = match self.code {
            KeyCode::Char(c) => c == 'c',
            _ => false,
        };
        letter && self.modifiers.bits == CONTROL && self.is_press() && self.state.bits == 0
    }
}

impl Event {
    /// Whether this event is the reserved key combination that ends the run.
    pub open spec fn interrupts(self) -> bool {
        match self {
            Event::Key(k) => k.interrupts(),
            _ => false,
        }
    }

    /// Whether this event is terminal input that goes to a scene.
    pub open spec fn input(self) -> bool {
        self is Key || self is Mouse || self is Paste
    }

    /// Whether this event asks for a redraw.
    pub open spec fn redraws(self) -> bool {
        self is Render || self is Resize
    }

    /// Whether this event is the reserved key combination that ends the run.
    pub fn is_interrupt(&self) -> (r: bool)
        ensures
            r == self.interrupts(),
    {
        match self {
            Event::Key(k) => k.is_interrupt(),
            _ => false,
        }
    }

    /// Whether this event is terminal input that goes to a scene.
    pub fn is_input(&self) -> (r: bool)
        ensures
            r == self.input(),
    {
        match self {
            Event::Key(_) => true,
            Event::Mouse(_) => true,
            Event::Paste(_) => true,
            _ => false,
        }
    }

    /// Whether this event asks for a redraw.
    pub fn is_redraw(&self) -> (r: bool)
        ensures
            r == self.redraws(),
    {
        match self {
            Event::Render => true,
            Event::Resize(_, _) => true,
            _ => false,
        }
    }
}

} // verus!
