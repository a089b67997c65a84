//! Backend-neutral keyboard vocabulary. Values describe keys, never
//! terminal I/O.

use vstd::prelude::*;

verus! {

/// A media control key.
#[derive(Clone, Copy, Debug, PartialEq, Eq, Structural, PartialOrd, Ord, Hash)]
pub enum MediaKeyCode {
    /// Play key.
    Play,
    /// Pause key.
    Pause,
    /// Play pause key.
    PlayPause,
    /// Reverse key.
    Reverse,
    /// Stop key.
    Stop,
    /// Fast forward key.
    FastForward,
    /// Rewind key.
    Rewind,
    /// Track next key.
    TrackNext,
    /// Track previous key.
    TrackPrevious,
    /// Record key.
    Record,
    /// Lower volume key.
    LowerVolume,
    /// Raise volume key.
    RaiseVolume,
    /// Mute volume key.
    MuteVolume,
}

/// A modifier key pressed as a key in its own right.
#[derive(Clone, Copy, Debug, PartialEq, Eq, Structural, PartialOrd, Ord, Hash)]
pub enum ModifierKeyCode {
    /// Left shift key.
    LeftShift,
    /// Left control key.
    LeftControl,
    /// Left alt key.
    LeftAlt,
    /// Left super key.
    LeftSuper,
    /// Left hyper key.
    LeftHyper,
    /// Left meta key.
    LeftMeta,
    /// Right shift key.
    RightShift,
    /// Right control key.
    RightControl,
    /// Right alt key.
    RightAlt,
    /// Right super key.
    RightSuper,
    /// Right hyper key.
    RightHyper,
    /// Right meta key.
    RightMeta,
    /// Iso level3 shift key.
    IsoLevel3Shift,
    /// Iso level5 shift key.
    IsoLevel5Shift,
}

/// A keyboard key, independent of the terminal backend.
#[derive(Clone, Copy, Debug, PartialEq, Eq, Structural, PartialOrd, Ord, Hash)]
pub enum KeyCode {
    /// Backspace key.
    Backspace,
    /// Enter key.
    Enter,
    /// Left key.
    Left,
    /// Right key.
    Right,
    /// Up key.
    Up,
    /// Down key.
    Down,
    /// Home key.
    Home,
    /// End key.
    End,
    /// Page up key.
    PageUp,
    /// Page down key.
    PageDown,
    /// Tab key.
    Tab,
    /// Back tab key.
    BackTab,
    /// Delete key.
    Delete,
    /// Insert key.
    Insert,
    /// Null key.
    Null,
    /// Esc key.
    Esc,
    /// Caps lock key.
    CapsLock,
    /// Scroll lock key.
    ScrollLock,
    /// Num lock key.
    NumLock,
    /// Print screen key.
    PrintScreen,
    /// Pause key.
    Pause,
    /// Menu key.
    Menu,
    /// Keypad begin key.
    KeypadBegin,
    /// Function key number.
    F(u8),
    /// Unicode character.
    Char(char),
    /// Media control.
    Media(MediaKeyCode),
    /// Physical modifier key.
    Modifier(ModifierKeyCode),
}

/// Keyboard modifiers held during a key or pointer event, one bit each.
#[derive(Clone, Copy, Debug, Default, PartialEq, Eq, Structural, PartialOrd, Ord, Hash)]
pub struct KeyModifiers {
    bits: u8,
}

impl KeyModifiers {
    /// The bits.
    pub closed spec fn spec_bits(self) -> u8 {
        self.bits
    }

    /// The modifiers with these bits.
    pub closed spec fn of_bits(bits: u8) -> KeyModifiers {
        KeyModifiers { bits }
    }

    /// `of_bits` keeps the bits, and modifiers are their bits: two with the
    /// same bits are equal.
    pub proof fn lemma_of_bits(bits: u8)
        ensures
            KeyModifiers::of_bits(bits).spec_bits() == bits,
            forall|m: KeyModifiers| #[trigger] KeyModifiers::of_bits(m.spec_bits()) == m,
    {
    }

    /// No modifiers.
    pub fn none() -> (m: KeyModifiers)
        ensures
            m.spec_bits() == 0,
            m == KeyModifiers::of_bits(0),
    {
        KeyModifiers { bits: 0 }
    }

    /// Shift modifier.
    pub fn shift() -> (m: KeyModifiers)
        ensures
            m.spec_bits() == 1,
            m == KeyModifiers::of_bits(1),
    {
        KeyModifiers { bits: 1 }
    }

    /// Control modifier.
    pub fn control() -> (m: KeyModifiers)
        ensures
            m.spec_bits() == 2,
            m == KeyModifiers::of_bits(2),
    {
        KeyModifiers { bits: 2 }
    }

    /// Alt modifier.
    pub fn alt() -> (m: KeyModifiers)
        ensures
            m.spec_bits() == 4,
            m == KeyModifiers::of_bits(4),
    {
        KeyModifiers { bits: 4 }
    }

    /// Super modifier.
    pub fn super_key() -> (m: KeyModifiers)
        ensures
            m.spec_bits() == 8,
            m == KeyModifiers::of_bits(8),
    {
        KeyModifiers { bits: 8 }
    }

    /// Hyper modifier.
    pub fn hyper() -> (m: KeyModifiers)
        ensures
            m.spec_bits() == 16,
            m == KeyModifiers::of_bits(16),
    {
        KeyModifiers { bits: 16 }
    }

    /// Meta modifier.
    pub fn meta() -> (m: KeyModifiers)
        ensures
            m.spec_bits() == 32,
            m == KeyModifiers::of_bits(32),
    {
        KeyModifiers { bits: 32 }
    }

    /// The modifiers of `bits`, dropping bits that name none.
    pub fn from_bits_truncate(bits: u8) -> (m: KeyModifiers)
        ensures
            m.spec_bits() == bits & 63,
            m == KeyModifiers::of_bits(bits & 63),
    {
        KeyModifiers { bits: bits & 63 }
    }

    /// The bits.
    pub fn bits(self) -> (b: u8)
        ensures
            b == self.spec_bits(),
    {
        self.bits
    }

    /// The modifiers of either.
    pub fn union(self, other: KeyModifiers) -> (m: KeyModifiers)
        ensures
            m.spec_bits() == self.spec_bits() | other.spec_bits(),
            m == KeyModifiers::of_bits(self.spec_bits() | other.spec_bits()),
    {
        KeyModifiers { bits: self.bits | other.bits }
    }

    /// Whether every modifier of `other` is held.
    pub fn contains(self, other: KeyModifiers) -> (b: bool)
        ensures
            b == (self.spec_bits() & other.spec_bits() == other.spec_bits()),
    {
        self.bits & other.bits == other.bits
    }
}

/// A key press: the key and the modifiers held.
#[derive(Clone, Copy, Debug, PartialEq, Eq, Structural, Hash)]
pub struct Key {
    /// The key.
    pub code: KeyCode,
    /// The modifiers.
    pub mods: KeyModifiers,
}

/// A chord a binding answers to: a key and exactly these modifiers.
#[derive(Clone, Copy, Debug, PartialEq, Eq, Structural, Hash)]
pub struct Chord {
    /// The key.
    pub code: KeyCode,
    /// The modifiers.
    pub mods: KeyModifiers,
}

/// A chord with no modifier that types a character.
pub open spec fn spec_is_bare_char(c: Chord) -> bool {
    c.code is Char && (c.mods.spec_bits() / 2) % 32 == 0
}

impl Chord {
    /// The key without modifiers.
    pub fn key(code: KeyCode) -> (c: Chord)
        ensures
            c.code == code,
            c.mods.spec_bits() == 0,
            c.mods == KeyModifiers::of_bits(0),
            c == (Chord { code, mods: KeyModifiers::of_bits(0) }),
    {
        Chord { code, mods: KeyModifiers::none() }
    }

    /// The key with modifiers.
    pub fn with(code: KeyCode, mods: KeyModifiers) -> (c: Chord)
        ensures
            c.code == code,
            c.mods == mods,
    {
        Chord { code, mods }
    }

    /// Whether the press is this chord: the same key and the same modifiers.
    pub fn matches(&self, key: &Key) -> (b: bool)
        ensures
            b == (self.code == key.code && self.mods == key.mods),
    {
        self.code == key.code && self.mods.bits == key.mods.bits
    }

    /// Whether the chord types a character: a `Char` key with no modifier
    /// beyond shift.
    pub fn is_bare_char(&self) -> (b: bool)
        ensures
            b == spec_is_bare_char(*self),
    {
        match self.code {
            KeyCode::Char(_) => {
                let b = self.mods.bits;
                assert((b & 62 == 0) == ((b / 2) % 32 == 0)) by (bit_vector);
                b & 62 == 0
            },
            _ => false,
        }
    }
}

} // verus!
