//! Keys, modifiers and key events, independent of any platform.
use vstd::prelude::*;

use crate::config::diagnostics;

verus! {

/// A key, independent of the platform and its codes.
#[derive(Debug, Clone, Copy, PartialEq, Eq, Hash, Structural)]
pub enum Key {
    /// A printable key. It names the key; the text that the layout commits
    /// travels in [`KeyEvent::text`].
    Char(char),
    /// Return, or Enter on the keypad.
    Enter,
    Tab,
    Backspace,
    Escape,
    Up,
    Down,
    Left,
    Right,
    Home,
    End,
    PageUp,
    PageDown,
    Insert,
    Delete,
    /// A function key; F1 to F12 are encoded.
    F(u8),
}

/// A set of modifiers.
///
/// AltGr is a modifier of its own, not Control and Alt together: it types
/// layout characters such as `@` and `€`. An event that carries it with
/// committed text is sent as that text alone.
#[derive(Debug, Clone, Copy, PartialEq, Eq, Hash, Structural)]
pub struct Modifiers(
    /// Bit 0 is Shift, bit 1 Control, bit 2 Alt, bit 3 AltGr.
    pub u8,
);

impl Modifiers {
    /// The set without modifiers.
    pub fn none() -> (r: Modifiers)
        ensures
            r == Modifiers(0),
    {
        Modifiers(0)
    }

    /// Shift alone.
    pub fn shift() -> (r: Modifiers)
        ensures
            r == Modifiers(1),
    {
        Modifiers(1)
    }

    /// Control alone.
    pub fn ctrl() -> (r: Modifiers)
        ensures
            r == Modifiers(2),
    {
        Modifiers(2)
    }

    /// Alt alone.
    pub fn alt() -> (r: Modifiers)
        ensures
            r == Modifiers(4),
    {
        Modifiers(4)
    }

    /// AltGr, the level-3 shift, alone.
    pub fn alt_gr() -> (r: Modifiers)
        ensures
            r == Modifiers(8),
    {
        Modifiers(8)
    }

    /// No modifier.
    pub fn empty() -> (r: Modifiers)
        ensures
            r.0 == 0,
    {
        Modifiers(0)
    }

    /// Whether every modifier of `other` is in this set.
    pub open spec fn has(self, other: Modifiers) -> bool {
        self.0 & other.0 == other.0
    }

    pub open spec fn has_shift(self) -> bool {
        self.has(Modifiers(1))
    }

    pub open spec fn has_ctrl(self) -> bool {
        self.has(Modifiers(2))
    }

    pub open spec fn has_alt(self) -> bool {
        self.has(Modifiers(4))
    }

    pub open spec fn has_alt_gr(self) -> bool {
        self.has(Modifiers(8))
    }

    /// Whether every modifier of `other` is in this set.
    pub fn contains(self, other: Modifiers) -> (r: bool)
        ensures
            r == self.has(other),
    {
        (self.0 & other.0) == other.0
    }

    /// The modifiers of either set.
    pub fn union(self, other: Modifiers) -> (r: Modifiers)
        ensures
            r.0 == self.0 | other.0,
            r.has(self),
            r.has(other),
    {
        let a = self.0;
        let b = other.0;
        assert((a | b) & a == a && (a | b) & b == b) by (bit_vector);
        Modifiers(self.0 | other.0)
    }

    /// Whether no modifier is in this set.
    pub fn is_empty(self) -> (r: bool)
        ensures
            r == (self.0 == 0),
    {
        self.0 == 0
    }
}

impl core::ops::BitOr for Modifiers {
    type Output = Modifiers;

    /// The modifiers of either set.
    fn bitor(self, rhs: Modifiers) -> (r: Modifiers) {
        self.union(rhs)
    }
}

impl vstd::std_specs::ops::BitOrSpecImpl for Modifiers {
    open spec fn obeys_bitor_spec() -> bool {
        true
    }

    open spec fn bitor_req(self, rhs: Modifiers) -> bool {
        true
    }

    open spec fn bitor_spec(self, rhs: Modifiers) -> Modifiers {
        Modifiers(self.0 | rhs.0)
    }
}

impl core::ops::BitOrAssign for Modifiers {
    /// Adds the modifiers of the other set.
    fn bitor_assign(&mut self, rhs: Modifiers)
        ensures
            final(self).0 == old(self).0 | rhs.0,
    {
        *self = self.union(rhs);
    }
}

impl Default for Modifiers {
    fn default() -> (r: Self)
        ensures
            r.0 == 0,
    {
        Modifiers(0)
    }
}

/// A key press ready to be encoded.
#[derive(Debug, Clone, PartialEq, Eq, Hash)]
pub struct KeyEvent {
    pub key: Key,
    pub mods: Modifiers,
    /// The text that the layout has committed for this event. A dead key
    /// commits none; the composed character arrives as a later event.
    pub text: Option<String>,
}

/// What a [`KeyEvent`] says.
#[verifier::ext_equal]
pub struct KeyModel {
    pub key: Key,
    pub mods: Modifiers,
    pub text: Option<Seq<char>>,
}

impl View for KeyEvent {
    type V = KeyModel;

    open spec fn view(&self) -> KeyModel {
        KeyModel { key: self.key, mods: self.mods, text: diagnostics::text_of(self.text) }
    }
}

impl KeyModel {
    /// The committed text, empty where there is none.
    pub open spec fn committed(self) -> Seq<char> {
        match self.text {
            Some(s) => s,
            None => Seq::empty(),
        }
    }
}

impl KeyEvent {
    /// An event without committed text.
    pub fn new(key: Key, mods: Modifiers) -> (r: KeyEvent)
        ensures
            r@ == (KeyModel { key, mods, text: None }),
    {
        KeyEvent { key, mods, text: None }
    }

    /// An event with committed text.
    pub fn with_text(key: Key, mods: Modifiers, text: &str) -> (r: KeyEvent)
        ensures
            r@ == (KeyModel { key, mods, text: Some(text@) }),
    {
        KeyEvent { key, mods, text: Some(text.to_owned()) }
    }

    /// The committed text, empty where there is none.
    pub fn committed(&self) -> (r: &str)
        ensures
            r@ == self@.committed(),
    {
        match &self.text {
            Some(s) => s.as_str(),
            None => {
                proof {
                    reveal_strlit("");
                    assert(""@ =~= Seq::<char>::empty());
                }
                ""
            },
        }
    }
}

} // verus!
