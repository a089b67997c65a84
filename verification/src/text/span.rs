//! The role-carrying span: text with a colour role, never a resolved style,
//! so text re-themes without being rebuilt.

use vstd::prelude::*;

use crate::theme::patch::Modifier;
use crate::theme::role::Role;

verus! {

/// Borrowed text with a colour role and modifiers.
#[derive(Clone, Copy, Debug, PartialEq, Eq)]
pub struct Span<'a> {
    /// The text.
    pub text: &'a str,
    /// The foreground role; `None` inherits the part's style.
    pub role: Option<Role>,
    /// Modifiers added over the part's style.
    pub add: Modifier,
}

impl<'a> Span<'a> {
    /// Plain text inheriting the part's style.
    pub fn new(text: &'a str) -> (s: Span<'a>)
        ensures
            s == (Span { text, role: None, add: Modifier::of(0) }),
    {
        proof {
            Modifier::lemma_from_bits(0);
        }
        Span { text, role: None, add: Modifier::empty() }
    }

    /// Text in a role.
    pub fn role(self, r: Role) -> (s: Span<'a>)
        ensures
            s == (Span { role: Some(r), ..self }),
    {
        Span { role: Some(r), ..self }
    }

    /// Add modifiers.
    pub fn modifier(self, m: Modifier) -> (s: Span<'a>)
        ensures
            s.text == self.text,
            s.role == self.role,
            s.add.spec_bits() == self.add.spec_bits() | m.spec_bits(),
    {
        Span { add: self.add.union(m), ..self }
    }

    /// Bold.
    pub fn bold(self) -> (s: Span<'a>)
        ensures
            s.text == self.text,
            s.role == self.role,
            s.add.spec_bits() == self.add.spec_bits() | 1,
    {
        self.modifier(Modifier::bold())
    }

    /// Italic.
    pub fn italic(self) -> (s: Span<'a>)
        ensures
            s.text == self.text,
            s.role == self.role,
            s.add.spec_bits() == self.add.spec_bits() | 4,
    {
        self.modifier(Modifier::italic())
    }

    /// Underlined.
    pub fn underlined(self) -> (s: Span<'a>)
        ensures
            s.text == self.text,
            s.role == self.role,
            s.add.spec_bits() == self.add.spec_bits() | 8,
    {
        self.modifier(Modifier::underlined())
    }

    /// Dim.
    pub fn dim(self) -> (s: Span<'a>)
        ensures
            s.text == self.text,
            s.role == self.role,
            s.add.spec_bits() == self.add.spec_bits() | 2,
    {
        self.modifier(Modifier::dim())
    }
}

impl<'a> From<&'a str> for Span<'a> {
    fn from(text: &'a str) -> (s: Span<'a>) {
        Span::new(text)
    }
}

impl<'a> vstd::std_specs::convert::FromSpecImpl<&'a str> for Span<'a> {
    open spec fn obeys_from_spec() -> bool {
        true
    }

    open spec fn from_spec(text: &'a str) -> Span<'a> {
        Span { text, role: None, add: Modifier::of(0) }
    }
}

} // verus!
