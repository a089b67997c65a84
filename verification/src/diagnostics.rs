//! Diagnostics the library reports about an application's configuration.

use vstd::prelude::*;

use crate::id::Id;
use crate::keymap::KeyPhase;
use crate::keys::Chord;
use crate::layer::LayerId;

verus! {

/// A configuration problem found at run time.
#[derive(Clone, Copy, Debug, PartialEq, Eq, Structural)]
pub enum Diagnostic {
    /// Two bindings answer to the same chord in the same phase.
    BindingConflict {
        /// The chord bound twice.
        chord: Chord,
        /// The phase both bindings live in.
        phase: KeyPhase,
        /// The owner of the first binding.
        a: Id,
        /// The owner of the second binding.
        b: Id,
    },
    /// Focus kept moving through every update pass the runtime allows; the
    /// last staged move was applied anyway.
    FocusTransitionDidNotSettle {
        /// Where focus was last asked to go.
        target: Option<Id>,
    },
    /// Two editors on the top layer both ask for fallback typing.
    TypingTargetConflict {
        /// The first declared.
        a: Id,
        /// A later one.
        b: Id,
        /// The layer they are on.
        layer: LayerId,
    },
}

} // verus!
