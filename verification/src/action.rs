//! Action keys: stable names for the commands a binding can issue.

use vstd::prelude::*;
use vstd::string::StringSliceAdditionalSpecFns;

use crate::id::{fnv1a, fnv1a_spec, FNV_OFFSET};

verus! {

/// A stable action identity: the FNV-1a hash of its name.
#[derive(Clone, Copy, Debug, PartialEq, Eq, Structural, Hash)]
pub struct ActionKey(pub u64);

impl ActionKey {
    /// The action named `name`.
    pub fn custom(name: &str) -> (k: ActionKey)
        ensures
            k.0 == fnv1a_spec(FNV_OFFSET, name.spec_bytes()),
    {
        ActionKey(fnv1a(FNV_OFFSET, name.as_bytes()))
    }

    /// Close the surface.
    pub fn close() -> (k: ActionKey)
        ensures
            k.0 == fnv1a_spec(FNV_OFFSET, "tui.close".spec_bytes()),
    {
        ActionKey::custom("tui.close")
    }

    /// Save.
    pub fn save() -> (k: ActionKey)
        ensures
            k.0 == fnv1a_spec(FNV_OFFSET, "tui.save".spec_bytes()),
    {
        ActionKey::custom("tui.save")
    }

    /// Retry.
    pub fn retry() -> (k: ActionKey)
        ensures
            k.0 == fnv1a_spec(FNV_OFFSET, "tui.retry".spec_bytes()),
    {
        ActionKey::custom("tui.retry")
    }

    /// Confirm.
    pub fn confirm() -> (k: ActionKey)
        ensures
            k.0 == fnv1a_spec(FNV_OFFSET, "tui.confirm".spec_bytes()),
    {
        ActionKey::custom("tui.confirm")
    }
}

} // verus!
