//! The compiler fence that orders the zero fill before the release.

use vstd::prelude::*;

verus! {

/// `core::sync::atomic::compiler_fence` with sequentially consistent
/// ordering. It changes no value.
#[verifier::external_body]
pub(crate) fn compiler_fence_seq_cst() {
    core::sync::atomic::compiler_fence(core::sync::atomic::Ordering::SeqCst);
}

} // verus!
