//! Small helpers for results whose outcome the caller deliberately drops.

use vstd::prelude::*;

verus! {

/// A value whose content may be discarded on purpose, making the intent
/// visible at the call site.
pub trait Ignoreable {
    /// Consumes the value and does nothing with it.
    fn ignore(self);
}

impl<T, E> Ignoreable for Result<T, E> {
    fn ignore(self) {
    }
}

/// Consumes a result, discarding success and failure alike.
pub fn consume_result<T, E>(res: Result<T, E>) {
}

} // verus!
