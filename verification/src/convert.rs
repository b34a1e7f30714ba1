//! The conversion layer: normalizes the heterogeneous return shapes of branch
//! functions into the outcome algebra.

use vstd::prelude::*;
use crate::flow::Flow;

verus! {

/// A conversion from a branch function's own return shape into
/// `Result<T, E>`, where `T` is the engine's state type and `E` its unifying
/// error type. A branch function may return a narrower, function-local error
/// type as long as an implementation of this trait widens it into `E`.
pub trait IntoTransition<T, E>: Sized {
    /// What `into_transition` returns.
    spec fn into_transition_spec(self) -> Result<T, E>;

    /// Converts this value into a transition result.
    fn into_transition(self) -> (r: Result<T, E>)
        ensures
            r == self.into_transition_spec(),
    ;
}

/// A `Result` that already carries the engine's error type converts to
/// itself.
impl<T, E> IntoTransition<T, E> for Result<T, E> {
    open spec fn into_transition_spec(self) -> Result<T, E> {
        self
    }

    fn into_transition(self) -> (r: Result<T, E>) {
        self
    }
}

/// The return shapes a branch function may produce.
///
/// The two `Value`-style shapes carry a plain new-state value or a fallible
/// one; they are normalized to `Transition` on success and `Failure` on
/// error, and cannot express `Pass` or `Slide`. The `Outcome` shape returns a
/// `Flow` directly.
pub enum BranchReturn<T, E, B> {
    /// Value-style: a plain new state.
    NewState(T),
    /// Value-style: success carrying a new state, or an error.
    Fallible(Result<T, E>),
    /// Outcome-style: a `Flow` variant, chosen by the branch itself.
    Outcome(Flow<T, E, B>),
}

/// What `normalize` returns for each branch return shape.
pub open spec fn normalize_spec<T, E, B>(r: BranchReturn<T, E, B>) -> Flow<T, E, B> {
    match r {
        BranchReturn::NewState(t) => Flow::Transition(t),
        BranchReturn::Fallible(Ok(t)) => Flow::Transition(t),
        BranchReturn::Fallible(Err(e)) => Flow::Failure(e),
        BranchReturn::Outcome(f) => f,
    }
}

/// Normalizes a branch function's return value into an outcome. This is a
/// pure, total conversion, applied once per branch invocation.
pub fn normalize<T, E, B>(r: BranchReturn<T, E, B>) -> (f: Flow<T, E, B>)
    ensures
        f == normalize_spec(r),
{
    match r {
        BranchReturn::NewState(t) => Flow::Transition(t),
        BranchReturn::Fallible(Ok(t)) => Flow::Transition(t),
        BranchReturn::Fallible(Err(e)) => Flow::Failure(e),
        BranchReturn::Outcome(f) => f,
    }
}

} // verus!
