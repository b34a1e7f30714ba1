//! The outcome algebra: the four possible results of one dispatch.

use vstd::prelude::*;

verus! {

/// `Flow` represents the possible outcomes of a state transition.
///
/// `T` is the state type, `E` the error type, and `B` the event type used by
/// the `Slide` outcome to trigger an immediate re-dispatch.
#[derive(Debug)]
pub enum Flow<T, E, B> {
    /// Complete the dispatch without changing the state.
    Pass,
    /// Replace the authoritative state with a new state.
    Transition(T),
    /// Replace the authoritative state, then immediately re-dispatch the
    /// given event as if the caller had fired it next.
    Slide(T, B),
    /// Abort the dispatch; the error propagates to the caller unchanged and
    /// the state is not mutated.
    Failure(E),
}

} // verus!
