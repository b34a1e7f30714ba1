//! The execution runtime: a `Machine` owns the authoritative state and the
//! shared context, and advances them by interpreting the outcome of each
//! dispatch.

use vstd::prelude::*;
use crate::flow::Flow;

verus! {

/// `Engine` is the compiled transition procedure of one state machine.
///
/// `next` advances the machine: given the current state, an incoming event
/// (consumed exactly once) and the shared context, it produces an outcome.
/// Implementations state what they compute through `next_spec`; the runtime
/// mutates state and context only by interpreting the outcome `next`
/// returned.
pub trait Engine {
    /// The enum of possible states.
    type State;
    /// The type of events that drive state transitions.
    type Event;
    /// The type of errors that can occur during state transitions.
    type Error;
    /// Shared data accessible to every branch.
    type Shared;

    /// What `next` returns and how it updates the shared context.
    spec fn next_spec(state: Self::State, event: Self::Event, shared: Self::Shared) -> (
        Flow<Self::State, Self::Error, Self::Event>,
        Self::Shared,
    );

    /// Advances the state machine one dispatch, based on the current state,
    /// the incoming event, and the shared data.
    fn next(state: &Self::State, event: Self::Event, shared: &mut Self::Shared) -> (f: Flow<
        Self::State,
        Self::Error,
        Self::Event,
    >)
        ensures
            (f, *final(shared)) == Self::next_spec(*state, event, *old(shared)),
    ;

    /// A failed dispatch commits nothing: when `next` resolves to
    /// `Failure`, the shared data comes back exactly as it went in. Every
    /// engine owes this to the runtime; an implementation that lets a
    /// failing dispatch mutate the shared data cannot discharge it.
    proof fn failure_preserves_shared(
        state: Self::State,
        event: Self::Event,
        shared: Self::Shared,
    )
        ensures
            Self::next_spec(state, event, shared).0 is Failure ==> Self::next_spec(
                state,
                event,
                shared,
            ).1 == shared,
    ;
}

/// Shared data for machines whose branches need none.
#[derive(Debug, Clone, Copy, PartialEq, Eq, Structural)]
pub struct NoShared;

impl Default for NoShared {
    /// There is only one value.
    fn default() -> (s: Self)
        ensures
            s == NoShared,
    {
        NoShared
    }
}

/// The slot that owns the authoritative state and shared context.
#[derive(Debug)]
pub struct Store<T, S> {
    pub state: T,
    pub shared: S,
}

impl<T, S> Store<T, S> {
    /// Creates a store from an initial state and shared value.
    pub fn new(state: T, shared: S) -> (s: Self)
        ensures
            s.state == state,
            s.shared == shared,
    {
        Store { state, shared }
    }
}

/// The final (state, shared) pair of a consumed machine.
#[derive(Debug)]
pub struct DestructedMachine<T, S> {
    pub state: T,
    pub shared: S,
}

/// `Machine` owns the authoritative state and shared data of one state
/// machine and advances them by firing events.
///
/// The shared slot covers both context configurations: it may hold the
/// same data that the type hosting the branch functions would carry
/// (engine-owned context, as the counters of the call machine do) or an
/// independent value stored beside the state (store-owned context); either
/// way it is the `Shared` type, visible to every branch.
pub struct Machine<T: Engine> {
    pub store: Store<T::State, T::Shared>,
}

/// The result of running the dispatch-and-slide chain from a given state,
/// shared value and event, within `fuel` slide steps: the value `fire`
/// returns together with the final state and shared value, or `None` if the
/// chain slides more than `fuel` times.
pub open spec fn fire_spec<T: Engine>(
    state: T::State,
    shared: T::Shared,
    event: T::Event,
    fuel: nat,
) -> Option<(Result<(), T::Error>, T::State, T::Shared)>
    decreases fuel,
{
    let (f, shared2) = T::next_spec(state, event, shared);
    match f {
        Flow::Pass => Some((Ok(()), state, shared2)),
        Flow::Transition(s2) => Some((Ok(()), s2, shared2)),
        Flow::Slide(s2, e2) => if fuel == 0 {
            None
        } else {
            fire_spec::<T>(s2, shared2, e2, (fuel - 1) as nat)
        },
        Flow::Failure(err) => Some((Err(err), state, shared2)),
    }
}

/// The dispatch-and-slide chain from `(state, shared, event)` ends after
/// finitely many slide steps. An unbroken chain of `Slide` outcomes never
/// ends; avoiding one is the responsibility of whoever declares the
/// branches, and `fire` asks its callers for exactly this.
pub open spec fn fire_terminates<T: Engine>(
    state: T::State,
    shared: T::Shared,
    event: T::Event,
) -> bool {
    exists|n: nat| fire_spec::<T>(state, shared, event, n) is Some
}

/// A dispatch that fails mutates neither the state nor the shared data:
/// firing its event returns the error to the caller and leaves the machine
/// exactly as it was. (A `Slide` chain whose later step fails keeps the
/// committed earlier steps, as `fire_spec` describes; this lemma speaks of
/// the failing dispatch itself.)
pub proof fn lemma_failure_commits_nothing<T: Engine>(
    state: T::State,
    shared: T::Shared,
    event: T::Event,
    err: T::Error,
)
    requires
        T::next_spec(state, event, shared).0 == Flow::<T::State, T::Error, T::Event>::Failure(err),
    ensures
        fires_to::<T>(state, shared, event, Err(err), state, shared),
{
    T::failure_preserves_shared(state, event, shared);
    assert(fire_spec::<T>(state, shared, event, 0) == Some(
        (Result::<(), T::Error>::Err(err), state, shared),
    ));
}

/// When a dispatch-and-slide chain ends in an error, its final state and
/// shared data are exactly what the failing dispatch observed: the failing
/// step itself committed nothing, whatever the earlier slide steps
/// committed.
pub proof fn lemma_failed_chain_ends_unmutated<T: Engine>(
    state: T::State,
    shared: T::Shared,
    event: T::Event,
    n: nat,
    err: T::Error,
    state2: T::State,
    shared2: T::Shared,
)
    requires
        fire_spec::<T>(state, shared, event, n) == Some(
            (Result::<(), T::Error>::Err(err), state2, shared2),
        ),
    ensures
        exists|e2: T::Event| #[trigger] T::next_spec(state2, e2, shared2) == (
            Flow::<T::State, T::Error, T::Event>::Failure(err),
            shared2,
        ),
    decreases n,
{
    let (f, shared_next) = T::next_spec(state, event, shared);
    match f {
        Flow::Slide(s2, e2) => {
            lemma_failed_chain_ends_unmutated::<T>(
                s2,
                shared_next,
                e2,
                (n - 1) as nat,
                err,
                state2,
                shared2,
            );
        },
        Flow::Failure(_) => {
            T::failure_preserves_shared(state, event, shared);
            assert(T::next_spec(state2, event, shared2) == (
                Flow::<T::State, T::Error, T::Event>::Failure(err),
                shared2,
            ));
        },
        _ => {},
    }
}

/// A dispatch that does not resolve to `Slide` ends the chain at once, so
/// firing its event terminates.
pub proof fn lemma_no_slide_terminates<T: Engine>(state: T::State, shared: T::Shared, event: T::Event)
    requires
        !(T::next_spec(state, event, shared).0 is Slide),
    ensures
        fire_terminates::<T>(state, shared, event),
{
    assert(fire_spec::<T>(state, shared, event, 0) is Some);
}

/// Firing `event` from `(state, shared)` terminates with return value `r`
/// and leaves the machine at `(state2, shared2)`.
pub open spec fn fires_to<T: Engine>(
    state: T::State,
    shared: T::Shared,
    event: T::Event,
    r: Result<(), T::Error>,
    state2: T::State,
    shared2: T::Shared,
) -> bool {
    exists|n: nat| fire_spec::<T>(state, shared, event, n) == Some((r, state2, shared2))
}

/// The dispatch-and-slide chain is deterministic: whatever fuel suffices to
/// finish it, the result is the same.
proof fn lemma_fire_spec_agree<T: Engine>(
    state: T::State,
    shared: T::Shared,
    event: T::Event,
    n1: nat,
    n2: nat,
)
    requires
        fire_spec::<T>(state, shared, event, n1) is Some,
        fire_spec::<T>(state, shared, event, n2) is Some,
    ensures
        fire_spec::<T>(state, shared, event, n1) == fire_spec::<T>(state, shared, event, n2),
    decreases n1,
{
    let (f, shared2) = T::next_spec(state, event, shared);
    match f {
        Flow::Slide(s2, e2) => {
            lemma_fire_spec_agree::<T>(s2, shared2, e2, (n1 - 1) as nat, (n2 - 1) as nat);
        },
        _ => {},
    }
}

/// Firing is a function of the starting state, shared value and event: the
/// return value and the final state and shared value are uniquely
/// determined.
pub proof fn lemma_fire_deterministic<T: Engine>(
    state: T::State,
    shared: T::Shared,
    event: T::Event,
    r1: Result<(), T::Error>,
    state1: T::State,
    shared1: T::Shared,
    r2: Result<(), T::Error>,
    state2: T::State,
    shared2: T::Shared,
)
    requires
        fires_to::<T>(state, shared, event, r1, state1, shared1),
        fires_to::<T>(state, shared, event, r2, state2, shared2),
    ensures
        r1 == r2,
        state1 == state2,
        shared1 == shared2,
{
    let n1 = choose|n: nat| fire_spec::<T>(state, shared, event, n) == Some((r1, state1, shared1));
    let n2 = choose|n: nat| fire_spec::<T>(state, shared, event, n) == Some((r2, state2, shared2));
    lemma_fire_spec_agree::<T>(state, shared, event, n1, n2);
}

/// Round trip: two transitions that are reciprocal — the first replaces
/// state `a` with state `b`, the second replaces `b` with `a` — return the
/// state to its original value when their events are fired in sequence.
pub proof fn lemma_round_trip<T: Engine>(
    a: T::State,
    b: T::State,
    c0: T::Shared,
    c1: T::Shared,
    c2: T::Shared,
    e1: T::Event,
    e2: T::Event,
)
    requires
        T::next_spec(a, e1, c0) == (Flow::<T::State, T::Error, T::Event>::Transition(b), c1),
        T::next_spec(b, e2, c1) == (Flow::<T::State, T::Error, T::Event>::Transition(a), c2),
    ensures
        fires_to::<T>(a, c0, e1, Ok(()), b, c1),
        fires_to::<T>(b, c1, e2, Ok(()), a, c2),
{
    assert(fire_spec::<T>(a, c0, e1, 0) == Some((Result::<(), T::Error>::Ok(()), b, c1)));
    assert(fire_spec::<T>(b, c1, e2, 0) == Some((Result::<(), T::Error>::Ok(()), a, c2)));
}

/// Slide commits its first step: when a dispatch resolves to
/// `Slide(s2, e2)` and the recursive dispatch of `e2` fails, the machine is
/// left at `s2` — not at the pre-slide state, and not at whatever the failed
/// second step would have produced — and the error reaches the caller.
pub proof fn lemma_slide_commits_first_step<T: Engine>(
    s0: T::State,
    c0: T::Shared,
    e0: T::Event,
    s2: T::State,
    e2: T::Event,
    c1: T::Shared,
    err: T::Error,
    c2: T::Shared,
)
    requires
        T::next_spec(s0, e0, c0) == (Flow::<T::State, T::Error, T::Event>::Slide(s2, e2), c1),
        T::next_spec(s2, e2, c1) == (Flow::<T::State, T::Error, T::Event>::Failure(err), c2),
    ensures
        fires_to::<T>(s0, c0, e0, Err(err), s2, c2),
{
    assert(fire_spec::<T>(s2, c1, e2, 0) == Some((Result::<(), T::Error>::Err(err), s2, c2)));
    assert(fire_spec::<T>(s0, c0, e0, 1) == Some((Result::<(), T::Error>::Err(err), s2, c2)));
}

impl<T: Engine> Machine<T> {
    /// Creates a new `Machine` with the initial state and default shared
    /// data: the shared slot holds what `T::Shared`'s `Default` promises.
    pub fn new(initial: T::State) -> (m: Self) where T::Shared: Default
        ensures
            m.store.state == initial,
            call_ensures(<T::Shared as core::default::Default>::default, (), m.store.shared),
    {
        Machine { store: Store::new(initial, Default::default()) }
    }

    /// Creates a new `Machine` with the initial state and specified shared
    /// data.
    pub fn new_shared(initial: T::State, shared: T::Shared) -> (m: Self)
        ensures
            m.store.state == initial,
            m.store.shared == shared,
    {
        Machine { store: Store::new(initial, shared) }
    }

    /// Creates a new `Machine` with the default state and specified shared
    /// data: the state slot holds what `T::State`'s `Default` promises.
    pub fn default_shared(shared: T::Shared) -> (m: Self) where T::State: Default
        ensures
            m.store.shared == shared,
            call_ensures(<T::State as core::default::Default>::default, (), m.store.state),
    {
        Machine { store: Store::new(Default::default(), shared) }
    }

    /// Destructs the machine and returns the final (state, shared) pair for
    /// inspection or persistence by the caller.
    pub fn destruct(self) -> (d: DestructedMachine<T::State, T::Shared>)
        ensures
            d.state == self.store.state,
            d.shared == self.store.shared,
    {
        DestructedMachine { state: self.store.state, shared: self.store.shared }
    }

    /// The current state.
    pub fn state(&self) -> (s: &T::State)
        ensures
            *s == self.store.state,
    {
        &self.store.state
    }

    /// The shared context.
    pub fn shared(&self) -> (c: &T::Shared)
        ensures
            *c == self.store.shared,
    {
        &self.store.shared
    }

    /// Overwrites the authoritative state.
    fn set_state(&mut self, new_state: T::State)
        ensures
            final(self).store.state == new_state,
            final(self).store.shared == old(self).store.shared,
    {
        self.store.state = new_state;
    }

    /// Fires an event: dispatches it through the engine, applies the
    /// resulting outcome to the authoritative state and shared data, and on
    /// a `Slide` outcome re-dispatches the slid event until the chain ends
    /// in `Pass`, `Transition` or `Failure`.
    ///
    /// An unbroken chain of `Slide` outcomes would not terminate; avoiding
    /// one is the responsibility of whoever declares the branches, which is
    /// what the precondition states. When the chain ends, the result and
    /// the final state and shared data are exactly those of the
    /// dispatch-and-slide chain described by `fires_to`.
    ///
    /// A failed dispatch commits nothing: when the dispatch of `event`
    /// itself fails, its error reaches the caller and the machine is left
    /// exactly as it was. Only the committed first steps of a `Slide` chain
    /// are durable when a later step of the chain fails.
    #[verifier::loop_isolation(false)]
    pub fn fire(&mut self, event: T::Event) -> (r: Result<(), T::Error>)
        requires
            fire_terminates::<T>(old(self).store.state, old(self).store.shared, event),
        ensures
            fires_to::<T>(
                old(self).store.state,
                old(self).store.shared,
                event,
                r,
                final(self).store.state,
                final(self).store.shared,
            ),
            T::next_spec(old(self).store.state, event, old(self).store.shared).0 matches Flow::Failure(err)
                ==> r == Result::<(), T::Error>::Err(err) && final(self).store.state == old(
                self,
            ).store.state && final(self).store.shared == old(self).store.shared,
    {
        let ghost s0 = self.store.state;
        let ghost c0 = self.store.shared;
        let ghost e0 = event;
        let ghost mut steps: nat = 0nat;
        let ghost mut fuel: nat = choose|n: nat| fire_spec::<T>(s0, c0, e0, n) is Some;
        let mut ev = event;
        loop
            invariant
                fire_spec::<T>(self.store.state, self.store.shared, ev, fuel) is Some,
                forall|n: nat| #[trigger] fire_spec::<T>(self.store.state, self.store.shared, ev, n)
                    == fire_spec::<T>(s0, c0, e0, n + steps),
            decreases fuel,
        {
            let ghost ss = self.store.state;
            let ghost cc = self.store.shared;
            let ghost ee = ev;
            let f = T::next(&self.store.state, ev, &mut self.store.shared);
            match f {
                Flow::Pass => {
                    proof {
                        assert(fire_spec::<T>(ss, cc, ee, 0) == Some(
                            (Result::<(), T::Error>::Ok(()), ss, self.store.shared),
                        ));
                        assert(fire_spec::<T>(s0, c0, e0, steps) == Some(
                            (Result::<(), T::Error>::Ok(()), ss, self.store.shared),
                        ));
                        if T::next_spec(s0, e0, c0).0 is Failure {
                            T::failure_preserves_shared(s0, e0, c0);
                            let f0 = T::next_spec(s0, e0, c0).0;
                            assert(fire_spec::<T>(s0, c0, e0, 0) == Some((
                                Result::<(), T::Error>::Err(f0->Failure_0),
                                s0,
                                c0,
                            )));
                            lemma_fire_spec_agree::<T>(s0, c0, e0, 0, steps);
                        }
                    }
                    return Ok(());
                },
                Flow::Transition(s2) => {
                    proof {
                        assert(fire_spec::<T>(ss, cc, ee, 0) == Some(
                            (Result::<(), T::Error>::Ok(()), s2, self.store.shared),
                        ));
                        assert(fire_spec::<T>(s0, c0, e0, steps) == Some(
                            (Result::<(), T::Error>::Ok(()), s2, self.store.shared),
                        ));
                        if T::next_spec(s0, e0, c0).0 is Failure {
                            T::failure_preserves_shared(s0, e0, c0);
                            let f0 = T::next_spec(s0, e0, c0).0;
                            assert(fire_spec::<T>(s0, c0, e0, 0) == Some((
                                Result::<(), T::Error>::Err(f0->Failure_0),
                                s0,
                                c0,
                            )));
                            lemma_fire_spec_agree::<T>(s0, c0, e0, 0, steps);
                        }
                    }
                    self.set_state(s2);
                    return Ok(());
                },
                Flow::Slide(s2, e2) => {
                    proof {
                        assert forall|n: nat| fire_spec::<T>(s2, self.store.shared, e2, n)
                            == fire_spec::<T>(s0, c0, e0, n + (steps + 1)) by {
                            assert(fire_spec::<T>(ss, cc, ee, n + 1) == fire_spec::<T>(
                                s2,
                                self.store.shared,
                                e2,
                                n,
                            ));
                            assert(fire_spec::<T>(ss, cc, ee, n + 1) == fire_spec::<T>(
                                s0,
                                c0,
                                e0,
                                (n + 1) + steps,
                            ));
                        }
                        assert(fire_spec::<T>(ss, cc, ee, fuel) is Some);
                        assert(fuel > 0) by {
                            if fuel == 0 {
                                assert(fire_spec::<T>(ss, cc, ee, 0) is None);
                            }
                        }
                        assert(fire_spec::<T>(ss, cc, ee, fuel) == fire_spec::<T>(
                            s2,
                            self.store.shared,
                            e2,
                            (fuel - 1) as nat,
                        ));
                        steps = steps + 1;
                        fuel = (fuel - 1) as nat;
                    }
                    self.set_state(s2);
                    ev = e2;
                },
                Flow::Failure(err) => {
                    proof {
                        assert(fire_spec::<T>(ss, cc, ee, 0) == Some(
                            (Result::<(), T::Error>::Err(err), ss, self.store.shared),
                        ));
                        assert(fire_spec::<T>(s0, c0, e0, steps) == Some(
                            (Result::<(), T::Error>::Err(err), ss, self.store.shared),
                        ));
                        if T::next_spec(s0, e0, c0).0 is Failure {
                            T::failure_preserves_shared(s0, e0, c0);
                            let f0 = T::next_spec(s0, e0, c0).0;
                            assert(fire_spec::<T>(s0, c0, e0, 0) == Some((
                                Result::<(), T::Error>::Err(f0->Failure_0),
                                s0,
                                c0,
                            )));
                            lemma_fire_spec_agree::<T>(s0, c0, e0, 0, steps);
                        }
                    }
                    return Err(err);
                },
            }
        }
    }
}

} // verus!
