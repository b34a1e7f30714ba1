//! A sample phone-call machine: dialing, ringing, connecting and hanging
//! up, with counters for calls made and received kept in the shared data,
//! and a wildcard branch that rejects every other transition.

use vstd::prelude::*;
use crate::branch::BranchDecl;
use crate::branch::BranchDeclView;
use crate::branch::BranchPattern;
use crate::branch::HookDecl;
use crate::branch::Phase;
use crate::branch::VariantPat;
use crate::branch::descriptor_of;
use crate::convert::BranchReturn;
use crate::dispatch::Branches;
use crate::dispatch::accepts;
use crate::dispatch::compiled_order;
use crate::dispatch::dispatch_spec;
use crate::dispatch::explicit_indices;
use crate::dispatch::hook_targets;
use crate::dispatch::lemma_dispatch_spec_no_hooks;
use crate::dispatch::lemma_indices_step;
use crate::dispatch::lemma_select_exact;
use crate::dispatch::table_spec;
use crate::dispatch::wildcard_indices;
use crate::flow::Flow;

verus! {

/// The states of the call machine.
#[derive(Debug, Clone, Copy, PartialEq, Eq, Structural)]
pub enum CallState {
    Idle,
    Dialing,
    Ringing,
    Connected,
    Disconnected,
}

impl Default for CallState {
    /// The call machine starts idle.
    fn default() -> (s: Self)
        ensures
            s == CallState::Idle,
    {
        CallState::Idle
    }
}

/// The events of the call machine.
#[derive(Debug, Clone, Copy, PartialEq, Eq, Structural)]
pub enum CallEvent {
    Dial,
    IncomingCall,
    Answer,
    Reject,
    HangUp,
    Reset,
}

/// The error of the call machine: raised by its wildcard branch for every
/// (state, event) pair no explicit branch covers.
#[derive(Debug, Clone, Copy, PartialEq, Eq, Structural)]
pub enum CallError {
    InvalidTransition,
}

/// The shared data of the call machine: how many calls were made and how
/// many were received. The counters saturate at their maximum.
#[derive(Debug, Clone, Copy, PartialEq, Eq, Structural)]
pub struct CallStats {
    pub calls_made: u64,
    pub calls_received: u64,
}

impl Default for CallStats {
    /// Counters start at zero.
    fn default() -> (c: Self)
        ensures
            c == (CallStats { calls_made: 0, calls_received: 0 }),
    {
        CallStats { calls_made: 0, calls_received: 0 }
    }
}

/// The call machine's engine, built from nine branches: eight explicit
/// transitions and a wildcard that fails with `InvalidTransition`.
pub struct CallEngine;

/// One more than `x`, stopping at the maximum.
pub open spec fn bump_spec(x: u64) -> u64 {
    if x == u64::MAX {
        x
    } else {
        (x + 1) as u64
    }
}

/// Executable form of `bump_spec`.
pub fn bump(x: u64) -> (r: u64)
    ensures
        r == bump_spec(x),
{
    if x == u64::MAX {
        x
    } else {
        x + 1
    }
}

impl CallEngine {
    /// Variant id of a state.
    pub open spec fn sid(s: CallState) -> u64 {
        match s {
            CallState::Idle => 0,
            CallState::Dialing => 1,
            CallState::Ringing => 2,
            CallState::Connected => 3,
            CallState::Disconnected => 4,
        }
    }

    /// Variant id of an event.
    pub open spec fn eid(e: CallEvent) -> u64 {
        match e {
            CallEvent::Dial => 0,
            CallEvent::IncomingCall => 1,
            CallEvent::Answer => 2,
            CallEvent::Reject => 3,
            CallEvent::HangUp => 4,
            CallEvent::Reset => 5,
        }
    }

    /// One explicit, guard-free branch declaration.
    pub open spec fn decl(sid: u64, eid: u64, target: u64) -> BranchDeclView {
        BranchDeclView {
            pattern: BranchPattern::Pair(VariantPat::Is(sid), VariantPat::Is(eid)),
            pattern_bindings: Seq::empty(),
            params: Seq::empty(),
            has_guard: false,
            target,
            is_async: false,
        }
    }
}

/// Builds one explicit, guard-free branch declaration.
fn mk_decl(sid: u64, eid: u64, target: u64) -> (d: BranchDecl)
    ensures
        d@ == CallEngine::decl(sid, eid, target),
{
    let d = BranchDecl {
        pattern: BranchPattern::Pair(VariantPat::Is(sid), VariantPat::Is(eid)),
        pattern_bindings: Vec::new(),
        params: Vec::new(),
        has_guard: false,
        target,
        is_async: false,
    };
    proof {
        assert(d@ =~~= CallEngine::decl(sid, eid, target));
    }
    d
}

impl Branches for CallEngine {
    type State = CallState;

    type Event = CallEvent;

    type Error = CallError;

    type Shared = CallStats;

    open spec fn decls_spec() -> Seq<BranchDeclView> {
        seq![
            CallEngine::decl(0, 0, 0),  // idle_dial
            CallEngine::decl(1, 3, 1),  // dialing_reject
            CallEngine::decl(1, 2, 2),  // dialing_answer
            CallEngine::decl(3, 4, 3),  // connected_hangup
            CallEngine::decl(4, 5, 4),  // disconnected_reset
            CallEngine::decl(0, 1, 5),  // idle_incoming_call
            CallEngine::decl(2, 3, 6),  // ringing_reject
            CallEngine::decl(2, 2, 7),  // ringing_answer
            BranchDeclView {
                pattern: BranchPattern::Wildcard,
                pattern_bindings: Seq::empty(),
                params: Seq::empty(),
                has_guard: false,
                target: 8,  // rest
                is_async: false,
            },
        ]
    }

    open spec fn hooks_spec() -> Seq<HookDecl> {
        Seq::empty()
    }

    proof fn decls_are_valid() {
        assert forall|i: int|
            0 <= i < Self::decls_spec().len() implies crate::branch::decl_valid(
            #[trigger] Self::decls_spec()[i],
        ) by {
            assert(Self::decls_spec()[i].params.len() == 0);
            assert(Self::decls_spec()[i].pattern_bindings.len() == 0);
        }
    }

    fn decls() -> (v: Vec<BranchDecl>) {
        let mut v: Vec<BranchDecl> = Vec::new();
        v.push(mk_decl(0, 0, 0));
        v.push(mk_decl(1, 3, 1));
        v.push(mk_decl(1, 2, 2));
        v.push(mk_decl(3, 4, 3));
        v.push(mk_decl(4, 5, 4));
        v.push(mk_decl(0, 1, 5));
        v.push(mk_decl(2, 3, 6));
        v.push(mk_decl(2, 2, 7));
        v.push(
            BranchDecl {
                pattern: BranchPattern::Wildcard,
                pattern_bindings: Vec::new(),
                params: Vec::new(),
                has_guard: false,
                target: 8,
                is_async: false,
            },
        );
        proof {
            assert(v@.map_values(|d: BranchDecl| d@) =~~= Self::decls_spec());
        }
        v
    }

    fn hooks() -> (v: Vec<HookDecl>) {
        let v: Vec<HookDecl> = Vec::new();
        proof {
            assert(v@ =~= Self::hooks_spec());
        }
        v
    }

    open spec fn state_id_spec(s: CallState) -> u64 {
        Self::sid(s)
    }

    fn state_id(s: &CallState) -> u64 {
        match s {
            CallState::Idle => 0,
            CallState::Dialing => 1,
            CallState::Ringing => 2,
            CallState::Connected => 3,
            CallState::Disconnected => 4,
        }
    }

    open spec fn event_id_spec(e: CallEvent) -> u64 {
        Self::eid(e)
    }

    fn event_id(e: &CallEvent) -> u64 {
        match e {
            CallEvent::Dial => 0,
            CallEvent::IncomingCall => 1,
            CallEvent::Answer => 2,
            CallEvent::Reject => 3,
            CallEvent::HangUp => 4,
            CallEvent::Reset => 5,
        }
    }

    open spec fn guard_spec(target: u64, s: CallState, e: CallEvent, c: CallStats) -> bool {
        false
    }

    fn guard(target: u64, s: &CallState, e: &CallEvent, c: &CallStats) -> bool {
        false
    }

    open spec fn invoke_spec(target: u64, s: CallState, e: CallEvent, c: CallStats) -> (
        BranchReturn<CallState, CallError, CallEvent>,
        CallStats,
    ) {
        if target == 0 {
            (BranchReturn::NewState(CallState::Dialing), c)
        } else if target == 1 {
            (BranchReturn::NewState(CallState::Idle), c)
        } else if target == 2 {
            (
                BranchReturn::NewState(CallState::Connected),
                CallStats { calls_made: bump_spec(c.calls_made), ..c },
            )
        } else if target == 3 {
            (BranchReturn::NewState(CallState::Disconnected), c)
        } else if target == 4 {
            (BranchReturn::NewState(CallState::Idle), c)
        } else if target == 5 {
            (BranchReturn::NewState(CallState::Ringing), c)
        } else if target == 6 {
            (BranchReturn::NewState(CallState::Idle), c)
        } else if target == 7 {
            (
                BranchReturn::NewState(CallState::Connected),
                CallStats { calls_received: bump_spec(c.calls_received), ..c },
            )
        } else if target == 8 {
            (BranchReturn::Fallible(Err(CallError::InvalidTransition)), c)
        } else {
            (BranchReturn::Outcome(Flow::Pass), c)
        }
    }

    fn invoke(target: u64, s: &CallState, e: CallEvent, c: &mut CallStats) -> (r: BranchReturn<
        CallState,
        CallError,
        CallEvent,
    >) {
        if target == 0 {
            BranchReturn::NewState(CallState::Dialing)
        } else if target == 1 {
            BranchReturn::NewState(CallState::Idle)
        } else if target == 2 {
            c.calls_made = bump(c.calls_made);
            BranchReturn::NewState(CallState::Connected)
        } else if target == 3 {
            BranchReturn::NewState(CallState::Disconnected)
        } else if target == 4 {
            BranchReturn::NewState(CallState::Idle)
        } else if target == 5 {
            BranchReturn::NewState(CallState::Ringing)
        } else if target == 6 {
            BranchReturn::NewState(CallState::Idle)
        } else if target == 7 {
            c.calls_received = bump(c.calls_received);
            BranchReturn::NewState(CallState::Connected)
        } else if target == 8 {
            BranchReturn::Fallible(Err(CallError::InvalidTransition))
        } else {
            BranchReturn::Outcome(Flow::Pass)
        }
    }

    open spec fn pre_hook_spec(target: u64, s: CallState, e: CallEvent) -> Result<
        (CallState, CallEvent),
        CallError,
    > {
        Ok((s, e))
    }

    fn pre_hook(target: u64, s: &mut CallState, e: &mut CallEvent) -> Result<(), CallError> {
        Ok(())
    }

    open spec fn post_hook_spec(target: u64, f: Flow<CallState, CallError, CallEvent>) -> Result<
        Flow<CallState, CallError, CallEvent>,
        CallError,
    > {
        Ok(f)
    }

    fn post_hook(target: u64, f: &mut Flow<CallState, CallError, CallEvent>) -> Result<
        (),
        CallError,
    > {
        Ok(())
    }
}

/// The call machine's compiled table: its eight explicit branches first, in
/// declaration order, then the wildcard, and no hooks.
proof fn lemma_call_table()
    ensures
        table_spec::<CallEngine>().pre_hooks == Seq::<u64>::empty(),
        table_spec::<CallEngine>().post_hooks == Seq::<u64>::empty(),
        table_spec::<CallEngine>().branches.len() == 9,
        forall|k: int|
            0 <= k < 9 ==> #[trigger] table_spec::<CallEngine>().branches[k] == descriptor_of(
                CallEngine::decls_spec()[k],
                k,
            ),
{
    let ds = CallEngine::decls_spec();
    assert(ds.take(0) =~= Seq::<BranchDeclView>::empty());
    assert(explicit_indices(ds.take(0)) == Seq::<int>::empty());
    assert(wildcard_indices(ds.take(0)) == Seq::<int>::empty());
    lemma_indices_step(ds, 0);
    lemma_indices_step(ds, 1);
    lemma_indices_step(ds, 2);
    lemma_indices_step(ds, 3);
    lemma_indices_step(ds, 4);
    lemma_indices_step(ds, 5);
    lemma_indices_step(ds, 6);
    lemma_indices_step(ds, 7);
    lemma_indices_step(ds, 8);
    assert(ds.take(9) =~= ds);
    assert(explicit_indices(ds) =~= seq![0int, 1int, 2int, 3int, 4int, 5int, 6int, 7int]);
    assert(wildcard_indices(ds) =~= seq![8int]);
    assert(compiled_order(ds) =~= seq![0int, 1int, 2int, 3int, 4int, 5int, 6int, 7int, 8int]);
    assert(CallEngine::hooks_spec() =~= Seq::<HookDecl>::empty());
    assert(hook_targets(Seq::<HookDecl>::empty(), Phase::Pre) =~= Seq::<u64>::empty());
    assert(hook_targets(Seq::<HookDecl>::empty(), Phase::Post) =~= Seq::<u64>::empty());
}

/// Counter exactness: a dispatch resolved by the branch that answers a
/// dialed call increments `calls_made` by exactly 1 and leaves
/// `calls_received` unchanged; a dispatch of the same `Answer` event
/// resolved by a different branch — answering a ringing call — leaves
/// `calls_made` unchanged and increments `calls_received` by exactly 1.
pub proof fn lemma_counter_exactness(c: CallStats)
    requires
        c.calls_made < u64::MAX,
        c.calls_received < u64::MAX,
    ensures
        dispatch_spec::<CallEngine>(CallState::Dialing, CallEvent::Answer, c) == (
            Flow::<CallState, CallError, CallEvent>::Transition(CallState::Connected),
            CallStats { calls_made: (c.calls_made + 1) as u64, ..c },
        ),
        dispatch_spec::<CallEngine>(CallState::Ringing, CallEvent::Answer, c) == (
            Flow::<CallState, CallError, CallEvent>::Transition(CallState::Connected),
            CallStats { calls_received: (c.calls_received + 1) as u64, ..c },
        ),
{
    lemma_call_table();
    let br = table_spec::<CallEngine>().branches;
    assert(accepts::<CallEngine>(br, 2, 1, 2, CallState::Dialing, CallEvent::Answer, c));
    assert forall|m: int|
        0 <= m < 2 implies !#[trigger] accepts::<CallEngine>(
        br,
        m,
        1,
        2,
        CallState::Dialing,
        CallEvent::Answer,
        c,
    ) by {
        assert(br[m] == descriptor_of(CallEngine::decls_spec()[m], m));
    }
    lemma_select_exact::<CallEngine>(br, 2, 1, 2, CallState::Dialing, CallEvent::Answer, c);
    lemma_dispatch_spec_no_hooks::<CallEngine>(CallState::Dialing, CallEvent::Answer, c);
    assert(accepts::<CallEngine>(br, 7, 2, 2, CallState::Ringing, CallEvent::Answer, c));
    assert forall|m: int|
        0 <= m < 7 implies !#[trigger] accepts::<CallEngine>(
        br,
        m,
        2,
        2,
        CallState::Ringing,
        CallEvent::Answer,
        c,
    ) by {
        assert(br[m] == descriptor_of(CallEngine::decls_spec()[m], m));
    }
    lemma_select_exact::<CallEngine>(br, 7, 2, 2, CallState::Ringing, CallEvent::Answer, c);
    lemma_dispatch_spec_no_hooks::<CallEngine>(CallState::Ringing, CallEvent::Answer, c);
}

} // verus!
