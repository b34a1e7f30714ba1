//! The smallest sample machine: two states and one event that flips between
//! them.

use vstd::prelude::*;
use crate::branch::BranchDecl;
use crate::branch::BranchDeclView;
use crate::branch::BranchPattern;
use crate::branch::HookDecl;
use crate::branch::VariantPat;
use crate::convert::BranchReturn;
use crate::branch::Phase;
use crate::branch::descriptor_of;
use crate::dispatch::Branches;
use crate::dispatch::accepts;
use crate::dispatch::compiled_order;
use crate::dispatch::dispatch_spec;
use crate::dispatch::explicit_indices;
use crate::dispatch::hook_targets;
use crate::dispatch::lemma_dispatch_spec_no_hooks;
use crate::dispatch::select_from;
use crate::dispatch::table_spec;
use crate::dispatch::wildcard_indices;
use crate::flow::Flow;
use crate::machine::NoShared;

verus! {

/// The two states of the toggle machine.
#[derive(Debug, Clone, Copy, PartialEq, Eq, Structural)]
pub enum ToggleState {
    A,
    B,
}

impl Default for ToggleState {
    /// The toggle machine starts at `A`.
    fn default() -> (s: Self)
        ensures
            s == ToggleState::A,
    {
        ToggleState::A
    }
}

/// The single event of the toggle machine.
#[derive(Debug, Clone, Copy, PartialEq, Eq, Structural)]
pub enum ToggleEvent {
    Switch,
}

/// A machine with two branches: `(A, Switch)` transitions to `B`, and
/// `(B, Switch)` transitions back to `A`. It carries no shared data and can
/// never fail.
pub struct ToggleEngine;

impl ToggleEngine {
    /// Variant id of a state.
    pub open spec fn sid(s: ToggleState) -> u64 {
        match s {
            ToggleState::A => 0,
            ToggleState::B => 1,
        }
    }
}

impl Branches for ToggleEngine {
    type State = ToggleState;

    type Event = ToggleEvent;

    type Error = ();

    type Shared = NoShared;

    open spec fn decls_spec() -> Seq<BranchDeclView> {
        seq![
            BranchDeclView {
                pattern: BranchPattern::Pair(VariantPat::Is(0), VariantPat::Is(0)),
                pattern_bindings: Seq::empty(),
                params: Seq::empty(),
                has_guard: false,
                target: 0,
                is_async: false,
            },
            BranchDeclView {
                pattern: BranchPattern::Pair(VariantPat::Is(1), VariantPat::Is(0)),
                pattern_bindings: Seq::empty(),
                params: Seq::empty(),
                has_guard: false,
                target: 1,
                is_async: false,
            },
        ]
    }

    open spec fn hooks_spec() -> Seq<HookDecl> {
        Seq::empty()
    }

    proof fn decls_are_valid() {
        assert forall|i: int|
            0 <= i < Self::decls_spec().len() implies crate::branch::decl_valid(
            #[trigger] Self::decls_spec()[i],
        ) by {
            if i == 0 {
                assert(crate::branch::decl_valid(Self::decls_spec()[0]));
            } else {
                assert(crate::branch::decl_valid(Self::decls_spec()[1]));
            }
        }
    }

    fn decls() -> (v: Vec<BranchDecl>) {
        let mut v: Vec<BranchDecl> = Vec::new();
        v.push(
            BranchDecl {
                pattern: BranchPattern::Pair(VariantPat::Is(0), VariantPat::Is(0)),
                pattern_bindings: Vec::new(),
                params: Vec::new(),
                has_guard: false,
                target: 0,
                is_async: false,
            },
        );
        v.push(
            BranchDecl {
                pattern: BranchPattern::Pair(VariantPat::Is(1), VariantPat::Is(0)),
                pattern_bindings: Vec::new(),
                params: Vec::new(),
                has_guard: false,
                target: 1,
                is_async: false,
            },
        );
        proof {
            assert(v@.map_values(|d: BranchDecl| d@) =~~= Self::decls_spec());
        }
        v
    }

    fn hooks() -> (v: Vec<HookDecl>) {
        let v: Vec<HookDecl> = Vec::new();
        proof {
            assert(v@ =~= Self::hooks_spec());
        }
        v
    }

    open spec fn state_id_spec(s: ToggleState) -> u64 {
        Self::sid(s)
    }

    fn state_id(s: &ToggleState) -> u64 {
        match s {
            ToggleState::A => 0,
            ToggleState::B => 1,
        }
    }

    open spec fn event_id_spec(e: ToggleEvent) -> u64 {
        0
    }

    fn event_id(e: &ToggleEvent) -> u64 {
        0
    }

    open spec fn guard_spec(target: u64, s: ToggleState, e: ToggleEvent, c: NoShared) -> bool {
        false
    }

    fn guard(target: u64, s: &ToggleState, e: &ToggleEvent, c: &NoShared) -> bool {
        false
    }

    open spec fn invoke_spec(target: u64, s: ToggleState, e: ToggleEvent, c: NoShared) -> (
        BranchReturn<ToggleState, (), ToggleEvent>,
        NoShared,
    ) {
        if target == 0 {
            (BranchReturn::NewState(ToggleState::B), c)
        } else if target == 1 {
            (BranchReturn::NewState(ToggleState::A), c)
        } else {
            (BranchReturn::Outcome(Flow::Pass), c)
        }
    }

    fn invoke(target: u64, s: &ToggleState, e: ToggleEvent, c: &mut NoShared) -> (r: BranchReturn<
        ToggleState,
        (),
        ToggleEvent,
    >) {
        if target == 0 {
            BranchReturn::NewState(ToggleState::B)
        } else if target == 1 {
            BranchReturn::NewState(ToggleState::A)
        } else {
            BranchReturn::Outcome(Flow::Pass)
        }
    }

    open spec fn pre_hook_spec(target: u64, s: ToggleState, e: ToggleEvent) -> Result<
        (ToggleState, ToggleEvent),
        (),
    > {
        Ok((s, e))
    }

    fn pre_hook(target: u64, s: &mut ToggleState, e: &mut ToggleEvent) -> Result<(), ()> {
        Ok(())
    }

    open spec fn post_hook_spec(target: u64, f: Flow<ToggleState, (), ToggleEvent>) -> Result<
        Flow<ToggleState, (), ToggleEvent>,
        (),
    > {
        Ok(f)
    }

    fn post_hook(target: u64, f: &mut Flow<ToggleState, (), ToggleEvent>) -> Result<(), ()> {
        Ok(())
    }
}

/// The toggle machine's compiled table: its two branches in declaration
/// order, and no hooks.
proof fn lemma_toggle_table()
    ensures
        table_spec::<ToggleEngine>().pre_hooks == Seq::<u64>::empty(),
        table_spec::<ToggleEngine>().post_hooks == Seq::<u64>::empty(),
        table_spec::<ToggleEngine>().branches.len() == 2,
        table_spec::<ToggleEngine>().branches[0] == descriptor_of(ToggleEngine::decls_spec()[0], 0),
        table_spec::<ToggleEngine>().branches[1] == descriptor_of(ToggleEngine::decls_spec()[1], 1),
{
    let ds = ToggleEngine::decls_spec();
    let none = Seq::<BranchDeclView>::empty();
    assert(seq![ds[0]].drop_last() =~= none);
    assert(ds.drop_last() =~= seq![ds[0]]);
    assert(explicit_indices(none) == Seq::<int>::empty());
    assert(wildcard_indices(none) == Seq::<int>::empty());
    assert(explicit_indices(seq![ds[0]]) =~= seq![0int]);
    assert(explicit_indices(ds) =~= seq![0int, 1int]);
    assert(wildcard_indices(seq![ds[0]]) =~= Seq::<int>::empty());
    assert(wildcard_indices(ds) =~= Seq::<int>::empty());
    assert(compiled_order(ds) =~= seq![0int, 1int]);
    assert(ToggleEngine::hooks_spec() =~= Seq::<HookDecl>::empty());
    assert(hook_targets(Seq::<HookDecl>::empty(), Phase::Pre) =~= Seq::<u64>::empty());
    assert(hook_targets(Seq::<HookDecl>::empty(), Phase::Post) =~= Seq::<u64>::empty());
}

/// One dispatch of `Switch` at `A` transitions to `B`, and one at `B`
/// transitions back to `A`: the two branches are reciprocal.
pub proof fn lemma_toggle_steps()
    ensures
        dispatch_spec::<ToggleEngine>(ToggleState::A, ToggleEvent::Switch, NoShared) == (
            Flow::<ToggleState, (), ToggleEvent>::Transition(ToggleState::B),
            NoShared,
        ),
        dispatch_spec::<ToggleEngine>(ToggleState::B, ToggleEvent::Switch, NoShared) == (
            Flow::<ToggleState, (), ToggleEvent>::Transition(ToggleState::A),
            NoShared,
        ),
{
    lemma_toggle_table();
    let br = table_spec::<ToggleEngine>().branches;
    assert(accepts::<ToggleEngine>(br, 0, 0, 0, ToggleState::A, ToggleEvent::Switch, NoShared));
    assert(select_from::<ToggleEngine>(br, 0, 0, 0, ToggleState::A, ToggleEvent::Switch, NoShared)
        == Some(0int));
    lemma_dispatch_spec_no_hooks::<ToggleEngine>(ToggleState::A, ToggleEvent::Switch, NoShared);
    assert(!accepts::<ToggleEngine>(br, 0, 1, 0, ToggleState::B, ToggleEvent::Switch, NoShared));
    assert(select_from::<ToggleEngine>(br, 0, 1, 0, ToggleState::B, ToggleEvent::Switch, NoShared)
        == select_from::<ToggleEngine>(br, 1, 1, 0, ToggleState::B, ToggleEvent::Switch, NoShared));
    assert(accepts::<ToggleEngine>(br, 1, 1, 0, ToggleState::B, ToggleEvent::Switch, NoShared));
    assert(select_from::<ToggleEngine>(br, 1, 1, 0, ToggleState::B, ToggleEvent::Switch, NoShared)
        == Some(1int));
    lemma_dispatch_spec_no_hooks::<ToggleEngine>(ToggleState::B, ToggleEvent::Switch, NoShared);
}

/// No toggle dispatch slides, so firing any event from any state
/// terminates: the precondition of `fire` holds for every toggle machine.
pub proof fn lemma_toggle_fire_terminates(s: ToggleState, e: ToggleEvent)
    ensures
        crate::machine::fire_terminates::<ToggleEngine>(s, NoShared, e),
{
    lemma_toggle_steps();
    match (s, e) {
        (ToggleState::A, ToggleEvent::Switch) => {},
        (ToggleState::B, ToggleEvent::Switch) => {},
    }
    crate::machine::lemma_no_slide_terminates::<ToggleEngine>(s, NoShared, e);
}

/// Round trip, on the toggle machine: from `A`, firing `Switch` reaches
/// `B`, and firing it again returns to `A`.
pub proof fn lemma_toggle_round_trip()
    ensures
        crate::machine::fires_to::<ToggleEngine>(
            ToggleState::A,
            NoShared,
            ToggleEvent::Switch,
            Ok(()),
            ToggleState::B,
            NoShared,
        ),
        crate::machine::fires_to::<ToggleEngine>(
            ToggleState::B,
            NoShared,
            ToggleEvent::Switch,
            Ok(()),
            ToggleState::A,
            NoShared,
        ),
{
    lemma_toggle_steps();
    crate::machine::lemma_round_trip::<ToggleEngine>(
        ToggleState::A,
        ToggleState::B,
        NoShared,
        NoShared,
        NoShared,
        ToggleEvent::Switch,
        ToggleEvent::Switch,
    );
}

} // verus!
