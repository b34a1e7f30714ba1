//! A sample machine with a single self-contained counting branch: every
//! `Bump` event increments the shared counter and leaves the state alone.
//! Because no dispatch depends on another's outcome, independent `fire`
//! calls each add exactly one to the counter.

use vstd::prelude::*;
use crate::branch::BranchDecl;
use crate::branch::BranchDeclView;
use crate::branch::BranchPattern;
use crate::branch::HookDecl;
use crate::branch::Phase;
use crate::branch::VariantPat;
use crate::branch::descriptor_of;
use crate::convert::BranchReturn;
use crate::dispatch::Branches;
use crate::dispatch::accepts;
use crate::dispatch::compiled_order;
use crate::dispatch::dispatch_spec;
use crate::dispatch::explicit_indices;
use crate::dispatch::hook_targets;
use crate::dispatch::lemma_dispatch_spec_no_hooks;
use crate::dispatch::lemma_select_exact;
use crate::dispatch::table_spec;
use crate::dispatch::wildcard_indices;
use crate::examples::call::bump;
use crate::examples::call::bump_spec;
use crate::flow::Flow;
use crate::machine::fire_spec;
use crate::machine::fires_to;

verus! {

/// The single state of the tally machine.
#[derive(Debug, Clone, Copy, PartialEq, Eq, Structural)]
pub enum TallyState {
    Counting,
}

/// The single event of the tally machine.
#[derive(Debug, Clone, Copy, PartialEq, Eq, Structural)]
pub enum TallyEvent {
    Bump,
}

/// The tally machine's engine: one branch that increments the shared
/// counter and passes, leaving the state untouched.
pub struct TallyEngine;

impl Branches for TallyEngine {
    type State = TallyState;

    type Event = TallyEvent;

    type Error = ();

    type Shared = u64;

    open spec fn decls_spec() -> Seq<BranchDeclView> {
        seq![
            BranchDeclView {
                pattern: BranchPattern::Pair(VariantPat::Is(0), VariantPat::Is(0)),
                pattern_bindings: Seq::empty(),
                params: Seq::empty(),
                has_guard: false,
                target: 0,
                is_async: false,
            },
        ]
    }

    open spec fn hooks_spec() -> Seq<HookDecl> {
        Seq::empty()
    }

    proof fn decls_are_valid() {
        assert forall|i: int|
            0 <= i < Self::decls_spec().len() implies crate::branch::decl_valid(
            #[trigger] Self::decls_spec()[i],
        ) by {
            assert(Self::decls_spec()[i].params.len() == 0);
            assert(Self::decls_spec()[i].pattern_bindings.len() == 0);
        }
    }

    fn decls() -> (v: Vec<BranchDecl>) {
        let mut v: Vec<BranchDecl> = Vec::new();
        v.push(
            BranchDecl {
                pattern: BranchPattern::Pair(VariantPat::Is(0), VariantPat::Is(0)),
                pattern_bindings: Vec::new(),
                params: Vec::new(),
                has_guard: false,
                target: 0,
                is_async: false,
            },
        );
        proof {
            assert(v@.map_values(|d: BranchDecl| d@) =~~= Self::decls_spec());
        }
        v
    }

    fn hooks() -> (v: Vec<HookDecl>) {
        let v: Vec<HookDecl> = Vec::new();
        proof {
            assert(v@ =~= Self::hooks_spec());
        }
        v
    }

    open spec fn state_id_spec(s: TallyState) -> u64 {
        0
    }

    fn state_id(s: &TallyState) -> u64 {
        0
    }

    open spec fn event_id_spec(e: TallyEvent) -> u64 {
        0
    }

    fn event_id(e: &TallyEvent) -> u64 {
        0
    }

    open spec fn guard_spec(target: u64, s: TallyState, e: TallyEvent, c: u64) -> bool {
        false
    }

    fn guard(target: u64, s: &TallyState, e: &TallyEvent, c: &u64) -> bool {
        false
    }

    open spec fn invoke_spec(target: u64, s: TallyState, e: TallyEvent, c: u64) -> (
        BranchReturn<TallyState, (), TallyEvent>,
        u64,
    ) {
        if target == 0 {
            (BranchReturn::Outcome(Flow::Pass), bump_spec(c))
        } else {
            (BranchReturn::Outcome(Flow::Pass), c)
        }
    }

    fn invoke(target: u64, s: &TallyState, e: TallyEvent, c: &mut u64) -> (r: BranchReturn<
        TallyState,
        (),
        TallyEvent,
    >) {
        if target == 0 {
            *c = bump(*c);
        }
        BranchReturn::Outcome(Flow::Pass)
    }

    open spec fn pre_hook_spec(target: u64, s: TallyState, e: TallyEvent) -> Result<
        (TallyState, TallyEvent),
        (),
    > {
        Ok((s, e))
    }

    fn pre_hook(target: u64, s: &mut TallyState, e: &mut TallyEvent) -> Result<(), ()> {
        Ok(())
    }

    open spec fn post_hook_spec(target: u64, f: Flow<TallyState, (), TallyEvent>) -> Result<
        Flow<TallyState, (), TallyEvent>,
        (),
    > {
        Ok(f)
    }

    fn post_hook(target: u64, f: &mut Flow<TallyState, (), TallyEvent>) -> Result<(), ()> {
        Ok(())
    }
}

/// Every fired `Bump` adds exactly one to the counter (up to its maximum)
/// and succeeds without changing the state.
pub proof fn lemma_bump_adds_one(c: u64)
    ensures
        dispatch_spec::<TallyEngine>(TallyState::Counting, TallyEvent::Bump, c) == (
            Flow::<TallyState, (), TallyEvent>::Pass,
            bump_spec(c),
        ),
        fires_to::<TallyEngine>(
            TallyState::Counting,
            c,
            TallyEvent::Bump,
            Ok(()),
            TallyState::Counting,
            bump_spec(c),
        ),
{
    let ds = TallyEngine::decls_spec();
    assert(seq![ds[0]].drop_last() =~= Seq::<BranchDeclView>::empty());
    assert(ds.drop_last() =~= Seq::<BranchDeclView>::empty());
    assert(explicit_indices(Seq::<BranchDeclView>::empty()) == Seq::<int>::empty());
    assert(wildcard_indices(Seq::<BranchDeclView>::empty()) == Seq::<int>::empty());
    assert(explicit_indices(ds) =~= seq![0int]);
    assert(wildcard_indices(ds) =~= Seq::<int>::empty());
    assert(compiled_order(ds) =~= seq![0int]);
    assert(TallyEngine::hooks_spec() =~= Seq::<HookDecl>::empty());
    assert(hook_targets(Seq::<HookDecl>::empty(), Phase::Pre) =~= Seq::<u64>::empty());
    assert(hook_targets(Seq::<HookDecl>::empty(), Phase::Post) =~= Seq::<u64>::empty());
    let br = table_spec::<TallyEngine>().branches;
    assert(br[0] == descriptor_of(ds[0], 0));
    assert(accepts::<TallyEngine>(br, 0, 0, 0, TallyState::Counting, TallyEvent::Bump, c));
    lemma_select_exact::<TallyEngine>(br, 0, 0, 0, TallyState::Counting, TallyEvent::Bump, c);
    lemma_dispatch_spec_no_hooks::<TallyEngine>(TallyState::Counting, TallyEvent::Bump, c);
    assert(fire_spec::<TallyEngine>(TallyState::Counting, c, TallyEvent::Bump, 0) == Some(
        (Result::<(), ()>::Ok(()), TallyState::Counting, bump_spec(c)),
    ));
}

} // verus!
