//! A sample machine that uses both hook phases and shows that a failed
//! dispatch commits nothing: a pre-hook vetoes one (state, event) pair
//! before any branch runs; a post-hook turns the synthesized `Pass` of an
//! unhandled pair into a failure — a strict policy for machines without a
//! wildcard; and two branches increment a work counter and then fail, one
//! by its own return value and one through the post-hook, so the counter
//! increment is discarded both times.

use vstd::prelude::*;
use crate::branch::BranchDecl;
use crate::branch::BranchDeclView;
use crate::branch::BranchPattern;
use crate::branch::HookDecl;
use crate::branch::Phase;
use crate::branch::VariantPat;
use crate::branch::descriptor_of;
use crate::convert::BranchReturn;
use crate::dispatch::Branches;
use crate::dispatch::accepts;
use crate::dispatch::compiled_order;
use crate::dispatch::dispatch_spec;
use crate::dispatch::explicit_indices;
use crate::dispatch::hook_targets;
use crate::dispatch::lemma_indices_step;
use crate::dispatch::lemma_select_exact;
use crate::dispatch::run_post;
use crate::dispatch::run_pre;
use crate::dispatch::select_from;
use crate::dispatch::table_spec;
use crate::dispatch::wildcard_indices;
use crate::examples::call::bump;
use crate::examples::call::bump_spec;
use crate::flow::Flow;

verus! {

/// The states of the strict machine.
#[derive(Debug, Clone, Copy, PartialEq, Eq, Structural)]
pub enum StrictState {
    On,
    Off,
}

/// The events of the strict machine.
#[derive(Debug, Clone, Copy, PartialEq, Eq, Structural)]
pub enum StrictEvent {
    Go,
    Stop,
    Nudge,
}

/// The errors of the strict machine.
#[derive(Debug, Clone, Copy, PartialEq, Eq, Structural)]
pub enum StrictError {
    /// The pre-hook aborted the dispatch before any branch ran.
    Vetoed,
    /// No branch covered the pair; the post-hook refuses the silent `Pass`.
    Unhandled,
    /// A branch rejected the event after starting its work.
    Refused,
}

/// The strict machine's engine: four explicit branches, no wildcard, a
/// hook in each phase, and a work counter in the shared data.
pub struct StrictEngine;

impl StrictEngine {
    /// Variant id of a state.
    pub open spec fn sid(s: StrictState) -> u64 {
        match s {
            StrictState::On => 0,
            StrictState::Off => 1,
        }
    }

    /// Variant id of an event.
    pub open spec fn eid(e: StrictEvent) -> u64 {
        match e {
            StrictEvent::Go => 0,
            StrictEvent::Stop => 1,
            StrictEvent::Nudge => 2,
        }
    }

    /// One explicit, guard-free branch declaration.
    pub open spec fn decl(sid: u64, eid: u64, target: u64) -> BranchDeclView {
        BranchDeclView {
            pattern: BranchPattern::Pair(VariantPat::Is(sid), VariantPat::Is(eid)),
            pattern_bindings: Seq::empty(),
            params: Seq::empty(),
            has_guard: false,
            target,
            is_async: false,
        }
    }
}

/// Builds one explicit, guard-free branch declaration.
fn mk_decl(sid: u64, eid: u64, target: u64) -> (d: BranchDecl)
    ensures
        d@ == StrictEngine::decl(sid, eid, target),
{
    let d = BranchDecl {
        pattern: BranchPattern::Pair(VariantPat::Is(sid), VariantPat::Is(eid)),
        pattern_bindings: Vec::new(),
        params: Vec::new(),
        has_guard: false,
        target,
        is_async: false,
    };
    proof {
        assert(d@ =~~= StrictEngine::decl(sid, eid, target));
    }
    d
}

impl Branches for StrictEngine {
    type State = StrictState;

    type Event = StrictEvent;

    type Error = StrictError;

    type Shared = u64;

    open spec fn decls_spec() -> Seq<BranchDeclView> {
        seq![
            StrictEngine::decl(0, 1, 0),  // on_stop: counted work, then off
            StrictEngine::decl(1, 0, 1),  // off_go
            StrictEngine::decl(0, 2, 2),  // on_nudge: counted work, then refuse
            StrictEngine::decl(1, 2, 3),  // off_nudge: counted work, then pass
        ]
    }

    open spec fn hooks_spec() -> Seq<HookDecl> {
        seq![
            HookDecl { phase: Phase::Pre, target: 10 },  // veto
            HookDecl { phase: Phase::Post, target: 20 },  // refuse_unhandled
        ]
    }

    proof fn decls_are_valid() {
        assert forall|i: int|
            0 <= i < Self::decls_spec().len() implies crate::branch::decl_valid(
            #[trigger] Self::decls_spec()[i],
        ) by {
            assert(Self::decls_spec()[i].params.len() == 0);
            assert(Self::decls_spec()[i].pattern_bindings.len() == 0);
        }
    }

    fn decls() -> (v: Vec<BranchDecl>) {
        let mut v: Vec<BranchDecl> = Vec::new();
        v.push(mk_decl(0, 1, 0));
        v.push(mk_decl(1, 0, 1));
        v.push(mk_decl(0, 2, 2));
        v.push(mk_decl(1, 2, 3));
        proof {
            assert(v@.map_values(|d: BranchDecl| d@) =~~= Self::decls_spec());
        }
        v
    }

    fn hooks() -> (v: Vec<HookDecl>) {
        let mut v: Vec<HookDecl> = Vec::new();
        v.push(HookDecl { phase: Phase::Pre, target: 10 });
        v.push(HookDecl { phase: Phase::Post, target: 20 });
        proof {
            assert(v@ =~= Self::hooks_spec());
        }
        v
    }

    open spec fn state_id_spec(s: StrictState) -> u64 {
        Self::sid(s)
    }

    fn state_id(s: &StrictState) -> u64 {
        match s {
            StrictState::On => 0,
            StrictState::Off => 1,
        }
    }

    open spec fn event_id_spec(e: StrictEvent) -> u64 {
        Self::eid(e)
    }

    fn event_id(e: &StrictEvent) -> u64 {
        match e {
            StrictEvent::Go => 0,
            StrictEvent::Stop => 1,
            StrictEvent::Nudge => 2,
        }
    }

    open spec fn guard_spec(target: u64, s: StrictState, e: StrictEvent, c: u64) -> bool {
        false
    }

    fn guard(target: u64, s: &StrictState, e: &StrictEvent, c: &u64) -> bool {
        false
    }

    open spec fn invoke_spec(target: u64, s: StrictState, e: StrictEvent, c: u64) -> (
        BranchReturn<StrictState, StrictError, StrictEvent>,
        u64,
    ) {
        if target == 0 {
            (BranchReturn::NewState(StrictState::Off), bump_spec(c))
        } else if target == 1 {
            (BranchReturn::NewState(StrictState::On), c)
        } else if target == 2 {
            (BranchReturn::Fallible(Err(StrictError::Refused)), bump_spec(c))
        } else if target == 3 {
            (BranchReturn::Outcome(Flow::Pass), bump_spec(c))
        } else {
            (BranchReturn::Outcome(Flow::Pass), c)
        }
    }

    fn invoke(target: u64, s: &StrictState, e: StrictEvent, c: &mut u64) -> (r: BranchReturn<
        StrictState,
        StrictError,
        StrictEvent,
    >) {
        if target == 0 {
            *c = bump(*c);
            BranchReturn::NewState(StrictState::Off)
        } else if target == 1 {
            BranchReturn::NewState(StrictState::On)
        } else if target == 2 {
            *c = bump(*c);
            BranchReturn::Fallible(Err(StrictError::Refused))
        } else if target == 3 {
            *c = bump(*c);
            BranchReturn::Outcome(Flow::Pass)
        } else {
            BranchReturn::Outcome(Flow::Pass)
        }
    }

    open spec fn pre_hook_spec(target: u64, s: StrictState, e: StrictEvent) -> Result<
        (StrictState, StrictEvent),
        StrictError,
    > {
        if target == 10 && s is Off && e is Stop {
            Err(StrictError::Vetoed)
        } else {
            Ok((s, e))
        }
    }

    fn pre_hook(target: u64, s: &mut StrictState, e: &mut StrictEvent) -> Result<(), StrictError> {
        let veto = match (&*s, &*e) {
            (StrictState::Off, StrictEvent::Stop) => true,
            _ => false,
        };
        if target == 10 && veto {
            Err(StrictError::Vetoed)
        } else {
            Ok(())
        }
    }

    open spec fn post_hook_spec(target: u64, f: Flow<StrictState, StrictError, StrictEvent>)
        -> Result<Flow<StrictState, StrictError, StrictEvent>, StrictError> {
        if target == 20 && f is Pass {
            Err(StrictError::Unhandled)
        } else {
            Ok(f)
        }
    }

    fn post_hook(target: u64, f: &mut Flow<StrictState, StrictError, StrictEvent>) -> Result<
        (),
        StrictError,
    > {
        let unhandled = match &*f {
            Flow::Pass => true,
            _ => false,
        };
        if target == 20 && unhandled {
            Err(StrictError::Unhandled)
        } else {
            Ok(())
        }
    }
}

/// The strict machine's compiled table: its four explicit branches, the
/// pre-hook, and the post-hook.
proof fn lemma_strict_table()
    ensures
        table_spec::<StrictEngine>().pre_hooks == seq![10u64],
        table_spec::<StrictEngine>().post_hooks == seq![20u64],
        table_spec::<StrictEngine>().branches.len() == 4,
        table_spec::<StrictEngine>().branches[0] == descriptor_of(
            StrictEngine::decls_spec()[0],
            0,
        ),
        table_spec::<StrictEngine>().branches[1] == descriptor_of(
            StrictEngine::decls_spec()[1],
            1,
        ),
        table_spec::<StrictEngine>().branches[2] == descriptor_of(
            StrictEngine::decls_spec()[2],
            2,
        ),
        table_spec::<StrictEngine>().branches[3] == descriptor_of(
            StrictEngine::decls_spec()[3],
            3,
        ),
{
    let ds = StrictEngine::decls_spec();
    assert(ds.take(0) =~= Seq::<BranchDeclView>::empty());
    assert(explicit_indices(ds.take(0)) == Seq::<int>::empty());
    assert(wildcard_indices(ds.take(0)) == Seq::<int>::empty());
    lemma_indices_step(ds, 0);
    lemma_indices_step(ds, 1);
    lemma_indices_step(ds, 2);
    lemma_indices_step(ds, 3);
    assert(ds.take(4) =~= ds);
    assert(explicit_indices(ds) =~= seq![0int, 1int, 2int, 3int]);
    assert(wildcard_indices(ds) =~= Seq::<int>::empty());
    assert(compiled_order(ds) =~= seq![0int, 1int, 2int, 3int]);
    let hs = StrictEngine::hooks_spec();
    assert(seq![hs[0]].drop_last() =~= Seq::<HookDecl>::empty());
    assert(hs.drop_last() =~= seq![hs[0]]);
    assert(hook_targets(Seq::<HookDecl>::empty(), Phase::Pre) == Seq::<u64>::empty());
    assert(hook_targets(Seq::<HookDecl>::empty(), Phase::Post) == Seq::<u64>::empty());
    assert(hook_targets(seq![hs[0]], Phase::Pre) =~= seq![10u64]);
    assert(hook_targets(seq![hs[0]], Phase::Post) =~= Seq::<u64>::empty());
    assert(hook_targets(hs, Phase::Pre) =~= seq![10u64]);
    assert(hook_targets(hs, Phase::Post) =~= seq![20u64]);
}

/// What the strict machine's hooks do to a dispatch: the pre-hook aborts
/// `(Off, Stop)` before any branch runs; the post-hook turns the `Pass` of
/// the unhandled `(On, Go)` into `Unhandled`; and a pair a branch covers,
/// `(On, Stop)`, passes through both hooks untouched and commits its
/// counter increment.
pub proof fn lemma_strict_hooks(c: u64)
    ensures
        dispatch_spec::<StrictEngine>(StrictState::Off, StrictEvent::Stop, c) == (
            Flow::<StrictState, StrictError, StrictEvent>::Failure(StrictError::Vetoed),
            c,
        ),
        dispatch_spec::<StrictEngine>(StrictState::On, StrictEvent::Go, c) == (
            Flow::<StrictState, StrictError, StrictEvent>::Failure(StrictError::Unhandled),
            c,
        ),
        dispatch_spec::<StrictEngine>(StrictState::On, StrictEvent::Stop, c) == (
            Flow::<StrictState, StrictError, StrictEvent>::Transition(StrictState::Off),
            bump_spec(c),
        ),
{
    lemma_strict_table();
    let br = table_spec::<StrictEngine>().branches;
    let pre = table_spec::<StrictEngine>().pre_hooks;
    let post = table_spec::<StrictEngine>().post_hooks;
    assert(pre.drop_first() =~= Seq::<u64>::empty());
    assert(post.drop_first() =~= Seq::<u64>::empty());
    assert(run_pre::<StrictEngine>(Seq::<u64>::empty(), StrictState::On, StrictEvent::Go)
        == Result::<(StrictState, StrictEvent), StrictError>::Ok((StrictState::On, StrictEvent::Go)));
    assert(run_pre::<StrictEngine>(Seq::<u64>::empty(), StrictState::On, StrictEvent::Stop)
        == Result::<(StrictState, StrictEvent), StrictError>::Ok(
        (StrictState::On, StrictEvent::Stop),
    ));
    assert(run_post::<StrictEngine>(
        Seq::<u64>::empty(),
        Flow::<StrictState, StrictError, StrictEvent>::Failure(StrictError::Unhandled),
    ) == Flow::<StrictState, StrictError, StrictEvent>::Failure(StrictError::Unhandled));
    assert(run_post::<StrictEngine>(
        Seq::<u64>::empty(),
        Flow::<StrictState, StrictError, StrictEvent>::Transition(StrictState::Off),
    ) == Flow::<StrictState, StrictError, StrictEvent>::Transition(StrictState::Off));
    assert(run_pre::<StrictEngine>(pre, StrictState::Off, StrictEvent::Stop) == Result::<
        (StrictState, StrictEvent),
        StrictError,
    >::Err(StrictError::Vetoed));
    assert(run_pre::<StrictEngine>(pre, StrictState::On, StrictEvent::Go) == Result::<
        (StrictState, StrictEvent),
        StrictError,
    >::Ok((StrictState::On, StrictEvent::Go)));
    assert(run_pre::<StrictEngine>(pre, StrictState::On, StrictEvent::Stop) == Result::<
        (StrictState, StrictEvent),
        StrictError,
    >::Ok((StrictState::On, StrictEvent::Stop)));
    assert(!accepts::<StrictEngine>(br, 0, 0, 0, StrictState::On, StrictEvent::Go, c));
    assert(!accepts::<StrictEngine>(br, 1, 0, 0, StrictState::On, StrictEvent::Go, c));
    assert(!accepts::<StrictEngine>(br, 2, 0, 0, StrictState::On, StrictEvent::Go, c));
    assert(!accepts::<StrictEngine>(br, 3, 0, 0, StrictState::On, StrictEvent::Go, c));
    assert(select_from::<StrictEngine>(br, 0, 0, 0, StrictState::On, StrictEvent::Go, c)
        == select_from::<StrictEngine>(br, 1, 0, 0, StrictState::On, StrictEvent::Go, c));
    assert(select_from::<StrictEngine>(br, 1, 0, 0, StrictState::On, StrictEvent::Go, c)
        == select_from::<StrictEngine>(br, 2, 0, 0, StrictState::On, StrictEvent::Go, c));
    assert(select_from::<StrictEngine>(br, 2, 0, 0, StrictState::On, StrictEvent::Go, c)
        == select_from::<StrictEngine>(br, 3, 0, 0, StrictState::On, StrictEvent::Go, c));
    assert(select_from::<StrictEngine>(br, 3, 0, 0, StrictState::On, StrictEvent::Go, c)
        == select_from::<StrictEngine>(br, 4, 0, 0, StrictState::On, StrictEvent::Go, c));
    assert(select_from::<StrictEngine>(br, 4, 0, 0, StrictState::On, StrictEvent::Go, c) is None);
    assert(run_post::<StrictEngine>(
        post,
        Flow::<StrictState, StrictError, StrictEvent>::Pass,
    ) == Flow::<StrictState, StrictError, StrictEvent>::Failure(StrictError::Unhandled));
    assert(accepts::<StrictEngine>(br, 0, 0, 1, StrictState::On, StrictEvent::Stop, c));
    lemma_select_exact::<StrictEngine>(br, 0, 0, 1, StrictState::On, StrictEvent::Stop, c);
    assert(run_post::<StrictEngine>(
        post,
        Flow::<StrictState, StrictError, StrictEvent>::Transition(StrictState::Off),
    ) == Flow::<StrictState, StrictError, StrictEvent>::Transition(StrictState::Off));
}

/// A failed dispatch commits nothing, even when the invoked branch had
/// already written to its working copy of the counter: `(On, Nudge)` bumps
/// the counter and then refuses, and `(Off, Nudge)` bumps the counter and
/// passes only for the post-hook to refuse the `Pass` — in both cases the
/// dispatch fails and the counter comes back unchanged.
pub proof fn lemma_failed_dispatch_discards_work(c: u64)
    ensures
        dispatch_spec::<StrictEngine>(StrictState::On, StrictEvent::Nudge, c) == (
            Flow::<StrictState, StrictError, StrictEvent>::Failure(StrictError::Refused),
            c,
        ),
        dispatch_spec::<StrictEngine>(StrictState::Off, StrictEvent::Nudge, c) == (
            Flow::<StrictState, StrictError, StrictEvent>::Failure(StrictError::Unhandled),
            c,
        ),
{
    lemma_strict_table();
    let br = table_spec::<StrictEngine>().branches;
    let pre = table_spec::<StrictEngine>().pre_hooks;
    let post = table_spec::<StrictEngine>().post_hooks;
    assert(pre.drop_first() =~= Seq::<u64>::empty());
    assert(post.drop_first() =~= Seq::<u64>::empty());
    assert(run_pre::<StrictEngine>(Seq::<u64>::empty(), StrictState::On, StrictEvent::Nudge)
        == Result::<(StrictState, StrictEvent), StrictError>::Ok(
        (StrictState::On, StrictEvent::Nudge),
    ));
    assert(run_pre::<StrictEngine>(Seq::<u64>::empty(), StrictState::Off, StrictEvent::Nudge)
        == Result::<(StrictState, StrictEvent), StrictError>::Ok(
        (StrictState::Off, StrictEvent::Nudge),
    ));
    assert(run_pre::<StrictEngine>(pre, StrictState::On, StrictEvent::Nudge) == Result::<
        (StrictState, StrictEvent),
        StrictError,
    >::Ok((StrictState::On, StrictEvent::Nudge)));
    assert(run_pre::<StrictEngine>(pre, StrictState::Off, StrictEvent::Nudge) == Result::<
        (StrictState, StrictEvent),
        StrictError,
    >::Ok((StrictState::Off, StrictEvent::Nudge)));
    assert(!accepts::<StrictEngine>(br, 0, 0, 2, StrictState::On, StrictEvent::Nudge, c));
    assert(!accepts::<StrictEngine>(br, 1, 0, 2, StrictState::On, StrictEvent::Nudge, c));
    assert(accepts::<StrictEngine>(br, 2, 0, 2, StrictState::On, StrictEvent::Nudge, c));
    lemma_select_exact::<StrictEngine>(br, 2, 0, 2, StrictState::On, StrictEvent::Nudge, c);
    assert(run_post::<StrictEngine>(
        Seq::<u64>::empty(),
        Flow::<StrictState, StrictError, StrictEvent>::Failure(StrictError::Refused),
    ) == Flow::<StrictState, StrictError, StrictEvent>::Failure(StrictError::Refused));
    assert(run_post::<StrictEngine>(
        post,
        Flow::<StrictState, StrictError, StrictEvent>::Failure(StrictError::Refused),
    ) == Flow::<StrictState, StrictError, StrictEvent>::Failure(StrictError::Refused));
    assert(!accepts::<StrictEngine>(br, 0, 1, 2, StrictState::Off, StrictEvent::Nudge, c));
    assert(!accepts::<StrictEngine>(br, 1, 1, 2, StrictState::Off, StrictEvent::Nudge, c));
    assert(!accepts::<StrictEngine>(br, 2, 1, 2, StrictState::Off, StrictEvent::Nudge, c));
    assert(accepts::<StrictEngine>(br, 3, 1, 2, StrictState::Off, StrictEvent::Nudge, c));
    lemma_select_exact::<StrictEngine>(br, 3, 1, 2, StrictState::Off, StrictEvent::Nudge, c);
    assert(run_post::<StrictEngine>(
        Seq::<u64>::empty(),
        Flow::<StrictState, StrictError, StrictEvent>::Failure(StrictError::Unhandled),
    ) == Flow::<StrictState, StrictError, StrictEvent>::Failure(StrictError::Unhandled));
    assert(run_post::<StrictEngine>(
        post,
        Flow::<StrictState, StrictError, StrictEvent>::Pass,
    ) == Flow::<StrictState, StrictError, StrictEvent>::Failure(StrictError::Unhandled));
}

} // verus!
