//! The dispatch compiler: turns an ordered list of branch declarations and
//! hook declarations into one compiled table, and interprets that table as
//! the transition procedure of an engine.

use vstd::prelude::*;
use crate::branch::BranchDecl;
use crate::branch::BranchDeclView;
use crate::branch::pattern_matches;
use crate::branch::pattern_matches_exec;
use crate::convert::BranchReturn;
use crate::convert::normalize;
use crate::convert::normalize_spec;
use crate::flow::Flow;
use crate::machine::Engine;
use crate::branch::BranchDescriptor;
use crate::branch::BranchDescriptorView;
use crate::branch::BranchPattern;
use crate::branch::HookDecl;
use crate::branch::Phase;
use crate::branch::decl_valid;
use crate::branch::decl_valid_exec;
use crate::branch::descriptor_of;

verus! {

/// An error raised while compiling branch declarations.
#[derive(Debug, Clone, Copy, PartialEq, Eq, Structural)]
pub enum CompileError {
    /// The declared parameters of the named target function cannot be bound,
    /// one for one, to the bindings captured by its pattern.
    BindingMismatch { target: u64 },
}

/// The compiled dispatch table: branch descriptors ordered by priority
/// (declaration order, with every wildcard relocated to the end), and the
/// pre- and post-hook targets in declaration order.
#[derive(Debug)]
pub struct Table {
    pub branches: Vec<BranchDescriptor>,
    pub pre_hooks: Vec<u64>,
    pub post_hooks: Vec<u64>,
}

/// The mathematical view of a compiled dispatch table.
#[verifier::ext_equal]
pub ghost struct TableView {
    pub branches: Seq<BranchDescriptorView>,
    pub pre_hooks: Seq<u64>,
    pub post_hooks: Seq<u64>,
}

impl View for Table {
    type V = TableView;

    open spec fn view(&self) -> TableView {
        TableView {
            branches: self.branches@.map_values(|b: BranchDescriptor| b@),
            pre_hooks: self.pre_hooks@,
            post_hooks: self.post_hooks@,
        }
    }
}

/// The positions of the declarations whose pattern is not the wildcard, in
/// declaration order.
pub open spec fn explicit_indices(decls: Seq<BranchDeclView>) -> Seq<int>
    decreases decls.len(),
{
    if decls.len() == 0 {
        seq![]
    } else {
        let rest = explicit_indices(decls.drop_last());
        if decls.last().pattern is Wildcard {
            rest
        } else {
            rest.push(decls.len() - 1)
        }
    }
}

/// The positions of the wildcard declarations, in declaration order.
pub open spec fn wildcard_indices(decls: Seq<BranchDeclView>) -> Seq<int>
    decreases decls.len(),
{
    if decls.len() == 0 {
        seq![]
    } else {
        let rest = wildcard_indices(decls.drop_last());
        if decls.last().pattern is Wildcard {
            rest.push(decls.len() - 1)
        } else {
            rest
        }
    }
}

/// The order in which declarations are placed in the compiled table:
/// declaration order, except that every wildcard is relocated to the end and
/// so takes the lowest priority regardless of its source position.
pub open spec fn compiled_order(decls: Seq<BranchDeclView>) -> Seq<int> {
    explicit_indices(decls) + wildcard_indices(decls)
}

/// The targets of the hooks of one phase, in declaration order.
pub open spec fn hook_targets(hooks: Seq<HookDecl>, phase: Phase) -> Seq<u64>
    decreases hooks.len(),
{
    if hooks.len() == 0 {
        seq![]
    } else {
        let rest = hook_targets(hooks.drop_last(), phase);
        if hooks.last().phase == phase {
            rest.push(hooks.last().target)
        } else {
            rest
        }
    }
}

/// The table that a list of declarations compiles to.
pub open spec fn table_of(decls: Seq<BranchDeclView>, hooks: Seq<HookDecl>) -> TableView {
    let ord = compiled_order(decls);
    TableView {
        branches: Seq::new(ord.len(), |k: int| descriptor_of(decls[ord[k]], k)),
        pre_hooks: hook_targets(hooks, Phase::Pre),
        post_hooks: hook_targets(hooks, Phase::Post),
    }
}

/// Every position named by `explicit_indices` lies inside the declaration
/// list.
proof fn lemma_explicit_indices_bounds(decls: Seq<BranchDeclView>)
    ensures
        forall|m: int|
            0 <= m < explicit_indices(decls).len() ==> 0 <= #[trigger] explicit_indices(decls)[m]
                < decls.len(),
    decreases decls.len(),
{
    if decls.len() > 0 {
        lemma_explicit_indices_bounds(decls.drop_last());
        let rest = explicit_indices(decls.drop_last());
        assert forall|m: int|
            0 <= m < explicit_indices(decls).len() implies 0 <= #[trigger] explicit_indices(
            decls,
        )[m] < decls.len() by {
            if !(decls.last().pattern is Wildcard) {
                assert(explicit_indices(decls) == rest.push(decls.len() - 1));
            }
        }
    }
}

/// Every position named by `wildcard_indices` lies inside the declaration
/// list.
proof fn lemma_wildcard_indices_bounds(decls: Seq<BranchDeclView>)
    ensures
        forall|m: int|
            0 <= m < wildcard_indices(decls).len() ==> 0 <= #[trigger] wildcard_indices(decls)[m]
                < decls.len(),
    decreases decls.len(),
{
    if decls.len() > 0 {
        lemma_wildcard_indices_bounds(decls.drop_last());
        let rest = wildcard_indices(decls.drop_last());
        assert forall|m: int|
            0 <= m < wildcard_indices(decls).len() implies 0 <= #[trigger] wildcard_indices(
            decls,
        )[m] < decls.len() by {
            if decls.last().pattern is Wildcard {
                assert(wildcard_indices(decls) == rest.push(decls.len() - 1));
            }
        }
    }
}

/// Compiles an ordered list of branch declarations and hook declarations
/// into a dispatch table.
///
/// Each declaration is validated: its parameters must be bindable, one for
/// one and in order, to the bindings its pattern captures; the first
/// declaration for which they are not is reported. On success the table
/// holds one descriptor per declaration, in declaration order with every
/// wildcard relocated to the end, and the hook targets of each phase in
/// declaration order.
#[verifier::loop_isolation(false)]
pub fn compile(decls: &Vec<BranchDecl>, hooks: &Vec<HookDecl>) -> (r: Result<Table, CompileError>)
    ensures
        match r {
            Ok(t) => (forall|i: int| 0 <= i < decls@.len() ==> decl_valid(#[trigger] decls@[i]@))
                && t@ == table_of(decls@.map_values(|d: BranchDecl| d@), hooks@),
            Err(e) => exists|i: int|
                0 <= i < decls@.len() && !decl_valid(#[trigger] decls@[i]@) && (forall|m: int|
                    0 <= m < i ==> decl_valid(#[trigger] decls@[m]@)) && e == (
                CompileError::BindingMismatch { target: decls@[i].target }),
        },
{
    let ghost dv = decls@.map_values(|d: BranchDecl| d@);
    let n = decls.len();
    let mut i: usize = 0;
    while i < n
        invariant
            i <= n,
            forall|m: int| 0 <= m < i ==> decl_valid(#[trigger] decls@[m]@),
        decreases n - i,
    {
        if !decl_valid_exec(&decls[i]) {
            return Err(CompileError::BindingMismatch { target: decls[i].target });
        }
        i += 1;
    }
    let mut order: Vec<usize> = Vec::new();
    let mut i: usize = 0;
    while i < n
        invariant
            i <= n,
            order@.map_values(|u: usize| u as int) == explicit_indices(dv.take(i as int)),
        decreases n - i,
    {
        let ghost pre = dv.take(i as int);
        let ghost cur = dv.take(i as int + 1);
        proof {
            assert(cur.drop_last() =~= pre);
            assert(cur.last() == dv[i as int]);
            assert(dv[i as int] == decls@[i as int]@);
        }
        if !matches!(decls[i].pattern, BranchPattern::Wildcard) {
            order.push(i);
        }
        proof {
            assert(order@.map_values(|u: usize| u as int) =~= explicit_indices(cur));
        }
        i += 1;
    }
    proof {
        assert(dv.take(n as int) =~= dv);
    }
    let mut i: usize = 0;
    while i < n
        invariant
            i <= n,
            order@.map_values(|u: usize| u as int) == explicit_indices(dv) + wildcard_indices(
                dv.take(i as int),
            ),
        decreases n - i,
    {
        let ghost pre = dv.take(i as int);
        let ghost cur = dv.take(i as int + 1);
        let ghost order0 = order@;
        proof {
            assert(cur.drop_last() =~= pre);
            assert(cur.last() == dv[i as int]);
            assert(dv[i as int] == decls@[i as int]@);
        }
        if matches!(decls[i].pattern, BranchPattern::Wildcard) {
            order.push(i);
        }
        proof {
            assert(cur.len() - 1 == i as int);
            if dv[i as int].pattern is Wildcard {
                assert(wildcard_indices(cur) == wildcard_indices(pre).push(i as int));
                assert(order@ == order0.push(i));
                assert(order@.map_values(|u: usize| u as int) =~= order0.map_values(
                    |u: usize| u as int,
                ).push(i as int));
                assert(order0.map_values(|u: usize| u as int) == explicit_indices(dv)
                    + wildcard_indices(pre));
                assert((explicit_indices(dv) + wildcard_indices(pre)).push(i as int)
                    =~= explicit_indices(dv) + wildcard_indices(pre).push(i as int));
            } else {
                assert(wildcard_indices(cur) == wildcard_indices(pre));
            }
            assert(order@.map_values(|u: usize| u as int) =~= explicit_indices(dv)
                + wildcard_indices(cur));
        }
        i += 1;
    }
    proof {
        assert(dv.take(n as int) =~= dv);
        assert(order@.map_values(|u: usize| u as int) == compiled_order(dv));
        lemma_explicit_indices_bounds(dv);
        lemma_wildcard_indices_bounds(dv);
        assert forall|m: int| 0 <= m < order@.len() implies 0 <= #[trigger] order@[m] < n by {
            assert(order@.map_values(|u: usize| u as int)[m] == order@[m] as int);
            assert(compiled_order(dv)[m] == explicit_indices(dv)[m] || compiled_order(
                dv,
            )[m] == wildcard_indices(dv)[m - explicit_indices(dv).len()]);
        }
    }
    let mut branches: Vec<BranchDescriptor> = Vec::new();
    let mut k: usize = 0;
    while k < order.len()
        invariant
            k <= order@.len(),
            branches@.len() == k,
            forall|m: int|
                0 <= m < k ==> #[trigger] branches@[m]@ == descriptor_of(
                    dv[compiled_order(dv)[m]],
                    m,
                ),
        decreases order@.len() - k,
    {
        let idx = order[k];
        let d = &decls[idx];
        let mut bo: Vec<u64> = Vec::new();
        let mut q: usize = 0;
        while q < d.params.len()
            invariant
                q <= d.params@.len(),
                bo@ == d.params@.take(q as int),
            decreases d.params@.len() - q,
        {
            bo.push(d.params[q]);
            proof {
                assert(d.params@.take(q as int).push(d.params@[q as int]) =~= d.params@.take(
                    q as int + 1,
                ));
            }
            q += 1;
        }
        proof {
            assert(bo@ =~= d.params@);
            assert(dv[idx as int] == decls@[idx as int]@);
        }
        branches.push(
            BranchDescriptor {
                pattern: d.pattern,
                binding_order: bo,
                has_guard: d.has_guard,
                target: d.target,
                is_async: d.is_async,
                declaration_index: k,
            },
        );
        k += 1;
    }
    let mut pre_hooks: Vec<u64> = Vec::new();
    let mut post_hooks: Vec<u64> = Vec::new();
    let mut h: usize = 0;
    while h < hooks.len()
        invariant
            h <= hooks@.len(),
            pre_hooks@ == hook_targets(hooks@.take(h as int), Phase::Pre),
            post_hooks@ == hook_targets(hooks@.take(h as int), Phase::Post),
        decreases hooks@.len() - h,
    {
        let ghost pre = hooks@.take(h as int);
        let ghost cur = hooks@.take(h as int + 1);
        proof {
            assert(cur.drop_last() =~= pre);
            assert(cur.last() == hooks@[h as int]);
        }
        match hooks[h].phase {
            Phase::Pre => pre_hooks.push(hooks[h].target),
            Phase::Post => post_hooks.push(hooks[h].target),
        }
        proof {
            assert(pre_hooks@ =~= hook_targets(cur, Phase::Pre));
            assert(post_hooks@ =~= hook_targets(cur, Phase::Post));
        }
        h += 1;
    }
    proof {
        assert(hooks@.take(hooks@.len() as int) =~= hooks@);
    }
    let t = Table { branches, pre_hooks, post_hooks };
    proof {
        assert(t@.branches =~= table_of(dv, hooks@).branches);
        assert(t@ =~= table_of(dv, hooks@));
    }
    Ok(t)
}

/// The branch and hook declarations of one state machine, together with the
/// behavior of their target functions: what each guard tests, what each
/// branch function returns, and what each hook does. An implementation of
/// this trait is what the dispatch compiler turns into an `Engine`.
pub trait Branches: Sized {
    /// The enum of possible states. The runtime hands a copy of the state
    /// into each dispatch, so states must be cheaply duplicable.
    type State: Copy;

    /// The type of events that drive state transitions.
    type Event;

    /// The type of errors that can occur during state transitions.
    type Error;

    /// Shared data accessible to every branch. The runtime treats it
    /// transactionally — a failed dispatch commits no mutation to it — so
    /// it must be cheaply duplicable, like the state.
    type Shared: Copy;

    /// The branch declarations, in declaration order.
    spec fn decls_spec() -> Seq<BranchDeclView>;

    /// The hook declarations, in declaration order.
    spec fn hooks_spec() -> Seq<HookDecl>;

    /// Every branch declaration is valid. The dispatch procedure relies on
    /// this; an implementation with an invalid declaration cannot discharge
    /// it, so such a machine is rejected at verification time.
    proof fn decls_are_valid()
        ensures
            forall|i: int|
                0 <= i < Self::decls_spec().len() ==> decl_valid(#[trigger] Self::decls_spec()[i]),
    ;

    /// The branch declarations, as a value.
    fn decls() -> (v: Vec<BranchDecl>)
        ensures
            v@.map_values(|d: BranchDecl| d@) == Self::decls_spec(),
    ;

    /// The hook declarations, as a value.
    fn hooks() -> (v: Vec<HookDecl>)
        ensures
            v@ == Self::hooks_spec(),
    ;

    /// The variant id of a state, as tested by the patterns.
    spec fn state_id_spec(s: Self::State) -> u64;

    /// Executable form of `state_id_spec`.
    fn state_id(s: &Self::State) -> (id: u64)
        ensures
            id == Self::state_id_spec(*s),
    ;

    /// The variant id of an event, as tested by the patterns.
    spec fn event_id_spec(e: Self::Event) -> u64;

    /// Executable form of `event_id_spec`.
    fn event_id(e: &Self::Event) -> (id: u64)
        ensures
            id == Self::event_id_spec(*e),
    ;

    /// What the guard of the branch with the given target evaluates to. A
    /// guard is a pure predicate over the state, the event and the shared
    /// data; it has no failure mode and no side effect.
    spec fn guard_spec(target: u64, s: Self::State, e: Self::Event, c: Self::Shared) -> bool;

    /// Executable form of `guard_spec`.
    fn guard(target: u64, s: &Self::State, e: &Self::Event, c: &Self::Shared) -> (b: bool)
        ensures
            b == Self::guard_spec(target, *s, *e, *c),
    ;

    /// What the branch function with the given target returns, and how it
    /// updates the shared data.
    spec fn invoke_spec(target: u64, s: Self::State, e: Self::Event, c: Self::Shared) -> (
        BranchReturn<Self::State, Self::Error, Self::Event>,
        Self::Shared,
    );

    /// Invokes the branch function with the given target.
    fn invoke(target: u64, s: &Self::State, e: Self::Event, c: &mut Self::Shared) -> (r:
        BranchReturn<Self::State, Self::Error, Self::Event>)
        ensures
            (r, *final(c)) == Self::invoke_spec(target, *s, e, *old(c)),
    ;

    /// What the pre-hook with the given target does: either rewrite the
    /// about-to-be-consumed state and event, or abort the dispatch with an
    /// error.
    spec fn pre_hook_spec(target: u64, s: Self::State, e: Self::Event) -> Result<
        (Self::State, Self::Event),
        Self::Error,
    >;

    /// Runs the pre-hook with the given target.
    fn pre_hook(target: u64, s: &mut Self::State, e: &mut Self::Event) -> (r: Result<
        (),
        Self::Error,
    >)
        ensures
            match Self::pre_hook_spec(target, *old(s), *old(e)) {
                Ok(p) => r is Ok && (*final(s), *final(e)) == p,
                Err(err) => r == Result::<(), Self::Error>::Err(err),
            },
    ;

    /// What the post-hook with the given target does: either replace (or
    /// keep) the outcome, or signal an error, which replaces the outcome
    /// with a failure.
    spec fn post_hook_spec(target: u64, f: Flow<Self::State, Self::Error, Self::Event>) -> Result<
        Flow<Self::State, Self::Error, Self::Event>,
        Self::Error,
    >;

    /// Runs the post-hook with the given target.
    fn post_hook(target: u64, f: &mut Flow<Self::State, Self::Error, Self::Event>) -> (r: Result<
        (),
        Self::Error,
    >)
        ensures
            match Self::post_hook_spec(target, *old(f)) {
                Ok(f2) => r is Ok && *final(f) == f2,
                Err(err) => r == Result::<(), Self::Error>::Err(err),
            },
    ;
}

/// The compiled table of a `Branches` implementation.
pub open spec fn table_spec<B: Branches>() -> TableView {
    table_of(B::decls_spec(), B::hooks_spec())
}

/// Whether the branch at position `m` of the table accepts the (state,
/// event) pair: its pattern matches the pair's variant ids, and its guard,
/// if it has one, evaluates to true.
pub open spec fn accepts<B: Branches>(
    branches: Seq<BranchDescriptorView>,
    m: int,
    sid: u64,
    eid: u64,
    s: B::State,
    e: B::Event,
    c: B::Shared,
) -> bool {
    pattern_matches(branches[m].pattern, sid, eid) && (!branches[m].has_guard || B::guard_spec(
        branches[m].target,
        s,
        e,
        c,
    ))
}

/// The position of the first branch at or after `from` that accepts the
/// (state, event) pair, if any: branches are tried in ascending table
/// position, and the search stops at the first whose pattern matches and
/// whose guard passes.
pub open spec fn select_from<B: Branches>(
    branches: Seq<BranchDescriptorView>,
    from: int,
    sid: u64,
    eid: u64,
    s: B::State,
    e: B::Event,
    c: B::Shared,
) -> Option<int>
    decreases branches.len() - from,
{
    if from < 0 || from >= branches.len() {
        None
    } else if accepts::<B>(branches, from, sid, eid, s, e, c) {
        Some(from)
    } else {
        select_from::<B>(branches, from + 1, sid, eid, s, e, c)
    }
}

/// The result of running the pre-hooks in order: the rewritten (state,
/// event) pair, or the error of the first hook that aborts.
pub open spec fn run_pre<B: Branches>(hooks: Seq<u64>, s: B::State, e: B::Event) -> Result<
    (B::State, B::Event),
    B::Error,
>
    decreases hooks.len(),
{
    if hooks.len() == 0 {
        Ok((s, e))
    } else {
        match B::pre_hook_spec(hooks[0], s, e) {
            Ok(p) => run_pre::<B>(hooks.drop_first(), p.0, p.1),
            Err(err) => Err(err),
        }
    }
}

/// The outcome after running the post-hooks in order: each hook may replace
/// the outcome, and a hook that signals an error replaces it with that
/// error's failure; the hooks after it still run.
pub open spec fn run_post<B: Branches>(
    hooks: Seq<u64>,
    f: Flow<B::State, B::Error, B::Event>,
) -> Flow<B::State, B::Error, B::Event>
    decreases hooks.len(),
{
    if hooks.len() == 0 {
        f
    } else {
        let f2 = match B::post_hook_spec(hooks[0], f) {
            Ok(x) => x,
            Err(err) => Flow::Failure(err),
        };
        run_post::<B>(hooks.drop_first(), f2)
    }
}

/// What one dispatch returns and how it updates the shared data: the
/// pre-hooks run first, in declaration order, and an abort by any of them
/// fails the whole dispatch with no branch run and no post-hook run; then
/// the first accepting branch of the compiled table is invoked and its
/// return value normalized into an outcome — a pair no branch accepts
/// resolves to `Pass`; finally the post-hooks run, in declaration order.
///
/// A dispatch whose final outcome is `Failure` commits nothing: whatever
/// the invoked branch wrote to its working copy of the shared data is
/// discarded, and the shared data comes back unchanged. There is no
/// partial commit within one dispatch.
pub open spec fn dispatch_spec<B: Branches>(s: B::State, e: B::Event, c: B::Shared) -> (
    Flow<B::State, B::Error, B::Event>,
    B::Shared,
) {
    let t = table_spec::<B>();
    match run_pre::<B>(t.pre_hooks, s, e) {
        Err(err) => (Flow::Failure(err), c),
        Ok(p) => {
            let sid = B::state_id_spec(p.0);
            let eid = B::event_id_spec(p.1);
            match select_from::<B>(t.branches, 0, sid, eid, p.0, p.1, c) {
                None => (run_post::<B>(t.post_hooks, Flow::Pass), c),
                Some(m) => {
                    let inv = B::invoke_spec(t.branches[m].target, p.0, p.1, c);
                    let out = run_post::<B>(t.post_hooks, normalize_spec(inv.0));
                    (out, if out is Failure { c } else { inv.1 })
                },
            }
        },
    }
}

/// One dispatch: compiles the declarations, runs the pre-hooks on a copy of
/// the state and on the event, selects the first accepting branch, invokes
/// it, normalizes its return value, and runs the post-hooks on the outcome.
///
/// The authoritative state is not touched: the caller interprets the
/// returned outcome. The branch works on the shared data in place, but a
/// dispatch whose final outcome is `Failure` restores the value it started
/// from, so a failed dispatch commits nothing.
#[verifier::loop_isolation(false)]
pub fn dispatch<B: Branches>(state: &B::State, event: B::Event, shared: &mut B::Shared) -> (f: Flow<
    B::State,
    B::Error,
    B::Event,
>)
    ensures
        (f, *final(shared)) == dispatch_spec::<B>(*state, event, *old(shared)),
{
    let ghost tv = table_spec::<B>();
    let ghost s_in = *state;
    let ghost e_in = event;
    let ghost c_in = *shared;
    let saved: B::Shared = *shared;
    let decl_list = B::decls();
    let hook_list = B::hooks();
    proof {
        assert forall|i: int|
            0 <= i < decl_list@.len() implies #[trigger] B::decls_spec()[i] == decl_list@.map_values(
            |d: BranchDecl| d@,
        )[i] by {
            assert(decl_list@.map_values(|d: BranchDecl| d@)[i] == decl_list@[i]@);
        }
        assert(decl_list@.map_values(|d: BranchDecl| d@) =~= B::decls_spec());
    }
    let t = match compile(&decl_list, &hook_list) {
        Ok(t) => t,
        Err(_) => {
            proof {
                B::decls_are_valid();
                assert forall|i: int|
                    0 <= i < decl_list@.len() implies decl_valid(#[trigger] decl_list@[i]@) by {
                    assert(decl_list@.map_values(|d: BranchDecl| d@)[i] == decl_list@[i]@);
                    assert(decl_valid(B::decls_spec()[i]));
                }
            }
            unreached()
        },
    };
    let mut s: B::State = *state;
    let mut e = event;
    let ghost pre = tv.pre_hooks;
    proof {
        assert(pre.skip(0) =~= pre);
    }
    let mut i: usize = 0;
    while i < t.pre_hooks.len()
        invariant
            i <= t.pre_hooks@.len(),
            t@ == tv,
            run_pre::<B>(pre, s_in, e_in) == run_pre::<B>(pre.skip(i as int), s, e),
        decreases t.pre_hooks@.len() - i,
    {
        let tgt = t.pre_hooks[i];
        let ghost s_cur = s;
        let ghost e_cur = e;
        proof {
            assert(pre.skip(i as int)[0] == pre[i as int]);
            assert(pre.skip(i as int).drop_first() =~= pre.skip(i as int + 1));
        }
        match B::pre_hook(tgt, &mut s, &mut e) {
            Ok(()) => {},
            Err(err) => {
                proof {
                    assert(run_pre::<B>(pre.skip(i as int), s_cur, e_cur) == Result::<
                        (B::State, B::Event),
                        B::Error,
                    >::Err(err));
                }
                return Flow::Failure(err);
            },
        }
        i += 1;
    }
    proof {
        assert(pre.skip(pre.len() as int) =~= Seq::<u64>::empty());
        assert(run_pre::<B>(pre, s_in, e_in) == Result::<(B::State, B::Event), B::Error>::Ok(
            (s, e),
        ));
    }
    let ghost s_mid = s;
    let ghost e_mid = e;
    let sid = B::state_id(&s);
    let eid = B::event_id(&e);
    let nb = t.branches.len();
    let mut j: usize = 0;
    let mut sel: Option<usize> = None;
    while j < nb
        invariant
            j <= nb,
            match sel {
                None => select_from::<B>(tv.branches, 0, sid, eid, s_mid, e_mid, c_in)
                    == select_from::<B>(tv.branches, j as int, sid, eid, s_mid, e_mid, c_in),
                Some(w) => w < nb && j == nb && select_from::<B>(
                    tv.branches,
                    0,
                    sid,
                    eid,
                    s_mid,
                    e_mid,
                    c_in,
                ) == Some(w as int),
            },
        decreases nb - j,
    {
        let b = &t.branches[j];
        let hit = if pattern_matches_exec(&b.pattern, sid, eid) {
            if !b.has_guard {
                true
            } else {
                B::guard(b.target, &s, &e, &*shared)
            }
        } else {
            false
        };
        proof {
            assert(b@ == tv.branches[j as int]);
            assert(hit == accepts::<B>(tv.branches, j as int, sid, eid, s_mid, e_mid, c_in));
        }
        if hit {
            sel = Some(j);
            let ghost w = j as int;
            proof {
                assert(select_from::<B>(tv.branches, w, sid, eid, s_mid, e_mid, c_in) == Some(w));
            }
            j = nb;
        } else {
            proof {
                assert(select_from::<B>(tv.branches, j as int, sid, eid, s_mid, e_mid, c_in)
                    == select_from::<B>(tv.branches, j as int + 1, sid, eid, s_mid, e_mid, c_in));
            }
            j += 1;
        }
    }
    let mut f: Flow<B::State, B::Error, B::Event> = match sel {
        None => {
            proof {
                assert(select_from::<B>(tv.branches, nb as int, sid, eid, s_mid, e_mid, c_in)
                    is None);
            }
            Flow::Pass
        },
        Some(jj) => {
            let b = &t.branches[jj];
            let ret = B::invoke(b.target, &s, e, shared);
            normalize(ret)
        },
    };
    let ghost f_mid = f;
    let ghost post = tv.post_hooks;
    proof {
        assert(post.skip(0) =~= post);
    }
    let mut k: usize = 0;
    while k < t.post_hooks.len()
        invariant
            k <= t.post_hooks@.len(),
            run_post::<B>(post, f_mid) == run_post::<B>(post.skip(k as int), f),
        decreases t.post_hooks@.len() - k,
    {
        let tgt = t.post_hooks[k];
        proof {
            assert(post.skip(k as int)[0] == post[k as int]);
            assert(post.skip(k as int).drop_first() =~= post.skip(k as int + 1));
        }
        match B::post_hook(tgt, &mut f) {
            Ok(()) => {},
            Err(err) => {
                f = Flow::Failure(err);
            },
        }
        k += 1;
    }
    proof {
        assert(post.skip(post.len() as int) =~= Seq::<u64>::empty());
        assert(f == run_post::<B>(post, f_mid));
    }
    if matches!(f, Flow::Failure(_)) {
        *shared = saved;
    }
    f
}

/// Branch selection selects exactly the first accepting branch: when
/// `select_from` finds a position, that position accepts the pair and no
/// earlier position at or after `from` does; when it finds none, no
/// position at or after `from` accepts the pair.
pub proof fn lemma_select_characterization<B: Branches>(
    branches: Seq<BranchDescriptorView>,
    from: int,
    sid: u64,
    eid: u64,
    s: B::State,
    e: B::Event,
    c: B::Shared,
)
    requires
        0 <= from <= branches.len(),
    ensures
        match select_from::<B>(branches, from, sid, eid, s, e, c) {
            Some(w) => from <= w < branches.len() && accepts::<B>(branches, w, sid, eid, s, e, c)
                && (forall|m: int|
                from <= m < w ==> !#[trigger] accepts::<B>(branches, m, sid, eid, s, e, c)),
            None => forall|m: int|
                from <= m < branches.len() ==> !#[trigger] accepts::<B>(
                    branches,
                    m,
                    sid,
                    eid,
                    s,
                    e,
                    c,
                ),
        },
    decreases branches.len() - from,
{
    if from < branches.len() {
        if !accepts::<B>(branches, from, sid, eid, s, e, c) {
            lemma_select_characterization::<B>(branches, from + 1, sid, eid, s, e, c);
        }
    }
}

/// Priority determinism: when the branches at two table positions `i < j`
/// both match a (state, event) pair and the guard of the one at `i` passes,
/// selection never picks `j`: it picks the first accepting position, which
/// is at most `i`.
pub proof fn lemma_priority_determinism<B: Branches>(
    branches: Seq<BranchDescriptorView>,
    i: int,
    j: int,
    sid: u64,
    eid: u64,
    s: B::State,
    e: B::Event,
    c: B::Shared,
)
    requires
        0 <= i < j < branches.len(),
        accepts::<B>(branches, i, sid, eid, s, e, c),
    ensures
        select_from::<B>(branches, 0, sid, eid, s, e, c) is Some,
        select_from::<B>(branches, 0, sid, eid, s, e, c).unwrap() <= i,
        select_from::<B>(branches, 0, sid, eid, s, e, c) != Some(j),
{
    lemma_select_characterization::<B>(branches, 0, sid, eid, s, e, c);
}

/// Every position named by `explicit_indices` names a declaration whose
/// pattern is not the wildcard, and every position named by
/// `wildcard_indices` names one whose pattern is.
proof fn lemma_indices_patterns(decls: Seq<BranchDeclView>)
    ensures
        forall|m: int|
            0 <= m < explicit_indices(decls).len() ==> 0 <= #[trigger] explicit_indices(decls)[m]
                < decls.len() && !(decls[explicit_indices(decls)[m]].pattern is Wildcard),
        forall|m: int|
            0 <= m < wildcard_indices(decls).len() ==> 0 <= #[trigger] wildcard_indices(decls)[m]
                < decls.len() && decls[wildcard_indices(decls)[m]].pattern is Wildcard,
    decreases decls.len(),
{
    if decls.len() > 0 {
        lemma_indices_patterns(decls.drop_last());
        let reste = explicit_indices(decls.drop_last());
        let restw = wildcard_indices(decls.drop_last());
        assert forall|m: int|
            0 <= m < explicit_indices(decls).len() implies 0 <= #[trigger] explicit_indices(
            decls,
        )[m] < decls.len() && !(decls[explicit_indices(decls)[m]].pattern is Wildcard) by {
            if !(decls.last().pattern is Wildcard) {
                assert(explicit_indices(decls) == reste.push(decls.len() - 1));
            }
            assert(decls.drop_last() =~= decls.take(decls.len() - 1));
            assert(forall|p: int|
                0 <= p < decls.len() - 1 ==> decls.drop_last()[p] == #[trigger] decls[p]);
        }
        assert forall|m: int|
            0 <= m < wildcard_indices(decls).len() implies 0 <= #[trigger] wildcard_indices(
            decls,
        )[m] < decls.len() && decls[wildcard_indices(decls)[m]].pattern is Wildcard by {
            if decls.last().pattern is Wildcard {
                assert(wildcard_indices(decls) == restw.push(decls.len() - 1));
            }
            assert(forall|p: int|
                0 <= p < decls.len() - 1 ==> decls.drop_last()[p] == #[trigger] decls[p]);
        }
    }
}

/// In a compiled table the explicit branches stand first, in declaration
/// order, and the wildcard branches last: a table position holds a wildcard
/// exactly when it lies past the explicit branches.
pub proof fn lemma_compiled_wildcards_last(decls: Seq<BranchDeclView>, hooks: Seq<HookDecl>)
    ensures
        forall|k: int|
            0 <= k < table_of(decls, hooks).branches.len() ==> ((#[trigger] table_of(
                decls,
                hooks,
            ).branches[k].pattern is Wildcard) <==> k >= explicit_indices(decls).len()),
{
    lemma_indices_patterns(decls);
    let tv = table_of(decls, hooks);
    let ord = compiled_order(decls);
    assert forall|k: int|
        0 <= k < tv.branches.len() implies ((#[trigger] tv.branches[k].pattern is Wildcard) <==> k
        >= explicit_indices(decls).len()) by {
        assert(tv.branches[k] == descriptor_of(decls[ord[k]], k));
        if k < explicit_indices(decls).len() {
            assert(ord[k] == explicit_indices(decls)[k]);
        } else {
            assert(ord[k] == wildcard_indices(decls)[k - explicit_indices(decls).len()]);
        }
    }
}

/// When the branch at position `w` accepts a (state, event) pair and no
/// branch before it does, selection picks exactly `w`.
pub proof fn lemma_select_exact<B: Branches>(
    branches: Seq<BranchDescriptorView>,
    w: int,
    sid: u64,
    eid: u64,
    s: B::State,
    e: B::Event,
    c: B::Shared,
)
    requires
        0 <= w < branches.len(),
        accepts::<B>(branches, w, sid, eid, s, e, c),
        forall|m: int| 0 <= m < w ==> !#[trigger] accepts::<B>(branches, m, sid, eid, s, e, c),
    ensures
        select_from::<B>(branches, 0, sid, eid, s, e, c) == Some(w),
{
    lemma_select_characterization::<B>(branches, 0, sid, eid, s, e, c);
    match select_from::<B>(branches, 0, sid, eid, s, e, c) {
        Some(w2) => {
            if w2 < w {
                assert(!accepts::<B>(branches, w2, sid, eid, s, e, c));
            } else if w2 > w {
                assert(!accepts::<B>(branches, w, sid, eid, s, e, c));
            }
        },
        None => {
            assert(!accepts::<B>(branches, w, sid, eid, s, e, c));
        },
    }
}

/// Wildcard completeness: a (state, event) pair that no branch before
/// position `w` accepts resolves via the branch at `w` when that branch is
/// a guard-free wildcard — the wildcard covers every pair that the explicit
/// branches leave unhandled.
pub proof fn lemma_wildcard_completeness<B: Branches>(
    w: int,
    sid: u64,
    eid: u64,
    s: B::State,
    e: B::Event,
    c: B::Shared,
)
    requires
        0 <= w < table_spec::<B>().branches.len(),
        table_spec::<B>().branches[w].pattern is Wildcard,
        !table_spec::<B>().branches[w].has_guard,
        forall|m: int|
            0 <= m < w ==> !#[trigger] accepts::<B>(table_spec::<B>().branches, m, sid, eid, s, e, c),
    ensures
        select_from::<B>(table_spec::<B>().branches, 0, sid, eid, s, e, c) == Some(w),
{
    let branches = table_spec::<B>().branches;
    assert(accepts::<B>(branches, w, sid, eid, s, e, c));
    lemma_select_exact::<B>(branches, w, sid, eid, s, e, c);
}

/// One step of evaluating the compiled order of a declaration list: taking
/// one more declaration appends its position to the explicit or to the
/// wildcard indices, after whatever the earlier declarations contributed.
pub proof fn lemma_indices_step(decls: Seq<BranchDeclView>, k: int)
    requires
        0 <= k < decls.len(),
    ensures
        explicit_indices(decls.take(k + 1)) == (if decls[k].pattern is Wildcard {
            explicit_indices(decls.take(k))
        } else {
            explicit_indices(decls.take(k)).push(k)
        }),
        wildcard_indices(decls.take(k + 1)) == (if decls[k].pattern is Wildcard {
            wildcard_indices(decls.take(k)).push(k)
        } else {
            wildcard_indices(decls.take(k))
        }),
{
    assert(decls.take(k + 1).drop_last() =~= decls.take(k));
    assert(decls.take(k + 1).last() == decls[k]);
}

/// One dispatch invokes the selected branch exactly once, and no other
/// branch at all: after a successful dispatch the shared data is exactly
/// what one invocation of the selected branch left, and after a dispatch
/// with no selected branch, or a failed one, the shared data is unchanged.
/// A branch that adds one to a counter therefore adds exactly one per
/// matching dispatch, and zero for a dispatch resolved by another branch.
pub proof fn lemma_selected_branch_invoked_once<B: Branches>(s: B::State, e: B::Event, c: B::Shared)
    ensures
        ({
            let t = table_spec::<B>();
            match run_pre::<B>(t.pre_hooks, s, e) {
                Err(_) => dispatch_spec::<B>(s, e, c).1 == c,
                Ok(p) => match select_from::<B>(
                    t.branches,
                    0,
                    B::state_id_spec(p.0),
                    B::event_id_spec(p.1),
                    p.0,
                    p.1,
                    c,
                ) {
                    None => dispatch_spec::<B>(s, e, c).1 == c,
                    Some(m) => dispatch_spec::<B>(s, e, c).1 == (if dispatch_spec::<B>(
                        s,
                        e,
                        c,
                    ).0 is Failure {
                        c
                    } else {
                        B::invoke_spec(t.branches[m].target, p.0, p.1, c).1
                    }),
                },
            }
        }),
{
}

/// For a machine that declares no hooks, one dispatch is exactly branch
/// selection followed by invocation and normalization: no rewriting of the
/// pair before selection, and no replacement of the outcome after it.
pub proof fn lemma_dispatch_spec_no_hooks<B: Branches>(s: B::State, e: B::Event, c: B::Shared)
    requires
        table_spec::<B>().pre_hooks == Seq::<u64>::empty(),
        table_spec::<B>().post_hooks == Seq::<u64>::empty(),
    ensures
        dispatch_spec::<B>(s, e, c) == (match select_from::<B>(
            table_spec::<B>().branches,
            0,
            B::state_id_spec(s),
            B::event_id_spec(e),
            s,
            e,
            c,
        ) {
            None => (Flow::<B::State, B::Error, B::Event>::Pass, c),
            Some(m) => {
                let inv = B::invoke_spec(table_spec::<B>().branches[m].target, s, e, c);
                let out = normalize_spec(inv.0);
                (out, if out is Failure { c } else { inv.1 })
            },
        }),
{
    let t = table_spec::<B>();
    assert(run_pre::<B>(t.pre_hooks, s, e) == Result::<(B::State, B::Event), B::Error>::Ok(
        (s, e),
    ));
    match select_from::<B>(t.branches, 0, B::state_id_spec(s), B::event_id_spec(e), s, e, c) {
        None => {
            assert(run_post::<B>(t.post_hooks, Flow::<B::State, B::Error, B::Event>::Pass)
                == Flow::<B::State, B::Error, B::Event>::Pass);
        },
        Some(m) => {
            let inv = B::invoke_spec(t.branches[m].target, s, e, c);
            assert(run_post::<B>(t.post_hooks, normalize_spec(inv.0)) == normalize_spec(inv.0));
        },
    }
}

/// The dispatch compiler's output as an engine: any set of branch and hook
/// declarations is an `Engine` whose transition procedure is `dispatch`.
impl<B: Branches> Engine for B {
    type State = <B as Branches>::State;

    type Event = <B as Branches>::Event;

    type Error = <B as Branches>::Error;

    type Shared = <B as Branches>::Shared;

    open spec fn next_spec(
        state: <B as Branches>::State,
        event: <B as Branches>::Event,
        shared: <B as Branches>::Shared,
    ) -> (Flow<<B as Branches>::State, <B as Branches>::Error, <B as Branches>::Event>, <B as Branches>::Shared) {
        dispatch_spec::<B>(state, event, shared)
    }

    fn next(
        state: &<B as Branches>::State,
        event: <B as Branches>::Event,
        shared: &mut <B as Branches>::Shared,
    ) -> (f: Flow<<B as Branches>::State, <B as Branches>::Error, <B as Branches>::Event>) {
        dispatch::<B>(state, event, shared)
    }

    proof fn failure_preserves_shared(
        state: <B as Branches>::State,
        event: <B as Branches>::Event,
        shared: <B as Branches>::Shared,
    ) {
    }
}

} // verus!
