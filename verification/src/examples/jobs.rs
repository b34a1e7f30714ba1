//! A sample job machine with guarded branches, a retry implemented as a
//! `Slide`, and a wildcard declared first — the compiler relocates it to
//! the lowest priority.

use vstd::prelude::*;
use crate::branch::BranchDecl;
use crate::branch::BranchDeclView;
use crate::branch::BranchPattern;
use crate::branch::HookDecl;
use crate::branch::Phase;
use crate::branch::VariantPat;
use crate::branch::descriptor_of;
use crate::convert::BranchReturn;
use crate::convert::IntoTransition;
use crate::dispatch::Branches;
use crate::dispatch::accepts;
use crate::dispatch::compiled_order;
use crate::dispatch::dispatch_spec;
use crate::dispatch::explicit_indices;
use crate::dispatch::hook_targets;
use crate::dispatch::lemma_dispatch_spec_no_hooks;
use crate::dispatch::lemma_indices_step;
use crate::dispatch::lemma_select_exact;
use crate::dispatch::lemma_wildcard_completeness;
use crate::dispatch::table_spec;
use crate::dispatch::wildcard_indices;
use crate::examples::call::bump;
use crate::examples::call::bump_spec;
use crate::flow::Flow;
use crate::machine::fires_to;
use crate::machine::lemma_slide_commits_first_step;

verus! {

/// The states of the job machine.
#[derive(Debug, Clone, Copy, PartialEq, Eq, Structural)]
pub enum JobState {
    Ready,
    Running,
    Done,
    Failed,
}

/// The events of the job machine.
#[derive(Debug, Clone, Copy, PartialEq, Eq, Structural)]
pub enum JobEvent {
    Start,
    Finish,
    Fail,
    Retry,
}

/// The error of the job machine.
#[derive(Debug, Clone, Copy, PartialEq, Eq, Structural)]
pub enum JobError {
    InvalidOp,
}

/// The shared data of the job machine: how many runs were started, and how
/// many a failing job may use before it is given up.
#[derive(Debug, Clone, Copy, PartialEq, Eq, Structural)]
pub struct JobStats {
    pub attempts: u64,
    pub limit: u64,
}

/// The job machine's engine. A failing run retries through a `Slide` back
/// to `Start` while attempts remain, and gives up once the limit is
/// reached; the two branches for `(Running, Fail)` have mutually exclusive
/// guards, and the earlier-declared one wins whenever its guard is true.
pub struct JobsEngine;

/// The error a single rejected step reports: a function-local error type,
/// narrower than the machine's `JobError`, widened by `IntoTransition`.
#[derive(Debug, Clone, Copy, PartialEq, Eq, Structural)]
pub enum StepFault {
    Rejected,
}

/// Widens a step's own fallible result into the job machine's error type.
impl IntoTransition<JobState, JobError> for Result<JobState, StepFault> {
    open spec fn into_transition_spec(self) -> Result<JobState, JobError> {
        match self {
            Ok(s) => Ok(s),
            Err(StepFault::Rejected) => Err(JobError::InvalidOp),
        }
    }

    fn into_transition(self) -> (r: Result<JobState, JobError>) {
        match self {
            Ok(s) => Ok(s),
            Err(StepFault::Rejected) => Err(JobError::InvalidOp),
        }
    }
}

impl JobsEngine {
    /// Variant id of a state.
    pub open spec fn sid(s: JobState) -> u64 {
        match s {
            JobState::Ready => 0,
            JobState::Running => 1,
            JobState::Done => 2,
            JobState::Failed => 3,
        }
    }

    /// Variant id of an event.
    pub open spec fn eid(e: JobEvent) -> u64 {
        match e {
            JobEvent::Start => 0,
            JobEvent::Finish => 1,
            JobEvent::Fail => 2,
            JobEvent::Retry => 3,
        }
    }

    /// One explicit branch declaration.
    pub open spec fn decl(sid: u64, eid: u64, guarded: bool, target: u64) -> BranchDeclView {
        BranchDeclView {
            pattern: BranchPattern::Pair(VariantPat::Is(sid), VariantPat::Is(eid)),
            pattern_bindings: Seq::empty(),
            params: Seq::empty(),
            has_guard: guarded,
            target,
            is_async: false,
        }
    }
}

/// Builds one explicit branch declaration.
fn mk_decl(sid: u64, eid: u64, guarded: bool, target: u64) -> (d: BranchDecl)
    ensures
        d@ == JobsEngine::decl(sid, eid, guarded, target),
{
    let d = BranchDecl {
        pattern: BranchPattern::Pair(VariantPat::Is(sid), VariantPat::Is(eid)),
        pattern_bindings: Vec::new(),
        params: Vec::new(),
        has_guard: guarded,
        target,
        is_async: false,
    };
    proof {
        assert(d@ =~~= JobsEngine::decl(sid, eid, guarded, target));
    }
    d
}

impl Branches for JobsEngine {
    type State = JobState;

    type Event = JobEvent;

    type Error = JobError;

    type Shared = JobStats;

    open spec fn decls_spec() -> Seq<BranchDeclView> {
        seq![
            BranchDeclView {
                pattern: BranchPattern::Wildcard,
                pattern_bindings: Seq::empty(),
                params: Seq::empty(),
                has_guard: false,
                target: 9,  // rest: declared first, relocated last
                is_async: false,
            },
            JobsEngine::decl(0, 0, false, 0),  // ready_start
            JobsEngine::decl(1, 2, true, 1),  // running_fail, attempts below limit
            JobsEngine::decl(1, 2, true, 2),  // running_fail, limit reached
            JobsEngine::decl(1, 1, false, 3),  // running_finish
            JobsEngine::decl(2, 3, false, 4),  // done_retry
        ]
    }

    open spec fn hooks_spec() -> Seq<HookDecl> {
        Seq::empty()
    }

    proof fn decls_are_valid() {
        assert forall|i: int|
            0 <= i < Self::decls_spec().len() implies crate::branch::decl_valid(
            #[trigger] Self::decls_spec()[i],
        ) by {
            assert(Self::decls_spec()[i].params.len() == 0);
            assert(Self::decls_spec()[i].pattern_bindings.len() == 0);
        }
    }

    fn decls() -> (v: Vec<BranchDecl>) {
        let mut v: Vec<BranchDecl> = Vec::new();
        v.push(
            BranchDecl {
                pattern: BranchPattern::Wildcard,
                pattern_bindings: Vec::new(),
                params: Vec::new(),
                has_guard: false,
                target: 9,
                is_async: false,
            },
        );
        v.push(mk_decl(0, 0, false, 0));
        v.push(mk_decl(1, 2, true, 1));
        v.push(mk_decl(1, 2, true, 2));
        v.push(mk_decl(1, 1, false, 3));
        v.push(mk_decl(2, 3, false, 4));
        proof {
            assert(v@.map_values(|d: BranchDecl| d@) =~~= Self::decls_spec());
        }
        v
    }

    fn hooks() -> (v: Vec<HookDecl>) {
        let v: Vec<HookDecl> = Vec::new();
        proof {
            assert(v@ =~= Self::hooks_spec());
        }
        v
    }

    open spec fn state_id_spec(s: JobState) -> u64 {
        Self::sid(s)
    }

    fn state_id(s: &JobState) -> u64 {
        match s {
            JobState::Ready => 0,
            JobState::Running => 1,
            JobState::Done => 2,
            JobState::Failed => 3,
        }
    }

    open spec fn event_id_spec(e: JobEvent) -> u64 {
        Self::eid(e)
    }

    fn event_id(e: &JobEvent) -> u64 {
        match e {
            JobEvent::Start => 0,
            JobEvent::Finish => 1,
            JobEvent::Fail => 2,
            JobEvent::Retry => 3,
        }
    }

    open spec fn guard_spec(target: u64, s: JobState, e: JobEvent, c: JobStats) -> bool {
        if target == 1 {
            c.attempts < c.limit
        } else if target == 2 {
            c.attempts >= c.limit
        } else {
            false
        }
    }

    fn guard(target: u64, s: &JobState, e: &JobEvent, c: &JobStats) -> bool {
        if target == 1 {
            c.attempts < c.limit
        } else if target == 2 {
            c.attempts >= c.limit
        } else {
            false
        }
    }

    open spec fn invoke_spec(target: u64, s: JobState, e: JobEvent, c: JobStats) -> (
        BranchReturn<JobState, JobError, JobEvent>,
        JobStats,
    ) {
        if target == 0 {
            (
                BranchReturn::NewState(JobState::Running),
                JobStats { attempts: bump_spec(c.attempts), ..c },
            )
        } else if target == 1 {
            (BranchReturn::Outcome(Flow::Slide(JobState::Ready, JobEvent::Start)), c)
        } else if target == 2 {
            (BranchReturn::NewState(JobState::Failed), c)
        } else if target == 3 {
            (BranchReturn::NewState(JobState::Done), c)
        } else if target == 4 {
            (BranchReturn::Outcome(Flow::Slide(JobState::Ready, JobEvent::Finish)), c)
        } else if target == 9 {
            (BranchReturn::Fallible(Err(JobError::InvalidOp)), c)
        } else {
            (BranchReturn::Outcome(Flow::Pass), c)
        }
    }

    fn invoke(target: u64, s: &JobState, e: JobEvent, c: &mut JobStats) -> (r: BranchReturn<
        JobState,
        JobError,
        JobEvent,
    >) {
        if target == 0 {
            c.attempts = bump(c.attempts);
            BranchReturn::NewState(JobState::Running)
        } else if target == 1 {
            BranchReturn::Outcome(Flow::Slide(JobState::Ready, JobEvent::Start))
        } else if target == 2 {
            BranchReturn::NewState(JobState::Failed)
        } else if target == 3 {
            BranchReturn::NewState(JobState::Done)
        } else if target == 4 {
            BranchReturn::Outcome(Flow::Slide(JobState::Ready, JobEvent::Finish))
        } else if target == 9 {
            let step: Result<JobState, StepFault> = Err(StepFault::Rejected);
            BranchReturn::Fallible(step.into_transition())
        } else {
            BranchReturn::Outcome(Flow::Pass)
        }
    }

    open spec fn pre_hook_spec(target: u64, s: JobState, e: JobEvent) -> Result<
        (JobState, JobEvent),
        JobError,
    > {
        Ok((s, e))
    }

    fn pre_hook(target: u64, s: &mut JobState, e: &mut JobEvent) -> Result<(), JobError> {
        Ok(())
    }

    open spec fn post_hook_spec(target: u64, f: Flow<JobState, JobError, JobEvent>) -> Result<
        Flow<JobState, JobError, JobEvent>,
        JobError,
    > {
        Ok(f)
    }

    fn post_hook(target: u64, f: &mut Flow<JobState, JobError, JobEvent>) -> Result<(), JobError> {
        Ok(())
    }
}

/// The job machine's compiled table: the five explicit branches first, in
/// declaration order, then the wildcard that was declared first, and no
/// hooks.
proof fn lemma_jobs_table()
    ensures
        table_spec::<JobsEngine>().pre_hooks == Seq::<u64>::empty(),
        table_spec::<JobsEngine>().post_hooks == Seq::<u64>::empty(),
        table_spec::<JobsEngine>().branches.len() == 6,
        table_spec::<JobsEngine>().branches[0] == descriptor_of(JobsEngine::decls_spec()[1], 0),
        table_spec::<JobsEngine>().branches[1] == descriptor_of(JobsEngine::decls_spec()[2], 1),
        table_spec::<JobsEngine>().branches[2] == descriptor_of(JobsEngine::decls_spec()[3], 2),
        table_spec::<JobsEngine>().branches[3] == descriptor_of(JobsEngine::decls_spec()[4], 3),
        table_spec::<JobsEngine>().branches[4] == descriptor_of(JobsEngine::decls_spec()[5], 4),
        table_spec::<JobsEngine>().branches[5] == descriptor_of(JobsEngine::decls_spec()[0], 5),
{
    let ds = JobsEngine::decls_spec();
    assert(ds.take(0) =~= Seq::<BranchDeclView>::empty());
    assert(explicit_indices(ds.take(0)) == Seq::<int>::empty());
    assert(wildcard_indices(ds.take(0)) == Seq::<int>::empty());
    lemma_indices_step(ds, 0);
    lemma_indices_step(ds, 1);
    lemma_indices_step(ds, 2);
    lemma_indices_step(ds, 3);
    lemma_indices_step(ds, 4);
    lemma_indices_step(ds, 5);
    assert(ds.take(6) =~= ds);
    assert(explicit_indices(ds) =~= seq![1int, 2int, 3int, 4int, 5int]);
    assert(wildcard_indices(ds) =~= seq![0int]);
    assert(compiled_order(ds) =~= seq![1int, 2int, 3int, 4int, 5int, 0int]);
    assert(JobsEngine::hooks_spec() =~= Seq::<HookDecl>::empty());
    assert(hook_targets(Seq::<HookDecl>::empty(), Phase::Pre) =~= Seq::<u64>::empty());
    assert(hook_targets(Seq::<HookDecl>::empty(), Phase::Post) =~= Seq::<u64>::empty());
}

/// Priority determinism, on the job machine: the two branches for
/// `(Running, Fail)` both match, their guards are mutually exclusive, and
/// the earlier-declared retry branch is invoked exactly when its guard is
/// true, whatever the shared data.
pub proof fn lemma_guard_priority(c: JobStats)
    ensures
        c.attempts < c.limit ==> dispatch_spec::<JobsEngine>(JobState::Running, JobEvent::Fail, c)
            == (
            Flow::<JobState, JobError, JobEvent>::Slide(JobState::Ready, JobEvent::Start),
            c,
        ),
        c.attempts >= c.limit ==> dispatch_spec::<JobsEngine>(JobState::Running, JobEvent::Fail, c)
            == (Flow::<JobState, JobError, JobEvent>::Transition(JobState::Failed), c),
{
    lemma_jobs_table();
    let br = table_spec::<JobsEngine>().branches;
    if c.attempts < c.limit {
        assert(accepts::<JobsEngine>(br, 1, 1, 2, JobState::Running, JobEvent::Fail, c));
        assert(!accepts::<JobsEngine>(br, 0, 1, 2, JobState::Running, JobEvent::Fail, c));
        lemma_select_exact::<JobsEngine>(br, 1, 1, 2, JobState::Running, JobEvent::Fail, c);
    } else {
        assert(accepts::<JobsEngine>(br, 2, 1, 2, JobState::Running, JobEvent::Fail, c));
        assert(!accepts::<JobsEngine>(br, 0, 1, 2, JobState::Running, JobEvent::Fail, c));
        assert(!accepts::<JobsEngine>(br, 1, 1, 2, JobState::Running, JobEvent::Fail, c));
        lemma_select_exact::<JobsEngine>(br, 2, 1, 2, JobState::Running, JobEvent::Fail, c);
    }
    lemma_dispatch_spec_no_hooks::<JobsEngine>(JobState::Running, JobEvent::Fail, c);
}

/// Wildcard completeness, on the job machine: a (state, event) pair no
/// explicit branch covers — here `(Failed, Start)` — resolves via the
/// wildcard, and the wildcard's error reaches the caller unchanged, with
/// the state untouched.
pub proof fn lemma_unhandled_resolves_via_wildcard(c: JobStats)
    ensures
        dispatch_spec::<JobsEngine>(JobState::Failed, JobEvent::Start, c) == (
            Flow::<JobState, JobError, JobEvent>::Failure(JobError::InvalidOp),
            c,
        ),
        fires_to::<JobsEngine>(
            JobState::Failed,
            c,
            JobEvent::Start,
            Err(JobError::InvalidOp),
            JobState::Failed,
            c,
        ),
{
    lemma_jobs_table();
    let br = table_spec::<JobsEngine>().branches;
    assert forall|m: int|
        0 <= m < 5 implies !#[trigger] accepts::<JobsEngine>(
        br,
        m,
        3,
        0,
        JobState::Failed,
        JobEvent::Start,
        c,
    ) by {
        if m == 0 {
            assert(br[0] == descriptor_of(JobsEngine::decls_spec()[1], 0));
        } else if m == 1 {
            assert(br[1] == descriptor_of(JobsEngine::decls_spec()[2], 1));
        } else if m == 2 {
            assert(br[2] == descriptor_of(JobsEngine::decls_spec()[3], 2));
        } else if m == 3 {
            assert(br[3] == descriptor_of(JobsEngine::decls_spec()[4], 3));
        } else {
            assert(br[4] == descriptor_of(JobsEngine::decls_spec()[5], 4));
        }
    }
    lemma_wildcard_completeness::<JobsEngine>(5, 3, 0, JobState::Failed, JobEvent::Start, c);
    lemma_dispatch_spec_no_hooks::<JobsEngine>(JobState::Failed, JobEvent::Start, c);
    assert(crate::machine::fire_spec::<JobsEngine>(JobState::Failed, c, JobEvent::Start, 0)
        == Some(
        (Result::<(), JobError>::Err(JobError::InvalidOp), JobState::Failed, c),
    ));
}

/// Slide commits its first step, on the job machine: `(Done, Retry)`
/// resolves to `Slide(Ready, Finish)`, the re-dispatch of `Finish` at
/// `Ready` falls to the wildcard and fails, and the machine is left at
/// `Ready` — the slid-to state — with the error at the caller.
pub proof fn lemma_retry_slide_commits(c: JobStats)
    ensures
        dispatch_spec::<JobsEngine>(JobState::Done, JobEvent::Retry, c) == (
            Flow::<JobState, JobError, JobEvent>::Slide(JobState::Ready, JobEvent::Finish),
            c,
        ),
        fires_to::<JobsEngine>(
            JobState::Done,
            c,
            JobEvent::Retry,
            Err(JobError::InvalidOp),
            JobState::Ready,
            c,
        ),
{
    lemma_jobs_table();
    let br = table_spec::<JobsEngine>().branches;
    assert(accepts::<JobsEngine>(br, 4, 2, 3, JobState::Done, JobEvent::Retry, c));
    assert forall|m: int|
        0 <= m < 4 implies !#[trigger] accepts::<JobsEngine>(
        br,
        m,
        2,
        3,
        JobState::Done,
        JobEvent::Retry,
        c,
    ) by {
        if m == 0 {
            assert(br[0] == descriptor_of(JobsEngine::decls_spec()[1], 0));
        } else if m == 1 {
            assert(br[1] == descriptor_of(JobsEngine::decls_spec()[2], 1));
        } else if m == 2 {
            assert(br[2] == descriptor_of(JobsEngine::decls_spec()[3], 2));
        } else {
            assert(br[3] == descriptor_of(JobsEngine::decls_spec()[4], 3));
        }
    }
    lemma_select_exact::<JobsEngine>(br, 4, 2, 3, JobState::Done, JobEvent::Retry, c);
    lemma_dispatch_spec_no_hooks::<JobsEngine>(JobState::Done, JobEvent::Retry, c);
    assert forall|m: int|
        0 <= m < 5 implies !#[trigger] accepts::<JobsEngine>(
        br,
        m,
        0,
        1,
        JobState::Ready,
        JobEvent::Finish,
        c,
    ) by {
        if m == 0 {
            assert(br[0] == descriptor_of(JobsEngine::decls_spec()[1], 0));
        } else if m == 1 {
            assert(br[1] == descriptor_of(JobsEngine::decls_spec()[2], 1));
        } else if m == 2 {
            assert(br[2] == descriptor_of(JobsEngine::decls_spec()[3], 2));
        } else if m == 3 {
            assert(br[3] == descriptor_of(JobsEngine::decls_spec()[4], 3));
        } else {
            assert(br[4] == descriptor_of(JobsEngine::decls_spec()[5], 4));
        }
    }
    lemma_wildcard_completeness::<JobsEngine>(5, 0, 1, JobState::Ready, JobEvent::Finish, c);
    lemma_dispatch_spec_no_hooks::<JobsEngine>(JobState::Ready, JobEvent::Finish, c);
    lemma_slide_commits_first_step::<JobsEngine>(
        JobState::Done,
        c,
        JobEvent::Retry,
        JobState::Ready,
        JobEvent::Finish,
        c,
        JobError::InvalidOp,
        c,
    );
}

} // verus!
