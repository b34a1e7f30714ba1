use turbostate::IntoTransition;
use turbostate::branch::BranchDecl;
use turbostate::branch::BranchPattern;
use turbostate::branch::HookDecl;
use turbostate::branch::Phase;
use turbostate::branch::VariantPat;
use turbostate::branch::pattern_matches_exec;
use turbostate::dispatch::CompileError;
use turbostate::dispatch::compile;
use turbostate::examples::jobs::JobError;
use turbostate::examples::jobs::JobState;
use turbostate::examples::jobs::StepFault;

fn plain_decl(pattern: BranchPattern, target: u64) -> BranchDecl {
    BranchDecl {
        pattern,
        pattern_bindings: Vec::new(),
        params: Vec::new(),
        has_guard: false,
        target,
        is_async: false,
    }
}

#[test]
fn empty_declarations_compile_to_empty_table() {
    let table = compile(&Vec::new(), &Vec::new()).unwrap();
    assert_eq!(table.branches.len(), 0);
    assert_eq!(table.pre_hooks.len(), 0);
    assert_eq!(table.post_hooks.len(), 0);
}

#[test]
fn wildcard_is_relocated_last() {
    let decls = vec![
        plain_decl(BranchPattern::Wildcard, 9),
        plain_decl(BranchPattern::Pair(VariantPat::Is(0), VariantPat::Is(0)), 0),
        plain_decl(BranchPattern::Pair(VariantPat::Is(1), VariantPat::Any), 1),
    ];
    let table = compile(&decls, &Vec::new()).unwrap();
    let targets: Vec<u64> = table.branches.iter().map(|b| b.target).collect();
    assert_eq!(targets, vec![0, 1, 9]);
    for (k, branch) in table.branches.iter().enumerate() {
        assert_eq!(branch.declaration_index, k);
    }
}

#[test]
fn binding_count_mismatch_is_rejected() {
    let with_params = BranchDecl {
        pattern: BranchPattern::Pair(VariantPat::Is(0), VariantPat::Is(0)),
        pattern_bindings: Vec::new(),
        params: vec![7],
        has_guard: false,
        target: 4,
        is_async: false,
    };
    let decls = vec![
        plain_decl(BranchPattern::Pair(VariantPat::Is(1), VariantPat::Is(1)), 3),
        with_params,
    ];
    let result = compile(&decls, &Vec::new());
    assert_eq!(result.unwrap_err(), CompileError::BindingMismatch { target: 4 });
}

#[test]
fn wildcard_with_parameters_is_rejected() {
    let wildcard = BranchDecl {
        pattern: BranchPattern::Wildcard,
        pattern_bindings: vec![1],
        params: vec![1],
        has_guard: false,
        target: 6,
        is_async: false,
    };
    let result = compile(&vec![wildcard], &Vec::new());
    assert_eq!(result.unwrap_err(), CompileError::BindingMismatch { target: 6 });
}

#[test]
fn binding_order_follows_parameters() {
    let decl = BranchDecl {
        pattern: BranchPattern::Pair(VariantPat::Is(0), VariantPat::Any),
        pattern_bindings: vec![5, 6],
        params: vec![7, 8],
        has_guard: true,
        target: 2,
        is_async: true,
    };
    let table = compile(&vec![decl], &Vec::new()).unwrap();
    assert_eq!(table.branches[0].binding_order, vec![7, 8]);
    assert!(table.branches[0].has_guard);
    assert!(table.branches[0].is_async);
}

#[test]
fn hooks_are_split_by_phase_in_order() {
    let hooks = vec![
        HookDecl { phase: Phase::Pre, target: 1 },
        HookDecl { phase: Phase::Post, target: 2 },
        HookDecl { phase: Phase::Pre, target: 3 },
    ];
    let table = compile(&Vec::new(), &hooks).unwrap();
    assert_eq!(table.pre_hooks, vec![1, 3]);
    assert_eq!(table.post_hooks, vec![2]);
}

#[test]
fn wildcard_pattern_matches_everything() {
    assert!(pattern_matches_exec(&BranchPattern::Wildcard, 3, 9));
    assert!(pattern_matches_exec(
        &BranchPattern::Pair(VariantPat::Any, VariantPat::Any),
        3,
        9
    ));
    assert!(pattern_matches_exec(
        &BranchPattern::Pair(VariantPat::Is(3), VariantPat::Is(9)),
        3,
        9
    ));
    assert!(!pattern_matches_exec(
        &BranchPattern::Pair(VariantPat::Is(4), VariantPat::Is(9)),
        3,
        9
    ));
}

#[test]
fn result_converts_to_itself() {
    let ok: Result<u32, i32> = Ok(5);
    assert_eq!(ok.into_transition(), Ok(5));
    let err: Result<u32, i32> = Err(-1);
    assert_eq!(err.into_transition(), Err(-1));
}

#[test]
fn local_error_widens_into_engine_error() {
    let step: Result<JobState, StepFault> = Err(StepFault::Rejected);
    let widened: Result<JobState, JobError> = step.into_transition();
    assert!(matches!(widened, Err(JobError::InvalidOp)));
    let step: Result<JobState, StepFault> = Ok(JobState::Done);
    let widened: Result<JobState, JobError> = step.into_transition();
    assert!(matches!(widened, Ok(JobState::Done)));
}
