use turbostate::Machine;
use turbostate::examples::jobs::JobError;
use turbostate::examples::jobs::JobEvent;
use turbostate::examples::jobs::JobState;
use turbostate::examples::jobs::JobStats;
use turbostate::examples::jobs::JobsEngine;

#[test]
fn guard_priority_retries_below_limit() {
    // Both (Running, Fail) branches match; the earlier-declared retry branch
    // wins while its guard holds, sliding back to Ready and re-dispatching
    // Start, which begins the next attempt.
    let mut machine: Machine<JobsEngine> =
        Machine::new_shared(JobState::Running, JobStats { attempts: 0, limit: 3 });
    machine.fire(JobEvent::Fail).unwrap();
    assert!(matches!(*machine.state(), JobState::Running));
    assert_eq!(machine.shared().attempts, 1);
}

#[test]
fn guard_priority_gives_up_at_limit() {
    // With the retry guard false, the later branch with the complementary
    // guard is selected instead, whatever the call count.
    let mut machine: Machine<JobsEngine> =
        Machine::new_shared(JobState::Running, JobStats { attempts: 3, limit: 3 });
    machine.fire(JobEvent::Fail).unwrap();
    assert!(matches!(*machine.state(), JobState::Failed));
    assert_eq!(machine.shared().attempts, 3);

    let mut machine: Machine<JobsEngine> =
        Machine::new_shared(JobState::Running, JobStats { attempts: 3, limit: 3 });
    machine.fire(JobEvent::Fail).unwrap();
    assert!(matches!(*machine.state(), JobState::Failed));
}

#[test]
fn wildcard_error_returned_unchanged() {
    // (Failed, Start) is covered by no explicit branch: the wildcard
    // resolves it, and its error reaches the caller unchanged.
    let mut machine: Machine<JobsEngine> =
        Machine::new_shared(JobState::Failed, JobStats { attempts: 0, limit: 3 });
    let result = machine.fire(JobEvent::Start);
    assert!(matches!(result, Err(JobError::InvalidOp)));
    assert!(matches!(*machine.state(), JobState::Failed));
}

#[test]
fn slide_commits_first_step() {
    // (Done, Retry) slides to Ready and re-dispatches Finish, which fails:
    // the state stays at Ready — the slid-to state — and the second step's
    // error reaches the caller.
    let mut machine: Machine<JobsEngine> =
        Machine::new_shared(JobState::Done, JobStats { attempts: 0, limit: 3 });
    let result = machine.fire(JobEvent::Retry);
    assert!(matches!(result, Err(JobError::InvalidOp)));
    assert!(matches!(*machine.state(), JobState::Ready));
}

#[test]
fn retry_chain_counts_each_attempt() {
    let mut machine: Machine<JobsEngine> =
        Machine::new_shared(JobState::Ready, JobStats { attempts: 0, limit: 2 });
    machine.fire(JobEvent::Start).unwrap();
    assert_eq!(machine.shared().attempts, 1);
    // Fail with one attempt left: the slide retries, starting attempt two.
    machine.fire(JobEvent::Fail).unwrap();
    assert!(matches!(*machine.state(), JobState::Running));
    assert_eq!(machine.shared().attempts, 2);
    // Fail at the limit: the machine gives up.
    machine.fire(JobEvent::Fail).unwrap();
    assert!(matches!(*machine.state(), JobState::Failed));
    assert_eq!(machine.shared().attempts, 2);
    machine.fire(JobEvent::Finish).unwrap_err();
}
