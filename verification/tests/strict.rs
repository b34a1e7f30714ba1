use turbostate::Machine;
use turbostate::examples::strict::StrictEngine;
use turbostate::examples::strict::StrictError;
use turbostate::examples::strict::StrictEvent;
use turbostate::examples::strict::StrictState;

#[test]
fn pre_hook_aborts_before_any_branch() {
    let mut machine: Machine<StrictEngine> = Machine::new_shared(StrictState::Off, 0);
    let result = machine.fire(StrictEvent::Stop);
    assert!(matches!(result, Err(StrictError::Vetoed)));
    assert!(matches!(*machine.state(), StrictState::Off));
    assert_eq!(*machine.shared(), 0);
}

#[test]
fn post_hook_replaces_unhandled_pass() {
    // No branch covers (On, Go); the synthesized Pass is replaced by the
    // post-hook's error.
    let mut machine: Machine<StrictEngine> = Machine::new_shared(StrictState::On, 0);
    let result = machine.fire(StrictEvent::Go);
    assert!(matches!(result, Err(StrictError::Unhandled)));
    assert!(matches!(*machine.state(), StrictState::On));
    assert_eq!(*machine.shared(), 0);
}

#[test]
fn hooks_pass_matched_dispatch_through() {
    let mut machine: Machine<StrictEngine> = Machine::new_shared(StrictState::On, 0);
    machine.fire(StrictEvent::Stop).unwrap();
    assert!(matches!(*machine.state(), StrictState::Off));
    assert_eq!(*machine.shared(), 1);
    machine.fire(StrictEvent::Go).unwrap();
    assert!(matches!(*machine.state(), StrictState::On));
    assert_eq!(*machine.shared(), 1);
}

#[test]
fn failing_branch_commits_nothing() {
    // The (On, Nudge) branch bumps the counter on its working copy and then
    // refuses: the dispatch fails, and the bump is discarded.
    let mut machine: Machine<StrictEngine> = Machine::new_shared(StrictState::On, 0);
    let result = machine.fire(StrictEvent::Nudge);
    assert!(matches!(result, Err(StrictError::Refused)));
    assert!(matches!(*machine.state(), StrictState::On));
    assert_eq!(*machine.shared(), 0);
}

#[test]
fn post_hook_failure_discards_branch_work() {
    // The (Off, Nudge) branch bumps the counter and passes; the post-hook
    // refuses the Pass, so the whole dispatch fails and the bump is
    // discarded with it.
    let mut machine: Machine<StrictEngine> = Machine::new_shared(StrictState::Off, 0);
    let result = machine.fire(StrictEvent::Nudge);
    assert!(matches!(result, Err(StrictError::Unhandled)));
    assert!(matches!(*machine.state(), StrictState::Off));
    assert_eq!(*machine.shared(), 0);
}
