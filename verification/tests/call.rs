use turbostate::Machine;
use turbostate::examples::call::CallEngine;
use turbostate::examples::call::CallError;
use turbostate::examples::call::CallEvent;
use turbostate::examples::call::CallState;
use turbostate::examples::call::CallStats;

#[test]
fn call() {
    let script = [
        CallEvent::Dial,
        CallEvent::Answer,
        CallEvent::HangUp,
        CallEvent::Reset,
        CallEvent::IncomingCall,
        CallEvent::Answer,
        CallEvent::HangUp,
    ];

    let mut machine: Machine<CallEngine> = Machine::new(CallState::Idle);

    for event in script {
        machine.fire(event).unwrap();
    }

    assert!(matches!(*machine.state(), CallState::Disconnected));
    let destructed = machine.destruct();
    assert_eq!(destructed.shared.calls_made, 1);
    assert_eq!(destructed.shared.calls_received, 1);
}

#[test]
fn answer_when_ringing_counts_received_only() {
    let mut machine: Machine<CallEngine> =
        Machine::new_shared(CallState::Ringing, CallStats::default());
    machine.fire(CallEvent::Answer).unwrap();
    assert!(matches!(*machine.state(), CallState::Connected));
    let destructed = machine.destruct();
    assert_eq!(destructed.shared.calls_made, 0);
    assert_eq!(destructed.shared.calls_received, 1);
}

#[test]
fn invalid_transition_reaches_caller_unchanged() {
    let mut machine: Machine<CallEngine> = Machine::new(CallState::Idle);
    let result = machine.fire(CallEvent::Answer);
    assert!(matches!(result, Err(CallError::InvalidTransition)));
    assert!(matches!(*machine.state(), CallState::Idle));
    let destructed = machine.destruct();
    assert_eq!(destructed.shared.calls_made, 0);
    assert_eq!(destructed.shared.calls_received, 0);
}
