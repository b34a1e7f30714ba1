use turbostate::Engine;
use turbostate::Flow;
use turbostate::Machine;
use turbostate::NoShared;
use turbostate::examples::toggle::ToggleEngine;
use turbostate::examples::toggle::ToggleEvent;
use turbostate::examples::toggle::ToggleState;

#[test]
fn switch() {
    let mut machine: Machine<ToggleEngine> = Machine::new_shared(ToggleState::A, NoShared);
    //               A -> B               B -> A               A -> B
    let events = [ToggleEvent::Switch, ToggleEvent::Switch, ToggleEvent::Switch];

    for event in events {
        machine.fire(event).unwrap();
    }

    assert!(matches!(*machine.state(), ToggleState::B));
}

#[test]
fn round_trip_returns_to_start() {
    let mut machine: Machine<ToggleEngine> = Machine::new_shared(ToggleState::A, NoShared);
    machine.fire(ToggleEvent::Switch).unwrap();
    assert!(matches!(*machine.state(), ToggleState::B));
    machine.fire(ToggleEvent::Switch).unwrap();
    assert!(matches!(*machine.state(), ToggleState::A));
}

#[test]
fn constructors_and_destruct() {
    let machine: Machine<ToggleEngine> = Machine::new(ToggleState::B);
    assert!(matches!(*machine.state(), ToggleState::B));

    let machine: Machine<ToggleEngine> = Machine::default_shared(NoShared);
    assert!(matches!(*machine.state(), ToggleState::A));

    let machine: Machine<ToggleEngine> = Machine::new_shared(ToggleState::B, NoShared);
    let destructed = machine.destruct();
    assert!(matches!(destructed.state, ToggleState::B));
}

#[test]
fn engine_next_returns_transition() {
    let mut shared = NoShared;
    let flow = <ToggleEngine as Engine>::next(&ToggleState::A, ToggleEvent::Switch, &mut shared);
    assert!(matches!(flow, Flow::Transition(ToggleState::B)));
}
