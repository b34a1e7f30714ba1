use turbostate::Machine;
use turbostate::examples::tally::TallyEngine;
use turbostate::examples::tally::TallyEvent;
use turbostate::examples::tally::TallyState;

#[test]
fn each_bump_adds_exactly_one() {
    let mut machine: Machine<TallyEngine> = Machine::new_shared(TallyState::Counting, 0);
    machine.fire(TallyEvent::Bump).unwrap();
    assert_eq!(*machine.shared(), 1);
    machine.fire(TallyEvent::Bump).unwrap();
    assert_eq!(*machine.shared(), 2);
}

#[test]
fn n_fires_leave_counter_at_n() {
    let n: u64 = 100;
    let mut machine: Machine<TallyEngine> = Machine::new_shared(TallyState::Counting, 0);
    for _ in 0..n {
        machine.fire(TallyEvent::Bump).unwrap();
    }
    assert!(matches!(*machine.state(), TallyState::Counting));
    let destructed = machine.destruct();
    assert_eq!(destructed.shared, n);
}

#[test]
fn counter_saturates_at_maximum() {
    let mut machine: Machine<TallyEngine> = Machine::new_shared(TallyState::Counting, u64::MAX);
    machine.fire(TallyEvent::Bump).unwrap();
    assert_eq!(*machine.shared(), u64::MAX);
}
