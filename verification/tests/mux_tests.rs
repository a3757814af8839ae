use rxstamp::mux::{action_for, next_state, ConnEvent, ConnState, Multiplexer, ServiceAction};

#[test]
fn tokens_are_dense_indices() {
    let mut m = Multiplexer::new();
    assert_eq!(m.connection_count(), 0);
    assert_eq!(m.register(), 0);
    assert_eq!(m.register(), 1);
    assert_eq!(m.register(), 2);
    assert_eq!(m.connection_count(), 3);
    assert_eq!(m.state_of(1), ConnState::Connecting);
}

#[test]
fn life_cycle_transitions() {
    assert_eq!(
        next_state(ConnState::Connecting, ConnEvent::HandshakeDone),
        ConnState::Ready
    );
    assert_eq!(
        next_state(ConnState::Ready, ConnEvent::DataRead { bytes: 10 }),
        ConnState::Ready
    );
    assert_eq!(next_state(ConnState::Ready, ConnEvent::WouldBlock), ConnState::Ready);
    assert_eq!(next_state(ConnState::Ready, ConnEvent::EndOfStream), ConnState::Closed);
    assert_eq!(next_state(ConnState::Connecting, ConnEvent::FatalError), ConnState::Closed);
}

#[test]
fn closed_is_absorbing() {
    assert_eq!(
        next_state(ConnState::Closed, ConnEvent::HandshakeDone),
        ConnState::Closed
    );
    assert_eq!(
        next_state(ConnState::Closed, ConnEvent::DataRead { bytes: 1 }),
        ConnState::Closed
    );
}

#[test]
fn apply_event_touches_only_its_own_slot() {
    let mut m = Multiplexer::new();
    m.register();
    m.register();
    m.apply_event(0, ConnEvent::HandshakeDone);
    assert_eq!(m.state_of(0), ConnState::Ready);
    assert_eq!(m.state_of(1), ConnState::Connecting);
    m.apply_event(0, ConnEvent::EndOfStream);
    assert_eq!(m.state_of(0), ConnState::Closed);
    assert_eq!(m.state_of(1), ConnState::Connecting);
}

#[test]
fn actions_by_state() {
    assert_eq!(action_for(ConnState::Connecting), ServiceAction::PollHandshake);
    assert_eq!(action_for(ConnState::Ready), ServiceAction::ReadBatch);
    assert_eq!(action_for(ConnState::Closed), ServiceAction::Skip);
}

#[test]
fn every_ready_connection_served_exactly_once() {
    let mut m = Multiplexer::new();
    for _ in 0..3 {
        m.register();
    }
    for t in 0..3 {
        m.apply_event(t, ConnEvent::HandshakeDone);
    }
    // The wait reported token 0 twice; each open connection is still served
    // exactly once.
    let ready = vec![2, 0, 1, 0];
    let plan = m.plan_cycle(&ready);
    assert_eq!(plan.len(), 3);
    for t in 0..3usize {
        assert_eq!(plan.iter().filter(|&&x| x == t).count(), 1);
    }
}

#[test]
fn closed_and_unregistered_tokens_are_excluded() {
    let mut m = Multiplexer::new();
    for _ in 0..3 {
        m.register();
    }
    m.apply_event(1, ConnEvent::FatalError);
    let ready = vec![0, 1, 2, 99];
    let plan = m.plan_cycle(&ready);
    assert_eq!(plan.len(), 2);
    assert!(plan.contains(&0));
    assert!(plan.contains(&2));
    assert!(!plan.contains(&1));
    assert!(!plan.contains(&99));
}

#[test]
fn empty_wait_yields_empty_plan() {
    let m = Multiplexer::new();
    let plan = m.plan_cycle(&Vec::new());
    assert!(plan.is_empty());
}
