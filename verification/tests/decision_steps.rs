use nefsm::decisions::{
    decide_entry, decide_handler_response, decide_state_response, EntryDecision, HandlerDecision,
    StateDecision,
};
use nefsm::sync::{Error, Response};

#[test]
fn entry_decisions() {
    assert!(matches!(
        decide_entry(&1u8, Response::Handled, false),
        EntryDecision::Settle
    ));
    assert!(matches!(
        decide_entry(&1u8, Response::Transition(2), false),
        EntryDecision::Proceed(2)
    ));
    // Unguarded (initialization): a self-transition re-enters.
    assert!(matches!(
        decide_entry(&1u8, Response::Transition(1), false),
        EntryDecision::Proceed(1)
    ));
    // Guarded (after a transition): a self-transition settles.
    assert!(matches!(
        decide_entry(&1u8, Response::Transition(1), true),
        EntryDecision::Settle
    ));
    assert!(matches!(
        decide_entry(&1u8, Response::Transition(2), true),
        EntryDecision::Proceed(2)
    ));
    match decide_entry(&1u8, Response::Error("no entry".to_string()), false) {
        EntryDecision::Reject(Error::StateInvalid(reason)) => assert_eq!(reason, "no entry"),
        _ => panic!("expected a StateInvalid rejection"),
    }
}

#[test]
fn handler_decisions() {
    assert!(matches!(
        decide_handler_response(&1u8, Response::Handled),
        HandlerDecision::PassOn
    ));
    // A handler transition to the current state is no redirection.
    assert!(matches!(
        decide_handler_response(&1u8, Response::Transition(1)),
        HandlerDecision::PassOn
    ));
    assert!(matches!(
        decide_handler_response(&1u8, Response::Transition(2)),
        HandlerDecision::Redirect(2)
    ));
    match decide_handler_response(&1u8, Response::Error("bad event".to_string())) {
        HandlerDecision::Abort(Error::InvalidEvent(reason)) => assert_eq!(reason, "bad event"),
        _ => panic!("expected an InvalidEvent abort"),
    }
}

#[test]
fn state_decisions() {
    assert!(matches!(
        decide_state_response(&1u8, Response::Handled),
        StateDecision::Done
    ));
    // A state's transition to itself is a no-op.
    assert!(matches!(
        decide_state_response(&1u8, Response::Transition(1)),
        StateDecision::Done
    ));
    assert!(matches!(
        decide_state_response(&1u8, Response::Transition(2)),
        StateDecision::Redirect(2)
    ));
    match decide_state_response(&1u8, Response::Error("bad event".to_string())) {
        StateDecision::Abort(Error::InvalidEvent(reason)) => assert_eq!(reason, "bad event"),
        _ => panic!("expected an InvalidEvent abort"),
    }
}
