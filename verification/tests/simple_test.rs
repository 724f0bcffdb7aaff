use nefsm::sync::{FsmEnum, NullEventHandler, Response, StateMachine, Stateful};

#[derive(Debug, Hash, PartialEq, Eq, Clone)]
enum TestState {
    State1,
    State2,
}

#[derive(Debug)]
enum TestEvent {
    Event1,
    Event2,
}

struct TestState1 {}

impl Stateful<TestState, (), TestEvent> for TestState1 {
    fn on_enter(&mut self, _context: &mut ()) -> Response<TestState> {
        Response::Handled
    }

    fn on_event(&mut self, event: &TestEvent, _context: &mut ()) -> Response<TestState> {
        match event {
            TestEvent::Event1 => Response::Handled,
            TestEvent::Event2 => Response::Transition(TestState::State2),
        }
    }

    fn on_exit(&mut self, _context: &mut ()) {}
}

struct TestState2 {}

impl Stateful<TestState, (), TestEvent> for TestState2 {
    fn on_enter(&mut self, _context: &mut ()) -> Response<TestState> {
        Response::Handled
    }

    fn on_event(&mut self, event: &TestEvent, _context: &mut ()) -> Response<TestState> {
        match event {
            TestEvent::Event1 => Response::Handled,
            TestEvent::Event2 => Response::Handled,
        }
    }

    fn on_exit(&mut self, _context: &mut ()) {}
}

enum TestBehavior {
    State1(TestState1),
    State2(TestState2),
}

impl Stateful<TestState, (), TestEvent> for TestBehavior {
    fn on_enter(&mut self, context: &mut ()) -> Response<TestState> {
        match self {
            TestBehavior::State1(s) => s.on_enter(context),
            TestBehavior::State2(s) => s.on_enter(context),
        }
    }

    fn on_event(&mut self, event: &TestEvent, context: &mut ()) -> Response<TestState> {
        match self {
            TestBehavior::State1(s) => s.on_event(event, context),
            TestBehavior::State2(s) => s.on_event(event, context),
        }
    }

    fn on_exit(&mut self, context: &mut ()) {
        match self {
            TestBehavior::State1(s) => s.on_exit(context),
            TestBehavior::State2(s) => s.on_exit(context),
        }
    }
}

impl FsmEnum<TestState, (), TestEvent> for TestState {
    type State = TestBehavior;

    fn create(enum_value: &TestState) -> TestBehavior {
        match enum_value {
            TestState::State1 => TestBehavior::State1(TestState1 {}),
            TestState::State2 => TestBehavior::State2(TestState2 {}),
        }
    }
}

#[test]
fn simple_test_test_state_machine() {
    let mut sm: StateMachine<TestState, (), TestEvent, NullEventHandler> =
        StateMachine::new((), None);
    sm.init(TestState::State1).unwrap();
    assert_eq!(*sm.get_current_state().unwrap(), TestState::State1);
    sm.process_event(&TestEvent::Event1).unwrap();
    assert_eq!(*sm.get_current_state().unwrap(), TestState::State1);
    sm.process_event(&TestEvent::Event2).unwrap();
    assert_eq!(*sm.get_current_state().unwrap(), TestState::State2);
}
