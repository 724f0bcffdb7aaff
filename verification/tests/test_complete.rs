use nefsm::sync::{EventHandler, FsmEnum, NullEventHandler, Response, StateMachine, Stateful};

#[derive(Debug, Clone, PartialEq, Eq, Hash)]
enum TestState {
    A,
    B,
    C,
}

#[derive(Debug)]
enum TestEvent {
    TransitionToB,
    TransitionToC,
    TransitionToA,
    NoTransition,
    IncrementByTwo,
}

struct TestContext {
    transitions: u32,
}

struct A {}

impl Stateful<TestState, TestContext, TestEvent> for A {
    fn on_enter(&mut self, context: &mut TestContext) -> Response<TestState> {
        context.transitions += 1;
        Response::Handled
    }

    fn on_event(&mut self, event: &TestEvent, _context: &mut TestContext) -> Response<TestState> {
        match event {
            TestEvent::TransitionToB => Response::Transition(TestState::B),
            _ => Response::Handled,
        }
    }

    fn on_exit(&mut self, _context: &mut TestContext) {}
}

struct B {}

impl Stateful<TestState, TestContext, TestEvent> for B {
    fn on_enter(&mut self, context: &mut TestContext) -> Response<TestState> {
        context.transitions += 1;
        Response::Handled
    }

    fn on_event(&mut self, event: &TestEvent, _context: &mut TestContext) -> Response<TestState> {
        match event {
            TestEvent::TransitionToC => Response::Transition(TestState::C),
            _ => Response::Handled,
        }
    }

    fn on_exit(&mut self, _context: &mut TestContext) {}
}

struct C {}

impl Stateful<TestState, TestContext, TestEvent> for C {
    fn on_enter(&mut self, context: &mut TestContext) -> Response<TestState> {
        context.transitions += 1;
        Response::Handled
    }

    fn on_event(&mut self, event: &TestEvent, _context: &mut TestContext) -> Response<TestState> {
        match event {
            TestEvent::TransitionToA => Response::Transition(TestState::A),
            _ => Response::Handled,
        }
    }

    fn on_exit(&mut self, _context: &mut TestContext) {}
}

enum TestBehavior {
    A(A),
    B(B),
    C(C),
}

impl Stateful<TestState, TestContext, TestEvent> for TestBehavior {
    fn on_enter(&mut self, context: &mut TestContext) -> Response<TestState> {
        match self {
            TestBehavior::A(s) => s.on_enter(context),
            TestBehavior::B(s) => s.on_enter(context),
            TestBehavior::C(s) => s.on_enter(context),
        }
    }

    fn on_event(&mut self, event: &TestEvent, context: &mut TestContext) -> Response<TestState> {
        match self {
            TestBehavior::A(s) => s.on_event(event, context),
            TestBehavior::B(s) => s.on_event(event, context),
            TestBehavior::C(s) => s.on_event(event, context),
        }
    }

    fn on_exit(&mut self, context: &mut TestContext) {
        match self {
            TestBehavior::A(s) => s.on_exit(context),
            TestBehavior::B(s) => s.on_exit(context),
            TestBehavior::C(s) => s.on_exit(context),
        }
    }
}

impl FsmEnum<TestState, TestContext, TestEvent> for TestState {
    type State = TestBehavior;

    fn create(enum_value: &TestState) -> TestBehavior {
        match enum_value {
            TestState::A => TestBehavior::A(A {}),
            TestState::B => TestBehavior::B(B {}),
            TestState::C => TestBehavior::C(C {}),
        }
    }
}

pub struct TestGlobalHandler {
    pub handled_count: usize,
}

impl EventHandler<TestState, TestContext, TestEvent> for TestGlobalHandler {
    fn on_event(&mut self, event: &TestEvent, context: &mut TestContext) -> Response<TestState> {
        match event {
            TestEvent::IncrementByTwo => {
                context.transitions += 2;
                self.handled_count += 1;
                Response::Transition(TestState::B)
            }
            _ => Response::Handled,
        }
    }
}

// Test the state machine initialization
#[test]
fn test_state_machine_initialization() {
    let mut fsm: StateMachine<TestState, TestContext, TestEvent, NullEventHandler> =
        StateMachine::new(TestContext { transitions: 0 }, None);
    fsm.init(TestState::A).unwrap();

    assert_eq!(*fsm.get_current_state().unwrap(), TestState::A);
    assert_eq!(fsm.get_context().transitions, 1);
}

// Test state machine transitions
#[test]
fn test_state_machine_transitions() {
    let mut fsm: StateMachine<TestState, TestContext, TestEvent, NullEventHandler> =
        StateMachine::new(TestContext { transitions: 0 }, None);
    fsm.init(TestState::A).unwrap();

    fsm.process_event(&TestEvent::TransitionToB).unwrap();
    assert_eq!(*fsm.get_current_state().unwrap(), TestState::B);
    assert_eq!(fsm.get_context().transitions, 2);

    fsm.process_event(&TestEvent::TransitionToC).unwrap();
    assert_eq!(*fsm.get_current_state().unwrap(), TestState::C);
    assert_eq!(fsm.get_context().transitions, 3);

    fsm.process_event(&TestEvent::TransitionToA).unwrap();
    assert_eq!(*fsm.get_current_state().unwrap(), TestState::A);
    assert_eq!(fsm.get_context().transitions, 4);

    fsm.process_event(&TestEvent::NoTransition).unwrap();
    assert_eq!(*fsm.get_current_state().unwrap(), TestState::A);
    assert_eq!(fsm.get_context().transitions, 4);
}

#[test]
fn test_global_event_handler() {
    let context = TestContext { transitions: 0 };
    let global_handler = TestGlobalHandler { handled_count: 0 };

    let mut sm: StateMachine<TestState, TestContext, TestEvent, TestGlobalHandler> =
        StateMachine::new(context, Some(global_handler));
    sm.init(TestState::A).unwrap();

    // Trigger a global event
    sm.process_event(&TestEvent::IncrementByTwo).unwrap();
    let current_context = sm.get_context();
    let current_state = sm.get_current_state();

    assert_eq!(current_context.transitions, 4);
    assert_eq!(*current_state.unwrap(), TestState::B);
}
