//! The behavioral laws of the engine.
//!
//! Each proof function here states one guarantee of the dispatch semantics
//! of [`crate::sync::StateMachine`], over the ghost relations of
//! [`crate::model`], and proves it once and for all.  Together with the
//! contracts of `init` and `process_event` — which say that the machine's
//! view evolves exactly by [`init_outcome`] and [`event_outcome`] — these
//! laws apply to every machine the engine can build.

use vstd::prelude::*;

use crate::model::{Cascade, MachineView, cascade_verdict, entry_run, event_outcome, fetched,
    init_outcome, lemma_cascade_verdict_unique, lemma_resolution_unique, resolves_to,
    state_dispatch, transition_outcome};
use crate::sync::{Error, EventHandler, FsmEnum, Response, Stateful};

verus! {

/// Before initialization, dispatching an event fails with
/// `StateMachineNotInitialized` and changes nothing: no current state is
/// set, and neither context nor cache nor handler moves.
pub proof fn lemma_uninitialized_rejects<S: FsmEnum<S, CTX, E>, CTX, E, H: EventHandler<S, CTX, E>>(
    m: MachineView<S, CTX, E, H>,
    e: E,
    r: Result<(), Error>,
    m2: MachineView<S, CTX, E, H>,
)
    requires
        m.current is None,
        event_outcome(m, e, r, m2),
    ensures
        r == Err::<(), Error>(Error::StateMachineNotInitialized),
        m2 == m,
{
}

/// A transition decides its result and resulting view uniquely.
pub proof fn lemma_transition_deterministic<S: FsmEnum<S, CTX, E>, CTX, E, H>(
    m: MachineView<S, CTX, E, H>,
    cs: S,
    target: S,
    r1: Result<(), Error>,
    m21: MachineView<S, CTX, E, H>,
    r2: Result<(), Error>,
    m22: MachineView<S, CTX, E, H>,
)
    requires
        transition_outcome(m, cs, target, r1, m21),
        transition_outcome(m, cs, target, r2, m22),
    ensures
        r1 == r2,
        m21 == m22,
{
    let exit = fetched(m.cache, cs).exit_spec(m.context);
    let start = Cascade::Pending { state: target, cache: m.cache.insert(cs, exit.0), ctx: exit.1 };
    let out1 = choose|out: Cascade<S, CTX, E>|
        #[trigger] resolves_to(start, true, out) && cascade_verdict(out, Some(cs), m.handler, r1, m21);
    let out2 = choose|out: Cascade<S, CTX, E>|
        #[trigger] resolves_to(start, true, out) && cascade_verdict(out, Some(cs), m.handler, r2, m22);
    lemma_resolution_unique(start, true, out1, out2);
    lemma_cascade_verdict_unique(out1, Some(cs), m.handler, r1, m21, r2, m22);
}

/// Initialization is deterministic: for one starting view and one initial
/// state there is exactly one result and one resulting view.
pub proof fn lemma_init_deterministic<S: FsmEnum<S, CTX, E>, CTX, E, H>(
    m: MachineView<S, CTX, E, H>,
    initial: S,
    r1: Result<(), Error>,
    m21: MachineView<S, CTX, E, H>,
    r2: Result<(), Error>,
    m22: MachineView<S, CTX, E, H>,
)
    requires
        init_outcome(m, initial, r1, m21),
        init_outcome(m, initial, r2, m22),
    ensures
        r1 == r2,
        m21 == m22,
{
    if m.current is None {
        let start = Cascade::Pending { state: initial, cache: m.cache, ctx: m.context };
        let out1 = choose|out: Cascade<S, CTX, E>|
            #[trigger] resolves_to(start, false, out) && cascade_verdict(
                out,
                None::<S>,
                m.handler,
                r1,
                m21,
            );
        let out2 = choose|out: Cascade<S, CTX, E>|
            #[trigger] resolves_to(start, false, out) && cascade_verdict(
                out,
                None::<S>,
                m.handler,
                r2,
                m22,
            );
        lemma_resolution_unique(start, false, out1, out2);
        lemma_cascade_verdict_unique(out1, None::<S>, m.handler, r1, m21, r2, m22);
    }
}

/// Event dispatch is deterministic: for one starting view and one event
/// there is exactly one result and one resulting view.
pub proof fn lemma_event_deterministic<S: FsmEnum<S, CTX, E>, CTX, E, H: EventHandler<S, CTX, E>>(
    m: MachineView<S, CTX, E, H>,
    e: E,
    r1: Result<(), Error>,
    m21: MachineView<S, CTX, E, H>,
    r2: Result<(), Error>,
    m22: MachineView<S, CTX, E, H>,
)
    requires
        event_outcome(m, e, r1, m21),
        event_outcome(m, e, r2, m22),
    ensures
        r1 == r2,
        m21 == m22,
{
    match m.current {
        None => {},
        Some(cs) => {
            match m.handler {
                None => {
                    lemma_state_dispatch_deterministic(m, cs, e, r1, m21, r2, m22);
                },
                Some(h) => {
                    let step = h.event_spec(e, m.context);
                    let m1 = MachineView {
                        cache: m.cache,
                        current: m.current,
                        context: step.2,
                        handler: Some(step.1),
                    };
                    match step.0 {
                        Response::Handled => {
                            lemma_state_dispatch_deterministic(m1, cs, e, r1, m21, r2, m22);
                        },
                        Response::Error(_) => {},
                        Response::Transition(next) => {
                            if next == cs {
                                lemma_state_dispatch_deterministic(m1, cs, e, r1, m21, r2, m22);
                            } else {
                                lemma_transition_deterministic(m1, cs, next, r1, m21, r2, m22);
                            }
                        },
                    }
                },
            }
        },
    }
}

/// One dispatch of an event to the active state decides its result and
/// resulting view uniquely.
pub proof fn lemma_state_dispatch_deterministic<S: FsmEnum<S, CTX, E>, CTX, E, H>(
    m: MachineView<S, CTX, E, H>,
    cs: S,
    e: E,
    r1: Result<(), Error>,
    m21: MachineView<S, CTX, E, H>,
    r2: Result<(), Error>,
    m22: MachineView<S, CTX, E, H>,
)
    requires
        state_dispatch(m, cs, e, r1, m21),
        state_dispatch(m, cs, e, r2, m22),
    ensures
        r1 == r2,
        m21 == m22,
{
    let step = fetched(m.cache, cs).event_spec(e, m.context);
    let ma = MachineView {
        cache: m.cache.insert(cs, step.1),
        current: m.current,
        context: step.2,
        handler: m.handler,
    };
    match step.0 {
        Response::Handled => {},
        Response::Error(_) => {},
        Response::Transition(next) => {
            if next != cs {
                lemma_transition_deterministic(ma, cs, next, r1, m21, r2, m22);
            }
        },
    }
}

/// If the initial state's `on_enter` settles at once (returns `Handled`),
/// initialization lands exactly there: the result is `Ok`, the current
/// state becomes `initial`, and the new view carries precisely the one
/// behavior update and context update that single `on_enter` call made —
/// `on_enter` ran exactly once and no `on_exit` ran at all.
pub proof fn lemma_init_settles_immediately<S: FsmEnum<S, CTX, E>, CTX, E, H>(
    m: MachineView<S, CTX, E, H>,
    initial: S,
    r: Result<(), Error>,
    m2: MachineView<S, CTX, E, H>,
)
    requires
        m.current is None,
        fetched(m.cache, initial).enter_spec(m.context).0 is Handled,
        init_outcome(m, initial, r, m2),
    ensures
        r == Ok::<(), Error>(()),
        m2.current == Some(initial),
        m2.cache == m.cache.insert(initial, fetched(m.cache, initial).enter_spec(m.context).1),
        m2.context == fetched(m.cache, initial).enter_spec(m.context).2,
        m2.handler == m.handler,
{
    let start = Cascade::Pending { state: initial, cache: m.cache, ctx: m.context };
    let step = fetched(m.cache, initial).enter_spec(m.context);
    let expected = Cascade::Settled {
        state: initial,
        cache: m.cache.insert(initial, step.1),
        ctx: step.2,
    };
    assert(entry_run(start, false, 0) == start);
    assert(entry_run(start, false, 1) == expected);
    assert(resolves_to(start, false, expected));
    let out = choose|out: Cascade<S, CTX, E>|
        #[trigger] resolves_to(start, false, out) && cascade_verdict(out, None::<S>, m.handler, r, m2);
    lemma_resolution_unique(start, false, out, expected);
}

/// Entry-cascade chaining: if the initial state `x`'s `on_enter` requests
/// a transition to `y`, and `y`'s `on_enter` (on the view `x`'s entry left
/// behind) settles, then initialization ends in `y` — and `x`'s `on_exit`
/// never ran: the cache binds `x` to exactly what its `on_enter` left.
pub proof fn lemma_init_entry_chain<S: FsmEnum<S, CTX, E>, CTX, E, H>(
    m: MachineView<S, CTX, E, H>,
    x: S,
    y: S,
    r: Result<(), Error>,
    m2: MachineView<S, CTX, E, H>,
)
    requires
        m.current is None,
        fetched(m.cache, x).enter_spec(m.context).0 == Response::<S>::Transition(y),
        ({
            let s1 = fetched(m.cache, x).enter_spec(m.context);
            fetched(m.cache.insert(x, s1.1), y).enter_spec(s1.2).0 is Handled
        }),
        init_outcome(m, x, r, m2),
    ensures
        r == Ok::<(), Error>(()),
        m2.current == Some(y),
        ({
            let s1 = fetched(m.cache, x).enter_spec(m.context);
            let s2 = fetched(m.cache.insert(x, s1.1), y).enter_spec(s1.2);
            &&& m2.cache == m.cache.insert(x, s1.1).insert(y, s2.1)
            &&& m2.context == s2.2
        }),
        m2.handler == m.handler,
{
    let start = Cascade::Pending { state: x, cache: m.cache, ctx: m.context };
    let s1 = fetched(m.cache, x).enter_spec(m.context);
    let mid = Cascade::Pending { state: y, cache: m.cache.insert(x, s1.1), ctx: s1.2 };
    let s2 = fetched(m.cache.insert(x, s1.1), y).enter_spec(s1.2);
    let expected = Cascade::Settled {
        state: y,
        cache: m.cache.insert(x, s1.1).insert(y, s2.1),
        ctx: s2.2,
    };
    assert(entry_run(start, false, 0) == start);
    assert(entry_run(start, false, 1) == mid);
    assert(entry_run(start, false, 2) == expected);
    assert(resolves_to(start, false, expected));
    let out = choose|out: Cascade<S, CTX, E>|
        #[trigger] resolves_to(start, false, out) && cascade_verdict(out, None::<S>, m.handler, r, m2);
    lemma_resolution_unique(start, false, out, expected);
}

/// The view after the global handler phase of dispatching `e`: the
/// handler, if one is configured, has seen the event and updated itself
/// and the context; nothing else has moved.
pub open spec fn after_handler_phase<S: FsmEnum<S, CTX, E>, CTX, E, H: EventHandler<S, CTX, E>>(
    m: MachineView<S, CTX, E, H>,
    e: E,
) -> MachineView<S, CTX, E, H> {
    match m.handler {
        None => m,
        Some(h) => {
            let step = h.event_spec(e, m.context);
            MachineView {
                cache: m.cache,
                current: m.current,
                context: step.2,
                handler: Some(step.1),
            }
        },
    }
}

/// The handler phase passes `e` through to the active state: there is no
/// handler, or it answers `Handled`, or it requests a transition to the
/// state the machine is already in.
pub open spec fn handler_passes<S: FsmEnum<S, CTX, E>, CTX, E, H: EventHandler<S, CTX, E>>(
    m: MachineView<S, CTX, E, H>,
    e: E,
) -> bool {
    match m.handler {
        None => true,
        Some(h) => match h.event_spec(e, m.context).0 {
            Response::Handled => true,
            Response::Error(_) => false,
            Response::Transition(next) => next == m.current->0,
        },
    }
}

/// A self-transition out of `on_event` is a no-op beyond the `on_event`
/// call itself: when the event reaches the active state and that state
/// answers with a transition to its own identity, neither `on_exit` nor
/// `on_enter` fires — the view changes only by what the handler phase and
/// `on_event` themselves did — and the machine stays in its state.
pub proof fn lemma_self_transition_noop<S: FsmEnum<S, CTX, E>, CTX, E, H: EventHandler<S, CTX, E>>(
    m: MachineView<S, CTX, E, H>,
    e: E,
    r: Result<(), Error>,
    m2: MachineView<S, CTX, E, H>,
)
    requires
        m.current is Some,
        handler_passes(m, e),
        ({
            let m1 = after_handler_phase(m, e);
            fetched(m1.cache, m.current->0).event_spec(e, m1.context).0 == Response::<
                S,
            >::Transition(m.current->0)
        }),
        event_outcome(m, e, r, m2),
    ensures
        r == Ok::<(), Error>(()),
        m2.current == m.current,
        ({
            let m1 = after_handler_phase(m, e);
            let step = fetched(m1.cache, m.current->0).event_spec(e, m1.context);
            &&& m2.cache == m1.cache.insert(m.current->0, step.1)
            &&& m2.context == step.2
            &&& m2.handler == m1.handler
        }),
{
}

/// Global handler precedence: when the configured handler answers an event
/// with a transition to a state other than the current one, the active
/// state's `on_event` never runs — the whole dispatch is exactly the
/// exit-and-entry sequence from the redirected target, on the view the
/// handler call left behind.
pub proof fn lemma_global_handler_precedence<S: FsmEnum<S, CTX, E>, CTX, E, H: EventHandler<S, CTX, E>>(
    m: MachineView<S, CTX, E, H>,
    e: E,
    z: S,
    r: Result<(), Error>,
    m2: MachineView<S, CTX, E, H>,
)
    requires
        m.current is Some,
        m.handler is Some,
        m.handler->0.event_spec(e, m.context).0 == Response::<S>::Transition(z),
        z != m.current->0,
        event_outcome(m, e, r, m2),
    ensures
        ({
            let step = m.handler->0.event_spec(e, m.context);
            transition_outcome(
                (MachineView {
                    cache: m.cache,
                    current: m.current,
                    context: step.2,
                    handler: Some(step.1),
                }),
                m.current->0,
                z,
                r,
                m2,
            )
        }),
{
}

/// If, after the outgoing state's `on_exit`, the target's `on_enter`
/// settles at once, a transition lands exactly in the target, with
/// precisely the exit update and the one entry update applied.
pub proof fn lemma_transition_settles_immediately<S: FsmEnum<S, CTX, E>, CTX, E, H>(
    m: MachineView<S, CTX, E, H>,
    cs: S,
    target: S,
    r: Result<(), Error>,
    m2: MachineView<S, CTX, E, H>,
)
    requires
        ({
            let ex = fetched(m.cache, cs).exit_spec(m.context);
            fetched(m.cache.insert(cs, ex.0), target).enter_spec(ex.1).0 is Handled
        }),
        transition_outcome(m, cs, target, r, m2),
    ensures
        r == Ok::<(), Error>(()),
        m2.current == Some(target),
        ({
            let ex = fetched(m.cache, cs).exit_spec(m.context);
            let en = fetched(m.cache.insert(cs, ex.0), target).enter_spec(ex.1);
            &&& m2.cache == m.cache.insert(cs, ex.0).insert(target, en.1)
            &&& m2.context == en.2
        }),
        m2.handler == m.handler,
{
    let ex = fetched(m.cache, cs).exit_spec(m.context);
    let start = Cascade::Pending { state: target, cache: m.cache.insert(cs, ex.0), ctx: ex.1 };
    let en = fetched(m.cache.insert(cs, ex.0), target).enter_spec(ex.1);
    let expected = Cascade::Settled {
        state: target,
        cache: m.cache.insert(cs, ex.0).insert(target, en.1),
        ctx: en.2,
    };
    assert(entry_run(start, true, 0) == start);
    assert(entry_run(start, true, 1) == expected);
    assert(resolves_to(start, true, expected));
    let out = choose|out: Cascade<S, CTX, E>|
        #[trigger] resolves_to(start, true, out) && cascade_verdict(out, Some(cs), m.handler, r, m2);
    lemma_resolution_unique(start, true, out, expected);
}

/// Rollback on rejection: whenever a transition ends in an error — in
/// particular when an entry callback of the cascade rejects its state —
/// the machine's current state stays what it was before the transition.
pub proof fn lemma_transition_error_keeps_current<S: FsmEnum<S, CTX, E>, CTX, E, H>(
    m: MachineView<S, CTX, E, H>,
    cs: S,
    target: S,
    r: Result<(), Error>,
    m2: MachineView<S, CTX, E, H>,
)
    requires
        transition_outcome(m, cs, target, r, m2),
        r is Err,
    ensures
        m2.current == Some(cs),
        m2.handler == m.handler,
{
    let exit = fetched(m.cache, cs).exit_spec(m.context);
    let start = Cascade::Pending { state: target, cache: m.cache.insert(cs, exit.0), ctx: exit.1 };
    let out = choose|out: Cascade<S, CTX, E>|
        #[trigger] resolves_to(start, true, out) && cascade_verdict(out, Some(cs), m.handler, r, m2);
    assert(out is Rejected);
}

/// Rollback, seen from `process_event`: a dispatch that returns any error
/// leaves the machine in the state it was in — an attempted transition
/// whose target rejects entry does not take effect.
pub proof fn lemma_error_keeps_current<S: FsmEnum<S, CTX, E>, CTX, E, H: EventHandler<S, CTX, E>>(
    m: MachineView<S, CTX, E, H>,
    e: E,
    r: Result<(), Error>,
    m2: MachineView<S, CTX, E, H>,
)
    requires
        event_outcome(m, e, r, m2),
        r is Err,
    ensures
        m2.current == m.current,
{
    match m.current {
        None => {},
        Some(cs) => {
            match m.handler {
                None => {
                    lemma_state_dispatch_error_keeps_current(m, cs, e, r, m2);
                },
                Some(h) => {
                    let step = h.event_spec(e, m.context);
                    let m1 = MachineView {
                        cache: m.cache,
                        current: m.current,
                        context: step.2,
                        handler: Some(step.1),
                    };
                    match step.0 {
                        Response::Handled => {
                            lemma_state_dispatch_error_keeps_current(m1, cs, e, r, m2);
                        },
                        Response::Error(_) => {},
                        Response::Transition(next) => {
                            if next == cs {
                                lemma_state_dispatch_error_keeps_current(m1, cs, e, r, m2);
                            } else {
                                lemma_transition_error_keeps_current(m1, cs, next, r, m2);
                            }
                        },
                    }
                },
            }
        },
    }
}

/// Rollback within the active-state phase: an error outcome leaves the
/// current state unchanged.
pub proof fn lemma_state_dispatch_error_keeps_current<S: FsmEnum<S, CTX, E>, CTX, E, H>(
    m: MachineView<S, CTX, E, H>,
    cs: S,
    e: E,
    r: Result<(), Error>,
    m2: MachineView<S, CTX, E, H>,
)
    requires
        state_dispatch(m, cs, e, r, m2),
        r is Err,
        m.current == Some(cs),
    ensures
        m2.current == Some(cs),
{
    let step = fetched(m.cache, cs).event_spec(e, m.context);
    let ma = MachineView {
        cache: m.cache.insert(cs, step.1),
        current: m.current,
        context: step.2,
        handler: m.handler,
    };
    match step.0 {
        Response::Handled => {},
        Response::Error(_) => {},
        Response::Transition(next) => {
            if next != cs {
                lemma_transition_error_keeps_current(ma, cs, next, r, m2);
            }
        },
    }
}

/// A rejected initialization leaves the machine uninitialized: on an error
/// result from `init` no current state is set.
pub proof fn lemma_init_error_uninitialized<S: FsmEnum<S, CTX, E>, CTX, E, H>(
    m: MachineView<S, CTX, E, H>,
    initial: S,
    r: Result<(), Error>,
    m2: MachineView<S, CTX, E, H>,
)
    requires
        init_outcome(m, initial, r, m2),
        r is Err,
    ensures
        m2.current is None,
        m2.handler == m.handler,
{
    let start = Cascade::Pending { state: initial, cache: m.cache, ctx: m.context };
    let out = choose|out: Cascade<S, CTX, E>|
        #[trigger] resolves_to(start, false, out) && cascade_verdict(out, None::<S>, m.handler, r, m2);
    assert(out is Rejected);
}

} // verus!
