//! Single-step dispatch decisions.
//!
//! [`crate::sync::StateMachine`] is the verified engine for synchronous
//! callbacks.  A driver whose callbacks Verus cannot run — one that awaits
//! each lifecycle call, say — still decides exactly like the engine: these
//! functions expose each control decision the dispatch algorithm takes
//! after a callback returns, with contracts that pin the decision down.

use vstd::prelude::*;

use crate::sync::{Error, Response};

verus! {

/// What the entry cascade does after a pending state's `on_enter` returned.
pub enum EntryDecision<S> {
    /// The pending state settles; the cascade is over.
    Settle,
    /// The cascade continues with this state.
    Proceed(S),
    /// The pending state rejected entry; surface this error.
    Reject(Error),
}

/// What event dispatch does after the global handler returned.
pub enum HandlerDecision<S> {
    /// Hand the event on to the active state.
    PassOn,
    /// Abort the dispatch with this error.
    Abort(Error),
    /// Leave the current state and cascade into this one; the active
    /// state's own `on_event` is skipped.
    Redirect(S),
}

/// What event dispatch does after the active state's `on_event` returned.
pub enum StateDecision<S> {
    /// The dispatch is complete.
    Done,
    /// Abort the dispatch with this error.
    Abort(Error),
    /// Leave the current state and cascade into this one.
    Redirect(S),
}

/// The decision after `on_enter` of `pending` returned `response`.  With
/// `guard` set (after a transition, not during initialization), a
/// transition back into `pending` itself settles instead of re-entering.
pub fn decide_entry<S: PartialEq>(pending: &S, response: Response<S>, guard: bool) -> (d:
    EntryDecision<S>)
    requires
        vstd::laws_eq::obeys_concrete_eq::<S>(),
    ensures
        match response {
            Response::Handled => d is Settle,
            Response::Error(reason) => d == EntryDecision::<S>::Reject(Error::StateInvalid(reason)),
            Response::Transition(next) => {
                if guard && next == *pending {
                    d is Settle
                } else {
                    d == EntryDecision::<S>::Proceed(next)
                }
            },
        },
{
    match response {
        Response::Handled => EntryDecision::Settle,
        Response::Error(reason) => EntryDecision::Reject(Error::StateInvalid(reason)),
        Response::Transition(next) => {
            proof {
                reveal(vstd::laws_eq::obeys_concrete_eq);
            }
            if guard && next.eq(pending) {
                EntryDecision::Settle
            } else {
                EntryDecision::Proceed(next)
            }
        },
    }
}

/// The decision after the global handler answered `response` to an event
/// while `current` is the settled state.  A transition to `current` itself
/// is no redirection: the event still reaches the active state.
pub fn decide_handler_response<S: PartialEq>(current: &S, response: Response<S>) -> (d:
    HandlerDecision<S>)
    requires
        vstd::laws_eq::obeys_concrete_eq::<S>(),
    ensures
        match response {
            Response::Handled => d is PassOn,
            Response::Error(reason) => d == HandlerDecision::<S>::Abort(Error::InvalidEvent(reason)),
            Response::Transition(next) => {
                if next == *current {
                    d is PassOn
                } else {
                    d == HandlerDecision::<S>::Redirect(next)
                }
            },
        },
{
    match response {
        Response::Handled => HandlerDecision::PassOn,
        Response::Error(reason) => HandlerDecision::Abort(Error::InvalidEvent(reason)),
        Response::Transition(next) => {
            proof {
                reveal(vstd::laws_eq::obeys_concrete_eq);
            }
            if next.eq(current) {
                HandlerDecision::PassOn
            } else {
                HandlerDecision::Redirect(next)
            }
        },
    }
}

/// The decision after the active state `current` answered `response` to an
/// event.  A transition to `current` itself is a no-op: neither `on_exit`
/// nor `on_enter` may fire for it.
pub fn decide_state_response<S: PartialEq>(current: &S, response: Response<S>) -> (d:
    StateDecision<S>)
    requires
        vstd::laws_eq::obeys_concrete_eq::<S>(),
    ensures
        match response {
            Response::Handled => d is Done,
            Response::Error(reason) => d == StateDecision::<S>::Abort(Error::InvalidEvent(reason)),
            Response::Transition(next) => {
                if next == *current {
                    d is Done
                } else {
                    d == StateDecision::<S>::Redirect(next)
                }
            },
        },
{
    match response {
        Response::Handled => StateDecision::Done,
        Response::Error(reason) => StateDecision::Abort(Error::InvalidEvent(reason)),
        Response::Transition(next) => {
            proof {
                reveal(vstd::laws_eq::obeys_concrete_eq);
            }
            if next.eq(current) {
                StateDecision::Done
            } else {
                StateDecision::Redirect(next)
            }
        },
    }
}

} // verus!
