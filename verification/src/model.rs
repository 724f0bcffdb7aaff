//! The ghost model of the engine.
//!
//! A [`MachineView`] is the mathematical content of a `StateMachine`: the
//! behavior cache as a map, the settled current state, the context, and the
//! optional global handler.  The entry cascade — the loop of successive
//! `on_enter` calls that follows chained `Transition` responses — is modelled
//! by the step function [`entry_step`], its iteration [`entry_run`], and the
//! predicate [`resolves_to`].  On top of those, [`init_outcome`] and
//! [`event_outcome`] say exactly what `init` and `process_event` do.

use vstd::prelude::*;

use crate::sync::{Error, EventHandler, FsmEnum, Response, Stateful};

verus! {

/// The ghost content of a state machine.
#[verifier::ext_equal]
#[verifier::reject_recursive_types(S)]
pub struct MachineView<S: FsmEnum<S, CTX, E>, CTX, E, H> {
    /// The behavior cache: one behavior per state identity visited so far.
    pub cache: Map<S, <S as FsmEnum<S, CTX, E>>::State>,
    /// The settled current state, absent until initialization settles.
    pub current: Option<S>,
    /// The caller's context value.
    pub context: CTX,
    /// The optional global event handler.
    pub handler: Option<H>,
}

/// One configuration of an entry cascade: still visiting a state, settled,
/// or aborted by an entry callback's `Error` response.
#[verifier::ext_equal]
#[verifier::reject_recursive_types(S)]
pub enum Cascade<S: FsmEnum<S, CTX, E>, CTX, E> {
    /// The cascade is about to invoke `on_enter` for `state`.
    Pending { state: S, cache: Map<S, <S as FsmEnum<S, CTX, E>>::State>, ctx: CTX },
    /// `state`'s `on_enter` absorbed the entry; the machine settles here.
    Settled { state: S, cache: Map<S, <S as FsmEnum<S, CTX, E>>::State>, ctx: CTX },
    /// An entry callback rejected its state with the given reason.
    Rejected { reason: String, cache: Map<S, <S as FsmEnum<S, CTX, E>>::State>, ctx: CTX },
}

/// The behavior the engine uses for `s`: the cached one if `s` was visited
/// before, else a freshly created one.
pub open spec fn fetched<S: FsmEnum<S, CTX, E>, CTX, E>(
    cache: Map<S, <S as FsmEnum<S, CTX, E>>::State>,
    s: S,
) -> <S as FsmEnum<S, CTX, E>>::State {
    if cache.contains_key(s) {
        cache[s]
    } else {
        S::create_spec(s)
    }
}

/// One step of the entry cascade: fetch-or-create the pending state's
/// behavior, invoke `on_enter`, and branch on its response.  With `guard`
/// set (used after transitions, not during initialization), a state whose
/// `on_enter` requests a transition to itself settles instead of re-entering.
pub open spec fn entry_step<S: FsmEnum<S, CTX, E>, CTX, E>(
    c: Cascade<S, CTX, E>,
    guard: bool,
) -> Cascade<S, CTX, E> {
    match c {
        Cascade::Pending { state, cache, ctx } => {
            let step = fetched(cache, state).enter_spec(ctx);
            let cache2 = cache.insert(state, step.1);
            match step.0 {
                Response::Handled => Cascade::Settled { state, cache: cache2, ctx: step.2 },
                Response::Error(reason) => Cascade::Rejected { reason, cache: cache2, ctx: step.2 },
                Response::Transition(next) => {
                    if guard && next == state {
                        Cascade::Settled { state, cache: cache2, ctx: step.2 }
                    } else {
                        Cascade::Pending { state: next, cache: cache2, ctx: step.2 }
                    }
                },
            }
        },
        _ => c,
    }
}

/// `entry_step` applied `n` times.
pub open spec fn entry_run<S: FsmEnum<S, CTX, E>, CTX, E>(
    c: Cascade<S, CTX, E>,
    guard: bool,
    n: nat,
) -> Cascade<S, CTX, E>
    decreases n,
{
    if n == 0 {
        c
    } else {
        entry_step(entry_run(c, guard, (n - 1) as nat), guard)
    }
}

/// The cascade starting at `c` reaches the finished configuration `out`
/// after finitely many steps.
pub open spec fn resolves_to<S: FsmEnum<S, CTX, E>, CTX, E>(
    c: Cascade<S, CTX, E>,
    guard: bool,
    out: Cascade<S, CTX, E>,
) -> bool {
    exists|n: nat| entry_run(c, guard, n) == out && !(out is Pending)
}

/// A finished cascade configuration never changes again.
pub proof fn lemma_done_stable<S: FsmEnum<S, CTX, E>, CTX, E>(
    c: Cascade<S, CTX, E>,
    guard: bool,
    n: nat,
)
    requires
        !(c is Pending),
    ensures
        entry_run(c, guard, n) == c,
    decreases n,
{
    if n > 0 {
        lemma_done_stable(c, guard, (n - 1) as nat);
    }
}

/// Running `a + b` steps is running `a` steps and then `b` steps.
pub proof fn lemma_entry_run_add<S: FsmEnum<S, CTX, E>, CTX, E>(
    c: Cascade<S, CTX, E>,
    guard: bool,
    a: nat,
    b: nat,
)
    ensures
        entry_run(c, guard, a + b) == entry_run(entry_run(c, guard, a), guard, b),
    decreases b,
{
    if b > 0 {
        lemma_entry_run_add(c, guard, a, (b - 1) as nat);
    }
}

/// A cascade reaches at most one finished configuration: the entry cascade
/// is deterministic.
pub proof fn lemma_resolution_unique<S: FsmEnum<S, CTX, E>, CTX, E>(
    c: Cascade<S, CTX, E>,
    guard: bool,
    o1: Cascade<S, CTX, E>,
    o2: Cascade<S, CTX, E>,
)
    requires
        resolves_to(c, guard, o1),
        resolves_to(c, guard, o2),
    ensures
        o1 == o2,
{
    let n1 = choose|n: nat| entry_run(c, guard, n) == o1 && !(o1 is Pending);
    let n2 = choose|n: nat| entry_run(c, guard, n) == o2 && !(o2 is Pending);
    if n1 <= n2 {
        lemma_entry_run_add(c, guard, n1, (n2 - n1) as nat);
        lemma_done_stable(o1, guard, (n2 - n1) as nat);
    } else {
        lemma_entry_run_add(c, guard, n2, (n1 - n2) as nat);
        lemma_done_stable(o2, guard, (n1 - n2) as nat);
    }
}

/// While a cascade is still pending, fewer steps have run than any number
/// of steps that finishes it.
pub proof fn lemma_pending_before_done<S: FsmEnum<S, CTX, E>, CTX, E>(
    c: Cascade<S, CTX, E>,
    guard: bool,
    k: nat,
    n: nat,
)
    requires
        entry_run(c, guard, k) is Pending,
        !(entry_run(c, guard, n) is Pending),
    ensures
        k < n,
{
    if n <= k {
        lemma_entry_run_add(c, guard, n, (k - n) as nat);
        lemma_done_stable(entry_run(c, guard, n), guard, (k - n) as nat);
    }
}

/// The result and machine view that a finished entry cascade dictates.
/// `fallback` is what the current state remains on rejection, and `handler`
/// the (untouched) global handler of the machine the cascade ran in.
pub open spec fn cascade_verdict<S: FsmEnum<S, CTX, E>, CTX, E, H>(
    out: Cascade<S, CTX, E>,
    fallback: Option<S>,
    handler: Option<H>,
    r: Result<(), Error>,
    m2: MachineView<S, CTX, E, H>,
) -> bool {
    match out {
        Cascade::Settled { state, cache, ctx } => {
            &&& r == Ok::<(), Error>(())
            &&& m2 == (MachineView { cache, current: Some(state), context: ctx, handler })
        },
        Cascade::Rejected { reason, cache, ctx } => {
            &&& r == Err::<(), Error>(Error::StateInvalid(reason))
            &&& m2 == (MachineView { cache, current: fallback, context: ctx, handler })
        },
        Cascade::Pending { .. } => false,
    }
}

/// A finished cascade configuration dictates its result and view uniquely.
pub proof fn lemma_cascade_verdict_unique<S: FsmEnum<S, CTX, E>, CTX, E, H>(
    out: Cascade<S, CTX, E>,
    fallback: Option<S>,
    handler: Option<H>,
    r1: Result<(), Error>,
    m21: MachineView<S, CTX, E, H>,
    r2: Result<(), Error>,
    m22: MachineView<S, CTX, E, H>,
)
    requires
        cascade_verdict(out, fallback, handler, r1, m21),
        cascade_verdict(out, fallback, handler, r2, m22),
    ensures
        r1 == r2,
        m21 == m22,
{
}

/// What `init` does, as a relation between the machine's view before and
/// after: nothing if the machine is already initialized, else the unguarded
/// entry cascade from `initial` decides the result.  On `Settled` the
/// machine's current state becomes the settled identity; on `Rejected` the
/// error is surfaced as `Error::StateInvalid` and no current state is set,
/// though behaviors created and context changes made along the way remain.
pub open spec fn init_outcome<S: FsmEnum<S, CTX, E>, CTX, E, H>(
    m: MachineView<S, CTX, E, H>,
    initial: S,
    r: Result<(), Error>,
    m2: MachineView<S, CTX, E, H>,
) -> bool {
    if m.current is Some {
        r == Ok::<(), Error>(()) && m2 == m
    } else {
        exists|out: Cascade<S, CTX, E>|
            {
                &&& #[trigger] resolves_to(
                    Cascade::Pending { state: initial, cache: m.cache, ctx: m.context },
                    false,
                    out,
                )
                &&& cascade_verdict(out, None::<S>, m.handler, r, m2)
            }
    }
}

/// What a transition out of settled state `cs` into `target` does: `on_exit`
/// for `cs`, then the guarded entry cascade from `target`.  On `Settled` the
/// machine moves to the settled identity; on `Rejected` the current state
/// stays `cs` and the error is surfaced as `Error::StateInvalid`.
pub open spec fn transition_outcome<S: FsmEnum<S, CTX, E>, CTX, E, H>(
    m: MachineView<S, CTX, E, H>,
    cs: S,
    target: S,
    r: Result<(), Error>,
    m2: MachineView<S, CTX, E, H>,
) -> bool {
    let exit = fetched(m.cache, cs).exit_spec(m.context);
    let cache1 = m.cache.insert(cs, exit.0);
    exists|out: Cascade<S, CTX, E>|
        {
            &&& #[trigger] resolves_to(
                Cascade::Pending { state: target, cache: cache1, ctx: exit.1 },
                true,
                out,
            )
            &&& cascade_verdict(out, Some(cs), m.handler, r, m2)
        }
}

/// What dispatching `e` to the active state `cs` does: `on_event` on the
/// cached behavior, then, if that requests a transition to a different
/// state, the exit-and-entry sequence of [`transition_outcome`].  A
/// transition to `cs` itself is a no-op beyond the `on_event` call: neither
/// `on_exit` nor `on_enter` fires.
pub open spec fn state_dispatch<S: FsmEnum<S, CTX, E>, CTX, E, H>(
    m: MachineView<S, CTX, E, H>,
    cs: S,
    e: E,
    r: Result<(), Error>,
    m2: MachineView<S, CTX, E, H>,
) -> bool {
    let step = fetched(m.cache, cs).event_spec(e, m.context);
    let ma = MachineView {
        cache: m.cache.insert(cs, step.1),
        current: m.current,
        context: step.2,
        handler: m.handler,
    };
    match step.0 {
        Response::Handled => r == Ok::<(), Error>(()) && m2 == ma,
        Response::Error(reason) => r == Err::<(), Error>(Error::InvalidEvent(reason)) && m2 == ma,
        Response::Transition(next) => {
            if next == cs {
                r == Ok::<(), Error>(()) && m2 == ma
            } else {
                transition_outcome(ma, cs, next, r, m2)
            }
        },
    }
}

/// What `process_event` does.  Before any settled state exists the call
/// fails with `Error::StateMachineNotInitialized` and changes nothing.
/// Otherwise the global handler, if one is configured, sees the event
/// first: its `Error` aborts the dispatch, and its `Transition` to a state
/// other than the current one redirects the machine without the active
/// state's `on_event` ever running.  In every other case the event reaches
/// the active state as described by [`state_dispatch`].
pub open spec fn event_outcome<S: FsmEnum<S, CTX, E>, CTX, E, H: EventHandler<S, CTX, E>>(
    m: MachineView<S, CTX, E, H>,
    e: E,
    r: Result<(), Error>,
    m2: MachineView<S, CTX, E, H>,
) -> bool {
    match m.current {
        None => r == Err::<(), Error>(Error::StateMachineNotInitialized) && m2 == m,
        Some(cs) => match m.handler {
            None => state_dispatch(m, cs, e, r, m2),
            Some(h) => {
                let step = h.event_spec(e, m.context);
                let m1 = MachineView {
                    cache: m.cache,
                    current: m.current,
                    context: step.2,
                    handler: Some(step.1),
                };
                match step.0 {
                    Response::Handled => state_dispatch(m1, cs, e, r, m2),
                    Response::Error(reason) => {
                        r == Err::<(), Error>(Error::InvalidEvent(reason)) && m2 == m1
                    },
                    Response::Transition(next) => {
                        if next == cs {
                            state_dispatch(m1, cs, e, r, m2)
                        } else {
                            transition_outcome(m1, cs, next, r, m2)
                        }
                    },
                }
            },
        },
    }
}

} // verus!
