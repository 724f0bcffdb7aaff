//! The synchronous state-machine engine: lifecycle traits, the response and
//! error types, and the `StateMachine` driver itself.

use vstd::prelude::*;

use crate::assoc::{assoc_map, keys_unique, lemma_assoc_at_index, lemma_assoc_push,
    lemma_assoc_update, lemma_remove_insert_is_update, seq_has_key};
use crate::model::{Cascade, MachineView, entry_run, event_outcome, fetched, init_outcome,
    lemma_pending_before_done, resolves_to, transition_outcome};

verus! {

/// What a lifecycle callback asks the engine to do next.
pub enum Response<S> {
    /// The callback absorbed the occasion; no transition is requested.
    Handled,
    /// The callback rejects the occasion; dispatch aborts with this reason.
    Error(String),
    /// The callback requests a transition to the named state identity.
    Transition(S),
}

/// The errors an engine operation can surface to its caller.
#[derive(Debug)]
pub enum Error {
    /// Reserved; no engine operation currently produces it.
    StateNotFound(String),
    /// An entry callback rejected the state being entered.
    StateInvalid(String),
    /// A callback rejected the event being dispatched.
    InvalidEvent(String),
    /// `process_event` was called before any state was settled.
    StateMachineNotInitialized,
    /// Reserved; no engine operation currently produces it.
    InternalError(String),
}

/// The behavior bound to one state identity: how that state reacts to being
/// entered, to events, and to being left.
///
/// Each exec callback is pinned to a ghost description of itself, so that the
/// engine's contracts can speak about what a whole dispatch does.  An
/// implementation chooses its own ghost functions and proves its callbacks
/// against them.  Each ghost function's default says the callback changes
/// nothing; a behavior whose callbacks do more overrides it, and the
/// `ensures` on the callback holds the override to the truth.
pub trait Stateful<S, CTX, E>: Sized {
    /// Ghost description of `on_enter`: the response it returns, the behavior
    /// value it leaves behind, and the context it leaves behind.
    open spec fn enter_spec(self, ctx: CTX) -> (Response<S>, Self, CTX) {
        (Response::Handled, self, ctx)
    }

    /// Ghost description of `on_event`.
    open spec fn event_spec(self, event: E, ctx: CTX) -> (Response<S>, Self, CTX) {
        (Response::Handled, self, ctx)
    }

    /// Ghost description of `on_exit`: the behavior value and context it
    /// leaves behind.
    open spec fn exit_spec(self, ctx: CTX) -> (Self, CTX) {
        (self, ctx)
    }

    /// Invoked when the machine enters (or passes through) this state.
    fn on_enter(&mut self, context: &mut CTX) -> (r: Response<S>)
        ensures
            (r, *final(self), *final(context)) == old(self).enter_spec(*old(context)),
    ;

    /// Invoked when an event is dispatched to this state.
    fn on_event(&mut self, event: &E, context: &mut CTX) -> (r: Response<S>)
        ensures
            (r, *final(self), *final(context)) == old(self).event_spec(*event, *old(context)),
    ;

    /// Invoked when the machine leaves this state, before the next state's
    /// entry cascade begins.
    fn on_exit(&mut self, context: &mut CTX)
        ensures
            (*final(self), *final(context)) == old(self).exit_spec(*old(context)),
    ;
}

/// Maps a state identity to a freshly constructed behavior for it.  The
/// identity type itself implements this trait, closing the state set.
pub trait FsmEnum<S, CTX, E>: Sized {
    /// The one behavior type covering every identity value.
    type State: Stateful<S, CTX, E>;

    /// Ghost description of `create`.  The default leaves the produced
    /// behavior unspecified; an implementation overrides it, and the
    /// `ensures` on `create` holds the override to the truth.
    open spec fn create_spec(enum_value: S) -> Self::State {
        vstd::pervasive::arbitrary::<Self::State>()
    }

    /// Produce the behavior for `enum_value`.
    fn create(enum_value: &S) -> (b: Self::State)
        ensures
            b == Self::create_spec(*enum_value),
    ;
}

/// An optional interceptor consulted before the active state on every event.
pub trait EventHandler<S, CTX, E>: Sized {
    /// Ghost description of `on_event`.  The default says the handler lets
    /// the event pass and changes nothing; a handler that does more
    /// overrides it, and the `ensures` on `on_event` holds the override to
    /// the truth.
    open spec fn event_spec(self, event: E, ctx: CTX) -> (Response<S>, Self, CTX) {
        (Response::Handled, self, ctx)
    }

    /// Inspect `event` before the active state sees it.
    fn on_event(&mut self, event: &E, context: &mut CTX) -> (r: Response<S>)
        ensures
            (r, *final(self), *final(context)) == old(self).event_spec(*event, *old(context)),
    ;
}

/// A global handler that lets every event pass through unchanged.  Machines
/// built without a handler can use it as their handler type.
pub struct NullEventHandler {}

impl<S, CTX, E> EventHandler<S, CTX, E> for NullEventHandler {
    open spec fn event_spec(self, event: E, ctx: CTX) -> (Response<S>, Self, CTX) {
        (Response::Handled, self, ctx)
    }

    fn on_event(&mut self, _event: &E, _context: &mut CTX) -> (r: Response<S>) {
        Response::Handled
    }
}

/// The finite-state-machine engine: owns the context, the settled current
/// state, the cache of already-constructed behaviors, and the optional
/// global event handler.
pub struct StateMachine<S: FsmEnum<S, CTX, E>, CTX, E, H> {
    states: Vec<(S, <S as FsmEnum<S, CTX, E>>::State)>,
    current_state: Option<usize>,
    context: CTX,
    global_event_handler: Option<H>,
}

impl<S: FsmEnum<S, CTX, E> + PartialEq + Eq, CTX, E, H: EventHandler<S, CTX, E>> StateMachine<
    S,
    CTX,
    E,
    H,
> {
    /// The machine's representation is well formed: cached identities are
    /// pairwise distinct and the current-state marker points into the cache.
    pub closed spec fn wf(self) -> bool {
        &&& keys_unique(self.states@)
        &&& match self.current_state {
            Some(i) => i < self.states@.len(),
            None => true,
        }
    }

    /// The machine's ghost content; every contract below speaks of it.
    pub closed spec fn model(self) -> MachineView<S, CTX, E, H> {
        MachineView {
            cache: assoc_map(self.states@),
            current: match self.current_state {
                Some(i) => Some(self.states@[i as int].0),
                None => None::<S>,
            },
            context: self.context,
            handler: self.global_event_handler,
        }
    }

    /// Construct an engine with no settled state, an empty behavior cache,
    /// the given context, and the given optional global handler.
    pub fn new(context: CTX, handler: Option<H>) -> (machine: Self)
        ensures
            machine.wf(),
            machine.model() == (MachineView {
                cache: Map::<S, <S as FsmEnum<S, CTX, E>>::State>::empty(),
                current: None::<S>,
                context,
                handler,
            }),
    {
        let machine = StateMachine {
            states: Vec::new(),
            current_state: None,
            context,
            global_event_handler: handler,
        };
        proof {
            assert(machine.model().cache =~= Map::<S, <S as FsmEnum<S, CTX, E>>::State>::empty());
        }
        machine
    }

    /// The settled current state, or `None` before initialization.
    pub fn get_current_state(&self) -> (r: Option<&S>)
        requires
            self.wf(),
        ensures
            match r {
                Some(s) => self.model().current == Some(*s),
                None => self.model().current is None,
            },
    {
        match self.current_state {
            Some(i) => Some(&self.states[i].0),
            None => None,
        }
    }

    /// A read-only borrow of the context.
    pub fn get_context(&self) -> (c: &CTX)
        ensures
            *c == self.model().context,
    {
        &self.context
    }

    /// Initialize the machine: run the unguarded entry cascade from
    /// `initial_state` until a state settles, and make that state current.
    /// Does nothing if the machine already settled once.  Behaviors are
    /// cached: a state revisited later keeps its behavior instance.
    ///
    /// The preconditions ask that `==` on the identity type decide spec
    /// equality, and that the call have a defined outcome at all: an entry
    /// cascade that never settles has none, and the loop would not return.
    pub fn init(&mut self, initial_state: S) -> (r: Result<(), Error>)
        requires
            vstd::laws_eq::obeys_concrete_eq::<S>(),
            old(self).wf(),
            exists|r2: Result<(), Error>, m2: MachineView<S, CTX, E, H>|
                init_outcome(old(self).model(), initial_state, r2, m2),
        ensures
            final(self).wf(),
            init_outcome(old(self).model(), initial_state, r, final(self).model()),
    {
        if self.current_state.is_some() {
            return Ok(());
        }
        let ghost m0 = self.model();
        proof {
            let (r2, m2) = choose|r2: Result<(), Error>, m2: MachineView<S, CTX, E, H>|
                init_outcome(m0, initial_state, r2, m2);
            assert(init_outcome(m0, initial_state, r2, m2));
        }
        match self.enter_cascade(initial_state, false) {
            Ok(idx) => {
                self.current_state = Some(idx);
                proof {
                    assert(resolves_to(
                        (Cascade::Pending { state: initial_state, cache: m0.cache, ctx: m0.context }),
                        false,
                        (Cascade::Settled {
                            state: self.states@[idx as int].0,
                            cache: assoc_map(self.states@),
                            ctx: self.context,
                        }),
                    ));
                }
                Ok(())
            },
            Err(e) => {
                proof {
                    assert(e matches Error::StateInvalid(reason) && resolves_to(
                        (Cascade::Pending { state: initial_state, cache: m0.cache, ctx: m0.context }),
                        false,
                        (Cascade::Rejected {
                            reason,
                            cache: assoc_map(self.states@),
                            ctx: self.context,
                        }),
                    ));
                }
                Err(e)
            },
        }
    }

    /// Dispatch one event: the global handler, if any, sees it first and
    /// may redirect the machine or abort the dispatch; otherwise the active
    /// state's `on_event` decides.  A requested transition to a different
    /// state runs `on_exit` and then the guarded entry cascade; if an entry
    /// callback rejects, the machine stays in its current state and the
    /// error is surfaced.
    ///
    /// The preconditions ask that `==` on the identity type decide spec
    /// equality, and that the call have a defined outcome at all: an entry
    /// cascade that never settles has none, and the loop would not return.
    pub fn process_event(&mut self, event: &E) -> (r: Result<(), Error>)
        requires
            vstd::laws_eq::obeys_concrete_eq::<S>(),
            old(self).wf(),
            exists|r2: Result<(), Error>, m2: MachineView<S, CTX, E, H>|
                event_outcome(old(self).model(), *event, r2, m2),
        ensures
            final(self).wf(),
            event_outcome(old(self).model(), *event, r, final(self).model()),
    {
        let ghost m0 = self.model();
        let cur_idx = match self.current_state {
            Some(i) => i,
            None => {
                return Err(Error::StateMachineNotInitialized);
            },
        };
        let ghost cs = self.states@[cur_idx as int].0;
        match self.global_event_handler.take() {
            None => {},
            Some(mut h) => {
                let hr = h.on_event(event, &mut self.context);
                self.global_event_handler = Some(h);
                match hr {
                    Response::Handled => {},
                    Response::Error(reason) => {
                        return Err(Error::InvalidEvent(reason));
                    },
                    Response::Transition(next) => {
                        proof {
                            reveal(vstd::laws_eq::obeys_concrete_eq);
                        }
                        if !next.eq(&self.states[cur_idx].0) {
                            proof {
                                let (r2, m2) = choose|
                                    r2: Result<(), Error>,
                                    m2: MachineView<S, CTX, E, H>,
                                | event_outcome(m0, *event, r2, m2);
                                assert(transition_outcome(self.model(), cs, next, r2, m2));
                            }
                            return self.transition_to(next);
                        }
                    },
                }
            },
        }
        let ghost m1 = self.model();
        let ghost pre = self.states@;
        proof {
            lemma_assoc_at_index(pre, cur_idx as int);
        }
        let entry = self.states.remove(cur_idx);
        let (state_id, mut behavior) = entry;
        let br = behavior.on_event(event, &mut self.context);
        proof {
            lemma_remove_insert_is_update(pre, cur_idx as int, (state_id, behavior));
            lemma_assoc_update(pre, cur_idx as int, (state_id, behavior));
        }
        self.states.insert(cur_idx, (state_id, behavior));
        match br {
            Response::Handled => Ok(()),
            Response::Error(reason) => Err(Error::InvalidEvent(reason)),
            Response::Transition(next) => {
                proof {
                    reveal(vstd::laws_eq::obeys_concrete_eq);
                }
                if next.eq(&self.states[cur_idx].0) {
                    Ok(())
                } else {
                    proof {
                        let (r2, m2) = choose|
                            r2: Result<(), Error>,
                            m2: MachineView<S, CTX, E, H>,
                        | event_outcome(m0, *event, r2, m2);
                        assert(transition_outcome(self.model(), cs, next, r2, m2));
                    }
                    self.transition_to(next)
                }
            },
        }
    }

    /// Leave the settled current state for `target`: invoke the outgoing
    /// behavior's `on_exit`, then run the guarded entry cascade from
    /// `target` and settle wherever it ends.  If the cascade rejects, the
    /// current state is left unchanged.
    fn transition_to(&mut self, target: S) -> (r: Result<(), Error>)
        requires
            vstd::laws_eq::obeys_concrete_eq::<S>(),
            old(self).wf(),
            old(self).current_state is Some,
            exists|r2: Result<(), Error>, m2: MachineView<S, CTX, E, H>|
                #[trigger] transition_outcome(
                    old(self).model(),
                    old(self).model().current->0,
                    target,
                    r2,
                    m2,
                ),
        ensures
            final(self).wf(),
            transition_outcome(
                old(self).model(),
                old(self).model().current->0,
                target,
                r,
                final(self).model(),
            ),
    {
        let ghost m0 = self.model();
        let cur_idx = self.current_state.unwrap();
        let ghost cs = self.states@[cur_idx as int].0;
        let ghost pre = self.states@;
        proof {
            lemma_assoc_at_index(pre, cur_idx as int);
        }
        let entry = self.states.remove(cur_idx);
        let (state_id, mut behavior) = entry;
        behavior.on_exit(&mut self.context);
        proof {
            lemma_remove_insert_is_update(pre, cur_idx as int, (state_id, behavior));
            lemma_assoc_update(pre, cur_idx as int, (state_id, behavior));
        }
        self.states.insert(cur_idx, (state_id, behavior));
        proof {
            let (r2, m2) = choose|r2: Result<(), Error>, m2: MachineView<S, CTX, E, H>|
                #[trigger] transition_outcome(m0, m0.current->0, target, r2, m2);
            assert(transition_outcome(m0, cs, target, r2, m2));
        }
        match self.enter_cascade(target, true) {
            Ok(idx) => {
                self.current_state = Some(idx);
                proof {
                    let exit = fetched(m0.cache, cs).exit_spec(m0.context);
                    assert(resolves_to(
                        (Cascade::Pending {
                            state: target,
                            cache: m0.cache.insert(cs, exit.0),
                            ctx: exit.1,
                        }),
                        true,
                        (Cascade::Settled {
                            state: self.states@[idx as int].0,
                            cache: assoc_map(self.states@),
                            ctx: self.context,
                        }),
                    ));
                }
                Ok(())
            },
            Err(e) => {
                proof {
                    let exit = fetched(m0.cache, cs).exit_spec(m0.context);
                    assert(e matches Error::StateInvalid(reason) && resolves_to(
                        (Cascade::Pending {
                            state: target,
                            cache: m0.cache.insert(cs, exit.0),
                            ctx: exit.1,
                        }),
                        true,
                        (Cascade::Rejected {
                            reason,
                            cache: assoc_map(self.states@),
                            ctx: self.context,
                        }),
                    ));
                    assert(self.states@[cur_idx as int].0 == cs);
                }
                Err(e)
            },
        }
    }

    /// Position of `key` in the behavior cache, if it was visited before.
    fn find_index(&self, key: &S) -> (r: Option<usize>)
        requires
            vstd::laws_eq::obeys_concrete_eq::<S>(),
        ensures
            match r {
                Some(i) => i < self.states@.len() && self.states@[i as int].0 == *key,
                None => !seq_has_key(self.states@, *key),
            },
    {
        let n = self.states.len();
        let mut i: usize = 0;
        while i < n
            invariant
                vstd::laws_eq::obeys_concrete_eq::<S>(),
                n == self.states@.len(),
                i <= n,
                forall|j: int| 0 <= j < i ==> (#[trigger] self.states@[j]).0 != *key,
            decreases n - i,
        {
            proof {
                reveal(vstd::laws_eq::obeys_concrete_eq);
            }
            if self.states[i].0.eq(key) {
                return Some(i);
            }
            i += 1;
        }
        None
    }

    /// Run the entry cascade from `start`: fetch-or-create each pending
    /// state's behavior, invoke its `on_enter`, and follow `Transition`
    /// responses until a state settles or rejects.  With `guard` set, a
    /// state whose `on_enter` requests a transition to itself settles.
    /// The current-state marker is not touched; the caller decides what
    /// the finished cascade means for it.
    #[verifier::loop_isolation(false)]
    fn enter_cascade(&mut self, start: S, guard: bool) -> (r: Result<usize, Error>)
        requires
            vstd::laws_eq::obeys_concrete_eq::<S>(),
            keys_unique(old(self).states@),
            exists|out: Cascade<S, CTX, E>|
                resolves_to(
                    (Cascade::Pending {
                        state: start,
                        cache: assoc_map(old(self).states@),
                        ctx: old(self).context,
                    }),
                    guard,
                    out,
                ),
        ensures
            keys_unique(final(self).states@),
            final(self).current_state == old(self).current_state,
            final(self).global_event_handler == old(self).global_event_handler,
            old(self).states@.len() <= final(self).states@.len(),
            forall|j: int|
                0 <= j < old(self).states@.len() ==> (#[trigger] final(self).states@[j]).0 == old(
                    self,
                ).states@[j].0,
            match r {
                Ok(i) => i < final(self).states@.len() && resolves_to(
                    (Cascade::Pending {
                        state: start,
                        cache: assoc_map(old(self).states@),
                        ctx: old(self).context,
                    }),
                    guard,
                    (Cascade::Settled {
                        state: final(self).states@[i as int].0,
                        cache: assoc_map(final(self).states@),
                        ctx: final(self).context,
                    }),
                ),
                Err(e) => e matches Error::StateInvalid(reason) && resolves_to(
                    (Cascade::Pending {
                        state: start,
                        cache: assoc_map(old(self).states@),
                        ctx: old(self).context,
                    }),
                    guard,
                    (Cascade::Rejected {
                        reason,
                        cache: assoc_map(final(self).states@),
                        ctx: final(self).context,
                    }),
                ),
            },
    {
        let ghost start_cfg = Cascade::Pending {
            state: start,
            cache: assoc_map(self.states@),
            ctx: self.context,
        };
        let ghost out = choose|o: Cascade<S, CTX, E>| resolves_to(start_cfg, guard, o);
        let ghost total = choose|n: nat|
            entry_run(start_cfg, guard, n) == out && !(out is Pending);
        let ghost mut steps: nat = 0;
        proof {
            assert(resolves_to(start_cfg, guard, out));
        }
        let mut next = start;
        loop
            invariant
                keys_unique(self.states@),
                self.current_state == old(self).current_state,
                self.global_event_handler == old(self).global_event_handler,
                old(self).states@.len() <= self.states@.len(),
                forall|j: int|
                    0 <= j < old(self).states@.len() ==> (#[trigger] self.states@[j]).0 == old(
                        self,
                    ).states@[j].0,
                entry_run(start_cfg, guard, steps) == (Cascade::Pending {
                    state: next,
                    cache: assoc_map(self.states@),
                    ctx: self.context,
                }),
                steps <= total,
            decreases total - steps,
        {
            proof {
                lemma_pending_before_done(start_cfg, guard, steps, total);
            }
            let ghost pre = self.states@;
            let ghost cache_pre = assoc_map(pre);
            let ghost ctx_pre = self.context;
            let ghost key = next;
            let resp;
            let idx: usize;
            match self.find_index(&next) {
                Some(i) => {
                    idx = i;
                    proof {
                        lemma_assoc_at_index(pre, i as int);
                    }
                    let entry = self.states.remove(idx);
                    let (state_id, mut behavior) = entry;
                    resp = behavior.on_enter(&mut self.context);
                    proof {
                        lemma_remove_insert_is_update(pre, idx as int, (state_id, behavior));
                        lemma_assoc_update(pre, idx as int, (state_id, behavior));
                    }
                    self.states.insert(idx, (state_id, behavior));
                },
                None => {
                    let mut behavior = <S as FsmEnum<S, CTX, E>>::create(&next);
                    resp = behavior.on_enter(&mut self.context);
                    idx = self.states.len();
                    proof {
                        assert(!cache_pre.contains_key(key));
                        lemma_assoc_push(pre, (key, behavior));
                    }
                    self.states.push((next, behavior));
                },
            }
            proof {
                steps = steps + 1;
                let stepv = fetched(cache_pre, key).enter_spec(ctx_pre);
                assert(resp == stepv.0);
                assert(self.context == stepv.2);
                assert(assoc_map(self.states@) == cache_pre.insert(key, stepv.1));
                assert(self.states@[idx as int].0 == key);
                assert(idx < self.states@.len());
            }
            match resp {
                Response::Handled => {
                    proof {
                        assert(entry_run(start_cfg, guard, steps) == (Cascade::Settled {
                            state: key,
                            cache: assoc_map(self.states@),
                            ctx: self.context,
                        }));
                    }
                    return Ok(idx);
                },
                Response::Error(reason) => {
                    proof {
                        assert(entry_run(start_cfg, guard, steps) == (Cascade::Rejected {
                            reason,
                            cache: assoc_map(self.states@),
                            ctx: self.context,
                        }));
                    }
                    return Err(Error::StateInvalid(reason));
                },
                Response::Transition(next2) => {
                    proof {
                        reveal(vstd::laws_eq::obeys_concrete_eq);
                    }
                    if guard && next2.eq(&self.states[idx].0) {
                        proof {
                            assert(next2 == key);
                            assert(entry_run(start_cfg, guard, steps) == (Cascade::Settled {
                                state: key,
                                cache: assoc_map(self.states@),
                                ctx: self.context,
                            }));
                        }
                        return Ok(idx);
                    }
                    proof {
                        assert(entry_run(start_cfg, guard, steps) == (Cascade::Pending {
                            state: next2,
                            cache: assoc_map(self.states@),
                            ctx: self.context,
                        }));
                        lemma_pending_before_done(start_cfg, guard, steps, total);
                    }
                    next = next2;
                },
            }
        }
    }
}

} // verus!
