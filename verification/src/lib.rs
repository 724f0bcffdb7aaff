//! A finite-state-machine execution engine.
//!
//! States are named by values of a caller-chosen identity type, behaviors
//! are attached to those identities through the [`sync::Stateful`] trait,
//! and a [`sync::StateMachine`] drives entry/exit lifecycle callbacks and
//! event dispatch, resolving chains of automatic transitions until the
//! machine settles.
//!
//! The ghost meaning of every engine operation is spelled out in [`model`],
//! and the guarantees the dispatch algorithm gives are stated and proved in
//! [`laws`].  [`decisions`] exposes the algorithm's per-step control
//! decisions for drivers whose callbacks cannot run inside the verified
//! engine.
//!
//! Known limitation: the entry cascade guards only against an immediate
//! self-transition (a state whose `on_enter` asks to enter itself).  A
//! longer transition cycle among entry callbacks never settles; such a
//! dispatch never returns, and the contracts here speak only of dispatches
//! whose cascade settles after finitely many steps.

mod assoc;
pub mod decisions;
pub mod laws;
pub mod model;
pub mod sync;
