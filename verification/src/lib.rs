//! A finite-state machine is written once, as a mapping from the current state
//! and an incoming event to the next state and an optional response, and is
//! then driven event by event.
//!
//! [`FSM`] is what a machine has to provide. [`step`] handles one event and
//! [`run`] a whole batch of them; both are specified against the model in
//! [`worker`], and [`laws`] proves what holds of every run.
//!
//! The library starts no thread and owns no channel. A reactor that runs a
//! machine on a worker of its own creates the machine, starts in the default
//! state, calls [`step`] for each event that it receives for as long as the
//! machine goes on, and hands out [`Step::into_response`] at the end.

pub mod fsm;
pub mod laws;
pub mod worker;

pub use crate::fsm::FSM;
pub use crate::worker::{run, settle, step, Run, Step};
