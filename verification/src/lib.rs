//! A deterministic interleaving controller.
//!
//! A driver forces several workers through an interleaving of its own
//! choosing: each worker parks at the suspension points of the shared
//! primitive it operates on and moves only when the driver releases it.
//! Workers are resumable: a unit of work runs from one suspension point to
//! the next inside the call that releases it, so every call of the driver
//! returns once the worker has reached its next status, and no two workers
//! ever run at once.
//!
//! - [`cell`]: the rendezvous cell, a worker's status and its history.
//! - [`atomic`]: the shared numeric cell and the suspension points around
//!   each access to it.
//! - [`counter`]: the counter under test, whose increment takes two accesses
//!   or one.
//! - [`thread`]: the handle on one worker: submit, release, wind up.
//! - [`oracle`]: the finite supply of choices that a run is driven by.
//! - [`scheduler`]: the driver, which turns to the workers as the oracle
//!   says and holds the counter against a reference model.
//! - [`system`]: the controlled system in the abstract, and what every step
//!   of the driver keeps true of it.
//! - [`laws`]: what holds of every run.
//! - [`bank`] and [`queue`]: two more subjects for a harness, a ledger and a
//!   ring.

pub mod atomic;
pub mod bank;
pub mod cell;
pub mod counter;
pub mod laws;
pub mod oracle;
pub mod queue;
pub mod scheduler;
pub mod system;
pub mod thread;
