//! A runtime core for hosting composable plugins inside a supervised tree of
//! execution scopes: each plugin activation is tracked as a node of the tree,
//! with its own lifecycle state machine and its own task scheduler.
//!
//! The crate models the tree and its bookkeeping as a single state machine
//! owned by [`context::Cortex`]; the asynchronous executor that actually runs
//! plugin effects lives outside and drives this core through plain calls.

pub mod context;
pub mod events;
pub mod late;
pub mod lazy;
pub mod pnp;
pub mod registry;
pub mod result;
pub mod tasker;
