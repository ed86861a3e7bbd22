//! What is written to the store, and the key of the lock that guards a run.

pub mod lock;
pub mod recommendations;
