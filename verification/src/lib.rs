//! One validated list of twenty stock recommendations per trading day.
//!
//! The library decides and checks; it performs no input or output. It selects the
//! candidates of a day ([`universe`]), says what to ask the model and what to make of its
//! replies ([`llm`]), holds the model's output to the contract of a snapshot
//! ([`domain`]), and coordinates a run from the day's lock to the exit
//! ([`coordinator`]). The features of a day come in through [`ingest`]. Every contract
//! in it is proved.

pub mod config;
pub mod coordinator;
pub mod domain;
pub mod ingest;
pub mod llm;
pub mod retry;
pub mod storage;
pub mod text;
pub mod time;
pub mod universe;
