//! The data of a recommendation run and the rules that a model's output must meet.

pub mod contract;
pub mod number;
pub mod recommendation;
