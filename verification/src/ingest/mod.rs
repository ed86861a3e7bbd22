//! The features of a day as the market-data providers hand them over.

pub mod archive;
pub mod kis;
pub mod provider;
pub mod types;
