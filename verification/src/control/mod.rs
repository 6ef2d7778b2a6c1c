//! The daemon's control surface: what clients ask of it, and how.

pub mod client;
pub mod error;
pub mod method;
pub mod types;
