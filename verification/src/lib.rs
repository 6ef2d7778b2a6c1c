//! Wire types and rules of the Animus protocol family.

pub mod actor;
pub mod agent_runner;
pub mod application;
pub mod chat;
pub mod config;
pub mod control;
pub mod durable_store;
pub mod environment;
pub mod execution;
pub mod journal;
pub mod json;
pub mod lists;
pub mod rpc;
pub mod schema;
pub mod text;
pub mod text_map;
pub mod time;
