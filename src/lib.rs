//! Core of a token faucet: request pipeline, rate limits and an in-memory ledger,
//! with their contracts proved by Verus.
pub mod clock;
pub mod config;
pub mod laws;
pub mod lifecycle;
pub mod memory;
pub mod models;
pub mod queue;
pub mod rate_limit;
pub mod repository;
pub mod report;
pub mod service;
pub mod store;
pub mod table;
pub mod text;

pub use service::{FaucetService, Identity};
pub use store::DatabaseStore;
