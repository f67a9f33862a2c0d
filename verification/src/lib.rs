//! A read-through caching and indexing gateway core for a Farcaster-style hub.
//!
//! The crate verifies the engine that sits between HTTP handlers and the
//! upstream hub: the request-authentication pipeline, the debouncing index
//! scheduler, the event-subscription translation, and the repository layer
//! with its foreign-key-safe upserts.  Network and database plumbing stay
//! outside; the logic here is specified and proved over a relational model
//! of the persisted state.

pub mod error;
pub mod user_models;
pub mod store;
pub mod user_repo;
pub mod worker;
pub mod subscriber;
pub mod relay;
pub mod auth_layer;
