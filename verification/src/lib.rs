//! Event-sourced read models for a chat application.
//!
//! Domain events describing chat creation and message delivery are appended
//! to a single ordered stream; this crate holds the verified logic that
//! consumes that stream: a projector that folds events into a queryable read
//! model, a query service over that model, and a broadcast fan-out that
//! relays live messages to per-connection sessions filtered by chat.

pub mod aggregate;
pub mod codec;
pub mod dtos;
pub mod events;
pub mod projector;
pub mod query;
pub mod relay;
pub mod strutil;
