//! An in-process registry of airplane states, reached only through
//! asynchronous request/response messages.
//!
//! The registry actor owns a map from airplane identifier to altitude.
//! Callers never touch the map directly: they enqueue [`Request`] values on
//! the actor's inbound channel, and requests that expect an answer carry a
//! single-use reply channel on which the actor delivers exactly one
//! [`Response`]. The actor uses the serialized strategy: one worker drains
//! the inbound channel and performs each operation inline before taking the
//! next message, so the total order of effects is the arrival order.

pub mod airplane_map;
pub mod database;
pub mod laws;
pub mod messaging;
pub mod model;

pub use airplane_map::AirplaneMap;
pub use database::AirplaneId;
pub use database::AirplaneStatus;
pub use database::Database;
pub use database::Request;
pub use database::Response;
