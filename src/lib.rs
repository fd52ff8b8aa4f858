//! Shared schedule state for a set of clients: a store of client id to value,
//! the renderings that each client's event stream carries, the per-connection
//! stream state machine, and the fan-out of update notifications.

pub mod model;
pub mod store;
pub mod render;
pub mod session;
pub mod broadcast;
pub mod asset;
