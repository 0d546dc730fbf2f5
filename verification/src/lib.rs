//! The networking core of a peer-to-peer fighting game: the session manager
//! that takes a match from "no connection" to running gameplay, the rollback
//! scheduler that keeps the simulations of the peers in step, the input byte
//! that travels between them, and the telemetry of the links.

pub mod arena;
pub mod config;
pub mod error;
pub mod frame;
pub mod input;
pub mod laws;
pub mod map_one;
pub mod peers;
pub mod scheduler;
pub mod session;
pub mod simulation;
pub mod snapshot;
pub mod stats;
pub mod timeline;
pub mod wire;
