//! Session server core: typed protocol messages, a JSON value model with the
//! message envelope, the per-tag message router, client and game registries
//! with matchmaking, and the decision logic of the job dispatch engine.

pub mod message;
pub mod text;
pub mod json;
pub mod handler;
pub mod registry;
pub mod game;
pub mod session;
pub mod dispatcher;
pub mod errors;
pub mod state;
pub mod host;
