//! Message protocol core of a small multiplayer game: a registry of
//! message kinds, a byte codec for frames, a deferred dispatch bus, the
//! protocol facade that ties them together, and the relay rules of the
//! server.

pub mod controller;
pub mod mapping;
pub mod wire;
pub mod message;
pub mod error;
pub mod dispatch;
pub mod protocol;
pub mod relay;
pub mod transport;
