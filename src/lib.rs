//! Client/server state replication for a fast-paced multiplayer game.
//!
//! The library decides which remote updates are fresh enough to apply, maps
//! local entities to wire-stable identifiers, defines the replication
//! protocol and its byte encoding, and turns received messages into effects
//! that the host engine carries out. It also holds the seeded tables of the
//! gradient noise that the game samples for camera shake.
pub mod client;
pub mod codec;
pub mod net_id;
pub mod noise;
pub mod protocol;
pub mod server;
pub mod tick;
pub mod world;
