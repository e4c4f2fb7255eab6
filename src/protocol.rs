//! Messages of the replication protocol.
//!
//! Discrete actions travel as `PlayerEvent` on the reliable lane; continuous
//! state travels as `PlayerState` on the unreliable lane.
use crate::net_id::NetId;
use crate::tick::Tick;
use vstd::prelude::*;

verus! {

/// A position in the world, each coordinate held as the bit pattern of an
/// IEEE-754 single-precision number. The layer carries positions and never
/// computes with them, so the bit pattern keeps each value exactly.
#[derive(Clone, Copy, Debug, PartialEq, Eq, Structural)]
pub struct Position {
    pub x: u32,
    pub y: u32,
    pub z: u32,
}

/// The animation state of a player's sprite at one moment.
#[derive(Clone, Copy, Debug, PartialEq, Eq, Structural)]
pub struct SpritePose {
    /// Index of the current animation in the sprite's animation bank.
    pub animation: u32,
    /// Frame within that animation.
    pub frame: u32,
    pub flip_x: bool,
    pub flip_y: bool,
}

/// A discrete, state-changing action of a player (reliable lane).
#[derive(Clone, Copy, Debug, PartialEq, Eq, Structural)]
pub enum PlayerEvent {
    SpawnPlayer(Position),
    KillPlayer,
    GrabItem(NetId),
    DropItem(Position),
}

/// A snapshot of a player's continuous state (unreliable lane).
#[derive(Clone, Copy, Debug, PartialEq, Eq, Structural)]
pub struct PlayerState {
    pub tick: Tick,
    pub pos: Position,
    pub sprite: SpritePose,
}

/// A `PlayerEvent` relayed by the server, tagged with the index of the
/// player it came from.
#[derive(Clone, Copy, Debug, PartialEq, Eq, Structural)]
pub struct PlayerEventFromServer {
    pub player_idx: u8,
    pub kind: PlayerEvent,
}

/// A `PlayerState` relayed by the server, tagged with the index of the
/// player it came from.
#[derive(Clone, Copy, Debug, PartialEq, Eq, Structural)]
pub struct PlayerStateFromServer {
    pub player_idx: u8,
    pub state: PlayerState,
}

/// An authoritative broadcast of the server about the game world.
#[derive(Clone, Debug, PartialEq, Eq)]
pub enum GameEventFromServer {
    /// A new item exists, known to every peer by `net_id`.
    SpawnItem { net_id: NetId, script: String, pos: Position },
}

/// The peers a server message goes to.
#[derive(Clone, Copy, Debug, PartialEq, Eq, Structural)]
pub enum MessageTarget {
    All,
    AllExcept(usize),
    Only(usize),
}

/// Which player the local process controls; fixed for a match.
#[derive(Clone, Copy, Debug, PartialEq, Eq, Structural)]
pub struct ClientMatchInfo {
    pub player_idx: usize,
}

/// A message as the server receives it, with the index of the client that
/// sent it.
#[derive(Clone, Copy, Debug, PartialEq, Eq, Structural)]
pub struct Incoming<T> {
    pub client_idx: usize,
    pub message: T,
}

} // verus!
