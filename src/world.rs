//! What the replication drivers see of the local world, and what they ask
//! the host engine to do in it.
use crate::net_id::{Entity, NetId};
use crate::protocol::{Position, SpritePose};
use vstd::prelude::*;

verus! {

/// A player entity of the local world, as the drivers see it.
pub struct PlayerRecord {
    pub entity: Entity,
    pub player_idx: usize,
    /// Current rendered position.
    pub pos: Position,
    /// Current animation pose.
    pub sprite: SpritePose,
    /// The item entities attached to the player.
    pub held: Vec<Entity>,
}

/// The local player picked up an item this step.
#[derive(Clone, Copy, Debug, PartialEq, Eq, Structural)]
pub struct ItemGrabEvent {
    pub player: Entity,
    pub item: Entity,
}

/// The local player dropped what they hold this step.
#[derive(Clone, Copy, Debug, PartialEq, Eq, Structural)]
pub struct ItemDropEvent {
    pub player: Entity,
}

/// A recoverable condition met while applying a remote event; the event is
/// skipped.
#[derive(Clone, Copy, Debug, PartialEq, Eq, Structural)]
pub enum Warning {
    /// No local entity is registered for the network id.
    UnknownNetId(NetId),
    /// A player that is not present grabbed an item.
    DeadPlayerGrab(usize),
    /// A player that is not present dropped an item.
    DeadPlayerDrop(usize),
    /// A player that holds nothing dropped an item.
    NothingToDrop(usize),
    /// A player with this index is already present; the spawn is rejected.
    DuplicateSpawn(usize),
    /// The local player grabbed an item that has no network id; the grab is
    /// not sent.
    ItemWithoutNetId(Entity),
}

/// A change of the local world that the host engine carries out.
#[derive(Clone, Copy, Debug, PartialEq, Eq, Structural)]
pub enum Effect {
    /// Create a remote player entity with this index at `pos`.
    SpawnPlayer { player_idx: usize, pos: Position },
    /// Remove the entity together with everything attached to it.
    Despawn { entity: Entity },
    /// Attach `child` to `parent`, detaching it from any former parent.
    Attach { parent: Entity, child: Entity },
    /// Move `child` to `pos` and detach it from `parent`.
    Detach { parent: Entity, child: Entity, pos: Position },
    /// Log the condition; nothing else changes.
    Warn(Warning),
}

/// Linear motion of an entity from `start` to `end`, lasting `steps` fixed
/// simulation steps of wall-clock time; it replaces any motion in flight.
#[derive(Clone, Copy, Debug, PartialEq, Eq, Structural)]
pub struct Interpolation {
    pub start: Position,
    pub end: Position,
    pub steps: u64,
}

/// How a remote player's rendered state follows an accepted snapshot: the
/// pose at once, the position through an interpolation.
#[derive(Clone, Copy, Debug, PartialEq, Eq, Structural)]
pub struct PoseUpdate {
    pub entity: Entity,
    pub motion: Interpolation,
    pub sprite: SpritePose,
}

/// `i` is the first position of `s` whose element satisfies `pred`.
pub open spec fn is_first_match<T>(s: Seq<T>, pred: spec_fn(T) -> bool, i: int) -> bool {
    &&& 0 <= i < s.len()
    &&& pred(s[i])
    &&& forall|j: int| 0 <= j < i ==> !pred(#[trigger] s[j])
}

/// The first position of `s` whose element satisfies `pred`, if any.
pub open spec fn first_match<T>(s: Seq<T>, pred: spec_fn(T) -> bool) -> Option<int> {
    if exists|i: int| is_first_match(s, pred, i) {
        Some(choose|i: int| is_first_match(s, pred, i))
    } else {
        None
    }
}

/// A position that satisfies `pred` with no earlier one that does is the
/// first match.
pub proof fn lemma_first_match_found<T>(s: Seq<T>, pred: spec_fn(T) -> bool, i: int)
    requires
        is_first_match(s, pred, i),
    ensures
        first_match(s, pred) == Some(i),
{
    let c = choose|c: int| is_first_match(s, pred, c);
    if c < i {
        assert(!pred(s[c]));
    } else if c > i {
        assert(!pred(s[i]));
    }
}

/// `i` is the only position of `s` whose element satisfies `pred`.
pub open spec fn is_only_match<T>(s: Seq<T>, pred: spec_fn(T) -> bool, i: int) -> bool {
    &&& 0 <= i < s.len()
    &&& pred(s[i])
    &&& forall|j: int| 0 <= j < s.len() && j != i ==> !pred(#[trigger] s[j])
}

/// The only match is the first match.
pub proof fn lemma_only_match_is_first<T>(s: Seq<T>, pred: spec_fn(T) -> bool, i: int)
    requires
        is_only_match(s, pred, i),
    ensures
        first_match(s, pred) == Some(i),
{
    lemma_first_match_found(s, pred, i);
}

/// The player with index `idx`.
pub open spec fn has_player_idx(idx: usize) -> spec_fn(PlayerRecord) -> bool {
    |r: PlayerRecord| r.player_idx == idx
}

/// The player whose entity is `e`.
pub open spec fn has_entity(e: Entity) -> spec_fn(PlayerRecord) -> bool {
    |r: PlayerRecord| r.entity == e
}

/// The position of the first player with index `idx`.
pub fn find_player(players: &[PlayerRecord], idx: usize) -> (r: Option<usize>)
    ensures
        match r {
            Some(i) => first_match(players@, has_player_idx(idx)) == Some(i as int),
            None => first_match(players@, has_player_idx(idx)) == None::<int>,
        },
{
    let mut i: usize = 0;
    while i < players.len()
        invariant
            i <= players@.len(),
            forall|j: int| 0 <= j < i ==> !has_player_idx(idx)(#[trigger] players@[j]),
        decreases players@.len() - i,
    {
        if players[i].player_idx == idx {
            proof {
                lemma_first_match_found(players@, has_player_idx(idx), i as int);
            }
            return Some(i);
        }
        i += 1;
    }
    None
}

/// The position of the first player whose entity is `e`.
pub fn find_player_entity(players: &[PlayerRecord], e: Entity) -> (r: Option<usize>)
    ensures
        match r {
            Some(i) => first_match(players@, has_entity(e)) == Some(i as int),
            None => first_match(players@, has_entity(e)) == None::<int>,
        },
{
    let mut i: usize = 0;
    while i < players.len()
        invariant
            i <= players@.len(),
            forall|j: int| 0 <= j < i ==> !has_entity(e)(#[trigger] players@[j]),
        decreases players@.len() - i,
    {
        if players[i].entity.0 == e.0 {
            proof {
                lemma_first_match_found(players@, has_entity(e), i as int);
            }
            return Some(i);
        }
        i += 1;
    }
    None
}

/// The concatenation of `f` over the elements of `s`, in order.
pub open spec fn concat_map<T, U>(s: Seq<T>, f: spec_fn(T) -> Seq<U>) -> Seq<U>
    decreases s.len(),
{
    if s.len() == 0 {
        Seq::empty()
    } else {
        concat_map(s.drop_last(), f) + f(s.last())
    }
}

} // verus!
