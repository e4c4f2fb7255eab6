//! The server replication driver: relays every client message to all other
//! peers, tagged with its origin, despawns the player of a kill, and hands
//! out the network ids of new items.
use crate::net_id::{as_net_id, net_id_for, Entity, NetId, NetIdMap};
use crate::protocol::{
    GameEventFromServer, Incoming, MessageTarget, PlayerEvent, PlayerEventFromServer, PlayerState,
    PlayerStateFromServer, Position,
};
use crate::world::{first_match, lemma_first_match_found};
use vstd::prelude::*;

verus! {

/// A player entity of the server's world.
pub struct PlayerHandle {
    pub entity: Entity,
    pub player_idx: usize,
    /// The item entities attached to the player.
    pub held: Vec<Entity>,
}

/// A message and the peers it goes to.
#[derive(Clone, Copy, Debug, PartialEq, Eq, Structural)]
pub struct Outgoing<T> {
    pub message: T,
    pub target: MessageTarget,
}

/// What the server does in one step.
pub struct ServerStep {
    /// Entities to remove, each with everything attached to it.
    pub despawned: Vec<Entity>,
    /// Messages for the reliable lane, in order.
    pub reliable: Vec<Outgoing<PlayerEventFromServer>>,
    /// Messages for the unreliable lane, in order.
    pub unreliable: Vec<Outgoing<PlayerStateFromServer>>,
}

/// The player with index `idx` that is not yet despawned.
pub open spec fn live_with_idx(idx: usize, gone: Seq<Entity>) -> spec_fn(PlayerHandle) -> bool {
    |h: PlayerHandle| h.player_idx == idx && !gone.contains(h.entity)
}

/// The network ids of a killed player and of what they hold, which leave
/// the mapping with them.
pub open spec fn handle_keys(h: PlayerHandle) -> Set<u64> {
    Set::new(|k: u64| k == h.entity.0 || exists|j: int| 0 <= j < h.held@.len() && h.held@[j].0 == k)
}

/// The relay of a client's event: tagged with the sender, to everyone else.
pub open spec fn relayed_event(inc: Incoming<PlayerEvent>) -> Outgoing<PlayerEventFromServer> {
    Outgoing {
        message: PlayerEventFromServer { player_idx: inc.client_idx as u8, kind: inc.message },
        target: MessageTarget::AllExcept(inc.client_idx),
    }
}

/// The relay of a client's snapshot: tagged with the sender, to everyone
/// else, with no freshness filter.
pub open spec fn relayed_state(inc: Incoming<PlayerState>) -> Outgoing<PlayerStateFromServer> {
    Outgoing {
        message: PlayerStateFromServer { player_idx: inc.client_idx as u8, state: inc.message },
        target: MessageTarget::AllExcept(inc.client_idx),
    }
}

/// The mapping and the despawned entities after one client event, given
/// those despawned before it: a kill removes the first player with the
/// sender's index that is still present, with the ids of what it holds.
pub open spec fn kill_step(
    ps: Seq<PlayerHandle>,
    ids: Map<u64, u64>,
    gone: Seq<Entity>,
    inc: Incoming<PlayerEvent>,
) -> (Map<u64, u64>, Seq<Entity>) {
    match inc.message {
        PlayerEvent::KillPlayer => match first_match(ps, live_with_idx(inc.client_idx, gone)) {
            Some(i) => (ids.remove_keys(handle_keys(ps[i])), gone.push(ps[i].entity)),
            None => (ids, gone),
        },
        _ => (ids, gone),
    }
}

/// The mapping and the despawned entities after client events in arrival
/// order, each seeing what the earlier ones removed.
pub open spec fn kills_step(
    ps: Seq<PlayerHandle>,
    ids: Map<u64, u64>,
    incs: Seq<Incoming<PlayerEvent>>,
) -> (Map<u64, u64>, Seq<Entity>)
    decreases incs.len(),
{
    if incs.len() == 0 {
        (ids, Seq::empty())
    } else {
        let prev = kills_step(ps, ids, incs.drop_last());
        kill_step(ps, prev.0, prev.1, incs.last())
    }
}

/// Every sender index fits the one-byte origin tag of relayed messages.
pub open spec fn senders_fit<T>(incs: Seq<Incoming<T>>) -> bool {
    forall|i: int| 0 <= i < incs.len() ==> #[trigger] incs[i].client_idx <= u8::MAX
}

fn is_gone(gone: &Vec<Entity>, e: Entity) -> (r: bool)
    ensures
        r == gone@.contains(e),
{
    let mut i: usize = 0;
    while i < gone.len()
        invariant
            i <= gone@.len(),
            forall|j: int| 0 <= j < i ==> gone@[j] != e,
        decreases gone@.len() - i,
    {
        if gone[i].0 == e.0 {
            return true;
        }
        i += 1;
    }
    false
}

fn find_live_handle(players: &[PlayerHandle], idx: usize, gone: &Vec<Entity>) -> (r: Option<usize>)
    ensures
        match r {
            Some(i) => first_match(players@, live_with_idx(idx, gone@)) == Some(i as int),
            None => first_match(players@, live_with_idx(idx, gone@)) == None::<int>,
        },
{
    let mut i: usize = 0;
    while i < players.len()
        invariant
            i <= players@.len(),
            forall|j: int| 0 <= j < i ==> !live_with_idx(idx, gone@)(#[trigger] players@[j]),
        decreases players@.len() - i,
    {
        if players[i].player_idx == idx && !is_gone(gone, players[i].entity) {
            proof {
                lemma_first_match_found(players@, live_with_idx(idx, gone@), i as int);
            }
            return Some(i);
        }
        i += 1;
    }
    None
}

/// The server side of replication. For client messages it is a pure
/// forwarder; it is the authority that creates items and hands out their
/// network ids.
///
/// It trusts its clients: an event is relayed whatever player index its
/// sender controls, and a kill removes the sender's own player. Checking
/// that a client acts only for itself is left to gameplay rules.
pub struct ServerGamePlugin {
    net_ids: NetIdMap,
    next_net_id: u64,
}

impl ServerGamePlugin {
    /// The registered item handle <-> network id pairs.
    pub closed spec fn net_ids_view(&self) -> Map<u64, u64> {
        self.net_ids@
    }

    /// The network id the next item gets.
    pub closed spec fn next_id(&self) -> u64 {
        self.next_net_id
    }

    /// The mapping is well formed, and every id in it was handed out before
    /// the next one.
    pub closed spec fn wf(&self) -> bool {
        &&& self.net_ids.wf()
        &&& forall|h: u64|
            #[trigger] self.net_ids@.contains_key(h) ==> self.net_ids@[h] < self.next_net_id
    }

    /// A server at the start of a match: no item yet.
    pub fn new() -> (r: ServerGamePlugin)
        ensures
            r.wf(),
            r.net_ids_view() == Map::<u64, u64>::empty(),
            r.next_id() == 0,
    {
        ServerGamePlugin { net_ids: NetIdMap::new(), next_net_id: 0 }
    }

    /// The item handle <-> network id mapping.
    pub fn net_ids(&self) -> (r: &NetIdMap)
        requires
            self.wf(),
        ensures
            r.wf(),
            r@ == self.net_ids_view(),
    {
        &self.net_ids
    }

    /// Gives the new item `entity` a fresh network id and returns the
    /// broadcast that announces it to every client. Returns `None`, changing
    /// nothing, when `entity` already has an id or the ids are used up.
    pub fn spawn_item(&mut self, entity: Entity, script: String, pos: Position) -> (r: Option<
        Outgoing<GameEventFromServer>,
    >)
        requires
            old(self).wf(),
        ensures
            final(self).wf(),
            old(self).net_ids_view().contains_key(entity.0) || old(self).next_id() == u64::MAX
                ==> r is None && final(self).net_ids_view() == old(self).net_ids_view()
                && final(self).next_id() == old(self).next_id(),
            !(old(self).net_ids_view().contains_key(entity.0) || old(self).next_id() == u64::MAX)
                ==> r == Some(
                Outgoing {
                    message: GameEventFromServer::SpawnItem {
                        net_id: NetId(old(self).next_id()),
                        script,
                        pos,
                    },
                    target: MessageTarget::All,
                },
            ) && final(self).net_ids_view() == old(self).net_ids_view().insert(
                entity.0,
                old(self).next_id(),
            ) && final(self).next_id() == old(self).next_id() + 1,
    {
        if self.next_net_id == u64::MAX {
            return None;
        }
        let id = NetId(self.next_net_id);
        proof {
            if crate::net_id::has_net_id(self.net_ids@, id.0) {
                let h = choose|h: u64| self.net_ids@.contains_key(h) && self.net_ids@[h] == id.0;
                assert(self.net_ids@[h] < self.next_net_id);
            }
        }
        if !self.net_ids.insert(entity, id) {
            return None;
        }
        self.next_net_id = self.next_net_id + 1;
        Some(
            Outgoing {
                message: GameEventFromServer::SpawnItem { net_id: id, script, pos },
                target: MessageTarget::All,
            },
        )
    }

    /// Forgets the network id of an item that left the world; returns the id
    /// it had, if any.
    pub fn despawn_item(&mut self, entity: Entity) -> (r: Option<NetId>)
        requires
            old(self).wf(),
        ensures
            final(self).wf(),
            r == as_net_id(net_id_for(old(self).net_ids_view(), entity.0)),
            final(self).net_ids_view() == old(self).net_ids_view().remove(entity.0),
            final(self).next_id() == old(self).next_id(),
    {
        self.net_ids.remove(entity)
    }

    /// Handles one client event: its relay.
    pub fn relay_player_event(&self, inc: &Incoming<PlayerEvent>) -> (r: Outgoing<
        PlayerEventFromServer,
    >)
        requires
            inc.client_idx <= u8::MAX,
        ensures
            r == relayed_event(*inc),
    {
        Outgoing {
            message: PlayerEventFromServer { player_idx: inc.client_idx as u8, kind: inc.message },
            target: MessageTarget::AllExcept(inc.client_idx),
        }
    }

    fn forget_handle(&mut self, h: &PlayerHandle)
        requires
            old(self).wf(),
        ensures
            final(self).wf(),
            final(self).net_ids_view() == old(self).net_ids_view().remove_keys(handle_keys(*h)),
            final(self).next_id() == old(self).next_id(),
    {
        let ghost ids0 = self.net_ids@;
        self.net_ids.remove(h.entity);
        let mut k: usize = 0;
        while k < h.held.len()
            invariant
                self.wf(),
                k <= h.held@.len(),
                self.next_net_id == old(self).next_net_id,
                self.net_ids@ == ids0.remove_keys(
                    Set::new(
                        |x: u64| x == h.entity.0 || exists|j: int| 0 <= j < k && h.held@[j].0 == x,
                    ),
                ),
            decreases h.held@.len() - k,
        {
            self.net_ids.remove(h.held[k]);
            k += 1;
            assert(self.net_ids@ =~= ids0.remove_keys(
                Set::new(
                    |x: u64| x == h.entity.0 || exists|j: int| 0 <= j < k && h.held@[j].0 == x,
                ),
            ));
        }
        assert(self.net_ids@ =~= ids0.remove_keys(handle_keys(*h)));
    }

    /// Handles one client snapshot: its relay.
    pub fn relay_player_state(&self, inc: &Incoming<PlayerState>) -> (r: Outgoing<
        PlayerStateFromServer,
    >)
        requires
            inc.client_idx <= u8::MAX,
        ensures
            r == relayed_state(*inc),
    {
        Outgoing {
            message: PlayerStateFromServer { player_idx: inc.client_idx as u8, state: inc.message },
            target: MessageTarget::AllExcept(inc.client_idx),
        }
    }

    /// One server step: drains the reliable events, then the unreliable
    /// snapshots, each in arrival order. A kill despawns the sender's player,
    /// if still present, and forgets the ids of what it holds.
    pub fn handle_client_messages(
        &mut self,
        players: &[PlayerHandle],
        reliable: &[Incoming<PlayerEvent>],
        unreliable: &[Incoming<PlayerState>],
    ) -> (r: ServerStep)
        requires
            old(self).wf(),
            senders_fit(reliable@),
            senders_fit(unreliable@),
        ensures
            final(self).wf(),
            (final(self).net_ids_view(), r.despawned@) == kills_step(
                players@,
                old(self).net_ids_view(),
                reliable@,
            ),
            final(self).next_id() == old(self).next_id(),
            r.reliable@ == reliable@.map_values(|inc: Incoming<PlayerEvent>| relayed_event(inc)),
            r.unreliable@ == unreliable@.map_values(
                |inc: Incoming<PlayerState>| relayed_state(inc),
            ),
    {
        let mut despawned: Vec<Entity> = Vec::new();
        let mut events: Vec<Outgoing<PlayerEventFromServer>> = Vec::new();
        let mut i: usize = 0;
        while i < reliable.len()
            invariant
                self.wf(),
                self.next_id() == old(self).next_id(),
                senders_fit(reliable@),
                i <= reliable@.len(),
                (self.net_ids_view(), despawned@) == kills_step(
                    players@,
                    old(self).net_ids_view(),
                    reliable@.take(i as int),
                ),
                events@ == reliable@.take(i as int).map_values(
                    |inc: Incoming<PlayerEvent>| relayed_event(inc),
                ),
            decreases reliable@.len() - i,
        {
            let inc = &reliable[i];
            assert(reliable@[i as int].client_idx <= u8::MAX);
            if let PlayerEvent::KillPlayer = inc.message {
                if let Some(k) = find_live_handle(players, inc.client_idx, &despawned) {
                    self.forget_handle(&players[k]);
                    despawned.push(players[k].entity);
                }
            }
            events.push(self.relay_player_event(inc));
            proof {
                assert(reliable@.take(i + 1).drop_last() =~= reliable@.take(i as int));
                assert(events@ =~= reliable@.take(i + 1).map_values(
                    |inc: Incoming<PlayerEvent>| relayed_event(inc),
                ));
            }
            i += 1;
        }
        assert(reliable@.take(i as int) =~= reliable@);
        let mut states: Vec<Outgoing<PlayerStateFromServer>> = Vec::new();
        let mut j: usize = 0;
        while j < unreliable.len()
            invariant
                senders_fit(unreliable@),
                j <= unreliable@.len(),
                states@ == unreliable@.take(j as int).map_values(
                    |inc: Incoming<PlayerState>| relayed_state(inc),
                ),
            decreases unreliable@.len() - j,
        {
            assert(unreliable@[j as int].client_idx <= u8::MAX);
            let relay = self.relay_player_state(&unreliable[j]);
            states.push(relay);
            proof {
                assert(states@ =~= unreliable@.take(j + 1).map_values(
                    |inc: Incoming<PlayerState>| relayed_state(inc),
                ));
            }
            j += 1;
        }
        assert(unreliable@.take(j as int) =~= unreliable@);
        ServerStep { despawned, reliable: events, unreliable: states }
    }
}

} // verus!
