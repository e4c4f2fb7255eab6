//! The client replication driver.
//!
//! Inbound, before gameplay runs: each relayed event in turn is turned into
//! effects on the local world, and fresh snapshots into pose updates. Outbound, after
//! gameplay ran: local intents become reliable events, and the controlled
//! player's state becomes one unreliable snapshot.
use crate::net_id::{
    after_insert, can_insert, entity_for, has_net_id, injective, net_id_for, Entity, NetId,
    NetIdMap,
};
use crate::protocol::{
    ClientMatchInfo, GameEventFromServer, PlayerEvent, PlayerEventFromServer, PlayerState,
    PlayerStateFromServer, Position,
};
use crate::tick::{after_check, is_fresh, ClientTicks, Tick, TickClock};
use crate::world::{
    concat_map, find_player, find_player_entity, first_match, has_entity, has_player_idx,
    is_only_match, lemma_only_match_is_first, Effect,
    Interpolation, ItemDropEvent, ItemGrabEvent, PlayerRecord, PoseUpdate, Warning,
};
use vstd::prelude::*;

verus! {

/// How many fixed simulation steps the motion towards a snapshot lasts.
pub const INTERPOLATION_STEPS: u64 = 2;

/// The network ids of a killed player and of what they hold, which leave
/// the mapping with them.
pub open spec fn despawned_keys(p: PlayerRecord) -> Set<u64> {
    Set::new(|h: u64| h == p.entity.0 || exists|j: int| 0 <= j < p.held@.len() && p.held@[j].0 == h)
}

/// The mapping and the effects after applying one relayed event, given the
/// players present this step.
///
/// A spawn for an index that is already present violates the protocol: it
/// is rejected with a warning rather than creating a second player.
pub open spec fn event_step(
    ps: Seq<PlayerRecord>,
    ids: Map<u64, u64>,
    ev: PlayerEventFromServer,
) -> (Map<u64, u64>, Seq<Effect>) {
    let idx = ev.player_idx as usize;
    let slot = first_match(ps, has_player_idx(idx));
    match ev.kind {
        PlayerEvent::SpawnPlayer(pos) => match slot {
            None => (ids, seq![Effect::SpawnPlayer { player_idx: idx, pos }]),
            Some(_) => (ids, seq![Effect::Warn(Warning::DuplicateSpawn(idx))]),
        },
        PlayerEvent::KillPlayer => match slot {
            Some(i) => (
                ids.remove_keys(despawned_keys(ps[i])),
                seq![Effect::Despawn { entity: ps[i].entity }],
            ),
            None => (ids, Seq::empty()),
        },
        PlayerEvent::GrabItem(n) => match entity_for(ids, n.0) {
            None => (ids, seq![Effect::Warn(Warning::UnknownNetId(n))]),
            Some(h) => match slot {
                Some(i) => (ids, seq![Effect::Attach { parent: ps[i].entity, child: Entity(h) }]),
                None => (ids, seq![Effect::Warn(Warning::DeadPlayerGrab(idx))]),
            },
        },
        PlayerEvent::DropItem(pos) => match slot {
            None => (ids, seq![Effect::Warn(Warning::DeadPlayerDrop(idx))]),
            Some(i) => if ps[i].held@.len() == 0 {
                (ids, seq![Effect::Warn(Warning::NothingToDrop(idx))])
            } else {
                (ids, drop_effects(ps[i].entity, ps[i].held@, pos))
            },
        },
    }
}

/// One detach per held item, each to the drop position.
pub open spec fn drop_effects(parent: Entity, held: Seq<Entity>, pos: Position) -> Seq<Effect> {
    held.map_values(|c: Entity| Effect::Detach { parent, child: c, pos })
}

/// The watermarks and pose updates after one relayed snapshot: a fresh one
/// moves the first player with its index, if present; a stale one changes
/// nothing.
pub open spec fn state_step(
    ps: Seq<PlayerRecord>,
    marks: Map<usize, u64>,
    m: PlayerStateFromServer,
) -> (Map<usize, u64>, Seq<PoseUpdate>) {
    let idx = m.player_idx as usize;
    if is_fresh(marks, idx, m.state.tick.0) {
        (
            after_check(marks, idx, m.state.tick.0),
            match first_match(ps, has_player_idx(idx)) {
                Some(i) => seq![
                    PoseUpdate {
                        entity: ps[i].entity,
                        motion: Interpolation {
                            start: ps[i].pos,
                            end: m.state.pos,
                            steps: INTERPOLATION_STEPS,
                        },
                        sprite: m.state.sprite,
                    },
                ],
                None => Seq::empty(),
            },
        )
    } else {
        (marks, Seq::empty())
    }
}

/// The watermarks and pose updates after relayed snapshots in arrival order.
pub open spec fn states_step(
    ps: Seq<PlayerRecord>,
    marks: Map<usize, u64>,
    ms: Seq<PlayerStateFromServer>,
) -> (Map<usize, u64>, Seq<PoseUpdate>)
    decreases ms.len(),
{
    if ms.len() == 0 {
        (marks, Seq::empty())
    } else {
        let prev = states_step(ps, marks, ms.drop_last());
        let next = state_step(ps, prev.0, ms.last());
        (next.0, prev.1 + next.1)
    }
}

/// The message for a local grab: sent only for the controlled player and an
/// item with a network id.
pub open spec fn grab_message(
    ps: Seq<PlayerRecord>,
    ids: Map<u64, u64>,
    me: usize,
    g: ItemGrabEvent,
) -> Seq<PlayerEvent> {
    match first_match(ps, has_entity(g.player)) {
        Some(i) => if ps[i].player_idx == me {
            match net_id_for(ids, g.item.0) {
                Some(n) => seq![PlayerEvent::GrabItem(NetId(n))],
                None => Seq::empty(),
            }
        } else {
            Seq::empty()
        },
        None => Seq::empty(),
    }
}

/// The warning for a local grab of the controlled player whose item has no
/// network id.
pub open spec fn grab_warning(
    ps: Seq<PlayerRecord>,
    ids: Map<u64, u64>,
    me: usize,
    g: ItemGrabEvent,
) -> Seq<Warning> {
    match first_match(ps, has_entity(g.player)) {
        Some(i) => if ps[i].player_idx == me && !ids.contains_key(g.item.0) {
            seq![Warning::ItemWithoutNetId(g.item)]
        } else {
            Seq::empty()
        },
        None => Seq::empty(),
    }
}

/// The warnings for a series of local grabs.
pub open spec fn grab_warnings(
    ps: Seq<PlayerRecord>,
    ids: Map<u64, u64>,
    me: usize,
    grabs: Seq<ItemGrabEvent>,
) -> Seq<Warning> {
    concat_map(grabs, |g: ItemGrabEvent| grab_warning(ps, ids, me, g))
}

/// The message for a local drop: sent only for the controlled player, with
/// that player's position.
pub open spec fn drop_message(ps: Seq<PlayerRecord>, me: usize, d: ItemDropEvent) -> Seq<
    PlayerEvent,
> {
    match first_match(ps, has_entity(d.player)) {
        Some(i) => if ps[i].player_idx == me {
            seq![PlayerEvent::DropItem(ps[i].pos)]
        } else {
            Seq::empty()
        },
        None => Seq::empty(),
    }
}

/// The outgoing reliable messages of one step: grabs first, then drops.
pub open spec fn outgoing_events(
    ps: Seq<PlayerRecord>,
    ids: Map<u64, u64>,
    me: usize,
    grabs: Seq<ItemGrabEvent>,
    drops: Seq<ItemDropEvent>,
) -> Seq<PlayerEvent> {
    grab_messages(ps, ids, me, grabs) + drop_messages(ps, me, drops)
}

/// The messages for a series of local grabs.
pub open spec fn grab_messages(
    ps: Seq<PlayerRecord>,
    ids: Map<u64, u64>,
    me: usize,
    grabs: Seq<ItemGrabEvent>,
) -> Seq<PlayerEvent> {
    concat_map(grabs, |g: ItemGrabEvent| grab_message(ps, ids, me, g))
}

/// The messages for a series of local drops.
pub open spec fn drop_messages(
    ps: Seq<PlayerRecord>,
    me: usize,
    drops: Seq<ItemDropEvent>,
) -> Seq<PlayerEvent> {
    concat_map(drops, |d: ItemDropEvent| drop_message(ps, me, d))
}

/// The players with index `me`, in order.
pub open spec fn own_players(ps: Seq<PlayerRecord>, me: usize) -> Seq<PlayerRecord>
    decreases ps.len(),
{
    if ps.len() == 0 {
        Seq::empty()
    } else {
        own_players(ps.drop_last(), me) + if ps.last().player_idx == me {
            seq![ps.last()]
        } else {
            Seq::empty()
        }
    }
}

/// The client side of replication for one match.
pub struct ClientGamePlugin {
    info: ClientMatchInfo,
    ticks: ClientTicks,
    net_ids: NetIdMap,
    clock: TickClock,
}

impl ClientGamePlugin {
    /// The player the local process controls.
    pub closed spec fn player_idx(&self) -> usize {
        self.info.player_idx
    }

    /// The registered handle <-> network id pairs.
    pub closed spec fn net_ids_view(&self) -> Map<u64, u64> {
        self.net_ids@
    }

    /// The per-player watermarks of accepted snapshots.
    pub closed spec fn ticks_view(&self) -> Map<usize, u64> {
        self.ticks@
    }

    /// The last tick issued to an outgoing snapshot.
    pub closed spec fn last_tick(&self) -> u64 {
        self.clock.last_issued()
    }

    /// The mapping is well formed.
    pub closed spec fn wf(&self) -> bool {
        self.net_ids.wf()
    }

    /// A driver at the start of a match: nothing mapped, no tick seen or
    /// issued.
    pub fn new(info: ClientMatchInfo) -> (r: ClientGamePlugin)
        ensures
            r.wf(),
            r.player_idx() == info.player_idx,
            r.net_ids_view() == Map::<u64, u64>::empty(),
            r.ticks_view() == Map::<usize, u64>::empty(),
            r.last_tick() == 0,
    {
        ClientGamePlugin {
            info,
            ticks: ClientTicks::new(),
            net_ids: NetIdMap::new(),
            clock: TickClock::new(),
        }
    }

    /// The match information given at the start.
    pub fn match_info(&self) -> (r: ClientMatchInfo)
        ensures
            r.player_idx == self.player_idx(),
    {
        self.info
    }

    /// The handle <-> network id mapping.
    pub fn net_ids(&self) -> (r: &NetIdMap)
        requires
            self.wf(),
        ensures
            r.wf(),
            r@ == self.net_ids_view(),
    {
        &self.net_ids
    }

    /// The last tick issued to an outgoing snapshot (0 when none was).
    pub fn ticks_issued(&self) -> (r: u64)
        ensures
            r == self.last_tick(),
    {
        self.clock.last()
    }

    /// The snapshot freshness filter.
    pub fn ticks(&self) -> (r: &ClientTicks)
        ensures
            r@ == self.ticks_view(),
    {
        &self.ticks
    }

    /// Inbound phase for the reliable lane, one event at a time: decides a
    /// relayed event against the players present now, returns the effects on
    /// the local world and keeps the mapping in step with them.
    ///
    /// Events are handled in arrival order, and the host carries out the
    /// effects of one event before it passes the next one with the players
    /// as they then are: a second kill of the same player finds it gone, and
    /// a grab right after a spawn finds the new player.
    pub fn handle_game_event(
        &mut self,
        players: &[PlayerRecord],
        ev: &PlayerEventFromServer,
    ) -> (r: Vec<Effect>)
        requires
            old(self).wf(),
        ensures
            final(self).wf(),
            (final(self).net_ids_view(), r@) == event_step(players@, old(self).net_ids_view(), *ev),
            final(self).player_idx() == old(self).player_idx(),
            final(self).ticks_view() == old(self).ticks_view(),
            final(self).last_tick() == old(self).last_tick(),
    {
        let idx = ev.player_idx as usize;
        let mut out: Vec<Effect> = Vec::new();
        match ev.kind {
            PlayerEvent::SpawnPlayer(pos) => {
                match find_player(players, idx) {
                    None => {
                        out.push(Effect::SpawnPlayer { player_idx: idx, pos });
                    },
                    Some(_) => {
                        out.push(Effect::Warn(Warning::DuplicateSpawn(idx)));
                    },
                }
            },
            PlayerEvent::KillPlayer => {
                if let Some(i) = find_player(players, idx) {
                    self.forget_player(&players[i]);
                    out.push(Effect::Despawn { entity: players[i].entity });
                }
            },
            PlayerEvent::GrabItem(n) => {
                match self.net_ids.get_entity(n) {
                    None => {
                        out.push(Effect::Warn(Warning::UnknownNetId(n)));
                    },
                    Some(item) => {
                        match find_player(players, idx) {
                            Some(i) => {
                                out.push(Effect::Attach { parent: players[i].entity, child: item });
                            },
                            None => {
                                out.push(Effect::Warn(Warning::DeadPlayerGrab(idx)));
                            },
                        }
                    },
                }
            },
            PlayerEvent::DropItem(pos) => {
                match find_player(players, idx) {
                    None => {
                        out.push(Effect::Warn(Warning::DeadPlayerDrop(idx)));
                    },
                    Some(i) => {
                        let p = &players[i];
                        if p.held.len() == 0 {
                            out.push(Effect::Warn(Warning::NothingToDrop(idx)));
                        } else {
                            let mut k: usize = 0;
                            while k < p.held.len()
                                invariant
                                    self.wf(),
                                    k <= p.held@.len(),
                                    out@ == drop_effects(p.entity, p.held@.take(k as int), pos),
                                decreases p.held@.len() - k,
                            {
                                let child = p.held[k];
                                out.push(Effect::Detach { parent: p.entity, child, pos });
                                k += 1;
                                let ghost taken = p.held@.take(k as int);
                                assert(out@ =~= drop_effects(p.entity, taken, pos));
                            }
                            assert(p.held@.take(k as int) =~= p.held@);
                        }
                    },
                }
            },
        }
        proof {
            assert(out@ =~= event_step(players@, old(self).net_ids_view(), *ev).1);
        }
        out
    }

    /// Inbound phase for the unreliable lane: snapshots that pass the
    /// freshness filter move their player; stale ones are dropped.
    pub fn handle_player_state(
        &mut self,
        players: &[PlayerRecord],
        states: &[PlayerStateFromServer],
    ) -> (r: Vec<PoseUpdate>)
        requires
            old(self).wf(),
        ensures
            final(self).wf(),
            (final(self).ticks_view(), r@) == states_step(
                players@,
                old(self).ticks_view(),
                states@,
            ),
            final(self).player_idx() == old(self).player_idx(),
            final(self).net_ids_view() == old(self).net_ids_view(),
            final(self).last_tick() == old(self).last_tick(),
    {
        let mut out: Vec<PoseUpdate> = Vec::new();
        let mut i: usize = 0;
        while i < states.len()
            invariant
                self.wf(),
                i <= states@.len(),
                (self.ticks_view(), out@) == states_step(
                    players@,
                    old(self).ticks_view(),
                    states@.take(i as int),
                ),
                self.player_idx() == old(self).player_idx(),
                self.net_ids_view() == old(self).net_ids_view(),
                self.last_tick() == old(self).last_tick(),
            decreases states@.len() - i,
        {
            let m = &states[i];
            let idx = m.player_idx as usize;
            let ghost out0 = out@;
            if self.ticks.is_latest(idx, m.state.tick) {
                if let Some(k) = find_player(players, idx) {
                    out.push(PoseUpdate {
                        entity: players[k].entity,
                        motion: Interpolation {
                            start: players[k].pos,
                            end: m.state.pos,
                            steps: INTERPOLATION_STEPS,
                        },
                        sprite: m.state.sprite,
                    });
                }
            }
            proof {
                assert(states@.take(i + 1).drop_last() =~= states@.take(i as int));
                let marks = states_step(players@, old(self).ticks_view(), states@.take(i as int)).0;
                assert(out@ =~= out0 + state_step(players@, marks, states@[i as int]).1);
            }
            i += 1;
        }
        proof {
            assert(states@.take(i as int) =~= states@);
        }
        out
    }

    /// Outbound phase for the reliable lane: one event per local grab or drop
    /// of the controlled player. A grabbed item without a network id is not
    /// sent; a warning names it instead.
    pub fn send_game_events(
        &self,
        players: &[PlayerRecord],
        grabs: &[ItemGrabEvent],
        drops: &[ItemDropEvent],
    ) -> (r: (Vec<PlayerEvent>, Vec<Warning>))
        requires
            self.wf(),
        ensures
            r.0@ == outgoing_events(
                players@,
                self.net_ids_view(),
                self.player_idx(),
                grabs@,
                drops@,
            ),
            r.1@ == grab_warnings(players@, self.net_ids_view(), self.player_idx(), grabs@),
    {
        let me = self.info.player_idx;
        let mut out: Vec<PlayerEvent> = Vec::new();
        let mut warnings: Vec<Warning> = Vec::new();
        let mut i: usize = 0;
        while i < grabs.len()
            invariant
                self.wf(),
                me == self.player_idx(),
                i <= grabs@.len(),
                out@ == grab_messages(players@, self.net_ids_view(), me, grabs@.take(i as int)),
                warnings@ == grab_warnings(
                    players@,
                    self.net_ids_view(),
                    me,
                    grabs@.take(i as int),
                ),
            decreases grabs@.len() - i,
        {
            let g = grabs[i];
            let ghost out0 = out@;
            let ghost warnings0 = warnings@;
            if let Some(k) = find_player_entity(players, g.player) {
                if players[k].player_idx == me {
                    match self.net_ids.get_net_id(g.item) {
                        Some(n) => out.push(PlayerEvent::GrabItem(n)),
                        None => warnings.push(Warning::ItemWithoutNetId(g.item)),
                    }
                }
            }
            proof {
                assert(grabs@.take(i + 1).drop_last() =~= grabs@.take(i as int));
                assert(grabs@.take(i + 1).last() == g);
                assert(out@ =~= out0 + grab_message(players@, self.net_ids_view(), me, g));
                let ids = self.net_ids_view();
                assert(grab_messages(players@, ids, me, grabs@.take(i + 1)) == grab_messages(
                    players@,
                    ids,
                    me,
                    grabs@.take(i as int),
                ) + grab_message(players@, ids, me, g));
                assert(out@ =~= grab_messages(players@, ids, me, grabs@.take(i + 1)));
                assert(warnings@ =~= warnings0 + grab_warning(players@, ids, me, g));
                assert(grab_warnings(players@, ids, me, grabs@.take(i + 1)) == grab_warnings(
                    players@,
                    ids,
                    me,
                    grabs@.take(i as int),
                ) + grab_warning(players@, ids, me, g));
                assert(warnings@ =~= grab_warnings(players@, ids, me, grabs@.take(i + 1)));
            }
            i += 1;
        }
        assert(grabs@.take(i as int) =~= grabs@);
        let ghost sent_grabs = out@;
        let mut j: usize = 0;
        while j < drops.len()
            invariant
                self.wf(),
                me == self.player_idx(),
                j <= drops@.len(),
                out@ == sent_grabs + drop_messages(players@, me, drops@.take(j as int)),
            decreases drops@.len() - j,
        {
            let d = drops[j];
            let ghost out0 = out@;
            if let Some(k) = find_player_entity(players, d.player) {
                if players[k].player_idx == me {
                    out.push(PlayerEvent::DropItem(players[k].pos));
                }
            }
            proof {
                assert(drops@.take(j + 1).drop_last() =~= drops@.take(j as int));
                assert(drops@.take(j + 1).last() == d);
                assert(out@ =~= out0 + drop_message(players@, me, d));
                assert(drop_messages(players@, me, drops@.take(j + 1)) == drop_messages(
                    players@,
                    me,
                    drops@.take(j as int),
                ) + drop_message(players@, me, d));
                assert(out@ =~= sent_grabs + drop_messages(players@, me, drops@.take(j + 1)));
            }
            j += 1;
        }
        assert(drops@.take(j as int) =~= drops@);
        (out, warnings)
    }

    /// Outbound phase for the unreliable lane: one snapshot of each player
    /// with the controlled index, each with a fresh tick.
    pub fn send_player_state(&mut self, players: &[PlayerRecord]) -> (r: Vec<PlayerState>)
        requires
            old(self).wf(),
            old(self).last_tick() + players@.len() <= u64::MAX,
        ensures
            final(self).wf(),
            r@.len() == own_players(players@, old(self).player_idx()).len(),
            forall|k: int|
                0 <= k < r@.len() ==> #[trigger] r@[k] == (PlayerState {
                    tick: Tick((old(self).last_tick() + k + 1) as u64),
                    pos: own_players(players@, old(self).player_idx())[k].pos,
                    sprite: own_players(players@, old(self).player_idx())[k].sprite,
                }),
            final(self).last_tick() == old(self).last_tick() + r@.len(),
            final(self).player_idx() == old(self).player_idx(),
            final(self).net_ids_view() == old(self).net_ids_view(),
            final(self).ticks_view() == old(self).ticks_view(),
    {
        let me = self.info.player_idx;
        let ghost start = self.clock.last_issued();
        let mut out: Vec<PlayerState> = Vec::new();
        let mut i: usize = 0;
        while i < players.len()
            invariant
                self.wf(),
                me == old(self).player_idx(),
                i <= players@.len(),
                start == old(self).last_tick(),
                start + players@.len() <= u64::MAX,
                out@.len() == own_players(players@.take(i as int), me).len(),
                out@.len() <= i,
                self.clock.last_issued() == start + out@.len(),
                forall|k: int|
                    0 <= k < out@.len() ==> #[trigger] out@[k] == (PlayerState {
                        tick: Tick((start + k + 1) as u64),
                        pos: own_players(players@.take(i as int), me)[k].pos,
                        sprite: own_players(players@.take(i as int), me)[k].sprite,
                    }),
                self.info == old(self).info,
                self.net_ids_view() == old(self).net_ids_view(),
                self.ticks_view() == old(self).ticks_view(),
            decreases players@.len() - i,
        {
            proof {
                assert(players@.take(i + 1).drop_last() =~= players@.take(i as int));
            }
            if players[i].player_idx == me {
                let tick = self.clock.next();
                out.push(PlayerState { tick, pos: players[i].pos, sprite: players[i].sprite });
            }
            i += 1;
        }
        assert(players@.take(i as int) =~= players@);
        out
    }

    /// Registers an item that the server spawned and the host engine created
    /// as `entity`. Returns false, changing nothing, when the entity or the
    /// network id is already registered.
    pub fn handle_spawn_item(&mut self, entity: Entity, event: &GameEventFromServer) -> (r: bool)
        requires
            old(self).wf(),
        ensures
            final(self).wf(),
            match event {
                GameEventFromServer::SpawnItem { net_id, .. } => {
                    &&& r == can_insert(old(self).net_ids_view(), entity.0, net_id.0)
                    &&& final(self).net_ids_view() == after_insert(
                        old(self).net_ids_view(),
                        entity.0,
                        net_id.0,
                    )
                },
            },
            final(self).player_idx() == old(self).player_idx(),
            final(self).ticks_view() == old(self).ticks_view(),
            final(self).last_tick() == old(self).last_tick(),
    {
        match event {
            GameEventFromServer::SpawnItem { net_id, .. } => self.net_ids.insert(entity, *net_id),
        }
    }

    fn forget_player(&mut self, p: &PlayerRecord)
        requires
            old(self).wf(),
        ensures
            final(self).wf(),
            final(self).net_ids_view() == old(self).net_ids_view().remove_keys(despawned_keys(*p)),
            final(self).info == old(self).info,
            final(self).ticks@ == old(self).ticks@,
            final(self).clock == old(self).clock,
    {
        let ghost ids0 = self.net_ids@;
        self.net_ids.remove(p.entity);
        let mut k: usize = 0;
        while k < p.held.len()
            invariant
                self.wf(),
                k <= p.held@.len(),
                self.info == old(self).info,
                self.ticks@ == old(self).ticks@,
                self.clock == old(self).clock,
                self.net_ids@ == ids0.remove_keys(
                    Set::new(
                        |h: u64| h == p.entity.0 || exists|j: int| 0 <= j < k && p.held@[j].0 == h,
                    ),
                ),
            decreases p.held@.len() - k,
        {
            self.net_ids.remove(p.held[k]);
            k += 1;
            assert(self.net_ids@ =~= ids0.remove_keys(
                Set::new(
                    |h: u64| h == p.entity.0 || exists|j: int| 0 <= j < k && p.held@[j].0 == h,
                ),
            ));
        }
        assert(self.net_ids@ =~= ids0.remove_keys(despawned_keys(*p)));
    }
}

/// A grab of an item whose network id is not registered only warns: the
/// mapping stays as it was and no entity changes.
pub proof fn lemma_grab_unmapped_is_harmless(
    ps: Seq<PlayerRecord>,
    ids: Map<u64, u64>,
    ev: PlayerEventFromServer,
    n: NetId,
)
    requires
        ev.kind == PlayerEvent::GrabItem(n),
        !has_net_id(ids, n.0),
    ensures
        event_step(ps, ids, ev) == (ids, seq![Effect::Warn(Warning::UnknownNetId(n))]),
{
}

/// Once a player is killed, a grab of an item they held only warns: the
/// kill took the item's network id out of the mapping.
pub proof fn lemma_grab_after_kill_is_harmless(
    ps: Seq<PlayerRecord>,
    ids: Map<u64, u64>,
    kill: PlayerEventFromServer,
    grab: PlayerEventFromServer,
    i: int,
    j: int,
)
    requires
        injective(ids),
        kill.kind == PlayerEvent::KillPlayer,
        first_match(ps, has_player_idx(kill.player_idx as usize)) == Some(i),
        0 <= j < ps[i].held@.len(),
        ids.contains_key(ps[i].held@[j].0),
        grab.kind == PlayerEvent::GrabItem(NetId(ids[ps[i].held@[j].0])),
    ensures
        event_step(ps, event_step(ps, ids, kill).0, grab) == (
            event_step(ps, ids, kill).0,
            seq![Effect::Warn(Warning::UnknownNetId(NetId(ids[ps[i].held@[j].0])))],
        ),
{
    let h = ps[i].held@[j].0;
    let n = ids[h];
    let after = event_step(ps, ids, kill).0;
    assert(after == ids.remove_keys(despawned_keys(ps[i])));
    assert(despawned_keys(ps[i]).contains(h));
    if has_net_id(after, n) {
        let w = choose|w: u64| after.contains_key(w) && after[w] == n;
        assert(ids.contains_key(w) && ids[w] == n);
        assert(ids[h] == ids[w]);
    }
}

/// A drop by the only player with its index moves every item it holds to
/// the drop position and detaches it, in order; the mapping stays.
pub proof fn lemma_drop_detaches_every_held_item(
    ps: Seq<PlayerRecord>,
    ids: Map<u64, u64>,
    ev: PlayerEventFromServer,
    pos: Position,
    i: int,
)
    requires
        ev.kind == PlayerEvent::DropItem(pos),
        is_only_match(ps, has_player_idx(ev.player_idx as usize), i),
        ps[i].held@.len() > 0,
    ensures
        event_step(ps, ids, ev).0 == ids,
        event_step(ps, ids, ev).1.len() == ps[i].held@.len(),
        forall|k: int|
            0 <= k < ps[i].held@.len() ==> #[trigger] event_step(ps, ids, ev).1[k] == (
            Effect::Detach { parent: ps[i].entity, child: ps[i].held@[k], pos }),
{
    lemma_only_match_is_first(ps, has_player_idx(ev.player_idx as usize), i);
}

/// A grab of a registered item by the only player with its index attaches
/// that item to that player, whichever index it has; the mapping stays.
pub proof fn lemma_grab_attaches_to_grabber(
    ps: Seq<PlayerRecord>,
    ids: Map<u64, u64>,
    ev: PlayerEventFromServer,
    item: u64,
    i: int,
)
    requires
        injective(ids),
        ids.contains_key(item),
        ev.kind == PlayerEvent::GrabItem(NetId(ids[item])),
        is_only_match(ps, has_player_idx(ev.player_idx as usize), i),
    ensures
        event_step(ps, ids, ev) == (
            ids,
            seq![Effect::Attach { parent: ps[i].entity, child: Entity(item) }],
        ),
{
    lemma_only_match_is_first(ps, has_player_idx(ev.player_idx as usize), i);
    let n = ids[item];
    assert(has_net_id(ids, n));
    let c = choose|c: u64| ids.contains_key(c) && ids[c] == n;
    assert(ids[c] == ids[item]);
}

/// A kill of the only player with its index despawns it, and every item it
/// held loses its network id in both directions.
pub proof fn lemma_kill_forgets_held_items(
    ps: Seq<PlayerRecord>,
    ids: Map<u64, u64>,
    ev: PlayerEventFromServer,
    i: int,
    j: int,
)
    requires
        injective(ids),
        ev.kind == PlayerEvent::KillPlayer,
        is_only_match(ps, has_player_idx(ev.player_idx as usize), i),
        0 <= j < ps[i].held@.len(),
        ids.contains_key(ps[i].held@[j].0),
    ensures
        event_step(ps, ids, ev).1 == seq![Effect::Despawn { entity: ps[i].entity }],
        net_id_for(event_step(ps, ids, ev).0, ps[i].held@[j].0) == None::<u64>,
        entity_for(event_step(ps, ids, ev).0, ids[ps[i].held@[j].0]) == None::<u64>,
{
    lemma_only_match_is_first(ps, has_player_idx(ev.player_idx as usize), i);
    let h = ps[i].held@[j].0;
    let n = ids[h];
    let after = event_step(ps, ids, ev).0;
    assert(despawned_keys(ps[i]).contains(h));
    if has_net_id(after, n) {
        let w = choose|w: u64| after.contains_key(w) && after[w] == n;
        assert(ids.contains_key(w) && ids[w] == n);
        assert(ids[h] == ids[w]);
    }
}

/// Snapshots for one player with ticks 5, 3 and 7, arriving in that order
/// while no tick of theirs was seen: 5 and 7 move the only player with that
/// index, 3 is dropped, and the watermark ends at 7.
pub proof fn lemma_out_of_order_snapshots(
    ps: Seq<PlayerRecord>,
    marks: Map<usize, u64>,
    m5: PlayerStateFromServer,
    m3: PlayerStateFromServer,
    m7: PlayerStateFromServer,
    i: int,
)
    requires
        m5.player_idx == m3.player_idx && m3.player_idx == m7.player_idx,
        m5.state.tick == Tick(5) && m3.state.tick == Tick(3) && m7.state.tick == Tick(7),
        !marks.contains_key(m5.player_idx as usize),
        is_only_match(ps, has_player_idx(m5.player_idx as usize), i),
    ensures
        states_step(ps, marks, seq![m5, m3, m7]) == (
            marks.insert(m5.player_idx as usize, 7),
            seq![
                PoseUpdate {
                    entity: ps[i].entity,
                    motion: Interpolation {
                        start: ps[i].pos,
                        end: m5.state.pos,
                        steps: INTERPOLATION_STEPS,
                    },
                    sprite: m5.state.sprite,
                },
                PoseUpdate {
                    entity: ps[i].entity,
                    motion: Interpolation {
                        start: ps[i].pos,
                        end: m7.state.pos,
                        steps: INTERPOLATION_STEPS,
                    },
                    sprite: m7.state.sprite,
                },
            ],
        ),
{
    let p = m5.player_idx as usize;
    lemma_only_match_is_first(ps, has_player_idx(p), i);
    let ms = seq![m5, m3, m7];
    assert(ms.drop_last() =~= seq![m5, m3]);
    assert(seq![m5, m3].drop_last() =~= seq![m5]);
    assert(seq![m5].drop_last() =~= Seq::<PlayerStateFromServer>::empty());
    let s0 = states_step(ps, marks, Seq::empty());
    assert(s0 == (marks, Seq::<PoseUpdate>::empty()));
    assert(seq![m5].last() == m5);
    assert(seq![m5, m3].last() == m3);
    assert(ms.last() == m7);
    let s1 = states_step(ps, marks, seq![m5]);
    assert(s1 == state_step(ps, marks, m5)) by {
        assert(s1.1 =~= s0.1 + state_step(ps, marks, m5).1);
    }
    assert(s1.0 == marks.insert(p, 5));
    let s2 = states_step(ps, marks, seq![m5, m3]);
    assert(s2.0 == marks.insert(p, 5));
    assert(s2.1 =~= s1.1);
    assert(marks.insert(p, 5).insert(p, 7) =~= marks.insert(p, 7));
    let s3 = states_step(ps, marks, ms);
    assert(s3.1 =~= s2.1 + state_step(ps, s2.0, m7).1);
    assert(s3.1 =~= seq![
        PoseUpdate {
            entity: ps[i].entity,
            motion: Interpolation {
                start: ps[i].pos,
                end: m5.state.pos,
                steps: INTERPOLATION_STEPS,
            },
            sprite: m5.state.sprite,
        },
        PoseUpdate {
            entity: ps[i].entity,
            motion: Interpolation {
                start: ps[i].pos,
                end: m7.state.pos,
                steps: INTERPOLATION_STEPS,
            },
            sprite: m7.state.sprite,
        },
    ]);
}

/// The outgoing messages of a step in which the controlled player, the only
/// record with its handle, drops what it holds and grabs nothing: one drop
/// event at the player's position.
pub proof fn lemma_own_drop_sends_one_event(
    ps: Seq<PlayerRecord>,
    ids: Map<u64, u64>,
    me: usize,
    d: ItemDropEvent,
    i: int,
)
    requires
        is_only_match(ps, has_entity(d.player), i),
        ps[i].player_idx == me,
    ensures
        outgoing_events(ps, ids, me, Seq::empty(), seq![d]) == seq![
            PlayerEvent::DropItem(ps[i].pos),
        ],
{
    lemma_only_match_is_first(ps, has_entity(d.player), i);
    assert(seq![d].drop_last() =~= Seq::<ItemDropEvent>::empty());
    assert(seq![d].last() == d);
    let f = |x: ItemDropEvent| drop_message(ps, me, x);
    assert(concat_map(Seq::<ItemDropEvent>::empty(), f) == Seq::<PlayerEvent>::empty());
    assert(concat_map(seq![d], f) == concat_map(Seq::<ItemDropEvent>::empty(), f) + f(d));
    assert(f(d) == seq![PlayerEvent::DropItem(ps[i].pos)]);
    let drops = drop_messages(ps, me, seq![d]);
    assert(drops =~= seq![PlayerEvent::DropItem(ps[i].pos)]);
    assert(concat_map(
        Seq::<ItemGrabEvent>::empty(),
        |g: ItemGrabEvent| grab_message(ps, ids, me, g),
    ) == Seq::<PlayerEvent>::empty());
    assert(outgoing_events(ps, ids, me, Seq::empty(), seq![d]) =~= drops);
}

} // verus!
