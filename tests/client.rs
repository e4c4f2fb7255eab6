use replication::client::{ClientGamePlugin, INTERPOLATION_STEPS};
use replication::net_id::{Entity, NetId};
use replication::protocol::{
    ClientMatchInfo, GameEventFromServer, PlayerEvent, PlayerEventFromServer, PlayerState,
    PlayerStateFromServer, Position, SpritePose,
};
use replication::tick::Tick;
use replication::world::{
    Effect, Interpolation, ItemDropEvent, ItemGrabEvent, PlayerRecord, PoseUpdate, Warning,
};

fn pos(x: f32, y: f32) -> Position {
    Position { x: x.to_bits(), y: y.to_bits(), z: 0.0f32.to_bits() }
}

fn pose(frame: u32) -> SpritePose {
    SpritePose { animation: 1, frame, flip_x: false, flip_y: false }
}

fn player(entity: u64, idx: usize, at: Position, held: Vec<Entity>) -> PlayerRecord {
    PlayerRecord { entity: Entity(entity), player_idx: idx, pos: at, sprite: pose(0), held }
}

fn spawn_item(client: &mut ClientGamePlugin, entity: u64, net_id: u64) {
    let event = GameEventFromServer::SpawnItem {
        net_id: NetId(net_id),
        script: String::from("items/sword"),
        pos: pos(0.0, 0.0),
    };
    assert!(client.handle_spawn_item(Entity(entity), &event));
}

fn from(idx: u8, kind: PlayerEvent) -> PlayerEventFromServer {
    PlayerEventFromServer { player_idx: idx, kind }
}

#[test]
fn spawn_player_event_spawns_at_position() {
    let mut client = ClientGamePlugin::new(ClientMatchInfo { player_idx: 0 });
    let effects =
        client.handle_game_event(&[], &from(2, PlayerEvent::SpawnPlayer(pos(1.0, 2.0))));
    assert_eq!(effects, vec![Effect::SpawnPlayer { player_idx: 2, pos: pos(1.0, 2.0) }]);
}

#[test]
fn duplicate_spawn_is_rejected_with_warning() {
    let mut client = ClientGamePlugin::new(ClientMatchInfo { player_idx: 0 });
    let players = vec![player(12, 2, pos(0.0, 0.0), vec![])];
    let effects =
        client.handle_game_event(&players, &from(2, PlayerEvent::SpawnPlayer(pos(1.0, 2.0))));
    assert_eq!(effects, vec![Effect::Warn(Warning::DuplicateSpawn(2))]);
}

#[test]
fn spawned_item_is_registered() {
    let mut client = ClientGamePlugin::new(ClientMatchInfo { player_idx: 0 });
    spawn_item(&mut client, 50, 9);
    assert_eq!(client.net_ids().get_entity(NetId(9)), Some(Entity(50)));
    let again = GameEventFromServer::SpawnItem {
        net_id: NetId(9),
        script: String::from("items/sword"),
        pos: pos(0.0, 0.0),
    };
    assert!(!client.handle_spawn_item(Entity(51), &again));
    assert_eq!(client.net_ids().get_entity(NetId(9)), Some(Entity(50)));
}

#[test]
fn drop_then_grab_moves_item_between_players() {
    // Player 0 holds item X (entity 50, net id 9) and drops it at (3, 4);
    // then player 1 grabs it.
    let mut client = ClientGamePlugin::new(ClientMatchInfo { player_idx: 1 });
    spawn_item(&mut client, 50, 9);
    let players = vec![
        player(10, 0, pos(0.0, 0.0), vec![Entity(50)]),
        player(11, 1, pos(8.0, 0.0), vec![]),
    ];
    let dropped =
        client.handle_game_event(&players, &from(0, PlayerEvent::DropItem(pos(3.0, 4.0))));
    assert_eq!(
        dropped,
        vec![Effect::Detach { parent: Entity(10), child: Entity(50), pos: pos(3.0, 4.0) }]
    );
    let players = vec![
        player(10, 0, pos(0.0, 0.0), vec![]),
        player(11, 1, pos(8.0, 0.0), vec![]),
    ];
    let grabbed = client.handle_game_event(&players, &from(1, PlayerEvent::GrabItem(NetId(9))));
    assert_eq!(grabbed, vec![Effect::Attach { parent: Entity(11), child: Entity(50) }]);
}

#[test]
fn drop_detaches_every_held_item() {
    let mut client = ClientGamePlugin::new(ClientMatchInfo { player_idx: 1 });
    let players = vec![player(10, 0, pos(0.0, 0.0), vec![Entity(50), Entity(51)])];
    let effects =
        client.handle_game_event(&players, &from(0, PlayerEvent::DropItem(pos(1.0, 1.0))));
    assert_eq!(
        effects,
        vec![
            Effect::Detach { parent: Entity(10), child: Entity(50), pos: pos(1.0, 1.0) },
            Effect::Detach { parent: Entity(10), child: Entity(51), pos: pos(1.0, 1.0) },
        ]
    );
}

#[test]
fn drop_without_items_only_warns() {
    let mut client = ClientGamePlugin::new(ClientMatchInfo { player_idx: 1 });
    let players = vec![player(10, 0, pos(0.0, 0.0), vec![])];
    let effects =
        client.handle_game_event(&players, &from(0, PlayerEvent::DropItem(pos(1.0, 1.0))));
    assert_eq!(effects, vec![Effect::Warn(Warning::NothingToDrop(0))]);
}

#[test]
fn drop_by_absent_player_only_warns() {
    let mut client = ClientGamePlugin::new(ClientMatchInfo { player_idx: 1 });
    let effects = client.handle_game_event(&[], &from(3, PlayerEvent::DropItem(pos(1.0, 1.0))));
    assert_eq!(effects, vec![Effect::Warn(Warning::DeadPlayerDrop(3))]);
}

#[test]
fn grab_of_unknown_net_id_only_warns() {
    let mut client = ClientGamePlugin::new(ClientMatchInfo { player_idx: 1 });
    spawn_item(&mut client, 50, 9);
    let players = vec![player(10, 0, pos(0.0, 0.0), vec![])];
    let effects = client.handle_game_event(&players, &from(0, PlayerEvent::GrabItem(NetId(77))));
    assert_eq!(effects, vec![Effect::Warn(Warning::UnknownNetId(NetId(77)))]);
    assert_eq!(client.net_ids().get_entity(NetId(9)), Some(Entity(50)));
    assert_eq!(client.net_ids().get_net_id(Entity(50)), Some(NetId(9)));
}

#[test]
fn grab_by_absent_player_only_warns() {
    let mut client = ClientGamePlugin::new(ClientMatchInfo { player_idx: 1 });
    spawn_item(&mut client, 50, 9);
    let effects = client.handle_game_event(&[], &from(4, PlayerEvent::GrabItem(NetId(9))));
    assert_eq!(effects, vec![Effect::Warn(Warning::DeadPlayerGrab(4))]);
}

#[test]
fn kill_despawns_player_and_forgets_held_items() {
    let mut client = ClientGamePlugin::new(ClientMatchInfo { player_idx: 1 });
    spawn_item(&mut client, 50, 9);
    spawn_item(&mut client, 60, 10);
    let players = vec![player(10, 0, pos(0.0, 0.0), vec![Entity(50)])];
    let effects = client.handle_game_event(&players, &from(0, PlayerEvent::KillPlayer));
    assert_eq!(effects, vec![Effect::Despawn { entity: Entity(10) }]);
    assert_eq!(client.net_ids().get_entity(NetId(9)), None);
    assert_eq!(client.net_ids().get_entity(NetId(10)), Some(Entity(60)));
}

#[test]
fn kill_of_absent_player_does_nothing() {
    let mut client = ClientGamePlugin::new(ClientMatchInfo { player_idx: 1 });
    let players = vec![player(10, 0, pos(0.0, 0.0), vec![])];
    let effects = client.handle_game_event(&players, &from(2, PlayerEvent::KillPlayer));
    assert!(effects.is_empty());
}

#[test]
fn grab_of_item_despawned_a_step_earlier_only_warns() {
    let mut client = ClientGamePlugin::new(ClientMatchInfo { player_idx: 1 });
    spawn_item(&mut client, 50, 9);
    let step_one = vec![
        player(10, 0, pos(0.0, 0.0), vec![Entity(50)]),
        player(11, 1, pos(5.0, 0.0), vec![]),
    ];
    let killed = client.handle_game_event(&step_one, &from(0, PlayerEvent::KillPlayer));
    assert_eq!(killed, vec![Effect::Despawn { entity: Entity(10) }]);
    let step_two = vec![player(11, 1, pos(5.0, 0.0), vec![])];
    let grabbed = client.handle_game_event(&step_two, &from(1, PlayerEvent::GrabItem(NetId(9))));
    assert_eq!(grabbed, vec![Effect::Warn(Warning::UnknownNetId(NetId(9)))]);
    assert_eq!(client.net_ids().get_entity(NetId(9)), None);
}

#[test]
fn grab_right_after_spawn_finds_the_new_player() {
    let mut client = ClientGamePlugin::new(ClientMatchInfo { player_idx: 0 });
    spawn_item(&mut client, 50, 9);
    let spawned = client.handle_game_event(&[], &from(2, PlayerEvent::SpawnPlayer(pos(1.0, 1.0))));
    assert_eq!(spawned, vec![Effect::SpawnPlayer { player_idx: 2, pos: pos(1.0, 1.0) }]);
    // The host spawned entity 12 for player 2 before passing the next event.
    let players = vec![player(12, 2, pos(1.0, 1.0), vec![])];
    let grabbed = client.handle_game_event(&players, &from(2, PlayerEvent::GrabItem(NetId(9))));
    assert_eq!(grabbed, vec![Effect::Attach { parent: Entity(12), child: Entity(50) }]);
}

#[test]
fn second_kill_of_the_same_player_does_nothing() {
    let mut client = ClientGamePlugin::new(ClientMatchInfo { player_idx: 1 });
    let players = vec![player(10, 0, pos(0.0, 0.0), vec![])];
    let first = client.handle_game_event(&players, &from(0, PlayerEvent::KillPlayer));
    assert_eq!(first, vec![Effect::Despawn { entity: Entity(10) }]);
    let second = client.handle_game_event(&[], &from(0, PlayerEvent::KillPlayer));
    assert!(second.is_empty());
}

#[test]
fn drop_and_grab_after_kill_only_warn() {
    let mut client = ClientGamePlugin::new(ClientMatchInfo { player_idx: 1 });
    spawn_item(&mut client, 60, 10);
    let players = vec![player(10, 0, pos(0.0, 0.0), vec![])];
    let killed = client.handle_game_event(&players, &from(0, PlayerEvent::KillPlayer));
    assert_eq!(killed, vec![Effect::Despawn { entity: Entity(10) }]);
    let dropped = client.handle_game_event(&[], &from(0, PlayerEvent::DropItem(pos(1.0, 1.0))));
    assert_eq!(dropped, vec![Effect::Warn(Warning::DeadPlayerDrop(0))]);
    let grabbed = client.handle_game_event(&[], &from(0, PlayerEvent::GrabItem(NetId(10))));
    assert_eq!(grabbed, vec![Effect::Warn(Warning::DeadPlayerGrab(0))]);
}

#[test]
fn snapshots_five_three_seven_apply_five_and_seven() {
    let mut client = ClientGamePlugin::new(ClientMatchInfo { player_idx: 0 });
    let players = vec![player(11, 1, pos(0.0, 0.0), vec![])];
    let snap = |tick: u64, x: f32| PlayerStateFromServer {
        player_idx: 1,
        state: PlayerState { tick: Tick(tick), pos: pos(x, 0.0), sprite: pose(tick as u32) },
    };
    let updates = client.handle_player_state(&players, &[snap(5, 5.0), snap(3, 3.0), snap(7, 7.0)]);
    let motion = |x: f32| Interpolation {
        start: pos(0.0, 0.0),
        end: pos(x, 0.0),
        steps: INTERPOLATION_STEPS,
    };
    assert_eq!(
        updates,
        vec![
            PoseUpdate { entity: Entity(11), motion: motion(5.0), sprite: pose(5) },
            PoseUpdate { entity: Entity(11), motion: motion(7.0), sprite: pose(7) },
        ]
    );
    assert_eq!(client.ticks().watermark(1), Some(7));
    assert_eq!(INTERPOLATION_STEPS, 2);
}

#[test]
fn fresh_snapshot_of_absent_player_still_moves_watermark() {
    let mut client = ClientGamePlugin::new(ClientMatchInfo { player_idx: 0 });
    let s = PlayerStateFromServer {
        player_idx: 3,
        state: PlayerState { tick: Tick(4), pos: pos(1.0, 1.0), sprite: pose(0) },
    };
    let updates = client.handle_player_state(&[], &[s]);
    assert!(updates.is_empty());
    assert_eq!(client.ticks().watermark(3), Some(4));
}

#[test]
fn only_own_grabs_and_drops_are_sent() {
    let mut client = ClientGamePlugin::new(ClientMatchInfo { player_idx: 0 });
    spawn_item(&mut client, 50, 9);
    let players = vec![
        player(10, 0, pos(2.0, 3.0), vec![]),
        player(11, 1, pos(8.0, 0.0), vec![]),
    ];
    let grabs = [
        ItemGrabEvent { player: Entity(10), item: Entity(50) },
        ItemGrabEvent { player: Entity(11), item: Entity(50) },
        ItemGrabEvent { player: Entity(10), item: Entity(99) },
    ];
    let drops = [ItemDropEvent { player: Entity(11) }, ItemDropEvent { player: Entity(10) }];
    let (sent, warnings) = client.send_game_events(&players, &grabs, &drops);
    assert_eq!(sent, vec![PlayerEvent::GrabItem(NetId(9)), PlayerEvent::DropItem(pos(2.0, 3.0))]);
    assert_eq!(warnings, vec![Warning::ItemWithoutNetId(Entity(99))]);
}

#[test]
fn one_snapshot_per_step_with_fresh_ticks() {
    let mut client = ClientGamePlugin::new(ClientMatchInfo { player_idx: 1 });
    let players = vec![
        player(10, 0, pos(0.0, 0.0), vec![]),
        player(11, 1, pos(6.0, 1.0), vec![]),
    ];
    let first = client.send_player_state(&players);
    let second = client.send_player_state(&players);
    assert_eq!(first, vec![PlayerState { tick: Tick(1), pos: pos(6.0, 1.0), sprite: pose(0) }]);
    assert_eq!(second, vec![PlayerState { tick: Tick(2), pos: pos(6.0, 1.0), sprite: pose(0) }]);
    assert_eq!(client.match_info(), ClientMatchInfo { player_idx: 1 });
}
