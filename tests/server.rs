use replication::net_id::{Entity, NetId};
use replication::protocol::{
    GameEventFromServer, Incoming, MessageTarget, PlayerEvent, PlayerEventFromServer, PlayerState,
    PlayerStateFromServer, Position, SpritePose,
};
use replication::server::{Outgoing, PlayerHandle, ServerGamePlugin};
use replication::tick::Tick;

fn state(tick: u64) -> PlayerState {
    PlayerState {
        tick: Tick(tick),
        pos: Position { x: 1, y: 2, z: 3 },
        sprite: SpritePose { animation: 0, frame: 0, flip_x: false, flip_y: true },
    }
}

#[test]
fn kill_from_client_one_despawns_and_relays_to_others() {
    let mut server = ServerGamePlugin::new();
    let players = [
        PlayerHandle { entity: Entity(20), player_idx: 0, held: vec![] },
        PlayerHandle { entity: Entity(21), player_idx: 1, held: vec![] },
    ];
    let step = server.handle_client_messages(
        &players,
        &[Incoming { client_idx: 1, message: PlayerEvent::KillPlayer }],
        &[],
    );
    assert_eq!(step.despawned, vec![Entity(21)]);
    assert_eq!(
        step.reliable,
        vec![Outgoing {
            message: PlayerEventFromServer { player_idx: 1, kind: PlayerEvent::KillPlayer },
            target: MessageTarget::AllExcept(1),
        }]
    );
    assert!(step.unreliable.is_empty());
}

#[test]
fn other_events_are_relayed_without_despawn() {
    let mut server = ServerGamePlugin::new();
    let players = [PlayerHandle { entity: Entity(20), player_idx: 0, held: vec![] }];
    let step = server.handle_client_messages(
        &players,
        &[
            Incoming { client_idx: 0, message: PlayerEvent::GrabItem(NetId(4)) },
            Incoming { client_idx: 2, message: PlayerEvent::KillPlayer },
        ],
        &[],
    );
    assert!(step.despawned.is_empty());
    assert_eq!(
        step.reliable,
        vec![
            Outgoing {
                message: PlayerEventFromServer { player_idx: 0, kind: PlayerEvent::GrabItem(NetId(4)) },
                target: MessageTarget::AllExcept(0),
            },
            Outgoing {
                message: PlayerEventFromServer { player_idx: 2, kind: PlayerEvent::KillPlayer },
                target: MessageTarget::AllExcept(2),
            },
        ]
    );
}

#[test]
fn snapshots_are_relayed_without_filtering() {
    let mut server = ServerGamePlugin::new();
    let step = server.handle_client_messages(
        &[],
        &[],
        &[
            Incoming { client_idx: 1, message: state(5) },
            Incoming { client_idx: 1, message: state(3) },
        ],
    );
    assert_eq!(
        step.unreliable,
        vec![
            Outgoing {
                message: PlayerStateFromServer { player_idx: 1, state: state(5) },
                target: MessageTarget::AllExcept(1),
            },
            Outgoing {
                message: PlayerStateFromServer { player_idx: 1, state: state(3) },
                target: MessageTarget::AllExcept(1),
            },
        ]
    );
}

#[test]
fn items_get_fresh_net_ids() {
    let mut server = ServerGamePlugin::new();
    let at = Position { x: 7, y: 8, z: 9 };
    let first = server.spawn_item(Entity(30), String::from("items/sword"), at);
    assert_eq!(
        first.map(|o| (o.message, o.target)),
        Some((
            GameEventFromServer::SpawnItem {
                net_id: NetId(0),
                script: String::from("items/sword"),
                pos: at
            },
            MessageTarget::All
        ))
    );
    let second = server.spawn_item(Entity(31), String::from("items/gun"), at).unwrap();
    assert_eq!(
        second.message,
        GameEventFromServer::SpawnItem { net_id: NetId(1), script: String::from("items/gun"), pos: at }
    );
    assert_eq!(server.net_ids().get_entity(NetId(1)), Some(Entity(31)));
}

#[test]
fn item_already_registered_is_not_spawned_again() {
    let mut server = ServerGamePlugin::new();
    let at = Position { x: 0, y: 0, z: 0 };
    assert!(server.spawn_item(Entity(30), String::from("a"), at).is_some());
    assert!(server.spawn_item(Entity(30), String::from("b"), at).is_none());
    assert_eq!(server.net_ids().get_net_id(Entity(30)), Some(NetId(0)));
    let next = server.spawn_item(Entity(32), String::from("c"), at).unwrap();
    assert!(matches!(next.message, GameEventFromServer::SpawnItem { net_id: NetId(1), .. }));
}

#[test]
fn despawned_item_loses_its_net_id() {
    let mut server = ServerGamePlugin::new();
    let at = Position { x: 0, y: 0, z: 0 };
    server.spawn_item(Entity(30), String::from("a"), at);
    assert_eq!(server.despawn_item(Entity(30)), Some(NetId(0)));
    assert_eq!(server.net_ids().get_entity(NetId(0)), None);
    assert_eq!(server.despawn_item(Entity(30)), None);
}

#[test]
fn kill_forgets_held_item_ids() {
    let mut server = ServerGamePlugin::new();
    let at = Position { x: 0, y: 0, z: 0 };
    server.spawn_item(Entity(30), String::from("a"), at);
    server.spawn_item(Entity(31), String::from("b"), at);
    let players = [PlayerHandle { entity: Entity(21), player_idx: 1, held: vec![Entity(30)] }];
    let step = server.handle_client_messages(
        &players,
        &[Incoming { client_idx: 1, message: PlayerEvent::KillPlayer }],
        &[],
    );
    assert_eq!(step.despawned, vec![Entity(21)]);
    assert_eq!(server.net_ids().get_net_id(Entity(30)), None);
    assert_eq!(server.net_ids().get_entity(NetId(0)), None);
    assert_eq!(server.net_ids().get_entity(NetId(1)), Some(Entity(31)));
}

#[test]
fn second_kill_in_one_step_finds_the_player_gone() {
    let mut server = ServerGamePlugin::new();
    let players = [
        PlayerHandle { entity: Entity(21), player_idx: 1, held: vec![] },
        PlayerHandle { entity: Entity(22), player_idx: 2, held: vec![] },
    ];
    let kill = Incoming { client_idx: 1, message: PlayerEvent::KillPlayer };
    let step = server.handle_client_messages(&players, &[kill, kill], &[]);
    assert_eq!(step.despawned, vec![Entity(21)]);
    assert_eq!(step.reliable.len(), 2);
}

#[test]
fn single_relays() {
    let server = ServerGamePlugin::new();
    let relay =
        server.relay_player_event(&Incoming { client_idx: 3, message: PlayerEvent::KillPlayer });
    assert_eq!(relay.message, PlayerEventFromServer { player_idx: 3, kind: PlayerEvent::KillPlayer });
    assert_eq!(relay.target, MessageTarget::AllExcept(3));
    let relay = server.relay_player_state(&Incoming { client_idx: 255, message: state(1) });
    assert_eq!(relay.message.player_idx, 255);
}
