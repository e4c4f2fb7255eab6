//! The byte encoding of protocol messages.
//!
//! Integers are little-endian, a `bool` is one byte (0 or 1), and an event
//! starts with a tag byte that names its variant. Decoding accepts exactly
//! the byte strings that encoding produces. A string is its UTF-8 bytes and
//! closes the message it ends.
use crate::net_id::NetId;
use crate::protocol::{
    GameEventFromServer, PlayerEvent, PlayerEventFromServer, PlayerState, PlayerStateFromServer,
    Position, SpritePose,
};
use crate::tick::Tick;
use vstd::prelude::*;
use vstd::utf8::{encode_utf8, encode_utf8_decode_utf8};

verus! {

/// The four bytes of `v`, least significant first.
pub open spec fn u32_bytes(v: u32) -> Seq<u8> {
    seq![
        (v & 0xff) as u8,
        ((v >> 8u32) & 0xff) as u8,
        ((v >> 16u32) & 0xff) as u8,
        ((v >> 24u32) & 0xff) as u8,
    ]
}

/// The eight bytes of `v`, least significant first.
pub open spec fn u64_bytes(v: u64) -> Seq<u8> {
    seq![
        (v & 0xff) as u8,
        ((v >> 8u64) & 0xff) as u8,
        ((v >> 16u64) & 0xff) as u8,
        ((v >> 24u64) & 0xff) as u8,
        ((v >> 32u64) & 0xff) as u8,
        ((v >> 40u64) & 0xff) as u8,
        ((v >> 48u64) & 0xff) as u8,
        ((v >> 56u64) & 0xff) as u8,
    ]
}

proof fn lemma_u32_bytes(v: u32, b: Seq<u8>)
    requires
        b.len() == 4,
    ensures
        u32_bytes(v) == b <==> v == ((b[0] as u32) | ((b[1] as u32) << 8u32) | ((b[2] as u32)
            << 16u32) | ((b[3] as u32) << 24u32)),
{
    let (b0, b1, b2, b3) = (b[0], b[1], b[2], b[3]);
    assert(v == ((b0 as u32) | ((b1 as u32) << 8u32) | ((b2 as u32) << 16u32) | ((b3 as u32)
        << 24u32)) <==> ((v & 0xff) as u8 == b0 && ((v >> 8u32) & 0xff) as u8 == b1 && ((v
        >> 16u32) & 0xff) as u8 == b2 && ((v >> 24u32) & 0xff) as u8 == b3)) by (bit_vector);
    if v == ((b0 as u32) | ((b1 as u32) << 8u32) | ((b2 as u32) << 16u32) | ((b3 as u32)
        << 24u32)) {
        assert(u32_bytes(v) =~= b);
    }
}

proof fn lemma_u64_bytes(v: u64, b: Seq<u8>)
    requires
        b.len() == 8,
    ensures
        u64_bytes(v) == b <==> v == ((b[0] as u64) | ((b[1] as u64) << 8u64) | ((b[2] as u64)
            << 16u64) | ((b[3] as u64) << 24u64) | ((b[4] as u64) << 32u64) | ((b[5] as u64)
            << 40u64) | ((b[6] as u64) << 48u64) | ((b[7] as u64) << 56u64)),
{
    let (b0, b1, b2, b3, b4, b5, b6, b7) = (b[0], b[1], b[2], b[3], b[4], b[5], b[6], b[7]);
    assert(v == ((b0 as u64) | ((b1 as u64) << 8u64) | ((b2 as u64) << 16u64) | ((b3 as u64)
        << 24u64) | ((b4 as u64) << 32u64) | ((b5 as u64) << 40u64) | ((b6 as u64) << 48u64) | ((
    b7 as u64) << 56u64)) <==> ((v & 0xff) as u8 == b0 && ((v >> 8u64) & 0xff) as u8 == b1 && ((v
        >> 16u64) & 0xff) as u8 == b2 && ((v >> 24u64) & 0xff) as u8 == b3 && ((v >> 32u64)
        & 0xff) as u8 == b4 && ((v >> 40u64) & 0xff) as u8 == b5 && ((v >> 48u64) & 0xff) as u8
        == b6 && ((v >> 56u64) & 0xff) as u8 == b7)) by (bit_vector);
    if v == ((b0 as u64) | ((b1 as u64) << 8u64) | ((b2 as u64) << 16u64) | ((b3 as u64)
        << 24u64) | ((b4 as u64) << 32u64) | ((b5 as u64) << 40u64) | ((b6 as u64) << 48u64) | ((
    b7 as u64) << 56u64)) {
        assert(u64_bytes(v) =~= b);
    }
}

proof fn lemma_u32_bytes_injective(a: u32, c: u32)
    ensures
        u32_bytes(a) == u32_bytes(c) ==> a == c,
{
    lemma_u32_bytes(a, u32_bytes(c));
    lemma_u32_bytes(c, u32_bytes(c));
}

proof fn lemma_u64_bytes_injective(a: u64, c: u64)
    ensures
        u64_bytes(a) == u64_bytes(c) ==> a == c,
{
    lemma_u64_bytes(a, u64_bytes(c));
    lemma_u64_bytes(c, u64_bytes(c));
}

/// The byte of a `bool`.
pub open spec fn bool_byte(v: bool) -> u8 {
    if v {
        1
    } else {
        0
    }
}

/// The twelve bytes of a position: x, y, z.
pub open spec fn position_bytes(p: Position) -> Seq<u8> {
    u32_bytes(p.x) + u32_bytes(p.y) + u32_bytes(p.z)
}

/// The ten bytes of a sprite pose: animation, frame, flip_x, flip_y.
pub open spec fn pose_bytes(s: SpritePose) -> Seq<u8> {
    u32_bytes(s.animation) + u32_bytes(s.frame) + seq![bool_byte(s.flip_x), bool_byte(s.flip_y)]
}

/// The tag byte of each event variant.
pub open spec fn event_tag(e: PlayerEvent) -> u8 {
    match e {
        PlayerEvent::SpawnPlayer(_) => 0,
        PlayerEvent::KillPlayer => 1,
        PlayerEvent::GrabItem(_) => 2,
        PlayerEvent::DropItem(_) => 3,
    }
}

/// The bytes of an event: its tag, then its payload.
pub open spec fn event_bytes(e: PlayerEvent) -> Seq<u8> {
    seq![event_tag(e)] + match e {
        PlayerEvent::SpawnPlayer(p) => position_bytes(p),
        PlayerEvent::KillPlayer => Seq::<u8>::empty(),
        PlayerEvent::GrabItem(n) => u64_bytes(n.0),
        PlayerEvent::DropItem(p) => position_bytes(p),
    }
}

/// The thirty bytes of a state snapshot: tick, position, pose.
pub open spec fn state_bytes(s: PlayerState) -> Seq<u8> {
    u64_bytes(s.tick.0) + position_bytes(s.pos) + pose_bytes(s.sprite)
}

/// The bytes of a relayed event: the origin's index, then the event.
pub open spec fn event_from_server_bytes(m: PlayerEventFromServer) -> Seq<u8> {
    seq![m.player_idx] + event_bytes(m.kind)
}

/// The bytes of a relayed snapshot: the origin's index, then the snapshot.
pub open spec fn state_from_server_bytes(m: PlayerStateFromServer) -> Seq<u8> {
    seq![m.player_idx] + state_bytes(m.state)
}

/// `r` is the decoding of `b`: the event whose bytes `b` are, or `None`
/// when `b` is the bytes of no event.
pub open spec fn event_decoding(b: Seq<u8>, r: Option<PlayerEvent>) -> bool {
    match r {
        Some(e) => event_bytes(e) == b,
        None => forall|e: PlayerEvent| event_bytes(e) != b,
    }
}

/// `r` is the decoding of `b` as a state snapshot.
pub open spec fn state_decoding(b: Seq<u8>, r: Option<PlayerState>) -> bool {
    match r {
        Some(s) => state_bytes(s) == b,
        None => forall|s: PlayerState| state_bytes(s) != b,
    }
}

/// `r` is the decoding of `b` as a relayed event.
pub open spec fn event_from_server_decoding(b: Seq<u8>, r: Option<PlayerEventFromServer>) -> bool {
    match r {
        Some(m) => event_from_server_bytes(m) == b,
        None => forall|m: PlayerEventFromServer| event_from_server_bytes(m) != b,
    }
}

/// `r` is the decoding of `b` as a relayed snapshot.
pub open spec fn state_from_server_decoding(b: Seq<u8>, r: Option<PlayerStateFromServer>) -> bool {
    match r {
        Some(m) => state_from_server_bytes(m) == b,
        None => forall|m: PlayerStateFromServer| state_from_server_bytes(m) != b,
    }
}

proof fn lemma_position_parts(p: Position)
    ensures
        position_bytes(p).len() == 12,
        position_bytes(p).subrange(0, 4) == u32_bytes(p.x),
        position_bytes(p).subrange(4, 8) == u32_bytes(p.y),
        position_bytes(p).subrange(8, 12) == u32_bytes(p.z),
{
    assert(position_bytes(p).subrange(0, 4) =~= u32_bytes(p.x));
    assert(position_bytes(p).subrange(4, 8) =~= u32_bytes(p.y));
    assert(position_bytes(p).subrange(8, 12) =~= u32_bytes(p.z));
}

proof fn lemma_position_injective(p: Position, q: Position)
    ensures
        position_bytes(p) == position_bytes(q) ==> p == q,
{
    lemma_position_parts(p);
    lemma_position_parts(q);
    lemma_u32_bytes_injective(p.x, q.x);
    lemma_u32_bytes_injective(p.y, q.y);
    lemma_u32_bytes_injective(p.z, q.z);
}

proof fn lemma_pose_parts(s: SpritePose)
    ensures
        pose_bytes(s).len() == 10,
        pose_bytes(s).subrange(0, 4) == u32_bytes(s.animation),
        pose_bytes(s).subrange(4, 8) == u32_bytes(s.frame),
        pose_bytes(s)[8] == bool_byte(s.flip_x),
        pose_bytes(s)[9] == bool_byte(s.flip_y),
{
    assert(pose_bytes(s).subrange(0, 4) =~= u32_bytes(s.animation));
    assert(pose_bytes(s).subrange(4, 8) =~= u32_bytes(s.frame));
}

proof fn lemma_pose_injective(s: SpritePose, t: SpritePose)
    ensures
        pose_bytes(s) == pose_bytes(t) ==> s == t,
{
    lemma_pose_parts(s);
    lemma_pose_parts(t);
    lemma_u32_bytes_injective(s.animation, t.animation);
    lemma_u32_bytes_injective(s.frame, t.frame);
}

proof fn lemma_event_parts(e: PlayerEvent)
    ensures
        event_bytes(e)[0] == event_tag(e),
        event_bytes(e).len() == match e {
            PlayerEvent::KillPlayer => 1int,
            PlayerEvent::GrabItem(_) => 9,
            _ => 13,
        },
        match e {
            PlayerEvent::SpawnPlayer(p) => event_bytes(e).subrange(1, 13) == position_bytes(p),
            PlayerEvent::DropItem(p) => event_bytes(e).subrange(1, 13) == position_bytes(p),
            PlayerEvent::GrabItem(n) => event_bytes(e).subrange(1, 9) == u64_bytes(n.0),
            PlayerEvent::KillPlayer => true,
        },
{
    match e {
        PlayerEvent::SpawnPlayer(p) => {
            lemma_position_parts(p);
            assert(event_bytes(e).subrange(1, 13) =~= position_bytes(p));
        },
        PlayerEvent::DropItem(p) => {
            lemma_position_parts(p);
            assert(event_bytes(e).subrange(1, 13) =~= position_bytes(p));
        },
        PlayerEvent::GrabItem(n) => {
            assert(event_bytes(e).subrange(1, 9) =~= u64_bytes(n.0));
        },
        PlayerEvent::KillPlayer => {},
    }
}

/// Two events with the same bytes are the same event.
pub proof fn lemma_event_bytes_injective(e: PlayerEvent, f: PlayerEvent)
    ensures
        event_bytes(e) == event_bytes(f) ==> e == f,
{
    lemma_event_parts(e);
    lemma_event_parts(f);
    if event_bytes(e) == event_bytes(f) {
        match (e, f) {
            (PlayerEvent::SpawnPlayer(p), PlayerEvent::SpawnPlayer(q)) => {
                lemma_position_injective(p, q);
            },
            (PlayerEvent::DropItem(p), PlayerEvent::DropItem(q)) => {
                lemma_position_injective(p, q);
            },
            (PlayerEvent::GrabItem(n), PlayerEvent::GrabItem(m)) => {
                lemma_u64_bytes_injective(n.0, m.0);
            },
            _ => {},
        }
    }
}

proof fn lemma_state_parts(s: PlayerState)
    ensures
        state_bytes(s).len() == 30,
        state_bytes(s).subrange(0, 8) == u64_bytes(s.tick.0),
        state_bytes(s).subrange(8, 20) == position_bytes(s.pos),
        state_bytes(s).subrange(20, 30) == pose_bytes(s.sprite),
{
    lemma_position_parts(s.pos);
    lemma_pose_parts(s.sprite);
    assert(state_bytes(s).subrange(0, 8) =~= u64_bytes(s.tick.0));
    assert(state_bytes(s).subrange(8, 20) =~= position_bytes(s.pos));
    assert(state_bytes(s).subrange(20, 30) =~= pose_bytes(s.sprite));
}

/// Two snapshots with the same bytes are the same snapshot.
pub proof fn lemma_state_bytes_injective(s: PlayerState, t: PlayerState)
    ensures
        state_bytes(s) == state_bytes(t) ==> s == t,
{
    lemma_state_parts(s);
    lemma_state_parts(t);
    lemma_u64_bytes_injective(s.tick.0, t.tick.0);
    lemma_position_injective(s.pos, t.pos);
    lemma_pose_injective(s.sprite, t.sprite);
}

/// Decoding the bytes of an event gives back that event.
pub proof fn lemma_event_round_trip(e: PlayerEvent, r: Option<PlayerEvent>)
    requires
        event_decoding(event_bytes(e), r),
    ensures
        r == Some(e),
{
    if let Some(f) = r {
        lemma_event_bytes_injective(e, f);
    }
}

/// Decoding the bytes of a state snapshot gives back that snapshot.
pub proof fn lemma_state_round_trip(s: PlayerState, r: Option<PlayerState>)
    requires
        state_decoding(state_bytes(s), r),
    ensures
        r == Some(s),
{
    if let Some(t) = r {
        lemma_state_bytes_injective(s, t);
    }
}

/// Decoding the bytes of a relayed event gives back that message.
pub proof fn lemma_event_from_server_round_trip(
    m: PlayerEventFromServer,
    r: Option<PlayerEventFromServer>,
)
    requires
        event_from_server_decoding(event_from_server_bytes(m), r),
    ensures
        r == Some(m),
{
    if let Some(n) = r {
        let b = event_from_server_bytes(m);
        assert(b.subrange(1, b.len() as int) =~= event_bytes(m.kind));
        assert(event_from_server_bytes(n).subrange(1, b.len() as int) =~= event_bytes(n.kind));
        lemma_event_bytes_injective(m.kind, n.kind);
        assert(b[0] == m.player_idx);
        assert(event_from_server_bytes(n)[0] == n.player_idx);
    }
}

/// Decoding the bytes of a relayed snapshot gives back that message.
pub proof fn lemma_state_from_server_round_trip(
    m: PlayerStateFromServer,
    r: Option<PlayerStateFromServer>,
)
    requires
        state_from_server_decoding(state_from_server_bytes(m), r),
    ensures
        r == Some(m),
{
    if let Some(n) = r {
        let b = state_from_server_bytes(m);
        assert(b.subrange(1, b.len() as int) =~= state_bytes(m.state));
        assert(state_from_server_bytes(n).subrange(1, b.len() as int) =~= state_bytes(n.state));
        lemma_state_bytes_injective(m.state, n.state);
        assert(b[0] == m.player_idx);
        assert(state_from_server_bytes(n)[0] == n.player_idx);
    }
}

fn push_u32(out: &mut Vec<u8>, v: u32)
    ensures
        final(out)@ == old(out)@ + u32_bytes(v),
{
    out.push((v & 0xff) as u8);
    out.push(((v >> 8u32) & 0xff) as u8);
    out.push(((v >> 16u32) & 0xff) as u8);
    out.push(((v >> 24u32) & 0xff) as u8);
    assert(out@ =~= old(out)@ + u32_bytes(v));
}

fn push_u64(out: &mut Vec<u8>, v: u64)
    ensures
        final(out)@ == old(out)@ + u64_bytes(v),
{
    out.push((v & 0xff) as u8);
    out.push(((v >> 8u64) & 0xff) as u8);
    out.push(((v >> 16u64) & 0xff) as u8);
    out.push(((v >> 24u64) & 0xff) as u8);
    out.push(((v >> 32u64) & 0xff) as u8);
    out.push(((v >> 40u64) & 0xff) as u8);
    out.push(((v >> 48u64) & 0xff) as u8);
    out.push(((v >> 56u64) & 0xff) as u8);
    assert(out@ =~= old(out)@ + u64_bytes(v));
}

fn push_bool(out: &mut Vec<u8>, v: bool)
    ensures
        final(out)@ == old(out)@.push(bool_byte(v)),
{
    out.push(if v { 1u8 } else { 0u8 });
}

fn push_position(out: &mut Vec<u8>, p: &Position)
    ensures
        final(out)@ == old(out)@ + position_bytes(*p),
{
    push_u32(out, p.x);
    push_u32(out, p.y);
    push_u32(out, p.z);
    assert(out@ =~= old(out)@ + position_bytes(*p));
}

fn push_event(out: &mut Vec<u8>, e: &PlayerEvent)
    ensures
        final(out)@ == old(out)@ + event_bytes(*e),
{
    match e {
        PlayerEvent::SpawnPlayer(p) => {
            out.push(0u8);
            push_position(out, p);
        },
        PlayerEvent::KillPlayer => {
            out.push(1u8);
        },
        PlayerEvent::GrabItem(n) => {
            out.push(2u8);
            push_u64(out, n.0);
        },
        PlayerEvent::DropItem(p) => {
            out.push(3u8);
            push_position(out, p);
        },
    }
    assert(out@ =~= old(out)@ + event_bytes(*e));
}

fn push_state(out: &mut Vec<u8>, s: &PlayerState)
    ensures
        final(out)@ == old(out)@ + state_bytes(*s),
{
    push_u64(out, s.tick.0);
    push_position(out, &s.pos);
    push_u32(out, s.sprite.animation);
    push_u32(out, s.sprite.frame);
    push_bool(out, s.sprite.flip_x);
    push_bool(out, s.sprite.flip_y);
    assert(out@ =~= old(out)@ + state_bytes(*s));
}

/// The bytes of an event.
pub fn encode_player_event(e: &PlayerEvent) -> (r: Vec<u8>)
    ensures
        r@ == event_bytes(*e),
{
    let mut out: Vec<u8> = Vec::new();
    push_event(&mut out, e);
    assert(out@ =~= event_bytes(*e));
    out
}

/// The bytes of a state snapshot.
pub fn encode_player_state(s: &PlayerState) -> (r: Vec<u8>)
    ensures
        r@ == state_bytes(*s),
{
    let mut out: Vec<u8> = Vec::new();
    push_state(&mut out, s);
    assert(out@ =~= state_bytes(*s));
    out
}

/// The bytes of a relayed event.
pub fn encode_player_event_from_server(m: &PlayerEventFromServer) -> (r: Vec<u8>)
    ensures
        r@ == event_from_server_bytes(*m),
{
    let mut out: Vec<u8> = Vec::new();
    out.push(m.player_idx);
    push_event(&mut out, &m.kind);
    assert(out@ =~= event_from_server_bytes(*m));
    out
}

/// The bytes of a relayed snapshot.
pub fn encode_player_state_from_server(m: &PlayerStateFromServer) -> (r: Vec<u8>)
    ensures
        r@ == state_from_server_bytes(*m),
{
    let mut out: Vec<u8> = Vec::new();
    out.push(m.player_idx);
    push_state(&mut out, &m.state);
    assert(out@ =~= state_from_server_bytes(*m));
    out
}

fn read_u32(b: &[u8], at: usize) -> (r: u32)
    requires
        at + 4 <= b@.len(),
    ensures
        u32_bytes(r) == b@.subrange(at as int, at + 4),
{
    let r = (b[at] as u32) | ((b[at + 1] as u32) << 8u32) | ((b[at + 2] as u32) << 16u32) | ((
    b[at + 3] as u32) << 24u32);
    proof {
        lemma_u32_bytes(r, b@.subrange(at as int, at + 4));
    }
    r
}

fn read_u64(b: &[u8], at: usize) -> (r: u64)
    requires
        at + 8 <= b@.len(),
    ensures
        u64_bytes(r) == b@.subrange(at as int, at + 8),
{
    let r = (b[at] as u64) | ((b[at + 1] as u64) << 8u64) | ((b[at + 2] as u64) << 16u64) | ((
    b[at + 3] as u64) << 24u64) | ((b[at + 4] as u64) << 32u64) | ((b[at + 5] as u64) << 40u64)
        | ((b[at + 6] as u64) << 48u64) | ((b[at + 7] as u64) << 56u64);
    proof {
        lemma_u64_bytes(r, b@.subrange(at as int, at + 8));
    }
    r
}

fn read_position(b: &[u8], at: usize) -> (r: Position)
    requires
        at + 12 <= b@.len(),
    ensures
        position_bytes(r) == b@.subrange(at as int, at + 12),
{
    let len = b.len();
    assert(at + 12 <= len);
    let x = read_u32(b, at);
    let y = read_u32(b, at + 4);
    let z = read_u32(b, at + 8);
    let r = Position { x, y, z };
    assert(position_bytes(r) =~= b@.subrange(at as int, at + 12));
    r
}

fn read_pose(b: &[u8], at: usize) -> (r: Option<SpritePose>)
    requires
        at + 10 <= b@.len(),
    ensures
        match r {
            Some(s) => pose_bytes(s) == b@.subrange(at as int, at + 10),
            None => forall|s: SpritePose| pose_bytes(s) != b@.subrange(at as int, at + 10),
        },
{
    let len = b.len();
    assert(at + 10 <= len);
    let fx = b[at + 8];
    let fy = b[at + 9];
    if fx > 1 || fy > 1 {
        assert forall|s: SpritePose| pose_bytes(s) != b@.subrange(at as int, at + 10) by {
            lemma_pose_parts(s);
            if pose_bytes(s) == b@.subrange(at as int, at + 10) {
                assert(pose_bytes(s)[8] == b@[at + 8]);
                assert(pose_bytes(s)[9] == b@[at + 9]);
            }
        }
        return None;
    }
    let animation = read_u32(b, at);
    let frame = read_u32(b, at + 4);
    let s = SpritePose { animation, frame, flip_x: fx == 1, flip_y: fy == 1 };
    assert(pose_bytes(s) =~= b@.subrange(at as int, at + 10));
    Some(s)
}

fn decode_event_at(b: &[u8], at: usize) -> (r: Option<PlayerEvent>)
    requires
        at <= b@.len(),
    ensures
        event_decoding(b@.subrange(at as int, b@.len() as int), r),
{
    let ghost rest = b@.subrange(at as int, b@.len() as int);
    let n = b.len() - at;
    if n == 0 {
        assert forall|e: PlayerEvent| event_bytes(e) != rest by {
            lemma_event_parts(e);
        }
        return None;
    }
    let tag = b[at];
    assert(rest[0] == tag);
    if tag == 0 && n == 13 {
        let p = read_position(b, at + 1);
        let e = PlayerEvent::SpawnPlayer(p);
        assert(event_bytes(e) =~= rest);
        Some(e)
    } else if tag == 1 && n == 1 {
        let e = PlayerEvent::KillPlayer;
        assert(event_bytes(e) =~= rest);
        Some(e)
    } else if tag == 2 && n == 9 {
        let id = read_u64(b, at + 1);
        let e = PlayerEvent::GrabItem(NetId(id));
        assert(event_bytes(e) =~= rest);
        Some(e)
    } else if tag == 3 && n == 13 {
        let p = read_position(b, at + 1);
        let e = PlayerEvent::DropItem(p);
        assert(event_bytes(e) =~= rest);
        Some(e)
    } else {
        assert forall|e: PlayerEvent| event_bytes(e) != rest by {
            lemma_event_parts(e);
        }
        None
    }
}

fn decode_state_at(b: &[u8], at: usize) -> (r: Option<PlayerState>)
    requires
        at <= b@.len(),
    ensures
        state_decoding(b@.subrange(at as int, b@.len() as int), r),
{
    let ghost rest = b@.subrange(at as int, b@.len() as int);
    if b.len() - at != 30 {
        assert forall|s: PlayerState| state_bytes(s) != rest by {
            lemma_state_parts(s);
        }
        return None;
    }
    let tick = read_u64(b, at);
    let pos = read_position(b, at + 8);
    match read_pose(b, at + 20) {
        Some(sprite) => {
            let s = PlayerState { tick: Tick(tick), pos, sprite };
            assert(state_bytes(s) =~= rest);
            Some(s)
        },
        None => {
            assert forall|s: PlayerState| state_bytes(s) != rest by {
                lemma_state_parts(s);
                if state_bytes(s) == rest {
                    assert(rest.subrange(20, 30) =~= b@.subrange(at + 20, at + 30));
                }
            }
            None
        },
    }
}

/// The event whose bytes `b` are, or `None` when `b` encodes no event.
pub fn decode_player_event(b: &[u8]) -> (r: Option<PlayerEvent>)
    ensures
        event_decoding(b@, r),
{
    assert(b@.subrange(0, b@.len() as int) =~= b@);
    decode_event_at(b, 0)
}

/// The snapshot whose bytes `b` are, or `None` when `b` encodes none.
pub fn decode_player_state(b: &[u8]) -> (r: Option<PlayerState>)
    ensures
        state_decoding(b@, r),
{
    assert(b@.subrange(0, b@.len() as int) =~= b@);
    decode_state_at(b, 0)
}

/// The relayed event whose bytes `b` are, or `None` when `b` encodes none.
pub fn decode_player_event_from_server(b: &[u8]) -> (r: Option<PlayerEventFromServer>)
    ensures
        event_from_server_decoding(b@, r),
{
    if b.len() == 0 {
        return None;
    }
    let ghost rest = b@.subrange(1, b@.len() as int);
    match decode_event_at(b, 1) {
        Some(kind) => {
            let m = PlayerEventFromServer { player_idx: b[0], kind };
            assert(event_from_server_bytes(m) =~= b@);
            Some(m)
        },
        None => {
            assert forall|m: PlayerEventFromServer| event_from_server_bytes(m) != b@ by {
                if event_from_server_bytes(m) == b@ {
                    assert(event_from_server_bytes(m).subrange(1, b@.len() as int) =~= event_bytes(
                        m.kind,
                    ));
                }
            }
            None
        },
    }
}

/// The relayed snapshot whose bytes `b` are, or `None` when `b` encodes none.
pub fn decode_player_state_from_server(b: &[u8]) -> (r: Option<PlayerStateFromServer>)
    ensures
        state_from_server_decoding(b@, r),
{
    if b.len() == 0 {
        return None;
    }
    match decode_state_at(b, 1) {
        Some(state) => {
            let m = PlayerStateFromServer { player_idx: b[0], state };
            assert(state_from_server_bytes(m) =~= b@);
            Some(m)
        },
        None => {
            assert forall|m: PlayerStateFromServer| state_from_server_bytes(m) != b@ by {
                if state_from_server_bytes(m) == b@ {
                    assert(state_from_server_bytes(m).subrange(1, b@.len() as int) =~= state_bytes(
                        m.state,
                    ));
                }
            }
            None
        },
    }
}

/// The bytes of a server broadcast: tag, network id, position, then the
/// item's script as UTF-8.
pub open spec fn game_event_bytes(e: GameEventFromServer) -> Seq<u8> {
    match e {
        GameEventFromServer::SpawnItem { net_id, script, pos } => seq![0u8] + u64_bytes(net_id.0)
            + position_bytes(pos) + encode_utf8(script@),
    }
}

/// `r` is the decoding of `b` as a server broadcast.
pub open spec fn game_event_decoding(b: Seq<u8>, r: Option<GameEventFromServer>) -> bool {
    match r {
        Some(e) => game_event_bytes(e) == b,
        None => forall|e: GameEventFromServer| game_event_bytes(e) != b,
    }
}

/// Two broadcasts with the same fields, a script compared by its characters.
pub open spec fn same_game_event(a: GameEventFromServer, b: GameEventFromServer) -> bool {
    match (a, b) {
        (
            GameEventFromServer::SpawnItem { net_id: na, script: sa, pos: pa },
            GameEventFromServer::SpawnItem { net_id: nb, script: sb, pos: pb },
        ) => na == nb && pa == pb && sa@ == sb@,
    }
}

proof fn lemma_game_event_parts(e: GameEventFromServer)
    ensures
        game_event_bytes(e).len() >= 21,
        game_event_bytes(e)[0] == 0,
        match e {
            GameEventFromServer::SpawnItem { net_id, script, pos } => {
                &&& game_event_bytes(e).subrange(1, 9) == u64_bytes(net_id.0)
                &&& game_event_bytes(e).subrange(9, 21) == position_bytes(pos)
                &&& game_event_bytes(e).subrange(21, game_event_bytes(e).len() as int)
                    == encode_utf8(script@)
            },
        },
{
    match e {
        GameEventFromServer::SpawnItem { net_id, script, pos } => {
            lemma_position_parts(pos);
            let b = game_event_bytes(e);
            assert(b.subrange(1, 9) =~= u64_bytes(net_id.0));
            assert(b.subrange(9, 21) =~= position_bytes(pos));
            assert(b.subrange(21, b.len() as int) =~= encode_utf8(script@));
        },
    }
}

/// Decoding the bytes of a server broadcast gives back the same broadcast.
pub proof fn lemma_game_event_round_trip(e: GameEventFromServer, r: Option<GameEventFromServer>)
    requires
        game_event_decoding(game_event_bytes(e), r),
    ensures
        r is Some,
        same_game_event(r->0, e),
{
    if let Some(f) = r {
        lemma_game_event_parts(e);
        lemma_game_event_parts(f);
        match (e, f) {
            (
                GameEventFromServer::SpawnItem { net_id: na, script: sa, pos: pa },
                GameEventFromServer::SpawnItem { net_id: nb, script: sb, pos: pb },
            ) => {
                lemma_u64_bytes_injective(na.0, nb.0);
                lemma_position_injective(pa, pb);
                encode_utf8_decode_utf8(sa@);
                encode_utf8_decode_utf8(sb@);
            },
        }
    }
}

/// Relies on `String::from_utf8`: it succeeds exactly when the bytes are
/// valid UTF-8, that is, the encoding of some characters, and the string it
/// returns holds those characters.
#[verifier::external_body]
fn string_from_utf8(bytes: Vec<u8>) -> (r: Option<String>)
    ensures
        match r {
            Some(s) => encode_utf8(s@) == bytes@,
            None => forall|t: Seq<char>| encode_utf8(t) != bytes@,
        },
{
    match String::from_utf8(bytes) {
        Ok(s) => Some(s),
        Err(_) => None,
    }
}

/// The bytes of a server broadcast.
pub fn encode_game_event(e: &GameEventFromServer) -> (r: Vec<u8>)
    ensures
        r@ == game_event_bytes(*e),
{
    let mut out: Vec<u8> = Vec::new();
    match e {
        GameEventFromServer::SpawnItem { net_id, script, pos } => {
            out.push(0u8);
            push_u64(&mut out, net_id.0);
            push_position(&mut out, pos);
            let ghost head = out@;
            let text = script.as_str();
            let bytes = text.as_bytes();
            let mut k: usize = 0;
            while k < bytes.len()
                invariant
                    k <= bytes@.len(),
                    out@ == head + bytes@.take(k as int),
                decreases bytes@.len() - k,
            {
                out.push(bytes[k]);
                k += 1;
                assert(out@ =~= head + bytes@.take(k as int));
            }
            assert(bytes@.take(k as int) =~= bytes@);
            assert(out@ =~= game_event_bytes(*e));
        },
    }
    out
}

/// The server broadcast whose bytes `b` are, or `None` when `b` encodes none.
pub fn decode_game_event(b: &[u8]) -> (r: Option<GameEventFromServer>)
    ensures
        game_event_decoding(b@, r),
{
    let n = b.len();
    if n < 21 || b[0] != 0 {
        assert forall|e: GameEventFromServer| game_event_bytes(e) != b@ by {
            lemma_game_event_parts(e);
        }
        return None;
    }
    let id = read_u64(b, 1);
    let pos = read_position(b, 9);
    let mut tail: Vec<u8> = Vec::new();
    let mut k: usize = 21;
    while k < n
        invariant
            21 <= k <= n,
            n == b@.len(),
            tail@ == b@.subrange(21, k as int),
        decreases n - k,
    {
        tail.push(b[k]);
        k += 1;
        assert(tail@ =~= b@.subrange(21, k as int));
    }
    let ghost rest = tail@;
    match string_from_utf8(tail) {
        Some(script) => {
            let e = GameEventFromServer::SpawnItem { net_id: NetId(id), script, pos };
            assert(game_event_bytes(e) =~= b@);
            Some(e)
        },
        None => {
            assert forall|e: GameEventFromServer| game_event_bytes(e) != b@ by {
                lemma_game_event_parts(e);
                if game_event_bytes(e) == b@ {
                    match e {
                        GameEventFromServer::SpawnItem { script, .. } => {
                            assert(encode_utf8(script@) == rest);
                        },
                    }
                }
            }
            None
        },
    }
}

} // verus!
