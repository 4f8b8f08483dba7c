//! The wire vocabulary and its binary encoding.
//!
//! Each message is a little-endian 32-bit tag followed by its fixed-width
//! field payload, with no external length prefix: the tag alone determines
//! how many bytes the message occupies, so the format is self-delimiting
//! and messages may be concatenated back-to-back in one byte stream.
//! Signed input axes travel with a fixed bias so the wire holds only
//! unsigned words. A decoder either consumes exactly one whole message,
//! reports that the remaining bytes are too short to hold one (so a reader
//! can buffer them and retry after the next read), or reports that the
//! front of the buffer can never begin a message.

use vstd::prelude::*;

use crate::game::Player;
use crate::game::PlayerInput;
use crate::game::player_valid;

verus! {

/// Wire tag of `NetworkMessages::InvalidMessage`.
pub const TAG_INVALID: u32 = 0;

/// Wire tag of `NetworkMessages::AddLocal`.
pub const TAG_ADD_LOCAL: u32 = 1;

/// Wire tag of `NetworkMessages::AddPlayer`.
pub const TAG_ADD_PLAYER: u32 = 2;

/// Wire tag of `NetworkMessages::RemovePlayer`.
pub const TAG_REMOVE_PLAYER: u32 = 3;

/// Wire tag of `NetworkMessages::ClientInputChange`.
pub const TAG_CLIENT_INPUT_CHANGE: u32 = 4;

/// Wire tag of `NetworkMessages::Position`.
pub const TAG_POSITION: u32 = 5;

/// Bias added to a signed axis before it is written as an unsigned word.
pub const AXIS_BIAS: u32 = 2147483648;

/// The wire protocol's variant set.
#[derive(PartialEq, Eq, Structural, Clone, Copy, Debug)]
pub enum NetworkMessages {
    /// Decode-failure sentinel; never transmitted intentionally.
    InvalidMessage,
    /// Handshake: "you are this player".
    AddLocal(Player),
    /// Another player exists or has joined.
    AddPlayer(Player),
    /// The named player left.
    RemovePlayer { id: u32 },
    /// Client-to-server movement command.
    ClientInputChange(PlayerInput),
    /// Server-to-client authoritative state push.
    Position(Player),
}

/// What one decoding step found at the front of a buffer.
#[derive(PartialEq, Eq, Structural, Clone, Copy, Debug)]
pub enum DecodeOutcome {
    /// Too few bytes remain to hold one complete message.
    Incomplete,
    /// The bytes at the front can never begin a message.
    Malformed,
    /// One whole message and the exact count of bytes it occupied.
    Decoded { msg: NetworkMessages, used: usize },
}

/// The four little-endian bytes of a 32-bit word.
pub open spec fn u32_le(v: u32) -> Seq<u8> {
    seq![
        (v & 0xff) as u8,
        ((v >> 8) & 0xff) as u8,
        ((v >> 16) & 0xff) as u8,
        ((v >> 24) & 0xff) as u8,
    ]
}

/// The 32-bit word held by four little-endian bytes.
pub open spec fn u32_from_le(b0: u8, b1: u8, b2: u8, b3: u8) -> u32 {
    (b0 as u32) | ((b1 as u32) << 8) | ((b2 as u32) << 16) | ((b3 as u32) << 24)
}

/// The word starting at byte `i` of `b`.
pub open spec fn word_at(b: Seq<u8>, i: int) -> u32 {
    u32_from_le(b[i], b[i + 1], b[i + 2], b[i + 3])
}

/// A signed axis as it stands on the wire.
pub open spec fn axis_to_wire(a: i32) -> u32 {
    (a + AXIS_BIAS) as u32
}

/// The signed axis a wire word stands for.
pub open spec fn axis_from_wire(w: u32) -> i32 {
    (w - AXIS_BIAS) as i32
}

/// A run of 32-bit words laid out back-to-back in little-endian bytes.
pub open spec fn words_bytes(ws: Seq<u32>) -> Seq<u8>
    decreases ws.len(),
{
    if ws.len() == 0 {
        Seq::empty()
    } else {
        u32_le(ws[0]) + words_bytes(ws.skip(1))
    }
}

/// A player's fields in wire order.
pub open spec fn player_words(p: Player) -> Seq<u32> {
    seq![p.id, p.cur_sequence_id, p.pos_x, p.pos_y, p.col_r, p.col_g, p.col_b, p.col_a]
}

/// The 32-byte payload of a player: eight words, field by field.
pub open spec fn player_bytes(p: Player) -> Seq<u8> {
    words_bytes(player_words(p))
}

/// An input's fields in wire order, axes biased.
pub open spec fn input_words(i: PlayerInput) -> Seq<u32> {
    seq![i.id, i.cur_sequence_id, axis_to_wire(i.up_down), axis_to_wire(i.left_right)]
}

/// The 16-byte payload of an input: four words.
pub open spec fn input_bytes(i: PlayerInput) -> Seq<u8> {
    words_bytes(input_words(i))
}

/// The tag word of a message.
pub open spec fn msg_tag(m: NetworkMessages) -> u32 {
    match m {
        NetworkMessages::InvalidMessage => TAG_INVALID,
        NetworkMessages::AddLocal(_) => TAG_ADD_LOCAL,
        NetworkMessages::AddPlayer(_) => TAG_ADD_PLAYER,
        NetworkMessages::RemovePlayer { .. } => TAG_REMOVE_PLAYER,
        NetworkMessages::ClientInputChange(_) => TAG_CLIENT_INPUT_CHANGE,
        NetworkMessages::Position(_) => TAG_POSITION,
    }
}

/// The field payload of a message, without its tag.
pub open spec fn msg_payload(m: NetworkMessages) -> Seq<u8> {
    match m {
        NetworkMessages::InvalidMessage => Seq::empty(),
        NetworkMessages::AddLocal(p) => player_bytes(p),
        NetworkMessages::AddPlayer(p) => player_bytes(p),
        NetworkMessages::RemovePlayer { id } => u32_le(id),
        NetworkMessages::ClientInputChange(i) => input_bytes(i),
        NetworkMessages::Position(p) => player_bytes(p),
    }
}

/// The complete wire form of a message: tag, then payload.
pub open spec fn msg_bytes(m: NetworkMessages) -> Seq<u8> {
    u32_le(msg_tag(m)) + msg_payload(m)
}

/// A message whose carried player, if any, is well formed. Only such
/// messages are put on the wire, and only such messages decode.
pub open spec fn msg_valid(m: NetworkMessages) -> bool {
    match m {
        NetworkMessages::AddLocal(p) => player_valid(p),
        NetworkMessages::AddPlayer(p) => player_valid(p),
        NetworkMessages::Position(p) => player_valid(p),
        _ => true,
    }
}

/// The player whose payload starts at byte `i` of `b`.
pub open spec fn player_from(b: Seq<u8>, i: int) -> Player {
    Player {
        id: word_at(b, i),
        cur_sequence_id: word_at(b, i + 4),
        pos_x: word_at(b, i + 8),
        pos_y: word_at(b, i + 12),
        col_r: word_at(b, i + 16),
        col_g: word_at(b, i + 20),
        col_b: word_at(b, i + 24),
        col_a: word_at(b, i + 28),
    }
}

/// The input whose payload starts at byte `i` of `b`.
pub open spec fn input_from(b: Seq<u8>, i: int) -> PlayerInput {
    PlayerInput {
        id: word_at(b, i),
        cur_sequence_id: word_at(b, i + 4),
        up_down: axis_from_wire(word_at(b, i + 8)),
        left_right: axis_from_wire(word_at(b, i + 12)),
    }
}

/// What decoding finds at the front of `b`: the unique message whose wire
/// form is a prefix of `b`, a report that `b` is a proper prefix of some
/// message, or a report that no message can ever start here.
pub open spec fn decode_spec(b: Seq<u8>) -> DecodeOutcome {
    if b.len() < 4 {
        DecodeOutcome::Incomplete
    } else {
        let tag = word_at(b, 0);
        if tag == TAG_INVALID {
            DecodeOutcome::Decoded { msg: NetworkMessages::InvalidMessage, used: 4 }
        } else if tag == TAG_ADD_LOCAL || tag == TAG_ADD_PLAYER || tag == TAG_POSITION {
            if b.len() < 36 {
                DecodeOutcome::Incomplete
            } else {
                let p = player_from(b, 4);
                if player_valid(p) {
                    if tag == TAG_ADD_LOCAL {
                        DecodeOutcome::Decoded { msg: NetworkMessages::AddLocal(p), used: 36 }
                    } else if tag == TAG_ADD_PLAYER {
                        DecodeOutcome::Decoded { msg: NetworkMessages::AddPlayer(p), used: 36 }
                    } else {
                        DecodeOutcome::Decoded { msg: NetworkMessages::Position(p), used: 36 }
                    }
                } else {
                    DecodeOutcome::Malformed
                }
            }
        } else if tag == TAG_REMOVE_PLAYER {
            if b.len() < 8 {
                DecodeOutcome::Incomplete
            } else {
                DecodeOutcome::Decoded {
                    msg: NetworkMessages::RemovePlayer { id: word_at(b, 4) },
                    used: 8,
                }
            }
        } else if tag == TAG_CLIENT_INPUT_CHANGE {
            if b.len() < 20 {
                DecodeOutcome::Incomplete
            } else {
                DecodeOutcome::Decoded {
                    msg: NetworkMessages::ClientInputChange(input_from(b, 4)),
                    used: 20,
                }
            }
        } else {
            DecodeOutcome::Malformed
        }
    }
}

proof fn lemma_u32_le_round(v: u32)
    ensures
        u32_from_le(u32_le(v)[0], u32_le(v)[1], u32_le(v)[2], u32_le(v)[3]) == v,
{
    assert((((v & 0xff) as u8) as u32) | ((((v >> 8) & 0xff) as u8) as u32) << 8 | ((((v >> 16)
        & 0xff) as u8) as u32) << 16 | ((((v >> 24) & 0xff) as u8) as u32) << 24 == v)
        by (bit_vector);
}

proof fn lemma_word_at(v: u32, pre: Seq<u8>, rest: Seq<u8>)
    ensures
        word_at(pre + (u32_le(v) + rest), pre.len() as int) == v,
{
    let b = pre + (u32_le(v) + rest);
    let n = pre.len() as int;
    assert(b[n] == u32_le(v)[0]);
    assert(b[n + 1] == u32_le(v)[1]);
    assert(b[n + 2] == u32_le(v)[2]);
    assert(b[n + 3] == u32_le(v)[3]);
    lemma_u32_le_round(v);
}

proof fn lemma_words_bytes_len(ws: Seq<u32>)
    ensures
        words_bytes(ws).len() == 4 * ws.len(),
    decreases ws.len(),
{
    if ws.len() > 0 {
        lemma_words_bytes_len(ws.skip(1));
    }
}

proof fn lemma_word_in_words(ws: Seq<u32>, pre: Seq<u8>, rest: Seq<u8>, k: int)
    requires
        0 <= k < ws.len(),
    ensures
        word_at(pre + (words_bytes(ws) + rest), pre.len() + 4 * k) == ws[k],
    decreases k,
{
    let tailws = ws.skip(1);
    if k == 0 {
        assert(pre + (words_bytes(ws) + rest) =~= pre + (u32_le(ws[0]) + (words_bytes(tailws)
            + rest)));
        lemma_word_at(ws[0], pre, words_bytes(tailws) + rest);
    } else {
        assert(pre + (words_bytes(ws) + rest) =~= (pre + u32_le(ws[0])) + (words_bytes(tailws)
            + rest));
        lemma_word_in_words(tailws, pre + u32_le(ws[0]), rest, k - 1);
        assert(tailws[k - 1] == ws[k]);
    }
}

proof fn lemma_player_from_concat(p: Player, pre: Seq<u8>, tail: Seq<u8>)
    ensures
        player_from(pre + (player_bytes(p) + tail), pre.len() as int) == p,
        player_bytes(p).len() == 32,
{
    let ws = player_words(p);
    lemma_words_bytes_len(ws);
    lemma_word_in_words(ws, pre, tail, 0);
    lemma_word_in_words(ws, pre, tail, 1);
    lemma_word_in_words(ws, pre, tail, 2);
    lemma_word_in_words(ws, pre, tail, 3);
    lemma_word_in_words(ws, pre, tail, 4);
    lemma_word_in_words(ws, pre, tail, 5);
    lemma_word_in_words(ws, pre, tail, 6);
    lemma_word_in_words(ws, pre, tail, 7);
}

proof fn lemma_axis_round(a: i32)
    ensures
        axis_from_wire(axis_to_wire(a)) == a,
{
}

proof fn lemma_input_from_concat(i: PlayerInput, pre: Seq<u8>, tail: Seq<u8>)
    ensures
        input_from(pre + (input_bytes(i) + tail), pre.len() as int) == i,
        input_bytes(i).len() == 16,
{
    let ws = input_words(i);
    lemma_words_bytes_len(ws);
    lemma_word_in_words(ws, pre, tail, 0);
    lemma_word_in_words(ws, pre, tail, 1);
    lemma_word_in_words(ws, pre, tail, 2);
    lemma_word_in_words(ws, pre, tail, 3);
    lemma_axis_round(i.up_down);
    lemma_axis_round(i.left_right);
}

proof fn lemma_decode_player_payload(tag: u32, p: Player, tail: Seq<u8>)
    ensures
        ({
            let b = u32_le(tag) + (player_bytes(p) + tail);
            &&& b.len() == 36 + tail.len()
            &&& word_at(b, 0) == tag
            &&& player_from(b, 4) == p
        }),
{
    let b = u32_le(tag) + (player_bytes(p) + tail);
    assert(b =~= Seq::<u8>::empty() + (u32_le(tag) + (player_bytes(p) + tail)));
    lemma_word_at(tag, Seq::<u8>::empty(), player_bytes(p) + tail);
    lemma_player_from_concat(p, u32_le(tag), tail);
}

proof fn lemma_decode_input_payload(tag: u32, i: PlayerInput, tail: Seq<u8>)
    ensures
        ({
            let b = u32_le(tag) + (input_bytes(i) + tail);
            &&& b.len() == 20 + tail.len()
            &&& word_at(b, 0) == tag
            &&& input_from(b, 4) == i
        }),
{
    let b = u32_le(tag) + (input_bytes(i) + tail);
    assert(b =~= Seq::<u8>::empty() + (u32_le(tag) + (input_bytes(i) + tail)));
    lemma_word_at(tag, Seq::<u8>::empty(), input_bytes(i) + tail);
    lemma_input_from_concat(i, u32_le(tag), tail);
}

proof fn lemma_decode_word_payload(tag: u32, id: u32, tail: Seq<u8>)
    ensures
        ({
            let b = u32_le(tag) + (u32_le(id) + tail);
            &&& b.len() == 8 + tail.len()
            &&& word_at(b, 0) == tag
            &&& word_at(b, 4) == id
        }),
{
    let b = u32_le(tag) + (u32_le(id) + tail);
    assert(b =~= Seq::<u8>::empty() + (u32_le(tag) + (u32_le(id) + tail)));
    lemma_word_at(tag, Seq::<u8>::empty(), u32_le(id) + tail);
    lemma_word_at(id, u32_le(tag), tail);
}

/// The encoding is self-delimiting: wherever the wire form of a valid
/// message is followed by arbitrary further bytes, decoding finds exactly
/// that message and consumes exactly its own bytes, leaving the tail.
pub proof fn lemma_decode_encode_with_tail(m: NetworkMessages, tail: Seq<u8>)
    requires
        msg_valid(m),
    ensures
        decode_spec(msg_bytes(m) + tail) == (DecodeOutcome::Decoded {
            msg: m,
            used: msg_bytes(m).len() as usize,
        }),
        msg_bytes(m).len() + tail.len() == (msg_bytes(m) + tail).len(),
        4 <= msg_bytes(m).len() <= 36,
{
    let b = msg_bytes(m) + tail;
    let tag = msg_tag(m);
    match m {
        NetworkMessages::InvalidMessage => {
            assert(b =~= Seq::<u8>::empty() + (u32_le(tag) + (Seq::empty() + tail)));
            lemma_word_at(tag, Seq::<u8>::empty(), Seq::empty() + tail);
            assert(msg_bytes(m) =~= u32_le(tag));
        },
        NetworkMessages::AddLocal(p) => {
            assert(b =~= u32_le(tag) + (player_bytes(p) + tail));
            lemma_decode_player_payload(tag, p, tail);
        },
        NetworkMessages::AddPlayer(p) => {
            assert(b =~= u32_le(tag) + (player_bytes(p) + tail));
            lemma_decode_player_payload(tag, p, tail);
        },
        NetworkMessages::Position(p) => {
            assert(b =~= u32_le(tag) + (player_bytes(p) + tail));
            lemma_decode_player_payload(tag, p, tail);
        },
        NetworkMessages::RemovePlayer { id } => {
            assert(b =~= u32_le(tag) + (u32_le(id) + tail));
            lemma_decode_word_payload(tag, id, tail);
        },
        NetworkMessages::ClientInputChange(i) => {
            assert(b =~= u32_le(tag) + (input_bytes(i) + tail));
            lemma_decode_input_payload(tag, i, tail);
        },
    }
}

/// Round trip: encoding any valid message and decoding the resulting
/// bytes yields a value equal to the original, consuming the whole buffer.
pub proof fn lemma_round_trip(m: NetworkMessages)
    requires
        msg_valid(m),
    ensures
        decode_spec(msg_bytes(m)) == (DecodeOutcome::Decoded {
            msg: m,
            used: msg_bytes(m).len() as usize,
        }),
{
    assert(msg_bytes(m) + Seq::<u8>::empty() =~= msg_bytes(m));
    lemma_decode_encode_with_tail(m, Seq::<u8>::empty());
}

/// Self-delimiting concatenation: the encoded bytes of two valid messages,
/// laid back-to-back, decode twice from the combined buffer into the
/// original two messages in their original order, consuming it exactly.
pub proof fn lemma_two_messages_decode_in_order(m1: NetworkMessages, m2: NetworkMessages)
    requires
        msg_valid(m1),
        msg_valid(m2),
    ensures
        ({
            let b = msg_bytes(m1) + msg_bytes(m2);
            let n1 = msg_bytes(m1).len() as int;
            &&& decode_spec(b) == (DecodeOutcome::Decoded { msg: m1, used: n1 as usize })
            &&& decode_spec(b.skip(n1)) == (DecodeOutcome::Decoded {
                msg: m2,
                used: msg_bytes(m2).len() as usize,
            })
            &&& n1 + msg_bytes(m2).len() == b.len()
        }),
{
    let b = msg_bytes(m1) + msg_bytes(m2);
    let n1 = msg_bytes(m1).len() as int;
    lemma_decode_encode_with_tail(m1, msg_bytes(m2));
    assert(b.skip(n1) =~= msg_bytes(m2));
    lemma_round_trip(m2);
}

/// Any decoded message lies between one word and the whole buffer, and is
/// well formed.
pub proof fn lemma_decode_bounds(b: Seq<u8>)
    ensures
        decode_spec(b) matches DecodeOutcome::Decoded { msg, used } ==> 4 <= used <= b.len()
            && msg_valid(msg),
{
}

fn read_u32(buf: &Vec<u8>, i: usize) -> (v: u32)
    requires
        i + 4 <= buf.len(),
    ensures
        v == u32_from_le(buf@[i as int], buf@[i + 1], buf@[i + 2], buf@[i + 3]),
{
    (buf[i] as u32) | ((buf[i + 1] as u32) << 8) | ((buf[i + 2] as u32) << 16) | ((buf[i + 3]
        as u32) << 24)
}

fn write_u32(out: &mut Vec<u8>, v: u32)
    ensures
        final(out)@ == old(out)@ + u32_le(v),
{
    proof {
        assert(v & 0xff < 256) by (bit_vector);
        assert((v >> 8) & 0xff < 256) by (bit_vector);
        assert((v >> 16) & 0xff < 256) by (bit_vector);
        assert((v >> 24) & 0xff < 256) by (bit_vector);
    }
    out.push((v & 0xff) as u8);
    out.push(((v >> 8) & 0xff) as u8);
    out.push(((v >> 16) & 0xff) as u8);
    out.push(((v >> 24) & 0xff) as u8);
    proof {
        assert(out@ =~= old(out)@ + u32_le(v));
    }
}

fn axis_encode(a: i32) -> (w: u32)
    ensures
        w == axis_to_wire(a),
{
    let v: i64 = a as i64 + AXIS_BIAS as i64;
    v as u32
}

fn axis_decode(w: u32) -> (a: i32)
    ensures
        a == axis_from_wire(w),
{
    let v: i64 = w as i64 - AXIS_BIAS as i64;
    v as i32
}

proof fn lemma_player_bytes_unfold(p: Player)
    ensures
        player_bytes(p) == u32_le(p.id) + (u32_le(p.cur_sequence_id) + (u32_le(p.pos_x) + (u32_le(
            p.pos_y,
        ) + (u32_le(p.col_r) + (u32_le(p.col_g) + (u32_le(p.col_b) + u32_le(p.col_a))))))),
{
    reveal_with_fuel(words_bytes, 10);
    let w0 = player_words(p);
    let w1 = seq![p.cur_sequence_id, p.pos_x, p.pos_y, p.col_r, p.col_g, p.col_b, p.col_a];
    let w2 = seq![p.pos_x, p.pos_y, p.col_r, p.col_g, p.col_b, p.col_a];
    let w3 = seq![p.pos_y, p.col_r, p.col_g, p.col_b, p.col_a];
    let w4 = seq![p.col_r, p.col_g, p.col_b, p.col_a];
    let w5 = seq![p.col_g, p.col_b, p.col_a];
    let w6 = seq![p.col_b, p.col_a];
    let w7 = seq![p.col_a];
    assert(w0.skip(1) =~= w1);
    assert(w1.skip(1) =~= w2);
    assert(w2.skip(1) =~= w3);
    assert(w3.skip(1) =~= w4);
    assert(w4.skip(1) =~= w5);
    assert(w5.skip(1) =~= w6);
    assert(w6.skip(1) =~= w7);
    assert(w7.skip(1) =~= Seq::<u32>::empty());
    assert(words_bytes(w7) =~= u32_le(p.col_a));
}

proof fn lemma_input_bytes_unfold(i: PlayerInput)
    ensures
        input_bytes(i) == u32_le(i.id) + (u32_le(i.cur_sequence_id) + (u32_le(
            axis_to_wire(i.up_down),
        ) + u32_le(axis_to_wire(i.left_right)))),
{
    reveal_with_fuel(words_bytes, 6);
    let w0 = input_words(i);
    let w1 = seq![i.cur_sequence_id, axis_to_wire(i.up_down), axis_to_wire(i.left_right)];
    let w2 = seq![axis_to_wire(i.up_down), axis_to_wire(i.left_right)];
    let w3 = seq![axis_to_wire(i.left_right)];
    assert(w0.skip(1) =~= w1);
    assert(w1.skip(1) =~= w2);
    assert(w2.skip(1) =~= w3);
    assert(w3.skip(1) =~= Seq::<u32>::empty());
    assert(words_bytes(w3) =~= u32_le(axis_to_wire(i.left_right)));
}

fn write_player(out: &mut Vec<u8>, p: &Player)
    ensures
        final(out)@ == old(out)@ + player_bytes(*p),
{
    write_u32(out, p.id);
    write_u32(out, p.cur_sequence_id);
    write_u32(out, p.pos_x);
    write_u32(out, p.pos_y);
    write_u32(out, p.col_r);
    write_u32(out, p.col_g);
    write_u32(out, p.col_b);
    write_u32(out, p.col_a);
    proof {
        lemma_player_bytes_unfold(*p);
        assert(out@ =~= old(out)@ + player_bytes(*p));
    }
}

/// Append the wire form of one message to `out`.
pub fn encode_message(out: &mut Vec<u8>, m: &NetworkMessages)
    ensures
        final(out)@ == old(out)@ + msg_bytes(*m),
{
    match m {
        NetworkMessages::InvalidMessage => {
            write_u32(out, TAG_INVALID);
        },
        NetworkMessages::AddLocal(p) => {
            write_u32(out, TAG_ADD_LOCAL);
            write_player(out, p);
        },
        NetworkMessages::AddPlayer(p) => {
            write_u32(out, TAG_ADD_PLAYER);
            write_player(out, p);
        },
        NetworkMessages::RemovePlayer { id } => {
            write_u32(out, TAG_REMOVE_PLAYER);
            write_u32(out, *id);
        },
        NetworkMessages::ClientInputChange(i) => {
            write_u32(out, TAG_CLIENT_INPUT_CHANGE);
            write_u32(out, i.id);
            write_u32(out, i.cur_sequence_id);
            write_u32(out, axis_encode(i.up_down));
            write_u32(out, axis_encode(i.left_right));
            proof {
                lemma_input_bytes_unfold(*i);
            }
        },
        NetworkMessages::Position(p) => {
            write_u32(out, TAG_POSITION);
            write_player(out, p);
        },
    }
    proof {
        assert(out@ =~= old(out)@ + msg_bytes(*m));
    }
}

/// The wire form of one message as a fresh buffer.
pub fn encode_message_vec(m: &NetworkMessages) -> (out: Vec<u8>)
    ensures
        out@ == msg_bytes(*m),
{
    let mut out: Vec<u8> = Vec::new();
    encode_message(&mut out, m);
    proof {
        assert(out@ =~= msg_bytes(*m));
    }
    out
}

/// Whether a message may be put on the wire or handed to a mirror:
/// the carried player, if any, is well formed.
pub fn message_valid(m: &NetworkMessages) -> (b: bool)
    ensures
        b == msg_valid(*m),
{
    match m {
        NetworkMessages::AddLocal(p) => player_valid_exec(p),
        NetworkMessages::AddPlayer(p) => player_valid_exec(p),
        NetworkMessages::Position(p) => player_valid_exec(p),
        _ => true,
    }
}

fn player_valid_exec(p: &Player) -> (b: bool)
    ensures
        b == player_valid(*p),
{
    p.pos_x <= crate::game::POS_MAX_X && p.pos_y <= crate::game::POS_MAX_Y && p.col_r
        <= crate::game::SCALE && p.col_g <= crate::game::SCALE && p.col_b <= crate::game::SCALE
        && p.col_a <= crate::game::SCALE
}

/// Decode the message starting at byte `start` of `buf`, if a whole one
/// is there.
pub fn decode_message(buf: &Vec<u8>, start: usize) -> (r: DecodeOutcome)
    requires
        start <= buf.len(),
    ensures
        r == decode_spec(buf@.skip(start as int)),
{
    let ghost tail = buf@.skip(start as int);
    let remaining = buf.len() - start;
    if remaining < 4 {
        return DecodeOutcome::Incomplete;
    }
    let tag = read_u32(buf, start);
    proof {
        assert(tag == word_at(tail, 0));
    }
    if tag == TAG_INVALID {
        DecodeOutcome::Decoded { msg: NetworkMessages::InvalidMessage, used: 4 }
    } else if tag == TAG_ADD_LOCAL || tag == TAG_ADD_PLAYER || tag == TAG_POSITION {
        if remaining < 36 {
            return DecodeOutcome::Incomplete;
        }
        let p = Player {
            id: read_u32(buf, start + 4),
            cur_sequence_id: read_u32(buf, start + 8),
            pos_x: read_u32(buf, start + 12),
            pos_y: read_u32(buf, start + 16),
            col_r: read_u32(buf, start + 20),
            col_g: read_u32(buf, start + 24),
            col_b: read_u32(buf, start + 28),
            col_a: read_u32(buf, start + 32),
        };
        proof {
            assert(p == player_from(tail, 4));
        }
        if !player_valid_exec(&p) {
            return DecodeOutcome::Malformed;
        }
        if tag == TAG_ADD_LOCAL {
            DecodeOutcome::Decoded { msg: NetworkMessages::AddLocal(p), used: 36 }
        } else if tag == TAG_ADD_PLAYER {
            DecodeOutcome::Decoded { msg: NetworkMessages::AddPlayer(p), used: 36 }
        } else {
            DecodeOutcome::Decoded { msg: NetworkMessages::Position(p), used: 36 }
        }
    } else if tag == TAG_REMOVE_PLAYER {
        if remaining < 8 {
            return DecodeOutcome::Incomplete;
        }
        DecodeOutcome::Decoded {
            msg: NetworkMessages::RemovePlayer { id: read_u32(buf, start + 4) },
            used: 8,
        }
    } else if tag == TAG_CLIENT_INPUT_CHANGE {
        if remaining < 20 {
            return DecodeOutcome::Incomplete;
        }
        let i = PlayerInput {
            id: read_u32(buf, start + 4),
            cur_sequence_id: read_u32(buf, start + 8),
            up_down: axis_decode(read_u32(buf, start + 12)),
            left_right: axis_decode(read_u32(buf, start + 16)),
        };
        proof {
            assert(i == input_from(tail, 4));
        }
        DecodeOutcome::Decoded { msg: NetworkMessages::ClientInputChange(i), used: 20 }
    } else {
        DecodeOutcome::Malformed
    }
}

/// The run of messages that a reader forwards from the front of a buffer:
/// every whole message in order, the decode-failure sentinel left out,
/// stopping where the bytes run short or can no longer begin a message.
pub open spec fn stream_kept(b: Seq<u8>) -> Seq<NetworkMessages>
    decreases b.len(),
{
    match decode_spec(b) {
        DecodeOutcome::Decoded { msg, used } => {
            if 0 < used <= b.len() {
                if msg is InvalidMessage {
                    stream_kept(b.skip(used as int))
                } else {
                    seq![msg] + stream_kept(b.skip(used as int))
                }
            } else {
                seq![]
            }
        },
        _ => seq![],
    }
}

/// Draining a buffer that begins with the wire form of one valid,
/// non-sentinel message forwards that message first and then whatever
/// the remaining bytes hold: concatenated encodings replay in order.
pub proof fn lemma_stream_kept_unfolds(m: NetworkMessages, rest: Seq<u8>)
    requires
        msg_valid(m),
        !(m is InvalidMessage),
    ensures
        stream_kept(msg_bytes(m) + rest) == seq![m] + stream_kept(rest),
{
    let b = msg_bytes(m) + rest;
    lemma_decode_encode_with_tail(m, rest);
    lemma_decode_bounds(b);
    let used = msg_bytes(m).len() as usize;
    assert(decode_spec(b) == (DecodeOutcome::Decoded { msg: m, used }));
    assert(0 < used <= b.len());
    assert(b.skip(used as int) =~= rest);
    assert(stream_kept(b) == seq![m] + stream_kept(b.skip(used as int)));
}

/// What draining a whole buffer left behind.
pub struct DrainResult {
    /// The forwarded messages, in the order their bytes arrived.
    pub msgs: Vec<NetworkMessages>,
    /// How many bytes of the buffer the whole messages occupied.
    pub consumed: usize,
    /// Whether draining stopped on bytes that can never begin a message.
    pub malformed: bool,
}

/// Decode whole messages from `buf` starting at `start` until the rest is
/// too short or malformed, keeping every decoded non-sentinel message.
/// The unconsumed remainder of a clean stop is a proper prefix of one
/// message and can be kept and retried once more bytes arrive.
pub fn decode_stream(buf: &Vec<u8>, start: usize) -> (r: DrainResult)
    requires
        start <= buf.len(),
    ensures
        start <= r.consumed <= buf.len(),
        r.msgs@ == stream_kept(buf@.skip(start as int)),
        r.malformed == (decode_spec(buf@.skip(r.consumed as int)) is Malformed),
        !(decode_spec(buf@.skip(r.consumed as int)) is Decoded),
{
    let mut o = start;
    let mut msgs: Vec<NetworkMessages> = Vec::new();
    let mut malformed = false;
    loop
        invariant_except_break
            start <= o <= buf.len(),
            msgs@ + stream_kept(buf@.skip(o as int)) == stream_kept(buf@.skip(start as int)),
            !malformed,
        ensures
            start <= o <= buf.len(),
            msgs@ == stream_kept(buf@.skip(start as int)),
            malformed == (decode_spec(buf@.skip(o as int)) is Malformed),
            !(decode_spec(buf@.skip(o as int)) is Decoded),
        decreases buf.len() - o,
    {
        let outcome = decode_message(buf, o);
        match outcome {
            DecodeOutcome::Decoded { msg, used } => {
                proof {
                    lemma_decode_bounds(buf@.skip(o as int));
                    assert(buf@.skip(o as int).skip(used as int) =~= buf@.skip(
                        (o + used) as int,
                    ));
                }
                if !matches!(msg, NetworkMessages::InvalidMessage) {
                    msgs.push(msg);
                }
                o = o + used;
            },
            DecodeOutcome::Incomplete => {
                break;
            },
            DecodeOutcome::Malformed => {
                malformed = true;
                break;
            },
        }
    }
    DrainResult { msgs, consumed: o, malformed }
}

} // verus!
