use netsync::codec::{decode_message, decode_stream, encode_message_vec, DecodeOutcome, NetworkMessages};
use netsync::game::{Player, PlayerInput};

fn sample_player(id: u32) -> Player {
    Player {
        id,
        cur_sequence_id: 7,
        pos_x: 123_456,
        pos_y: 990_000,
        col_r: 250,
        col_g: 0,
        col_b: 1000,
        col_a: 1000,
    }
}

fn roundtrip(msg: NetworkMessages) {
    let bytes = encode_message_vec(&msg);
    match decode_message(&bytes, 0) {
        DecodeOutcome::Decoded { msg: got, used } => {
            assert_eq!(got, msg);
            assert_eq!(used, bytes.len());
        }
        other => panic!("expected a decoded message, got {:?}", other),
    }
}

#[test]
fn roundtrip_invalid() {
    roundtrip(NetworkMessages::InvalidMessage);
}

#[test]
fn roundtrip_add_local() {
    roundtrip(NetworkMessages::AddLocal(sample_player(3)));
}

#[test]
fn roundtrip_add_player() {
    roundtrip(NetworkMessages::AddPlayer(sample_player(0)));
}

#[test]
fn roundtrip_add_player_max_id() {
    roundtrip(NetworkMessages::AddPlayer(sample_player(u32::MAX)));
}

#[test]
fn roundtrip_remove_player() {
    roundtrip(NetworkMessages::RemovePlayer { id: 0 });
    roundtrip(NetworkMessages::RemovePlayer { id: u32::MAX });
}

#[test]
fn roundtrip_client_input_change() {
    // Boundary axes: zero, full negative, and an unclamped overshoot.
    for (lr, ud) in [(0, 0), (-1000, 1000), (5000, -5000), (i32::MAX, i32::MIN)] {
        roundtrip(NetworkMessages::ClientInputChange(PlayerInput {
            id: 1,
            cur_sequence_id: 42,
            left_right: lr,
            up_down: ud,
        }));
    }
}

#[test]
fn roundtrip_position() {
    let mut p = sample_player(9);
    p.pos_x = 0;
    p.pos_y = 0;
    roundtrip(NetworkMessages::Position(p));
}

#[test]
fn two_concatenated_messages_decode_in_order() {
    let m1 = NetworkMessages::AddPlayer(sample_player(4));
    let m2 = NetworkMessages::RemovePlayer { id: 4 };
    let mut bytes = encode_message_vec(&m1);
    let mut tail = encode_message_vec(&m2);
    let first_len = bytes.len();
    bytes.append(&mut tail);
    match decode_message(&bytes, 0) {
        DecodeOutcome::Decoded { msg, used } => {
            assert_eq!(msg, m1);
            assert_eq!(used, first_len);
            match decode_message(&bytes, used) {
                DecodeOutcome::Decoded { msg: second, used: used2 } => {
                    assert_eq!(second, m2);
                    assert_eq!(first_len + used2, bytes.len());
                }
                other => panic!("expected the second message, got {:?}", other),
            }
        }
        other => panic!("expected the first message, got {:?}", other),
    }
}

#[test]
fn truncated_buffer_is_incomplete() {
    let bytes = encode_message_vec(&NetworkMessages::AddPlayer(sample_player(2)));
    for cut in [0, 1, 3, 4, 35] {
        let partial: Vec<u8> = bytes[..cut].to_vec();
        assert_eq!(decode_message(&partial, 0), DecodeOutcome::Incomplete);
    }
}

#[test]
fn unknown_tag_is_malformed() {
    let bytes: Vec<u8> = vec![0xff, 0xff, 0xff, 0xff];
    assert_eq!(decode_message(&bytes, 0), DecodeOutcome::Malformed);
}

#[test]
fn out_of_bounds_player_is_malformed() {
    // A Position whose coordinates lie outside the play area never
    // decodes: byte-patch an encoded message.
    let msg = NetworkMessages::Position(sample_player(1));
    let mut bytes = encode_message_vec(&msg);
    // pos_x is the third word of the payload (offset 4 + 8).
    bytes[12] = 0xff;
    bytes[13] = 0xff;
    bytes[14] = 0xff;
    bytes[15] = 0xff;
    assert_eq!(decode_message(&bytes, 0), DecodeOutcome::Malformed);
}

#[test]
fn drain_keeps_order_and_drops_sentinel() {
    let m1 = NetworkMessages::AddLocal(sample_player(0));
    let m2 = NetworkMessages::InvalidMessage;
    let m3 = NetworkMessages::RemovePlayer { id: 0 };
    let mut bytes = encode_message_vec(&m1);
    bytes.append(&mut encode_message_vec(&m2));
    bytes.append(&mut encode_message_vec(&m3));
    let total = bytes.len();
    let r = decode_stream(&bytes, 0);
    assert_eq!(r.msgs, vec![m1, m3]);
    assert_eq!(r.consumed, total);
    assert!(!r.malformed);
}

#[test]
fn drain_stops_on_partial_tail_and_reports_rest() {
    let m1 = NetworkMessages::RemovePlayer { id: 6 };
    let m2 = NetworkMessages::AddPlayer(sample_player(6));
    let mut bytes = encode_message_vec(&m1);
    let whole = encode_message_vec(&m2);
    let first_len = bytes.len();
    bytes.extend_from_slice(&whole[..10]);
    let r = decode_stream(&bytes, 0);
    assert_eq!(r.msgs, vec![m1]);
    assert_eq!(r.consumed, first_len);
    assert!(!r.malformed);
}

#[test]
fn drain_flags_malformed_rest() {
    let m1 = NetworkMessages::RemovePlayer { id: 6 };
    let mut bytes = encode_message_vec(&m1);
    bytes.extend_from_slice(&[0xee, 0xee, 0xee, 0xee]);
    let r = decode_stream(&bytes, 0);
    assert_eq!(r.msgs, vec![m1]);
    assert!(r.malformed);
}
