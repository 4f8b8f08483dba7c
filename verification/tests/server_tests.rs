use netsync::codec::{decode_message, decode_stream, encode_message_vec, DecodeOutcome, NetworkMessages};
use netsync::game::{Player, PlayerInput};
use netsync::server::{ApplyOutcome, ServerPlayerInfo, ServerState};

fn entry(id: u32, x: u32, y: u32) -> ServerPlayerInfo {
    ServerPlayerInfo {
        player: Player {
            id,
            cur_sequence_id: 0,
            pos_x: x,
            pos_y: y,
            col_r: 100,
            col_g: 200,
            col_b: 300,
            col_a: 1000,
        },
        input: PlayerInput { id, cur_sequence_id: 0, up_down: 0, left_right: 0 },
        changed: false,
    }
}

fn two_player_state() -> ServerState {
    ServerState {
        players: vec![entry(1, 0, 0), entry(2, 500_000, 500_000)],
        connections: vec![1, 2],
        timer_micros: 0,
        update_with_tick: true,
    }
}

#[test]
fn overshooting_axes_are_stored_clamped() {
    let mut s = two_player_state();
    let cmd = NetworkMessages::ClientInputChange(PlayerInput {
        id: 1,
        cur_sequence_id: 5,
        left_right: 5000,
        up_down: -7000,
    });
    let out = s.apply_message(&cmd);
    assert!(matches!(out, ApplyOutcome::InputStored));
    assert_eq!(s.players[0].input.left_right, 1000);
    assert_eq!(s.players[0].input.up_down, -1000);
    assert_eq!(s.players[0].input.cur_sequence_id, 5);
}

#[test]
fn input_for_unknown_player_changes_nothing() {
    let mut s = two_player_state();
    let cmd = NetworkMessages::ClientInputChange(PlayerInput {
        id: 9,
        cur_sequence_id: 1,
        left_right: 1000,
        up_down: 0,
    });
    let out = s.apply_message(&cmd);
    assert!(matches!(out, ApplyOutcome::NoSuchPlayer));
    assert_eq!(s.players.len(), 2);
    assert_eq!(s.players[0].input.left_right, 0);
}

#[test]
fn server_side_push_is_protocol_violation() {
    let mut s = two_player_state();
    let p = s.players[0].player;
    let out = s.apply_message(&NetworkMessages::Position(p));
    assert!(matches!(out, ApplyOutcome::ProtocolViolation));
    assert_eq!(s.players.len(), 2);
    assert_eq!(s.connections.len(), 2);
}

#[test]
fn full_tick_moves_and_replicates() {
    // A full-right command then one 1/30 s tick: the player advances
    // exactly 10 world units (10000 milli-units) in x and the batch
    // holds one Position push carrying the command's sequence number.
    let mut s = two_player_state();
    let inbound = vec![NetworkMessages::ClientInputChange(PlayerInput {
        id: 1,
        cur_sequence_id: 3,
        left_right: 1000,
        up_down: 0,
    })];
    let out = s.tick(&inbound);
    assert_eq!(s.players[0].player.pos_x, 10_000);
    assert_eq!(s.players[0].player.pos_y, 0);
    assert_eq!(s.players[0].player.cur_sequence_id, 3);
    assert!(!s.players[0].changed);
    // The idle player moved nowhere and is not replicated.
    assert_eq!(s.players[1].player.pos_x, 500_000);
    assert!(out.removals.is_empty());
    assert!(out.closed.is_empty());
    match decode_message(&out.batch, 0) {
        DecodeOutcome::Decoded { msg, used } => {
            assert_eq!(used, out.batch.len());
            match msg {
                NetworkMessages::Position(p) => {
                    assert_eq!(p.id, 1);
                    assert_eq!(p.cur_sequence_id, 3);
                    assert_eq!(p.pos_x, 10_000);
                    assert_eq!(p.pos_y, 0);
                }
                other => panic!("expected a Position push, got {:?}", other),
            }
        }
        other => panic!("expected one message in the batch, got {:?}", other),
    }
}

#[test]
fn movement_is_clamped_at_the_far_edge() {
    let mut s = ServerState {
        players: vec![entry(1, 985_000, 990_000)],
        connections: vec![1],
        timer_micros: 0,
        update_with_tick: true,
    };
    let inbound = vec![NetworkMessages::ClientInputChange(PlayerInput {
        id: 1,
        cur_sequence_id: 1,
        left_right: 1000,
        up_down: 1000,
    })];
    s.tick(&inbound);
    assert_eq!(s.players[0].player.pos_x, 990_000);
    assert_eq!(s.players[0].player.pos_y, 990_000);
}

#[test]
fn disconnect_removes_player_and_connection_and_broadcasts_once() {
    let mut s = two_player_state();
    let inbound = vec![NetworkMessages::RemovePlayer { id: 2 }];
    let out = s.tick(&inbound);
    assert_eq!(s.players.len(), 1);
    assert_eq!(s.players[0].player.id, 1);
    assert_eq!(s.connections, vec![1]);
    assert_eq!(out.closed, vec![2]);
    let drained = decode_stream(&out.removals, 0);
    assert_eq!(drained.msgs, vec![NetworkMessages::RemovePlayer { id: 2 }]);
    assert_eq!(drained.consumed, out.removals.len());
    assert!(out.batch.is_empty());
}

#[test]
fn two_joins_handshake_exactly_once_each() {
    let mut s = ServerState::new();
    let h1 = s.handle_new_connection();
    assert_eq!(h1.new_player.id, 0);
    assert!(h1.others.is_empty());
    let first = decode_stream(&h1.to_new, 0);
    assert_eq!(first.msgs.len(), 1);
    assert!(matches!(first.msgs[0], NetworkMessages::AddLocal(p) if p.id == 0));

    let h2 = s.handle_new_connection();
    assert_eq!(h2.new_player.id, 1);
    // The second client learns its own identity, then of the first
    // player — exactly one AddPlayer, never its own id.
    let second = decode_stream(&h2.to_new, 0);
    assert_eq!(second.msgs.len(), 2);
    assert!(matches!(second.msgs[0], NetworkMessages::AddLocal(p) if p.id == 1));
    assert!(matches!(second.msgs[1], NetworkMessages::AddPlayer(p) if p.id == 0));
    // The first connection is owed exactly one AddPlayer for the newcomer.
    assert_eq!(h2.others, vec![0]);
    let to_first = decode_stream(&h2.to_others, 0);
    assert_eq!(to_first.msgs.len(), 1);
    assert!(matches!(to_first.msgs[0], NetworkMessages::AddPlayer(p) if p.id == 1));

    assert_eq!(s.connections, vec![0, 1]);
    assert_eq!(s.players.len(), 2);
}

#[test]
fn freed_id_is_reused_by_the_next_join() {
    let mut s = ServerState::new();
    let h0 = s.handle_new_connection();
    let h1 = s.handle_new_connection();
    assert_eq!((h0.new_player.id, h1.new_player.id), (0, 1));
    s.tick(&vec![NetworkMessages::RemovePlayer { id: 0 }]);
    let h2 = s.handle_new_connection();
    assert_eq!(h2.new_player.id, 0);
    // And with 0 and 1 both live again, the next id fills the gap at 2.
    let h3 = s.handle_new_connection();
    assert_eq!(h3.new_player.id, 2);
}

#[test]
fn sweep_eviction_leaves_players_alone() {
    let mut s = two_player_state();
    s.remove_connection(2);
    assert_eq!(s.connections, vec![1]);
    assert_eq!(s.players.len(), 2);
    // Evicting an id with no connection is harmless.
    s.remove_connection(9);
    assert_eq!(s.connections, vec![1]);
}

#[test]
fn integration_toggle_freezes_movement() {
    let mut s = two_player_state();
    s.update_with_tick = false;
    let inbound = vec![NetworkMessages::ClientInputChange(PlayerInput {
        id: 1,
        cur_sequence_id: 3,
        left_right: 1000,
        up_down: 0,
    })];
    let out = s.tick(&inbound);
    assert_eq!(s.players[0].player.pos_x, 0);
    assert_eq!(s.players[0].input.left_right, 1000);
    assert!(out.batch.is_empty());
}

#[test]
fn spawned_players_land_inside_the_padding() {
    let mut s = ServerState::new();
    for _ in 0..20 {
        let h = s.handle_new_connection();
        let p = h.new_player;
        assert!(p.pos_x >= 10_000 && p.pos_x < 990_000);
        assert!(p.pos_y >= 10_000 && p.pos_y < 990_000);
        assert_eq!(p.cur_sequence_id, 0);
        assert_eq!(p.col_a, 1000);
        assert!(p.col_r < 1000 && p.col_g < 1000 && p.col_b < 1000);
    }
}

#[test]
fn handshake_bytes_echo_the_live_list() {
    let mut s = ServerState::new();
    s.handle_new_connection();
    s.handle_new_connection();
    s.handle_new_connection();
    let h = s.handle_new_connection();
    let drained = decode_stream(&h.to_new, 0);
    assert_eq!(drained.msgs.len(), 4);
    let expected = encode_message_vec(&NetworkMessages::AddPlayer(h.new_player));
    assert_eq!(h.to_others, expected);
}
