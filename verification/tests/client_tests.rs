use netsync::client::ClientState;
use netsync::codec::NetworkMessages;
use netsync::game::{timer_add, timer_take_tick, Player, PlayerInput, TICK_MICROS};

fn mirror_player(id: u32, x: u32, y: u32) -> Player {
    Player {
        id,
        cur_sequence_id: 0,
        pos_x: x,
        pos_y: y,
        col_r: 0,
        col_g: 500,
        col_b: 999,
        col_a: 1000,
    }
}

#[test]
fn handshake_sets_local_identity() {
    let mut c = ClientState::new();
    assert_eq!(c.local_player_id, u32::MAX);
    c.apply_message(&NetworkMessages::AddLocal(mirror_player(4, 100, 200)));
    assert_eq!(c.local_player_id, 4);
    assert_eq!(c.all_players.len(), 1);
    c.apply_message(&NetworkMessages::AddPlayer(mirror_player(7, 0, 0)));
    assert_eq!(c.local_player_id, 4);
    assert_eq!(c.all_players.len(), 2);
}

#[test]
fn removal_deletes_the_named_mirror_entry() {
    let mut c = ClientState::new();
    c.apply_message(&NetworkMessages::AddLocal(mirror_player(0, 0, 0)));
    c.apply_message(&NetworkMessages::AddPlayer(mirror_player(1, 5, 5)));
    c.apply_message(&NetworkMessages::RemovePlayer { id: 1 });
    assert_eq!(c.all_players.len(), 1);
    assert_eq!(c.all_players[0].id, 0);
    c.apply_message(&NetworkMessages::RemovePlayer { id: 99 });
    assert_eq!(c.all_players.len(), 1);
}

#[test]
fn authoritative_push_overwrites_position_only() {
    let mut c = ClientState::new();
    c.apply_message(&NetworkMessages::AddLocal(mirror_player(0, 100, 100)));
    let mut push = mirror_player(0, 40_000, 50_000);
    push.cur_sequence_id = 77;
    push.col_r = 123;
    c.apply_message(&NetworkMessages::Position(push));
    assert_eq!(c.all_players[0].pos_x, 40_000);
    assert_eq!(c.all_players[0].pos_y, 50_000);
    // Sequence number and color keep the mirror's own values.
    assert_eq!(c.all_players[0].cur_sequence_id, 0);
    assert_eq!(c.all_players[0].col_r, 0);
}

#[test]
fn inbound_movement_command_is_ignored() {
    let mut c = ClientState::new();
    c.apply_message(&NetworkMessages::AddLocal(mirror_player(0, 0, 0)));
    c.apply_message(&NetworkMessages::ClientInputChange(PlayerInput {
        id: 0,
        cur_sequence_id: 9,
        left_right: 1000,
        up_down: 0,
    }));
    assert_eq!(c.all_players.len(), 1);
    assert_eq!(c.all_players[0].pos_x, 0);
}

#[test]
fn changed_keys_send_one_command_and_predict() {
    let mut c = ClientState::new();
    c.apply_message(&NetworkMessages::AddLocal(mirror_player(3, 0, 0)));
    let sent = c.tick(1000, 0);
    let inp = sent.expect("a changed key state must be transmitted");
    assert_eq!(inp.id, 3);
    assert_eq!(inp.cur_sequence_id, 1);
    assert_eq!(inp.left_right, 1000);
    assert_eq!(inp.up_down, 0);
    assert_eq!(c.all_players[0].cur_sequence_id, 1);
    // Dead reckoning: the local player moved a full tick ahead of any
    // server acknowledgment.
    assert_eq!(c.all_players[0].pos_x, 10_000);
    assert_eq!(c.all_players[0].pos_y, 0);

    // Keys held steady: nothing is sent, prediction continues.
    let again = c.tick(1000, 0);
    assert!(again.is_none());
    assert_eq!(c.all_players[0].cur_sequence_id, 1);
    assert_eq!(c.all_players[0].pos_x, 20_000);
}

#[test]
fn prediction_toggle_freezes_local_movement() {
    let mut c = ClientState::new();
    c.predict_movement = false;
    c.apply_message(&NetworkMessages::AddLocal(mirror_player(3, 0, 0)));
    let sent = c.tick(0, 1000);
    assert!(sent.is_some());
    assert_eq!(c.all_players[0].pos_x, 0);
    assert_eq!(c.all_players[0].pos_y, 0);
}

#[test]
fn keys_before_handshake_send_nothing() {
    let mut c = ClientState::new();
    let sent = c.tick(1000, 0);
    assert!(sent.is_none());
    assert_eq!(c.last_input.left_right, 0);
}

#[test]
fn stale_push_overrides_newer_prediction() {
    // No sequence-id comparison gates the overwrite: a server correction
    // rolls the local player back even after a newer local prediction.
    let mut c = ClientState::new();
    c.apply_message(&NetworkMessages::AddLocal(mirror_player(0, 0, 0)));
    c.tick(1000, 0);
    assert_eq!(c.all_players[0].pos_x, 10_000);
    c.apply_message(&NetworkMessages::Position(mirror_player(0, 0, 0)));
    assert_eq!(c.all_players[0].pos_x, 0);
}

#[test]
fn prediction_is_clamped_at_the_origin_edge() {
    let mut c = ClientState::new();
    c.apply_message(&NetworkMessages::AddLocal(mirror_player(0, 4_000, 0)));
    c.tick(-1000, -1000);
    assert_eq!(c.all_players[0].pos_x, 0);
    assert_eq!(c.all_players[0].pos_y, 0);
}

#[test]
fn accumulator_runs_catch_up_ticks() {
    let mut timer: u64 = 0;
    timer_add(&mut timer, 3 * TICK_MICROS + 10);
    let mut ticks = 0;
    while timer_take_tick(&mut timer) {
        ticks += 1;
    }
    assert_eq!(ticks, 3);
    assert_eq!(timer, 10);
    // Less than a tick's worth gathered: no tick runs.
    timer_add(&mut timer, 1000);
    assert!(!timer_take_tick(&mut timer));
}
