use netsync::game::{
    clamp_axis, create_random_player, Player, PlayerInput, GAME_AREA_HEIGHT, GAME_AREA_WIDTH,
    PLAYER_SIZE, SCALE,
};

fn player_at(x: u32, y: u32) -> Player {
    Player {
        id: 0,
        cur_sequence_id: 0,
        pos_x: x,
        pos_y: y,
        col_r: 0,
        col_g: 0,
        col_b: 0,
        col_a: 1000,
    }
}

fn input_of(lr: i32, ud: i32) -> PlayerInput {
    PlayerInput { id: 0, cur_sequence_id: 0, left_right: lr, up_down: ud }
}

#[test]
fn constants_are_in_milli_units() {
    assert_eq!(SCALE, 1000);
    assert_eq!(GAME_AREA_WIDTH, 1_000_000);
    assert_eq!(GAME_AREA_HEIGHT, 1_000_000);
    assert_eq!(PLAYER_SIZE, 20_000);
}

#[test]
fn one_tick_at_full_axis_moves_ten_units() {
    let mut p = player_at(0, 0);
    p.update(&input_of(1000, 1000));
    assert_eq!(p.pos_x, 10_000);
    assert_eq!(p.pos_y, 10_000);
    let mut q = player_at(100_000, 100_000);
    q.update(&input_of(-500, 0));
    assert_eq!(q.pos_x, 95_000);
    assert_eq!(q.pos_y, 100_000);
}

#[test]
fn movement_clamps_to_the_play_area() {
    let mut p = player_at(0, 989_000);
    p.update(&input_of(-1000, 1000));
    assert_eq!(p.pos_x, 0);
    assert_eq!(p.pos_y, 990_000);
    p.update(&input_of(0, 1000));
    assert_eq!(p.pos_y, 990_000);
}

#[test]
fn update_touches_nothing_but_position() {
    let mut p = player_at(1, 2);
    p.id = 5;
    p.cur_sequence_id = 9;
    p.col_r = 321;
    p.update(&input_of(1000, 0));
    assert_eq!(p.id, 5);
    assert_eq!(p.cur_sequence_id, 9);
    assert_eq!(p.col_r, 321);
}

#[test]
fn axis_clamp_pins_overshoot() {
    assert_eq!(clamp_axis(5000), 1000);
    assert_eq!(clamp_axis(-5000), -1000);
    assert_eq!(clamp_axis(0), 0);
    assert_eq!(clamp_axis(999), 999);
    assert_eq!(clamp_axis(i32::MAX), 1000);
    assert_eq!(clamp_axis(i32::MIN), -1000);
}

#[test]
fn random_spawns_respect_padding() {
    for id in 0..50 {
        let p = create_random_player(id);
        assert_eq!(p.id, id);
        assert_eq!(p.cur_sequence_id, 0);
        assert!(p.pos_x >= 10_000 && p.pos_x < 990_000);
        assert!(p.pos_y >= 10_000 && p.pos_y < 990_000);
        assert!(p.col_r < 1000 && p.col_g < 1000 && p.col_b < 1000);
        assert_eq!(p.col_a, 1000);
    }
}
