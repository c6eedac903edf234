use swarm_core::player::{
    horizontal_intent, setup_player, update_player, Player, Projectile, BULLET_SPEED,
    SHOOT_COOLDOWN,
};
use swarm_core::world::{ConfigError, Vec2};

const SCREEN: Vec2 = Vec2 { x: 800_000, y: 600_000 };

fn player_at(x: i64, timer: i64) -> Player {
    Player { position: Vec2 { x, y: -295_000 }, shoot_timer: timer }
}

#[test]
fn player_spawns_centred_above_the_bottom() {
    let p = setup_player(SCREEN).unwrap();
    assert_eq!(p.position, Vec2 { x: 0, y: -295_000 });
    assert_eq!(p.shoot_timer, 0);
    assert_eq!(
        setup_player(Vec2 { x: -1, y: 600_000 }).unwrap_err(),
        ConfigError::InvalidScreenDimensions
    );
}

#[test]
fn player_clamps_at_the_right_bound() {
    // At x = 395 with the bound at 400, a 0.1 s step at 200 units/s lands on
    // a raw 415 and is clamped to 400.
    let mut p = player_at(395_000, 0);
    update_player(&mut p, 100, 1, false, SCREEN);
    assert_eq!(p.position.x, 400_000);
}

#[test]
fn player_clamps_at_the_left_bound() {
    let mut p = player_at(-399_000, 0);
    update_player(&mut p, 200, -1, false, SCREEN);
    assert_eq!(p.position.x, -400_000);
}

#[test]
fn player_moves_freely_inside_the_bounds() {
    let mut p = player_at(10_000, 0);
    update_player(&mut p, 50, -1, false, SCREEN);
    assert_eq!(p.position.x, 0);
    assert_eq!(p.position.y, -295_000);
}

#[test]
fn player_never_leaves_the_bounds() {
    let mut p = player_at(0, 0);
    let intents: [i64; 8] = [1, 1, 1, 1, -1, 1, -1, -1];
    for (i, intent) in intents.iter().enumerate() {
        update_player(&mut p, 700 + 300 * i as u64, *intent, false, SCREEN);
        assert!(p.position.x <= 400_000);
        assert!(p.position.x >= -400_000);
    }
}

#[test]
fn cooldown_gates_the_second_shot() {
    let mut p = player_at(0, 0);
    // Ready timer: the first fire spawns and restarts the cooldown.
    let first = update_player(&mut p, 0, 0, true, SCREEN);
    assert!(first.is_some());
    assert_eq!(p.shoot_timer, SHOOT_COOLDOWN);
    // 0.4 s later the cooldown has not run out: no spawn.
    let second = update_player(&mut p, 400, 0, true, SCREEN);
    assert!(second.is_none());
    assert_eq!(p.shoot_timer, 100);
    // Once a full 0.5 s has elapsed since the shot, the next fire spawns.
    let third = update_player(&mut p, 100, 0, true, SCREEN);
    assert!(third.is_some());
    assert_eq!(p.shoot_timer, SHOOT_COOLDOWN);
}

#[test]
fn fire_needs_the_intent() {
    let mut p = player_at(0, -1_000);
    assert!(update_player(&mut p, 16, 0, false, SCREEN).is_none());
    assert_eq!(p.shoot_timer, -1_016);
}

#[test]
fn spawn_request_carries_position_and_speed() {
    let mut p = player_at(100_000, 0);
    let spawn = update_player(&mut p, 100, 1, true, SCREEN).unwrap();
    assert_eq!(
        spawn,
        Projectile { position: Vec2 { x: 120_000, y: -295_000 }, speed: BULLET_SPEED }
    );
    assert_eq!(BULLET_SPEED, 400);
}

#[test]
fn held_movement_keys_cancel() {
    assert_eq!(horizontal_intent(false, false), 0);
    assert_eq!(horizontal_intent(true, false), -1);
    assert_eq!(horizontal_intent(false, true), 1);
    assert_eq!(horizontal_intent(true, true), 0);
}
