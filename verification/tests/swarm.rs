use swarm_core::alien::{manage_alien_logic, setup_aliens, update_aliens, Alien, AlienManager, Dead};
use swarm_core::world::{ConfigError, Vec2};

// Coordinates are milli-units: an 800x600-unit screen.
const SCREEN: Vec2 = Vec2 { x: 800_000, y: 600_000 };

fn unit_at(x: i64, y: i64) -> Alien {
    Alien {
        original_position: Vec2 { x, y },
        position: Vec2 { x, y },
        dead: false,
        marker: None,
    }
}

fn idle_manager() -> AlienManager {
    AlienManager { direction: 1, shift_alien_down: false, dist_from_boundary: 0, reset: false }
}

#[test]
fn grid_integrity_after_initialize() {
    let (manager, aliens) = setup_aliens(SCREEN).unwrap();
    assert_eq!(aliens.len(), 50);
    assert_eq!(manager.direction, 1);
    assert!(!manager.shift_alien_down);
    assert!(!manager.reset);
    assert_eq!(manager.dist_from_boundary, 0);
    for a in &aliens {
        assert!(!a.dead);
        assert!(!a.hidden());
        assert_eq!(a.position, a.original_position);
    }
    for i in 0..aliens.len() {
        for j in 0..aliens.len() {
            if i != j {
                assert_ne!(aliens[i].original_position, aliens[j].original_position);
            }
        }
    }
}

#[test]
fn grid_slots_follow_the_spacing() {
    let (_, aliens) = setup_aliens(SCREEN).unwrap();
    // column 0, row 0: centred grid, hanging from the top edge (half height 300_000)
    assert_eq!(aliens[0].original_position, Vec2 { x: -120_000, y: 180_000 });
    // column 0, row 1
    assert_eq!(aliens[1].original_position, Vec2 { x: -120_000, y: 204_000 });
    // column 1, row 0
    assert_eq!(aliens[5].original_position, Vec2 { x: -96_000, y: 180_000 });
    // last slot: column 9, row 4
    assert_eq!(aliens[49].original_position, Vec2 { x: 96_000, y: 276_000 });
}

#[test]
fn initialize_rejects_bad_screens() {
    assert_eq!(
        setup_aliens(Vec2 { x: 0, y: 600_000 }).unwrap_err(),
        ConfigError::InvalidScreenDimensions
    );
    assert_eq!(
        setup_aliens(Vec2 { x: 800_000, y: -5 }).unwrap_err(),
        ConfigError::InvalidScreenDimensions
    );
}

#[test]
fn boundary_overflow_scenario() {
    // A unit at x = 376 units moving right at 100 units/s for 0.3 s reaches
    // 406; the boundary is 400, so the recorded excess is -6 and the
    // correction lands the unit exactly on the boundary with the direction
    // flipped.
    let mut manager = idle_manager();
    let mut aliens = vec![unit_at(376_000, 100_000)];
    update_aliens(&mut manager, &mut aliens, 300, SCREEN);
    assert_eq!(aliens[0].position.x, 406_000);
    assert!(manager.shift_alien_down);
    assert_eq!(manager.dist_from_boundary, -6_000);
    assert_eq!(manager.direction, 1);

    manage_alien_logic(&mut manager, &mut aliens);
    assert_eq!(aliens[0].position.x, 400_000);
    assert_eq!(aliens[0].position.y, 68_000);
    assert_eq!(manager.direction, -1);
    assert!(!manager.shift_alien_down);
}

#[test]
fn correction_shifts_instead_of_clamping() {
    // Two units overflow together; both are moved back by the same recorded
    // excess, so only the triggering edge lands on the boundary.
    let mut manager = idle_manager();
    let mut aliens = vec![unit_at(350_000, 0), unit_at(376_000, 0)];
    update_aliens(&mut manager, &mut aliens, 300, SCREEN);
    assert_eq!(aliens[0].position.x, 380_000);
    assert_eq!(aliens[1].position.x, 406_000);
    assert_eq!(manager.dist_from_boundary, -6_000);
    manage_alien_logic(&mut manager, &mut aliens);
    assert_eq!(aliens[0].position.x, 374_000);
    assert_eq!(aliens[1].position.x, 400_000);
}

#[test]
fn overflow_records_the_last_unit() {
    // Both units cross the boundary; the excess kept is the one computed for
    // the later unit in the pass, last write wins.
    let mut manager = idle_manager();
    let mut aliens = vec![unit_at(376_000, 0), unit_at(380_000, 0)];
    update_aliens(&mut manager, &mut aliens, 300, SCREEN);
    assert_eq!(aliens[0].position.x, 406_000);
    assert_eq!(aliens[1].position.x, 410_000);
    assert!(manager.shift_alien_down);
    assert_eq!(manager.dist_from_boundary, -10_000);
}

#[test]
fn left_boundary_flips_back() {
    let mut manager = idle_manager();
    manager.direction = -1;
    let mut aliens = vec![unit_at(-376_000, 0)];
    update_aliens(&mut manager, &mut aliens, 300, SCREEN);
    assert_eq!(aliens[0].position.x, -406_000);
    assert!(manager.shift_alien_down);
    assert_eq!(manager.dist_from_boundary, 6_000);
    manage_alien_logic(&mut manager, &mut aliens);
    assert_eq!(aliens[0].position.x, -400_000);
    assert_eq!(manager.direction, 1);
}

#[test]
fn all_units_share_one_direction() {
    let mut manager = idle_manager();
    let mut aliens = vec![unit_at(-50_000, 0), unit_at(0, 10_000), unit_at(70_000, -20_000)];
    let before: Vec<i64> = aliens.iter().map(|a| a.position.x).collect();
    update_aliens(&mut manager, &mut aliens, 250, SCREEN);
    let displacement = aliens[0].position.x - before[0];
    assert_eq!(displacement, 25_000);
    for (a, b) in aliens.iter().zip(before.iter()) {
        assert_eq!(a.position.x - b, displacement);
    }
}

#[test]
fn dead_unit_is_marked_once_then_frozen() {
    let mut manager = idle_manager();
    let mut aliens = vec![unit_at(0, 0)];
    aliens[0].dead = true;
    // The frame that first observes the flag still moves the unit, then hides it.
    update_aliens(&mut manager, &mut aliens, 100, SCREEN);
    assert_eq!(aliens[0].position.x, 10_000);
    assert!(aliens[0].hidden());
    // From the next frame on the marked unit no longer translates.
    update_aliens(&mut manager, &mut aliens, 100, SCREEN);
    assert_eq!(aliens[0].position.x, 10_000);
}

#[test]
fn descent_applies_to_dead_units_too() {
    let mut manager = idle_manager();
    manager.shift_alien_down = true;
    manager.dist_from_boundary = -6_000;
    let mut aliens = vec![unit_at(100_000, 50_000), unit_at(124_000, 50_000)];
    aliens[1].dead = true;
    aliens[1].marker = Some(Dead);
    manage_alien_logic(&mut manager, &mut aliens);
    assert_eq!(aliens[0].position.y, 18_000);
    assert_eq!(aliens[1].position.y, 18_000);
    assert_eq!(aliens[0].position.x, 94_000);
    assert_eq!(aliens[1].position.x, 118_000);
    assert!(aliens[1].hidden());
    assert_eq!(manager.direction, -1);
}

#[test]
fn reset_revives_every_unit() {
    let mut manager = idle_manager();
    manager.direction = -1;
    let mut aliens = vec![unit_at(10_000, 40_000), unit_at(34_000, 40_000)];
    aliens[0].dead = true;
    aliens[0].marker = Some(Dead);
    // Drag the live unit below the baseline (half height 300_000).
    aliens[1].position.y = -301_000;
    update_aliens(&mut manager, &mut aliens, 50, SCREEN);
    assert!(manager.reset);

    manage_alien_logic(&mut manager, &mut aliens);
    assert!(!manager.reset);
    assert_eq!(manager.direction, 1);
    for a in &aliens {
        assert_eq!(a.position, a.original_position);
        assert!(!a.dead);
        assert!(!a.hidden());
    }
}

#[test]
fn marked_units_do_not_trigger_corrections() {
    let mut manager = idle_manager();
    let mut aliens = vec![unit_at(396_000, -301_000)];
    aliens[0].dead = true;
    aliens[0].marker = Some(Dead);
    update_aliens(&mut manager, &mut aliens, 300, SCREEN);
    assert!(!manager.shift_alien_down);
    assert!(!manager.reset);
    assert_eq!(aliens[0].position.x, 396_000);
}

#[test]
fn shift_and_reset_can_fire_together() {
    let mut manager = idle_manager();
    manager.shift_alien_down = true;
    manager.dist_from_boundary = -2_000;
    manager.reset = true;
    let mut aliens = vec![unit_at(300_000, -310_000)];
    aliens[0].position.x = 402_000;
    manage_alien_logic(&mut manager, &mut aliens);
    // The shift ran first, but the reset restored the slot afterwards.
    assert_eq!(aliens[0].position, aliens[0].original_position);
    assert_eq!(manager.direction, 1);
    assert!(!manager.shift_alien_down);
    assert!(!manager.reset);
}
