use vstd::prelude::*;

use crate::world::{half_extent, screen_valid, ConfigError, Vec2, COORD_LIMIT, DT_LIMIT};

verus! {

/// Horizontal speed of the player, in whole units per second; one
/// millisecond of motion therefore covers `SPEED` milli-units.
pub const SPEED: i64 = 200;

/// Constant upward speed, in whole units per second, given to every spawned
/// projectile.
pub const BULLET_SPEED: i64 = 400;

/// Cooldown, in milliseconds, imposed after each successful shot.
pub const SHOOT_COOLDOWN: i64 = 500;

/// Height, in milli-units, of the player's anchor above the bottom screen edge.
pub const PLAYER_FLOOR_OFFSET: i64 = 5_000;

/// Lowest value the shoot timer may hold on entry to a frame; the timer has
/// no floor, so a caller must stay above this machine limit.
pub const TIMER_FLOOR: i64 = -9_000_000_000_000_000_000;

/// The player-controlled entity.
#[derive(Clone, Copy, Debug)]
pub struct Player {
    /// Current position; x stays clamped to the screen's half width.
    pub position: Vec2,
    /// Remaining milliseconds before another shot may fire; it decreases
    /// with elapsed time, may go negative, and returns to `SHOOT_COOLDOWN`
    /// on each successful shot.
    pub shoot_timer: i64,
}

/// A request to spawn a projectile, handed to the physics layer.
#[derive(Clone, Copy, PartialEq, Eq, Structural, Debug)]
pub struct Projectile {
    /// Where the projectile appears: the player's position at fire time.
    pub position: Vec2,
    /// Constant upward speed, in whole units per second.
    pub speed: i64,
}

/// A value pushed back inside `[lo, hi]`, upper bound first, exactly as the
/// motion code applies it.
pub open spec fn spec_clamp(v: int, lo: int, hi: int) -> int {
    if v > hi {
        hi
    } else if v < lo {
        lo
    } else {
        v
    }
}

/// The player's x after one frame: moved by the input intent, then clamped
/// to the screen's half width.
pub open spec fn player_moved_x(x: int, intent: int, dt: u64, half_w: int) -> int {
    spec_clamp(x + intent * (SPEED as int) * (dt as int), -half_w, half_w)
}

/// A shot leaves the barrel this frame: fire is held and the cooldown, after
/// this frame's elapsed time, has run out.
pub open spec fn spec_fires(timer: int, dt: u64, fire: bool) -> bool {
    fire && timer - dt <= 0
}

/// The shoot timer after one frame: back to the full cooldown on a shot,
/// otherwise lower by the elapsed time, with no floor.
pub open spec fn spec_timer_after(timer: int, dt: u64, fire: bool) -> int {
    if spec_fires(timer, dt, fire) {
        SHOOT_COOLDOWN as int
    } else {
        timer - dt
    }
}

/// Turns the held movement keys into a signed horizontal intent: left and
/// right cancel when both are held.
pub fn horizontal_intent(left_held: bool, right_held: bool) -> (r: i64)
    ensures
        r == (if left_held {
            -1int
        } else {
            0int
        }) + (if right_held {
            1int
        } else {
            0int
        }),
        -1 <= r <= 1,
{
    let mut horizontal: i64 = 0;
    if left_held {
        horizontal = horizontal - 1;
    }
    if right_held {
        horizontal = horizontal + 1;
    }
    horizontal
}

/// Creates the player at the horizontal centre, anchored just above the
/// bottom of the screen, with the shoot timer ready. Rejects a non-positive
/// or oversized screen.
pub fn setup_player(screen: Vec2) -> (r: Result<Player, ConfigError>)
    ensures
        r is Ok <==> screen_valid(screen),
        r is Err ==> r == Result::<Player, ConfigError>::Err(ConfigError::InvalidScreenDimensions),
        r is Ok ==> {
            let p = r->Ok_0;
            &&& p.position.x == 0
            &&& p.position.y as int == -half_extent(screen.y) + PLAYER_FLOOR_OFFSET
            &&& p.shoot_timer == 0
        },
{
    if !(0 < screen.x && screen.x <= COORD_LIMIT && 0 < screen.y && screen.y <= COORD_LIMIT) {
        return Err(ConfigError::InvalidScreenDimensions);
    }
    let half_h = crate::world::half_of(screen.y);
    Ok(Player { position: Vec2 { x: 0, y: -half_h + PLAYER_FLOOR_OFFSET }, shoot_timer: 0 })
}

/// One frame of the player controller: moves by the held intent, clamps to
/// the screen's half width, counts the cooldown down by the elapsed time,
/// and, when fire is held with the cooldown expired, restarts the cooldown
/// and returns a spawn request at the player's clamped position.
pub fn update_player(
    player: &mut Player,
    dt: u64,
    move_intent: i64,
    fire: bool,
    screen: Vec2,
) -> (r: Option<Projectile>)
    requires
        -1 <= move_intent <= 1,
        dt <= DT_LIMIT,
        screen_valid(screen),
        -COORD_LIMIT <= old(player).position.x <= COORD_LIMIT,
        old(player).shoot_timer >= TIMER_FLOOR,
    ensures
        final(player).position.x as int == player_moved_x(
            old(player).position.x as int,
            move_intent as int,
            dt,
            half_extent(screen.x),
        ),
        final(player).position.y == old(player).position.y,
        final(player).shoot_timer as int == spec_timer_after(
            old(player).shoot_timer as int,
            dt,
            fire,
        ),
        r is Some <==> spec_fires(old(player).shoot_timer as int, dt, fire),
        r is Some ==> r->0 == (Projectile { position: final(player).position, speed: BULLET_SPEED }),
        -half_extent(screen.x) <= final(player).position.x <= half_extent(screen.x),
{
    let step = if move_intent == 1 {
        SPEED * (dt as i64)
    } else if move_intent == -1 {
        -(SPEED * (dt as i64))
    } else {
        0
    };
    proof {
        assert(step as int == (move_intent as int) * (SPEED as int) * (dt as int))
            by (nonlinear_arith)
            requires
                -1 <= move_intent <= 1,
                move_intent == 1 ==> step as int == (SPEED as int) * (dt as int),
                move_intent == -1 ==> step as int == -((SPEED as int) * (dt as int)),
                move_intent == 0 ==> step == 0,
        ;
    }
    let mut x = player.position.x + step;
    let half_w = crate::world::half_of(screen.x);
    if x > half_w {
        x = half_w;
    }
    if x < -half_w {
        x = -half_w;
    }
    player.position.x = x;

    player.shoot_timer = player.shoot_timer - (dt as i64);

    if fire && player.shoot_timer <= 0 {
        player.shoot_timer = SHOOT_COOLDOWN;
        Some(Projectile { position: player.position, speed: BULLET_SPEED })
    } else {
        None
    }
}

/// Player clamp: whatever position a frame starts from and whatever intent
/// and elapsed time it brings, the player's x after the frame lies within
/// the screen's half width.
pub proof fn lemma_player_never_escapes(x: int, intent: int, dt: u64, half_w: int)
    requires
        half_w >= 0,
    ensures
        -half_w <= player_moved_x(x, intent, dt, half_w) <= half_w,
{
}

/// Cooldown gating: a successful shot restarts the full cooldown, and a
/// second fire attempt spawns nothing until at least the cooldown constant
/// has elapsed, after which it fires again.
pub proof fn lemma_cooldown_gating(timer: int, dt1: u64, dt2: u64)
    requires
        spec_fires(timer, dt1, true),
    ensures
        spec_timer_after(timer, dt1, true) == SHOOT_COOLDOWN as int,
        dt2 < SHOOT_COOLDOWN as u64 ==> !spec_fires(SHOOT_COOLDOWN as int, dt2, true),
        dt2 >= SHOOT_COOLDOWN as u64 ==> spec_fires(SHOOT_COOLDOWN as int, dt2, true),
{
}

} // verus!
