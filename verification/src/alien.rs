use vstd::prelude::*;

use crate::world::{
    half_extent, screen_valid, ConfigError, Vec2, COORD_LIMIT, DIST_LIMIT, DT_LIMIT, MOVED_LIMIT,
};
use vstd::arithmetic::div_mod::{lemma_fundamental_div_mod, lemma_fundamental_div_mod_converse};

verus! {

/// Number of columns in the formation grid.
pub const WIDTH: i64 = 10;

/// Number of rows in the formation grid.
pub const HEIGHT: i64 = 5;

/// Number of units in the formation.
pub const GRID_SIZE: i64 = WIDTH * HEIGHT;

/// Distance, in milli-units, between neighbouring grid slots.
pub const SPACING: i64 = 24_000;

/// Horizontal speed of the formation, in whole units per second; one
/// millisecond of motion therefore covers `SPEED` milli-units.
pub const SPEED: i64 = 100;

/// Vertical drop, in milli-units, applied to the whole formation each time a
/// boundary shift is resolved.
pub const ALIEN_SHIFT_AMOUNT: i64 = 32_000;

/// Half the formation's horizontal span: `WIDTH * SPACING / 2`.
pub const FORMATION_HALF_SPAN: i64 = 120_000;

/// The formation's vertical span: `HEIGHT * SPACING`.
pub const FORMATION_DEPTH: i64 = 120_000;

/// Marker attached to a unit once its death has been observed by the detect
/// pass; a marked unit is hidden and excluded from translation until revived.
#[derive(Clone, Copy, PartialEq, Eq, Structural, Debug)]
pub struct Dead;

/// One grid member of the swarm.
#[derive(Clone, Copy, Debug)]
pub struct Alien {
    /// The canonical formation slot, immutable after creation; restored on reset.
    pub original_position: Vec2,
    /// The slot's position this frame.
    pub position: Vec2,
    /// Set by an external collision system; this core only reacts to it.
    pub dead: bool,
    /// Present once the detect pass has observed `dead`; such a unit is
    /// hidden and no longer translated.
    pub marker: Option<Dead>,
}

impl Alien {
    /// A unit is rendered hidden exactly while it carries the death marker.
    pub open spec fn spec_hidden(self) -> bool {
        self.marker is Some
    }

    /// Whether the rendering layer should hide this unit.
    pub fn hidden(&self) -> (r: bool)
        ensures
            r == self.spec_hidden(),
    {
        self.marker.is_some()
    }
}

/// The formation-wide control register, shared by every unit.
#[derive(Clone, Copy, Debug)]
pub struct AlienManager {
    /// Current horizontal motion sign of the whole formation: `1` or `-1`.
    pub direction: i64,
    /// Edge-triggered: some unit crossed a horizontal boundary this frame.
    pub shift_alien_down: bool,
    /// Signed distance by which the triggering unit exceeded the boundary at
    /// detection time (`half_width * direction - x`); added back to every
    /// unit's x on the next correction so the edge lands exactly on the
    /// boundary.
    pub dist_from_boundary: i64,
    /// Edge-triggered: some unit reached the player's baseline this frame.
    pub reset: bool,
}

impl AlienManager {
    /// The register is well formed: the direction is a sign and the recorded
    /// excess is small enough that a correction cannot overflow.
    pub open spec fn wf(self) -> bool {
        &&& (self.direction == 1 || self.direction == -1)
        &&& -DIST_LIMIT <= self.dist_from_boundary <= DIST_LIMIT
    }
}

/// Column of the grid slot stored at index `i` of the unit vector.
pub open spec fn slot_col(i: int) -> int {
    i / (HEIGHT as int)
}

/// Row of the grid slot stored at index `i` of the unit vector.
pub open spec fn slot_row(i: int) -> int {
    i % (HEIGHT as int)
}

/// Horizontal coordinate of a grid column: the formation is centred on x = 0.
pub open spec fn slot_x(col: int) -> int {
    col * (SPACING as int) - (FORMATION_HALF_SPAN as int)
}

/// Vertical coordinate of a grid row: the formation hangs from the top edge
/// of a screen whose half height is `half_h`.
pub open spec fn slot_y(row: int, half_h: int) -> int {
    row * (SPACING as int) - (FORMATION_DEPTH as int) + half_h
}

/// A freshly initialized unit for index `i` on a screen with half height `half_h`.
pub open spec fn initial_unit(a: Alien, i: int, half_h: int) -> bool {
    &&& a.original_position.x == slot_x(slot_col(i))
    &&& a.original_position.y == slot_y(slot_row(i), half_h)
    &&& a.position == a.original_position
    &&& a.dead == false
    &&& a.marker is None
}

/// Every unit keeps the invariant that only observed-dead units carry the marker.
pub open spec fn units_wf(s: Seq<Alien>) -> bool {
    forall|i: int| 0 <= i < s.len() ==> (#[trigger] s[i]).marker is Some ==> s[i].dead
}

/// All current positions lie within `bound` milli-units of the origin.
pub open spec fn positions_within(s: Seq<Alien>, bound: int) -> bool {
    forall|i: int|
        0 <= i < s.len() ==> {
            &&& -bound <= (#[trigger] s[i]).position.x <= bound
            &&& -bound <= s[i].position.y <= bound
        }
}

/// All formation slots lie within `bound` milli-units of the origin.
pub open spec fn originals_within(s: Seq<Alien>, bound: int) -> bool {
    forall|i: int|
        0 <= i < s.len() ==> {
            &&& -bound <= (#[trigger] s[i]).original_position.x <= bound
            &&& -bound <= s[i].original_position.y <= bound
        }
}

/// Creates the formation: a `WIDTH` x `HEIGHT` grid of live units centred
/// horizontally and anchored near the top of the screen, together with the
/// control register in its starting state (moving right, no pending
/// corrections). Rejects a non-positive or oversized screen.
pub fn setup_aliens(screen: Vec2) -> (r: Result<(AlienManager, Vec<Alien>), ConfigError>)
    ensures
        r is Ok <==> screen_valid(screen),
        r is Err ==> r == Result::<(AlienManager, Vec<Alien>), ConfigError>::Err(
            ConfigError::InvalidScreenDimensions,
        ),
        r is Ok ==> {
            let m = r->Ok_0.0;
            let units = r->Ok_0.1@;
            &&& m.direction == 1
            &&& m.shift_alien_down == false
            &&& m.dist_from_boundary == 0
            &&& m.reset == false
            &&& m.wf()
            &&& units.len() == GRID_SIZE as int
            &&& forall|i: int|
                0 <= i < units.len() ==> initial_unit(
                    #[trigger] units[i],
                    i,
                    half_extent(screen.y),
                )
            &&& units_wf(units)
            &&& positions_within(units, COORD_LIMIT as int)
            &&& originals_within(units, COORD_LIMIT as int)
        },
{
    if !(0 < screen.x && screen.x <= COORD_LIMIT && 0 < screen.y && screen.y <= COORD_LIMIT) {
        return Err(ConfigError::InvalidScreenDimensions);
    }
    let half_h = crate::world::half_of(screen.y);
    let manager = AlienManager {
        direction: 1,
        shift_alien_down: false,
        dist_from_boundary: 0,
        reset: false,
    };
    let mut aliens: Vec<Alien> = Vec::new();
    let mut col: i64 = 0;
    while col < WIDTH
        invariant
            0 <= col <= WIDTH,
            aliens@.len() == col * HEIGHT,
            0 <= half_h <= COORD_LIMIT,
            half_h == half_extent(screen.y),
            forall|i: int|
                0 <= i < aliens@.len() ==> initial_unit(#[trigger] aliens@[i], i, half_h as int),
        decreases WIDTH - col,
    {
        let mut row: i64 = 0;
        while row < HEIGHT
            invariant
                0 <= col < WIDTH,
                0 <= row <= HEIGHT,
                aliens@.len() == col * HEIGHT + row,
                0 <= half_h <= COORD_LIMIT,
                half_h == half_extent(screen.y),
                forall|i: int|
                    0 <= i < aliens@.len() ==> initial_unit(#[trigger] aliens@[i], i, half_h as int),
            decreases HEIGHT - row,
        {
            let position = Vec2 {
                x: col * SPACING - FORMATION_HALF_SPAN,
                y: row * SPACING - FORMATION_DEPTH + half_h,
            };
            let idx: Ghost<int> = Ghost(aliens@.len() as int);
            aliens.push(
                Alien { original_position: position, position, dead: false, marker: None },
            );
            proof {
                lemma_fundamental_div_mod_converse(idx@, HEIGHT as int, col as int, row as int);
            }
            row = row + 1;
        }
        col = col + 1;
    }
    Ok((manager, aliens))
}

/// Horizontal position of a unit after one frame of formation motion.
pub open spec fn moved_x(x: int, direction: int, dt: u64) -> int {
    x + direction * (SPEED as int) * (dt as int)
}

/// A coordinate lies beyond the screen's horizontal half extent.
pub open spec fn out_of_bounds(x: int, half_w: int) -> bool {
    x > half_w || x < -half_w
}

/// Signed distance by which `x` exceeds the boundary the formation is moving
/// towards: `half_w * direction - x`. Adding it back lands `x` exactly on the
/// boundary.
pub open spec fn boundary_excess(direction: int, half_w: int, x: int) -> int {
    half_w * direction - x
}

/// This frame's motion carries the (unmarked) unit past a horizontal boundary.
pub open spec fn unit_overflows(a: Alien, direction: int, dt: u64, half_w: int) -> bool {
    a.marker is None && out_of_bounds(moved_x(a.position.x as int, direction, dt), half_w)
}

/// The (unmarked) unit sits below the player's baseline.
pub open spec fn unit_hits_floor(a: Alien, half_h: int) -> bool {
    a.marker is None && (a.position.y as int) < -half_h
}

/// Effect of one detect pass on a single unit: a marked unit is left alone;
/// any other unit is translated horizontally by the shared displacement and
/// picks up the death marker exactly if its death flag is set.
pub open spec fn detect_unit(pre: Alien, post: Alien, direction: int, dt: u64) -> bool {
    if pre.marker is Some {
        post == pre
    } else {
        &&& post.original_position == pre.original_position
        &&& post.dead == pre.dead
        &&& post.position.y == pre.position.y
        &&& post.position.x as int == moved_x(pre.position.x as int, direction, dt)
        &&& (post.marker is Some <==> pre.dead)
    }
}

/// No unit with index in `[lo, hi)` overflows a boundary this frame.
pub open spec fn no_overflow_in(
    s: Seq<Alien>,
    direction: int,
    dt: u64,
    half_w: int,
    lo: int,
    hi: int,
) -> bool {
    forall|i: int| lo <= i < hi ==> !unit_overflows(#[trigger] s[i], direction, dt, half_w)
}

/// `dist` is the boundary excess of the last overflowing unit among the
/// first `hi`: the detect pass records overflows last-write-wins.
pub open spec fn dist_records_last(
    s: Seq<Alien>,
    direction: int,
    dt: u64,
    half_w: int,
    hi: int,
    dist: int,
) -> bool {
    exists|i: int|
        0 <= i < hi && unit_overflows(#[trigger] s[i], direction, dt, half_w) && dist
            == boundary_excess(direction, half_w, moved_x(s[i].position.x as int, direction, dt))
            && no_overflow_in(s, direction, dt, half_w, i + 1, hi)
}

/// Some unit among the first `hi` sits below the player's baseline.
pub open spec fn floor_hit_in(s: Seq<Alien>, half_h: int, hi: int) -> bool {
    exists|i: int| 0 <= i < hi && unit_hits_floor(#[trigger] s[i], half_h)
}

/// The detect pass: translates every unmarked unit horizontally by
/// `direction * SPEED * dt` milli-units, records a pending boundary shift
/// with the exact overflow distance of the last unit found out of bounds,
/// marks freshly observed deaths, and records a pending reset if any unmarked
/// unit has reached the player's baseline. The shared direction is only read,
/// never written, so every unit of the frame moves by one displacement.
pub fn update_aliens(manager: &mut AlienManager, aliens: &mut Vec<Alien>, dt: u64, screen: Vec2)
    requires
        old(manager).wf(),
        screen_valid(screen),
        dt <= DT_LIMIT,
        units_wf(old(aliens)@),
        positions_within(old(aliens)@, COORD_LIMIT as int),
    ensures
        final(manager).wf(),
        final(manager).direction == old(manager).direction,
        final(aliens)@.len() == old(aliens)@.len(),
        units_wf(final(aliens)@),
        positions_within(final(aliens)@, MOVED_LIMIT as int),
        forall|i: int|
            0 <= i < old(aliens)@.len() ==> detect_unit(
                old(aliens)@[i],
                #[trigger] final(aliens)@[i],
                old(manager).direction as int,
                dt,
            ),
        // all unmarked units share one displacement: no two move in opposite
        // directions within a single detect pass
        forall|i: int, j: int|
            #![trigger final(aliens)@[i], final(aliens)@[j]]
            0 <= i < old(aliens)@.len() && 0 <= j < old(aliens)@.len() && old(
                aliens,
            )@[i].marker is None && old(aliens)@[j].marker is None ==> final(aliens)@[i].position.x
                - old(aliens)@[i].position.x == final(aliens)@[j].position.x - old(
                aliens,
            )@[j].position.x,
        final(manager).shift_alien_down == (old(manager).shift_alien_down || !no_overflow_in(
            old(aliens)@,
            old(manager).direction as int,
            dt,
            half_extent(screen.x),
            0,
            old(aliens)@.len() as int,
        )),
        no_overflow_in(
            old(aliens)@,
            old(manager).direction as int,
            dt,
            half_extent(screen.x),
            0,
            old(aliens)@.len() as int,
        ) ==> final(manager).dist_from_boundary == old(manager).dist_from_boundary,
        !no_overflow_in(
            old(aliens)@,
            old(manager).direction as int,
            dt,
            half_extent(screen.x),
            0,
            old(aliens)@.len() as int,
        ) ==> dist_records_last(
            old(aliens)@,
            old(manager).direction as int,
            dt,
            half_extent(screen.x),
            old(aliens)@.len() as int,
            final(manager).dist_from_boundary as int,
        ),
        final(manager).reset == (old(manager).reset || floor_hit_in(
            old(aliens)@,
            half_extent(screen.y),
            old(aliens)@.len() as int,
        )),
{
    let n = aliens.len();
    let half_w = crate::world::half_of(screen.x);
    let half_h = crate::world::half_of(screen.y);
    let dir = manager.direction;
    let mut k: usize = 0;
    while k < n
        invariant
            k <= n,
            n == aliens@.len(),
            aliens@.len() == old(aliens)@.len(),
            dir == old(manager).direction,
            dir == 1 || dir == -1,
            dt <= DT_LIMIT,
            half_w == half_extent(screen.x),
            0 <= half_w <= COORD_LIMIT,
            half_h == half_extent(screen.y),
            0 <= half_h <= COORD_LIMIT,
            units_wf(old(aliens)@),
            positions_within(old(aliens)@, COORD_LIMIT as int),
            manager.direction == old(manager).direction,
            manager.wf(),
            forall|i: int| k <= i < n ==> aliens@[i] == old(aliens)@[i],
            forall|i: int|
                0 <= i < k ==> detect_unit(old(aliens)@[i], #[trigger] aliens@[i], dir as int, dt),
            manager.shift_alien_down == (old(manager).shift_alien_down || !no_overflow_in(
                old(aliens)@,
                dir as int,
                dt,
                half_w as int,
                0,
                k as int,
            )),
            no_overflow_in(old(aliens)@, dir as int, dt, half_w as int, 0, k as int) ==> manager
                .dist_from_boundary == old(manager).dist_from_boundary,
            !no_overflow_in(old(aliens)@, dir as int, dt, half_w as int, 0, k as int)
                ==> dist_records_last(
                old(aliens)@,
                dir as int,
                dt,
                half_w as int,
                k as int,
                manager.dist_from_boundary as int,
            ),
            manager.reset == (old(manager).reset || floor_hit_in(
                old(aliens)@,
                half_h as int,
                k as int,
            )),
        decreases n - k,
    {
        let a = aliens[k];
        let ghost prev_dist = manager.dist_from_boundary as int;
        let ghost prev_no_overflow = no_overflow_in(
            old(aliens)@,
            dir as int,
            dt,
            half_w as int,
            0,
            k as int,
        );
        if a.marker.is_none() {
            let step = if dir == 1 {
                SPEED * (dt as i64)
            } else {
                -(SPEED * (dt as i64))
            };
            proof {
                assert(step as int == (dir as int) * (SPEED as int) * (dt as int)) by (nonlinear_arith)
                    requires
                        dir == 1 || dir == -1,
                        dir == 1 ==> step as int == (SPEED as int) * (dt as int),
                        dir == -1 ==> step as int == -((SPEED as int) * (dt as int)),
                ;
                assert(-COORD_LIMIT <= old(aliens)@[k as int].position.x <= COORD_LIMIT);
            }
            let new_x = a.position.x + step;
            let mut updated = a;
            updated.position.x = new_x;
            if new_x > half_w || new_x < -half_w {
                manager.shift_alien_down = true;
                manager.dist_from_boundary = half_w * dir - new_x;
                proof {
                    assert(unit_overflows(old(aliens)@[k as int], dir as int, dt, half_w as int));
                    assert(dist_records_last(
                        old(aliens)@,
                        dir as int,
                        dt,
                        half_w as int,
                        k as int + 1,
                        manager.dist_from_boundary as int,
                    ));
                }
            } else {
                proof {
                    assert(!unit_overflows(old(aliens)@[k as int], dir as int, dt, half_w as int));
                }
            }
            if a.dead {
                updated.marker = Some(Dead);
            }
            if a.position.y < -half_h {
                manager.reset = true;
            }
            aliens[k] = updated;
        } else {
            proof {
                assert(!unit_overflows(old(aliens)@[k as int], dir as int, dt, half_w as int));
                assert(!unit_hits_floor(old(aliens)@[k as int], half_h as int));
            }
        }
        proof {
            if !prev_no_overflow && !unit_overflows(
                old(aliens)@[k as int],
                dir as int,
                dt,
                half_w as int,
            ) {
                let w = choose|i: int|
                    0 <= i < k as int && unit_overflows(
                        #[trigger] old(aliens)@[i],
                        dir as int,
                        dt,
                        half_w as int,
                    ) && prev_dist == boundary_excess(
                        dir as int,
                        half_w as int,
                        moved_x(old(aliens)@[i].position.x as int, dir as int, dt),
                    ) && no_overflow_in(old(aliens)@, dir as int, dt, half_w as int, i + 1, k as int);
                assert(no_overflow_in(
                    old(aliens)@,
                    dir as int,
                    dt,
                    half_w as int,
                    w + 1,
                    k as int + 1,
                ));
            }
        }
        k = k + 1;
    }
}

/// Effect of a resolved boundary shift on one unit: the recorded excess is
/// added back to x and the formation drops by the fixed descent, dead or not.
pub open spec fn shifted_unit(pre: Alien, post: Alien, dist: int) -> bool {
    &&& post.original_position == pre.original_position
    &&& post.position.x as int == pre.position.x + dist
    &&& post.position.y as int == pre.position.y - ALIEN_SHIFT_AMOUNT
    &&& post.dead == pre.dead
    &&& post.marker == pre.marker
}

/// Effect of a resolved formation reset on one unit: back to its slot, death
/// flag cleared, and the marker removed from units whose flag was set.
pub open spec fn revived_unit(pre: Alien, post: Alien) -> bool {
    &&& post.original_position == pre.original_position
    &&& post.position == pre.original_position
    &&& post.dead == false
    &&& post.marker == (if pre.dead {
        Option::<Dead>::None
    } else {
        pre.marker
    })
}

/// Effect of the whole correction pass on one unit. A shift and a reset may
/// both fire in one frame, shift first; the reset then overrides every
/// position, so the reset branch alone describes the combined outcome.
pub open spec fn resolved_unit(pre: Alien, post: Alien, shift: bool, reset: bool, dist: int) -> bool {
    if reset {
        revived_unit(pre, post)
    } else if shift {
        shifted_unit(pre, post, dist)
    } else {
        post == pre
    }
}

/// The correction pass, run after the detect pass of the same frame. A
/// pending shift is consumed: the direction flips and every unit, dead or
/// alive, is moved back by the recorded excess and dropped by the fixed
/// descent. A pending reset is consumed afterwards: the direction returns to
/// `1` and every unit, dead or alive, is revived on its original slot.
pub fn manage_alien_logic(manager: &mut AlienManager, aliens: &mut Vec<Alien>)
    requires
        old(manager).wf(),
        units_wf(old(aliens)@),
        positions_within(old(aliens)@, MOVED_LIMIT as int),
    ensures
        final(manager).wf(),
        final(manager).shift_alien_down == false,
        final(manager).reset == false,
        final(manager).dist_from_boundary == old(manager).dist_from_boundary,
        final(manager).direction as int == (if old(manager).reset {
            1
        } else if old(manager).shift_alien_down {
            -(old(manager).direction as int)
        } else {
            old(manager).direction as int
        }),
        final(aliens)@.len() == old(aliens)@.len(),
        units_wf(final(aliens)@),
        forall|i: int|
            0 <= i < old(aliens)@.len() ==> resolved_unit(
                old(aliens)@[i],
                #[trigger] final(aliens)@[i],
                old(manager).shift_alien_down,
                old(manager).reset,
                old(manager).dist_from_boundary as int,
            ),
        // descent on shift: every unit's y drops by exactly the fixed
        // constant when a shift is resolved, dead units included
        old(manager).shift_alien_down && !old(manager).reset ==> forall|i: int|
            0 <= i < old(aliens)@.len() ==> (#[trigger] final(aliens)@[i]).position.y as int == old(
                aliens,
            )@[i].position.y - ALIEN_SHIFT_AMOUNT,
        // reset revives all: every unit, dead or alive, back on its slot with
        // the death flag and marker cleared
        old(manager).reset ==> final(manager).direction == 1 && forall|i: int|
            0 <= i < old(aliens)@.len() ==> {
                let a = #[trigger] final(aliens)@[i];
                &&& a.position == old(aliens)@[i].original_position
                &&& a.dead == false
                &&& a.marker is None
            },
{
    let n = aliens.len();
    if manager.shift_alien_down {
        manager.shift_alien_down = false;
        manager.direction = -manager.direction;
        let dist = manager.dist_from_boundary;
        let mut k: usize = 0;
        while k < n
            invariant
                k <= n,
                n == aliens@.len(),
                aliens@.len() == old(aliens)@.len(),
                -DIST_LIMIT <= dist <= DIST_LIMIT,
                positions_within(old(aliens)@, MOVED_LIMIT as int),
                forall|i: int| k <= i < n ==> aliens@[i] == old(aliens)@[i],
                forall|i: int|
                    0 <= i < k ==> shifted_unit(old(aliens)@[i], #[trigger] aliens@[i], dist as int),
            decreases n - k,
        {
            let a = aliens[k];
            proof {
                assert(-MOVED_LIMIT <= old(aliens)@[k as int].position.x <= MOVED_LIMIT);
                assert(-MOVED_LIMIT <= old(aliens)@[k as int].position.y <= MOVED_LIMIT);
            }
            let mut u = a;
            u.position.x = a.position.x + dist;
            u.position.y = a.position.y - ALIEN_SHIFT_AMOUNT;
            aliens[k] = u;
            k = k + 1;
        }
    }
    if manager.reset {
        manager.reset = false;
        manager.direction = 1;
        let ghost mid = aliens@;
        let mut k: usize = 0;
        while k < n
            invariant
                k <= n,
                n == aliens@.len(),
                aliens@.len() == mid.len(),
                forall|i: int| k <= i < n ==> aliens@[i] == mid[i],
                forall|i: int| 0 <= i < k ==> revived_unit(mid[i], #[trigger] aliens@[i]),
            decreases n - k,
        {
            let a = aliens[k];
            let mut u = a;
            u.position = a.original_position;
            if a.dead {
                u.dead = false;
                u.marker = None;
            }
            aliens[k] = u;
            k = k + 1;
        }
    }
}

/// Grid integrity: in a freshly initialized formation, no two units share an
/// original position, whatever the screen's half height.
pub proof fn lemma_grid_integrity(units: Seq<Alien>, half_h: int, i: int, j: int)
    requires
        units.len() == GRID_SIZE as int,
        forall|k: int| 0 <= k < units.len() ==> initial_unit(#[trigger] units[k], k, half_h),
        0 <= i < units.len(),
        0 <= j < units.len(),
        i != j,
    ensures
        units[i].original_position != units[j].original_position,
{
    lemma_grid_slots_unique(i, j, half_h);
}

/// Boundary correction exactness: a unit whose frame motion carries it past
/// the boundary by exactly `delta` records an excess equal to `-delta` times
/// the motion sign, and applying that excess lands the unit exactly on the
/// boundary it crossed while translating every other coordinate by the same
/// amount - a uniform shift, not a clamp.
pub proof fn lemma_boundary_correction_exact(half_w: int, delta: int, x: int, x_other: int)
    requires
        delta > 0,
    ensures
        x == half_w + delta ==> {
            &&& out_of_bounds(x, half_w)
            &&& boundary_excess(1, half_w, x) == -delta
            &&& x + boundary_excess(1, half_w, x) == half_w
            &&& x_other + boundary_excess(1, half_w, x) == x_other - delta
        },
        x == -half_w - delta ==> {
            &&& out_of_bounds(x, half_w)
            &&& boundary_excess(-1, half_w, x) == delta
            &&& x + boundary_excess(-1, half_w, x) == -half_w
            &&& x_other + boundary_excess(-1, half_w, x) == x_other + delta
        },
{
}

/// No two distinct indices of the freshly initialized formation share a
/// formation slot: the grid positions are pairwise distinct, whatever the
/// screen's half height.
pub proof fn lemma_grid_slots_unique(i: int, j: int, half_h: int)
    requires
        0 <= i < GRID_SIZE as int,
        0 <= j < GRID_SIZE as int,
        i != j,
    ensures
        slot_x(slot_col(i)) != slot_x(slot_col(j)) || slot_y(slot_row(i), half_h) != slot_y(
            slot_row(j),
            half_h,
        ),
{
    lemma_fundamental_div_mod(i, HEIGHT as int);
    lemma_fundamental_div_mod(j, HEIGHT as int);
    if slot_col(i) == slot_col(j) && slot_row(i) == slot_row(j) {
        assert(i == j);
    }
    if slot_col(i) != slot_col(j) {
        assert(slot_x(slot_col(i)) != slot_x(slot_col(j))) by (nonlinear_arith)
            requires
                slot_col(i) != slot_col(j),
                slot_x(slot_col(i)) == slot_col(i) * (SPACING as int) - (
                FORMATION_HALF_SPAN as int),
                slot_x(slot_col(j)) == slot_col(j) * (SPACING as int) - (
                FORMATION_HALF_SPAN as int),
        ;
    } else {
        assert(slot_y(slot_row(i), half_h) != slot_y(slot_row(j), half_h)) by (nonlinear_arith)
            requires
                slot_row(i) != slot_row(j),
                slot_y(slot_row(i), half_h) == slot_row(i) * (SPACING as int) - (
                FORMATION_DEPTH as int) + half_h,
                slot_y(slot_row(j), half_h) == slot_row(j) * (SPACING as int) - (
                FORMATION_DEPTH as int) + half_h,
        ;
    }
}

} // verus!
