use vstd::prelude::*;

verus! {

/// Largest magnitude, in milli-units, that any coordinate handed to a
/// movement pass may have. It leaves ample headroom below `i64::MAX` for a
/// frame's worth of motion and a boundary correction.
pub const COORD_LIMIT: i64 = 1_000_000_000_000_000;

/// Bound on a coordinate after one detect pass: `COORD_LIMIT` plus the
/// largest single-frame displacement.
pub const MOVED_LIMIT: i64 = 2_000_000_000_000_000;

/// Largest magnitude the recorded boundary excess can take: a half extent
/// plus a post-move coordinate.
pub const DIST_LIMIT: i64 = 3_000_000_000_000_000;

/// Largest elapsed time, in milliseconds, a single frame may report.
pub const DT_LIMIT: u64 = 1_000_000_000;

/// A planar point or extent in milli-units (thousandths of a world unit).
/// Integer fixed-point coordinates keep every frame update exact.
#[derive(Clone, Copy, PartialEq, Eq, Structural, Debug)]
pub struct Vec2 {
    pub x: i64,
    pub y: i64,
}

/// Screen dimensions a caller may configure: strictly positive, and small
/// enough that every coordinate derived from them stays representable.
pub open spec fn screen_valid(screen: Vec2) -> bool {
    &&& 0 < screen.x <= COORD_LIMIT
    &&& 0 < screen.y <= COORD_LIMIT
}

/// Half of a screen extent: the distance from the centre to the edge.
pub open spec fn half_extent(v: i64) -> int {
    (v as int) / 2
}

/// A configuration rejected at initialization time.
#[derive(Clone, Copy, PartialEq, Eq, Structural, Debug)]
pub enum ConfigError {
    /// The screen extent was zero, negative, or beyond `COORD_LIMIT`.
    InvalidScreenDimensions,
}

/// Computes the half extent of a positive screen dimension.
pub fn half_of(v: i64) -> (r: i64)
    requires
        0 < v <= COORD_LIMIT,
    ensures
        r == half_extent(v),
        0 <= r <= COORD_LIMIT,
{
    ((v as u64) / 2) as i64
}

} // verus!
