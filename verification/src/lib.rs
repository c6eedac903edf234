//! Gameplay core of a fixed-formation arcade shooter: a grid of swarm units
//! that moves in lockstep, reverses and descends at the screen boundary, and
//! resets to its starting formation when any unit reaches the player's
//! baseline; plus a player controller with clamped horizontal motion and a
//! shoot cooldown. Coordinates are integer milli-units (thousandths of a
//! world unit) and elapsed time is integer milliseconds, so every frame
//! update is exact. Rendering, asset loading and input polling live outside
//! this crate; it consumes screen dimensions, elapsed time and input intent,
//! and produces positions, visibility and projectile spawn requests.

pub mod alien;
pub mod player;
pub mod world;
