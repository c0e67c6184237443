use vstd::prelude::*;

verus! {

/// Fixed-point scale: one world unit is this many position units.
pub const UNIT: i64 = 1000;

/// Side of the square arena, in grid cells (one cell is one world unit).
pub const MAP_SIZE: i32 = 41;

/// Half of the arena side, in position units.
pub const MAP_HALF: i64 = 20500;

/// Radius of a player's bounding circle, in position units.
pub const PLAYER_RADIUS: i64 = 300;

/// Radius of a bullet, in position units.
pub const BULLET_RADIUS: i64 = 50;

/// Largest absolute coordinate a player may reach by moving: half the arena
/// minus the player's radius.
pub const ARENA_LIMIT: i64 = 20200;

/// Distance a player covers in one frame at full speed (6 units/s at 60 frames/s).
pub const MOVE_STEP: i64 = 100;

/// Distance a bullet covers in one frame (20 units/s at 60 frames/s).
pub const BULLET_STEP: i64 = 333;

/// Each component of a diagonal unit vector, in position units.
pub const DIAGONAL: i64 = 707;

/// Frames a round stays over before the next round starts (one second).
pub const ROUND_END_FRAMES: u32 = 60;

/// Number of walls generated for each round.
pub const WALL_COUNT: usize = 20;

/// Exclusive upper bound of a wall's side, in cells.
pub const MAX_BOX_SIZE: i32 = 10;

} // verus!
