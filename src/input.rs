use vstd::prelude::*;
use crate::consts::DIAGONAL;

verus! {

pub const INPUT_UP: u8 = 1;
pub const INPUT_DOWN: u8 = 2;
pub const INPUT_LEFT: u8 = 4;
pub const INPUT_RIGHT: u8 = 8;
pub const INPUT_FIRE: u8 = 16;
pub const INPUT_DODGE: u8 = 32;
pub const INPUT_BLOCK: u8 = 64;
pub const INPUT_SPRINT: u8 = 128;

/// Whether the given flag bit is set in an input bitmask.
pub open spec fn has_flag(input: u8, flag: u8) -> bool {
    input & flag != 0
}

/// Horizontal and vertical intent of an input, each in -1..=1.
/// Up is negative z (towards the top of the screen), right is positive x.
pub open spec fn intent(input: u8) -> (int, int) {
    let x = (if has_flag(input, INPUT_RIGHT) { 1int } else { 0 }) - (if has_flag(input, INPUT_LEFT) { 1int } else { 0 });
    let z = (if has_flag(input, INPUT_DOWN) { 1int } else { 0 }) - (if has_flag(input, INPUT_UP) { 1int } else { 0 });
    (x, z)
}

/// The unit direction of an input in position units: axis-aligned intents
/// give length `UNIT`, diagonal ones `DIAGONAL` on each axis, and no intent
/// (or opposite keys cancelling out) gives the zero vector.
pub open spec fn direction_of(input: u8) -> (i64, i64) {
    let (x, z) = intent(input);
    if x != 0 && z != 0 {
        ((x * DIAGONAL) as i64, (z * DIAGONAL) as i64)
    } else {
        ((x * 1000) as i64, (z * 1000) as i64)
    }
}

/// Unit direction of the movement keys held in `input`.
pub fn direction(input: u8) -> (r: (i64, i64))
    ensures
        r == direction_of(input),
{
    let mut x: i64 = 0;
    let mut z: i64 = 0;
    if input & INPUT_UP != 0 {
        z = z - 1;
    }
    if input & INPUT_DOWN != 0 {
        z = z + 1;
    }
    if input & INPUT_RIGHT != 0 {
        x = x + 1;
    }
    if input & INPUT_LEFT != 0 {
        x = x - 1;
    }
    if x != 0 && z != 0 {
        (x * DIAGONAL, z * DIAGONAL)
    } else {
        (x * 1000, z * 1000)
    }
}

pub fn fire(input: u8) -> (r: bool)
    ensures
        r == has_flag(input, INPUT_FIRE),
{
    input & INPUT_FIRE != 0
}

/// Melee attack shares the fire key.
pub fn attack(input: u8) -> (r: bool)
    ensures
        r == has_flag(input, INPUT_FIRE),
{
    input & INPUT_FIRE != 0
}

pub fn dodge(input: u8) -> (r: bool)
    ensures
        r == has_flag(input, INPUT_DODGE),
{
    input & INPUT_DODGE != 0
}

pub fn block(input: u8) -> (r: bool)
    ensures
        r == has_flag(input, INPUT_BLOCK),
{
    input & INPUT_BLOCK != 0
}

pub fn sprint(input: u8) -> (r: bool)
    ensures
        r == has_flag(input, INPUT_SPRINT),
{
    input & INPUT_SPRINT != 0
}

/// Octant index of a direction: its angle, measured from +x towards +z,
/// rounded to the nearest multiple of 45 degrees, counted 0 (right, +x)
/// to 7 (+x, -z). The zero vector has octant 0.
///
/// The angle is within 22.5 degrees of the x axis exactly when
/// `(|x| + |z|)^2 < 2 x^2` (the ratio `|z| / |x|` is below `sqrt(2) - 1`),
/// and likewise for the z axis; with integers the boundary is never hit.
pub open spec fn octant_of(x: i64, z: i64) -> u8 {
    let ax: int = if x < 0 { -x } else { x as int };
    let az: int = if z < 0 { -z } else { z as int };
    if ax == 0 && az == 0 {
        0
    } else if (ax + az) * (ax + az) < 2 * ax * ax {
        if x > 0 { 0 } else { 4 }
    } else if (ax + az) * (ax + az) < 2 * az * az {
        if z > 0 { 2 } else { 6 }
    } else if x > 0 && z > 0 {
        1
    } else if x < 0 && z > 0 {
        3
    } else if x < 0 && z < 0 {
        5
    } else {
        7
    }
}

/// The 45-degree sector that a direction points into.
pub fn octant(x: i64, z: i64) -> (r: u8)
    requires
        -1000 <= x <= 1000,
        -1000 <= z <= 1000,
    ensures
        r == octant_of(x, z),
        r < 8,
{
    let ax: i64 = if x < 0 { -x } else { x };
    let az: i64 = if z < 0 { -z } else { z };
    assert(0 <= (ax + az) * (ax + az) <= 4000000) by (nonlinear_arith)
        requires 0 <= ax <= 1000, 0 <= az <= 1000;
    assert(0 <= 2 * ax * ax <= 2000000) by (nonlinear_arith)
        requires 0 <= ax <= 1000;
    assert(0 <= 2 * az * az <= 2000000) by (nonlinear_arith)
        requires 0 <= az <= 1000;
    let sum = ax + az;
    if ax == 0 && az == 0 {
        0
    } else if sum * sum < 2 * ax * ax {
        if x > 0 { 0 } else { 4 }
    } else if sum * sum < 2 * az * az {
        if z > 0 { 2 } else { 6 }
    } else if x > 0 && z > 0 {
        1
    } else if x < 0 && z > 0 {
        3
    } else if x < 0 && z < 0 {
        5
    } else {
        7
    }
}

/// Keys held on the local keyboard in one frame.
#[derive(Clone, Copy, Debug, PartialEq, Eq, Structural)]
pub struct KeyState {
    pub up: bool,
    pub down: bool,
    pub left: bool,
    pub right: bool,
    pub fire: bool,
    pub dodge: bool,
    pub block: bool,
    pub sprint: bool,
}

pub open spec fn bit(held: bool, flag: u8) -> int {
    if held { flag as int } else { 0 }
}

/// The bitmask of the keys held: one distinct flag per key.
pub open spec fn bits_of(k: KeyState) -> u8 {
    (bit(k.up, INPUT_UP) + bit(k.down, INPUT_DOWN) + bit(k.left, INPUT_LEFT) + bit(k.right, INPUT_RIGHT)
        + bit(k.fire, INPUT_FIRE) + bit(k.dodge, INPUT_DODGE) + bit(k.block, INPUT_BLOCK)
        + bit(k.sprint, INPUT_SPRINT)) as u8
}

/// The local player's input for a frame; nothing is pressed while the chat
/// box has the keyboard.
pub fn encode_keys(keys: KeyState, chat_focused: bool) -> (r: u8)
    ensures
        r == (if chat_focused { 0 } else { bits_of(keys) }),
{
    let mut input: u8 = 0;
    if !chat_focused {
        if keys.up {
            input = input + INPUT_UP;
        }
        if keys.down {
            input = input + INPUT_DOWN;
        }
        if keys.left {
            input = input + INPUT_LEFT;
        }
        if keys.right {
            input = input + INPUT_RIGHT;
        }
        if keys.fire {
            input = input + INPUT_FIRE;
        }
        if keys.dodge {
            input = input + INPUT_DODGE;
        }
        if keys.block {
            input = input + INPUT_BLOCK;
        }
        if keys.sprint {
            input = input + INPUT_SPRINT;
        }
    }
    input
}

} // verus!
