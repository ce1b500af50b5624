use vstd::prelude::*;

use crate::units::UNIT;

verus! {

/// What one player asks for in one tick: a movement axis per direction, in
/// thousandths of full deflection, and the jump and shoot buttons.
#[derive(PartialEq, Eq, Structural, Clone, Copy, Debug)]
pub struct PlayerInput {
    pub axis_x: i32,
    pub axis_y: i32,
    pub jump: bool,
    pub shoot: bool,
}

impl PlayerInput {
    /// No axis deflection and no button held.
    pub fn neutral() -> (r: PlayerInput)
        ensures
            r == neutral_input(),
    {
        PlayerInput { axis_x: 0, axis_y: 0, jump: false, shoot: false }
    }
}

pub open spec fn neutral_input() -> PlayerInput {
    PlayerInput { axis_x: 0, axis_y: 0, jump: false, shoot: false }
}

/// The digital buttons of one player in one tick, as carried by an input record.
#[derive(PartialEq, Eq, Structural, Clone, Copy, Debug)]
pub struct Buttons {
    pub right: bool,
    pub left: bool,
    pub up: bool,
    pub down: bool,
    pub jump: bool,
    pub shoot: bool,
}

pub const RIGHT_BIT: u8 = 1;
pub const LEFT_BIT: u8 = 2;
pub const UP_BIT: u8 = 4;
pub const DOWN_BIT: u8 = 8;
pub const JUMP_BIT: u8 = 16;
pub const SHOOT_BIT: u8 = 32;

/// Bits of a record that carry a button.
pub const RECORD_MASK: u8 = 63;

pub open spec fn flag(b: bool, m: u8) -> u8 {
    if b {
        m
    } else {
        0
    }
}

/// The one-byte record of a set of buttons.
pub open spec fn encode_spec(b: Buttons) -> u8 {
    flag(b.right, RIGHT_BIT) | flag(b.left, LEFT_BIT) | flag(b.up, UP_BIT) | flag(b.down, DOWN_BIT)
        | flag(b.jump, JUMP_BIT) | flag(b.shoot, SHOOT_BIT)
}

/// The buttons that a one-byte record carries; bits above the sixth are ignored.
pub open spec fn decode_spec(x: u8) -> Buttons {
    Buttons {
        right: x & RIGHT_BIT != 0,
        left: x & LEFT_BIT != 0,
        up: x & UP_BIT != 0,
        down: x & DOWN_BIT != 0,
        jump: x & JUMP_BIT != 0,
        shoot: x & SHOOT_BIT != 0,
    }
}

/// The axis value of a pair of opposing buttons.
pub open spec fn axis_of(pos: bool, neg: bool) -> int {
    (if pos { UNIT as int } else { 0 }) - (if neg { UNIT as int } else { 0 })
}

pub open spec fn input_of(b: Buttons) -> PlayerInput {
    PlayerInput {
        axis_x: axis_of(b.right, b.left) as i32,
        axis_y: axis_of(b.up, b.down) as i32,
        jump: b.jump,
        shoot: b.shoot,
    }
}

fn flag_bits(b: bool, m: u8) -> (r: u8)
    ensures
        r == flag(b, m),
{
    if b {
        m
    } else {
        0
    }
}

fn axis_value(pos: bool, neg: bool) -> (r: i32)
    ensures
        r == axis_of(pos, neg),
{
    let p: i32 = if pos { UNIT as i32 } else { 0 };
    let n: i32 = if neg { UNIT as i32 } else { 0 };
    p - n
}

impl Buttons {
    /// Packs the buttons into the one-byte input record.
    pub fn encode(&self) -> (r: u8)
        ensures
            r == encode_spec(*self),
    {
        flag_bits(self.right, RIGHT_BIT) | flag_bits(self.left, LEFT_BIT) | flag_bits(self.up, UP_BIT)
            | flag_bits(self.down, DOWN_BIT) | flag_bits(self.jump, JUMP_BIT) | flag_bits(
            self.shoot,
            SHOOT_BIT,
        )
    }

    /// Unpacks a one-byte input record.
    pub fn decode(x: u8) -> (r: Buttons)
        ensures
            r == decode_spec(x),
    {
        Buttons {
            right: x & RIGHT_BIT != 0,
            left: x & LEFT_BIT != 0,
            up: x & UP_BIT != 0,
            down: x & DOWN_BIT != 0,
            jump: x & JUMP_BIT != 0,
            shoot: x & SHOOT_BIT != 0,
        }
    }

    /// The input these buttons give: opposing directions cancel out.
    pub fn to_input(&self) -> (r: PlayerInput)
        ensures
            r == input_of(*self),
    {
        PlayerInput {
            axis_x: axis_value(self.right, self.left),
            axis_y: axis_value(self.up, self.down),
            jump: self.jump,
            shoot: self.shoot,
        }
    }
}

/// Decoding a record recovers exactly the buttons it was encoded from.
pub proof fn lemma_decode_encode(b: Buttons)
    ensures
        decode_spec(encode_spec(b)) == b,
{
    let (r, l, u, d, j, s) = (
        flag(b.right, 1),
        flag(b.left, 2),
        flag(b.up, 4),
        flag(b.down, 8),
        flag(b.jump, 16),
        flag(b.shoot, 32),
    );
    assert(r == 0 || r == 1);
    assert(l == 0 || l == 2);
    assert(u == 0 || u == 4);
    assert(d == 0 || d == 8);
    assert(j == 0 || j == 16);
    assert(s == 0 || s == 32);
    let x = r | l | u | d | j | s;
    assert(x & 1 != 0 <==> r == 1) by (bit_vector)
        requires
            r == 0 || r == 1, l == 0 || l == 2, u == 0 || u == 4, d == 0 || d == 8,
            j == 0 || j == 16, s == 0 || s == 32, x == r | l | u | d | j | s,
    ;
    assert(x & 2 != 0 <==> l == 2) by (bit_vector)
        requires
            r == 0 || r == 1, l == 0 || l == 2, u == 0 || u == 4, d == 0 || d == 8,
            j == 0 || j == 16, s == 0 || s == 32, x == r | l | u | d | j | s,
    ;
    assert(x & 4 != 0 <==> u == 4) by (bit_vector)
        requires
            r == 0 || r == 1, l == 0 || l == 2, u == 0 || u == 4, d == 0 || d == 8,
            j == 0 || j == 16, s == 0 || s == 32, x == r | l | u | d | j | s,
    ;
    assert(x & 8 != 0 <==> d == 8) by (bit_vector)
        requires
            r == 0 || r == 1, l == 0 || l == 2, u == 0 || u == 4, d == 0 || d == 8,
            j == 0 || j == 16, s == 0 || s == 32, x == r | l | u | d | j | s,
    ;
    assert(x & 16 != 0 <==> j == 16) by (bit_vector)
        requires
            r == 0 || r == 1, l == 0 || l == 2, u == 0 || u == 4, d == 0 || d == 8,
            j == 0 || j == 16, s == 0 || s == 32, x == r | l | u | d | j | s,
    ;
    assert(x & 32 != 0 <==> s == 32) by (bit_vector)
        requires
            r == 0 || r == 1, l == 0 || l == 2, u == 0 || u == 4, d == 0 || d == 8,
            j == 0 || j == 16, s == 0 || s == 32, x == r | l | u | d | j | s,
    ;
}

/// Encoding the buttons of a record gives back the record with its unused bits cleared.
pub proof fn lemma_encode_decode(x: u8)
    ensures
        encode_spec(decode_spec(x)) == x & RECORD_MASK,
{
    let b = decode_spec(x);
    let e = encode_spec(b);
    assert(e == (if x & 1 != 0 { 1u8 } else { 0u8 }) | (if x & 2 != 0 { 2u8 } else { 0u8 }) | (if x
        & 4 != 0 { 4u8 } else { 0u8 }) | (if x & 8 != 0 { 8u8 } else { 0u8 }) | (if x & 16 != 0 {
        16u8
    } else { 0u8 }) | (if x & 32 != 0 { 32u8 } else { 0u8 }));
    assert((if x & 1 != 0 { 1u8 } else { 0u8 }) | (if x & 2 != 0 { 2u8 } else { 0u8 }) | (if x & 4
        != 0 { 4u8 } else { 0u8 }) | (if x & 8 != 0 { 8u8 } else { 0u8 }) | (if x & 16 != 0 {
        16u8
    } else { 0u8 }) | (if x & 32 != 0 { 32u8 } else { 0u8 }) == x & 63) by (bit_vector);
}

} // verus!
