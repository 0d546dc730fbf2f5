//! The compact input representation: what a player holds down during one
//! frame, packed into a single byte.

use vstd::prelude::*;

verus! {

/// Bit set while "up" is held.
pub const INPUT_UP: u8 = 1;

/// Bit set while "down" is held.
pub const INPUT_DOWN: u8 = 2;

/// Bit set while "left" is held.
pub const INPUT_LEFT: u8 = 4;

/// Bit set while "right" is held.
pub const INPUT_RIGHT: u8 = 8;

/// The state of the four directional controls at one instant.
#[derive(Clone, Copy, Debug, PartialEq, Eq, Structural)]
pub struct Buttons {
    pub up: bool,
    pub down: bool,
    pub left: bool,
    pub right: bool,
}

/// The bitmask that stands for a set of held controls: the sum of the bits of
/// the controls that are held.
pub open spec fn pack(buttons: Buttons) -> int {
    (if buttons.up { 1int } else { 0int })
    + (if buttons.down { 2int } else { 0int })
    + (if buttons.left { 4int } else { 0int })
    + (if buttons.right { 8int } else { 0int })
}

/// Whether `mask` has the bit of value `bit` set, for `bit` a power of two.
pub open spec fn holds(mask: u8, bit: u8) -> bool
    recommends
        bit > 0,
{
    (mask as int / bit as int) % 2 == 1
}

/// The controls that a bitmask reports as held. The four high bits are not
/// looked at.
pub open spec fn unpack(mask: u8) -> Buttons {
    Buttons {
        up: holds(mask, INPUT_UP),
        down: holds(mask, INPUT_DOWN),
        left: holds(mask, INPUT_LEFT),
        right: holds(mask, INPUT_RIGHT),
    }
}

/// One player's input for one frame, as it travels between peers: a single
/// byte, of which the low four bits are in use.
#[derive(Clone, Copy, Debug, PartialEq, Eq, Structural)]
pub struct BoxInput {
    pub inp: u8,
}

impl BoxInput {
    /// The input with nothing held.
    pub fn neutral() -> (input: BoxInput)
        ensures
            input.inp == 0,
    {
        BoxInput { inp: 0 }
    }

    /// Reads the four controls back out of the byte.
    pub fn buttons(&self) -> (buttons: Buttons)
        ensures
            buttons == unpack(self.inp),
    {
        let mask: u8 = self.inp;
        assert((mask & 1 != 0) == ((mask / 1) % 2 == 1)) by (bit_vector);
        assert((mask & 2 != 0) == ((mask / 2) % 2 == 1)) by (bit_vector);
        assert((mask & 4 != 0) == ((mask / 4) % 2 == 1)) by (bit_vector);
        assert((mask & 8 != 0) == ((mask / 8) % 2 == 1)) by (bit_vector);
        Buttons {
            up: mask & INPUT_UP != 0,
            down: mask & INPUT_DOWN != 0,
            left: mask & INPUT_LEFT != 0,
            right: mask & INPUT_RIGHT != 0,
        }
    }

    /// The byte that goes on the wire for this input.
    pub fn to_wire(&self) -> (byte: u8)
        ensures
            byte == self.inp,
    {
        self.inp
    }

    /// The input that a byte taken off the wire stands for.
    pub fn from_wire(byte: u8) -> (input: BoxInput)
        ensures
            input.inp == byte,
    {
        BoxInput { inp: byte }
    }
}

/// Packs the state of the local controls into the wire format.
pub fn ggrs_input(buttons: Buttons) -> (input: BoxInput)
    ensures
        input.inp as int == pack(buttons),
        input.inp < 16,
        unpack(input.inp) == buttons,
{
    let mut input: u8 = 0;
    if buttons.up {
        input |= INPUT_UP;
        assert(0u8 | 1u8 == 1u8) by (bit_vector);
    }
    if buttons.left {
        let before: u8 = input;
        input |= INPUT_LEFT;
        assert(before <= 1 ==> before | 4u8 == before + 4u8) by (bit_vector);
    }
    if buttons.down {
        let before: u8 = input;
        input |= INPUT_DOWN;
        assert((before == 0 || before == 1 || before == 4 || before == 5) ==> before | 2u8
            == before + 2u8) by (bit_vector);
    }
    if buttons.right {
        let before: u8 = input;
        input |= INPUT_RIGHT;
        assert(before <= 7 ==> before | 8u8 == before + 8u8) by (bit_vector);
    }
    BoxInput { inp: input }
}

/// Packing a set of controls and unpacking the byte gives the same controls
/// back.
pub proof fn lemma_unpack_pack(buttons: Buttons)
    ensures
        0 <= pack(buttons) < 16,
        unpack(pack(buttons) as u8) == buttons,
{
}

/// Unpacking a byte and packing the controls again gives the low four bits of
/// the byte: the byte itself where its reserved high bits are zero.
pub proof fn lemma_pack_unpack(mask: u8)
    ensures
        pack(unpack(mask)) == mask as int % 16,
        mask < 16 ==> pack(unpack(mask)) == mask as int,
{
}

/// How sure the scheduler is of an input.
#[derive(Clone, Copy, Debug, PartialEq, Eq, Structural)]
pub enum InputStatus {
    /// The true input of the player for this frame.
    Confirmed,
    /// A guess, made because the true input has not arrived yet.
    Predicted,
    /// The player has left; the input is empty.
    Disconnected,
}

/// The input of one player slot for one frame.
#[derive(Clone, Copy, Debug, PartialEq, Eq, Structural)]
pub struct InputFrame {
    pub frame_number: u32,
    pub bitmask: u8,
    pub confirmation: InputStatus,
}

/// The bitmasks of a row of input frames, in the same order.
pub open spec fn bitmasks(inputs: Seq<InputFrame>) -> Seq<u8> {
    Seq::new(inputs.len(), |i: int| inputs[i].bitmask)
}

} // verus!
