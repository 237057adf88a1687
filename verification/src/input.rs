use vstd::prelude::*;

verus! {

/// Bit set while the player steers upwards.
pub const INPUT_UP: u8 = 1;

/// Bit set while the player steers downwards.
pub const INPUT_DOWN: u8 = 2;

/// Bit set while the player steers to the left.
pub const INPUT_LEFT: u8 = 4;

/// Bit set while the player steers to the right.
pub const INPUT_RIGHT: u8 = 8;

/// Whether `mask` has the bit `bit` set.
pub open spec fn pressed(mask: u8, bit: u8) -> bool {
    mask & bit != 0
}

/// The mask that has exactly the bits of the pressed directions.
pub open spec fn mask_of(up: bool, down: bool, left: bool, right: bool) -> u8 {
    ((if up { 1int } else { 0int }) + (if down { 2int } else { 0int })
        + (if left { 4int } else { 0int }) + (if right { 8int } else { 0int })) as u8
}

/// The direction a mask asks for: one step or none along each axis, with
/// opposite keys cancelling each other.
pub open spec fn heading(mask: u8) -> (int, int) {
    (
        (if pressed(mask, INPUT_RIGHT) { 1int } else { 0int })
            - (if pressed(mask, INPUT_LEFT) { 1int } else { 0int }),
        (if pressed(mask, INPUT_UP) { 1int } else { 0int })
            - (if pressed(mask, INPUT_DOWN) { 1int } else { 0int }),
    )
}

/// Folds the four directional keys of one tick into the input mask. Every
/// combination is meaningful, so nothing is rejected.
pub fn collect_input(up: bool, down: bool, left: bool, right: bool) -> (mask: u8)
    ensures
        mask == mask_of(up, down, left, right),
        pressed(mask, INPUT_UP) == up,
        pressed(mask, INPUT_DOWN) == down,
        pressed(mask, INPUT_LEFT) == left,
        pressed(mask, INPUT_RIGHT) == right,
{
    let mut input: u8 = 0;
    if up {
        input = input | INPUT_UP;
    }
    let with_up: u8 = input;
    if down {
        input = input | INPUT_DOWN;
    }
    let with_down: u8 = input;
    if left {
        input = input | INPUT_LEFT;
    }
    let with_left: u8 = input;
    if right {
        input = input | INPUT_RIGHT;
    }
    proof {
        assert(0u8 | 1u8 == 1u8) by (bit_vector);
        assert(with_up < 2 ==> with_up | 2u8 == with_up + 2) by (bit_vector);
        assert(with_down < 4 ==> with_down | 4u8 == with_down + 4) by (bit_vector);
        assert(with_left < 8 ==> with_left | 8u8 == with_left + 8) by (bit_vector);
        lemma_mask_bits(input);
    }
    input
}

/// What each bit of a four-bit mask says, as numbers.
pub proof fn lemma_mask_bits(mask: u8)
    requires
        mask < 16,
    ensures
        pressed(mask, INPUT_UP) == (mask % 2 == 1),
        pressed(mask, INPUT_DOWN) == ((mask / 2) % 2 == 1),
        pressed(mask, INPUT_LEFT) == ((mask / 4) % 2 == 1),
        pressed(mask, INPUT_RIGHT) == ((mask / 8) % 2 == 1),
{
    assert((mask & 1 != 0) == (mask % 2 == 1)) by (bit_vector);
    assert((mask & 2 != 0) == ((mask / 2) % 2 == 1)) by (bit_vector);
    assert((mask & 4 != 0) == ((mask / 4) % 2 == 1)) by (bit_vector);
    assert((mask & 8 != 0) == ((mask / 8) % 2 == 1)) by (bit_vector);
}

/// The direction a mask asks for, as one step or none along each axis.
pub fn direction(mask: u8) -> (d: (i64, i64))
    ensures
        d.0 == heading(mask).0,
        d.1 == heading(mask).1,
        -1 <= d.0 <= 1,
        -1 <= d.1 <= 1,
{
    let mut dx: i64 = 0;
    let mut dy: i64 = 0;
    if mask & INPUT_UP != 0 {
        dy = dy + 1;
    }
    if mask & INPUT_DOWN != 0 {
        dy = dy - 1;
    }
    if mask & INPUT_LEFT != 0 {
        dx = dx - 1;
    }
    if mask & INPUT_RIGHT != 0 {
        dx = dx + 1;
    }
    (dx, dy)
}

/// The input of one player for one frame, as it travels between the peers.
#[derive(Clone, Copy, Debug, PartialEq, Eq, Structural)]
pub struct InputFrame {
    pub frame: u32,
    pub player_handle: u8,
    pub input_mask: u8,
}

/// Length in bytes of an input frame on the wire.
pub const INPUT_FRAME_BYTES: usize = 6;

/// An input frame on the wire: the frame number in four bytes, lowest
/// first, then the player handle, then the mask.
pub open spec fn encoded(message: InputFrame) -> Seq<u8> {
    seq![
        (message.frame % 256) as u8,
        ((message.frame / 256) % 256) as u8,
        ((message.frame / 65536) % 256) as u8,
        (message.frame / 16777216) as u8,
        message.player_handle,
        message.input_mask,
    ]
}

/// The input frame that the bytes carry; none unless they are as many as an
/// input frame takes.
pub open spec fn decoded(bytes: Seq<u8>) -> Option<InputFrame> {
    if bytes.len() == INPUT_FRAME_BYTES {
        Some(
            InputFrame {
                frame: (bytes[0] + 256 * bytes[1] + 65536 * bytes[2] + 16777216 * bytes[3]) as u32,
                player_handle: bytes[4],
                input_mask: bytes[5],
            },
        )
    } else {
        None
    }
}

impl InputFrame {
    /// The bytes that carry this input frame to the remote player.
    pub fn encode(&self) -> (bytes: Vec<u8>)
        ensures
            bytes@ == encoded(*self),
            bytes@.len() == INPUT_FRAME_BYTES,
    {
        let mut bytes: Vec<u8> = Vec::new();
        bytes.push((self.frame % 256) as u8);
        bytes.push(((self.frame / 256) % 256) as u8);
        bytes.push(((self.frame / 65536) % 256) as u8);
        bytes.push((self.frame / 16777216) as u8);
        bytes.push(self.player_handle);
        bytes.push(self.input_mask);
        bytes
    }

    /// The input frame that arrived in the given bytes; none unless they
    /// are as many as an input frame takes.
    pub fn decode(bytes: &[u8]) -> (message: Option<InputFrame>)
        ensures
            message == decoded(bytes@),
    {
        if bytes.len() != INPUT_FRAME_BYTES {
            return None;
        }
        let frame: u32 = bytes[0] as u32 + 256 * (bytes[1] as u32) + 65536 * (bytes[2] as u32)
            + 16777216 * (bytes[3] as u32);
        Some(InputFrame { frame, player_handle: bytes[4], input_mask: bytes[5] })
    }
}

/// What was encoded is what is decoded.
pub proof fn lemma_decode_encode(message: InputFrame)
    ensures
        decoded(encoded(message)) == Some(message),
{
}

/// The masks of both players for one frame, by handle.
#[derive(Clone, Copy, Debug, PartialEq, Eq, Structural)]
pub struct PlayerInputs {
    pub first: u8,
    pub second: u8,
}

impl PlayerInputs {
    /// The mask of the player with the given handle.
    pub open spec fn of(self, handle: int) -> u8 {
        if handle == 0 {
            self.first
        } else {
            self.second
        }
    }

    /// The mask of the player with the given handle.
    pub fn get(&self, handle: usize) -> (mask: u8)
        ensures
            mask == self.of(handle as int),
    {
        if handle == 0 {
            self.first
        } else {
            self.second
        }
    }
}

} // verus!
