//! Controller status flags and per-frame input samples, packed in 32-bit words.
use vstd::prelude::*;

verus! {

/// True when bit `n` of `value` is set.
#[verifier::opaque]
pub open spec fn bit(value: u32, n: u32) -> bool {
    (value >> n) & 1u32 == 1u32
}

/// The byte at bits `n` to `n + 7` of `value`, read as a signed 8-bit number.
#[verifier::opaque]
pub open spec fn signed_byte(value: u32, n: u32) -> i8 {
    ((value >> n) & 0xFFu32) as u8 as i8
}

/// The word with only bit `n` set when `b` holds, and zero otherwise.
#[verifier::opaque]
pub open spec fn bit_if(b: bool, n: u32) -> u32 {
    if b {
        1u32 << n
    } else {
        0u32
    }
}

/// The status flags of one controller slot.
#[derive(Clone, Copy, Debug, PartialEq, Eq, Hash)]
pub struct Flags {
    /// If the controller is plugged in.
    pub controller_present: bool,
    /// If the controller has a mem pak.
    pub has_mempak: bool,
    /// If the controller has a rumble pak.
    pub has_rumblepak: bool,
}

impl Flags {
    /// The flags of slot `i` (0 to 3) as stored in the status word `value`:
    /// bit `i` for presence, bit `i + 4` for a mem pak, bit `i + 8` for a rumble pak.
    pub open spec fn of_slot(value: u32, i: u32) -> Flags {
        Flags {
            controller_present: bit(value, i),
            has_mempak: bit(value, (i + 4) as u32),
            has_rumblepak: bit(value, (i + 8) as u32),
        }
    }

    /// The bits that the flags of slot `i` contribute to the status word.
    pub open spec fn slot_bits(self, i: u32) -> u32 {
        bit_if(self.controller_present, i) | bit_if(self.has_mempak, (i + 4) as u32) | bit_if(
            self.has_rumblepak,
            (i + 8) as u32,
        )
    }

    /// The four slots of the status word `value`, in slot order.
    pub open spec fn slots_of(value: u32) -> Seq<Flags> {
        seq![
            Flags::of_slot(value, 0),
            Flags::of_slot(value, 1),
            Flags::of_slot(value, 2),
            Flags::of_slot(value, 3),
        ]
    }

    /// The status word of four slots: the bits of every slot or-ed together.
    pub open spec fn word_of(c: Seq<Flags>) -> u32
        recommends
            c.len() == 4,
    {
        c[0].slot_bits(0) | c[1].slot_bits(1) | c[2].slot_bits(2) | c[3].slot_bits(3)
    }

    /// Creates an instance from a `u32` type, which is the raw controller status.
    /// The raw controller status is a bitfield, with the following layout:
    /// - bit 0: controller present
    /// - bit 4: has mempak
    /// - bit 8: has rumblepak
    /// add bit 1..3 for controllers 2..4.
    pub fn from_u32(value: u32) -> (flags: [Flags; 4])
        ensures
            flags@ == Flags::slots_of(value),
    {
        let mut flags = [Flags { controller_present: false, has_mempak: false, has_rumblepak: false };
            4];
        let mut i: usize = 0;
        while i < 4
            invariant
                i <= 4,
                forall|j: int| 0 <= j < i ==> flags@[j] == Flags::of_slot(value, j as u32),
            decreases 4 - i,
        {
            flags[i] = Flags {
                controller_present: nth_bit(value, i as u32),
                has_mempak: nth_bit(value, i as u32 + 4),
                has_rumblepak: nth_bit(value, i as u32 + 8),
            };
            i += 1;
        }
        assert(flags@ =~= Flags::slots_of(value));
        flags
    }

    /// Returns the raw controller status.
    pub fn to_u32(controllers: &[Flags; 4]) -> (value: u32)
        ensures
            value == Flags::word_of(controllers@),
            value < 0x1000,
    {
        let value = controllers[0].bits(0) | controllers[1].bits(1) | controllers[2].bits(2)
            | controllers[3].bits(3);
        proof {
            let c = controllers@;
            lemma_slot_bits_below(c[0], c[1], c[2], c[3]);
        }
        value
    }

    /// The bits that these flags contribute to the status word in slot `i`.
    fn bits(&self, i: u32) -> (r: u32)
        requires
            i < 4,
        ensures
            r == self.slot_bits(i),
    {
        flag_bit(self.controller_present, i) | flag_bit(self.has_mempak, i + 4) | flag_bit(
            self.has_rumblepak,
            i + 8,
        )
    }
}

/// Decoding a status word and encoding the four slots again keeps exactly
/// the twelve flag bits of the word and clears all others.
pub proof fn lemma_status_word_round_trip(value: u32)
    ensures
        Flags::word_of(Flags::slots_of(value)) == value & 0xFFF,
{
    reveal(bit_if);
    reveal(bit);
    let c = Flags::slots_of(value);
    assert(c[0] == Flags::of_slot(value, 0));
    assert(c[1] == Flags::of_slot(value, 1));
    assert(c[2] == Flags::of_slot(value, 2));
    assert(c[3] == Flags::of_slot(value, 3));
    assert(((if bit(value, 0) { 1u32 << 0u32 } else { 0u32 }) | (if bit(value, 4) {
        1u32 << 4u32
    } else { 0u32 }) | (if bit(value, 8) { 1u32 << 8u32 } else { 0u32 })) | ((if bit(value, 1) {
        1u32 << 1u32
    } else { 0u32 }) | (if bit(value, 5) { 1u32 << 5u32 } else { 0u32 }) | (if bit(value, 9) {
        1u32 << 9u32
    } else { 0u32 })) | ((if bit(value, 2) { 1u32 << 2u32 } else { 0u32 }) | (if bit(value, 6) {
        1u32 << 6u32
    } else { 0u32 }) | (if bit(value, 10) { 1u32 << 10u32 } else { 0u32 })) | ((if bit(
        value,
        3,
    ) { 1u32 << 3u32 } else { 0u32 }) | (if bit(value, 7) { 1u32 << 7u32 } else { 0u32 }) | (
    if bit(value, 11) { 1u32 << 11u32 } else { 0u32 })) == value & 0xFFF) by (bit_vector);
}

/// Encoding four slots into a status word and decoding it again gives back
/// the same four slots.
pub proof fn lemma_status_slots_round_trip(c: Seq<Flags>)
    requires
        c.len() == 4,
    ensures
        Flags::slots_of(Flags::word_of(c)) == c,
{
    reveal(bit_if);
    reveal(bit);
    let w = Flags::word_of(c);
    let (a0, a1, a2) = (c[0].controller_present, c[0].has_mempak, c[0].has_rumblepak);
    let (b0, b1, b2) = (c[1].controller_present, c[1].has_mempak, c[1].has_rumblepak);
    let (c0, c1, c2) = (c[2].controller_present, c[2].has_mempak, c[2].has_rumblepak);
    let (d0, d1, d2) = (c[3].controller_present, c[3].has_mempak, c[3].has_rumblepak);
    assert(w == ((if a0 { 1u32 << 0u32 } else { 0u32 }) | (if a1 { 1u32 << 4u32 } else { 0u32 }) | (
    if a2 { 1u32 << 8u32 } else { 0u32 })) | ((if b0 { 1u32 << 1u32 } else { 0u32 }) | (if b1 {
        1u32 << 5u32
    } else { 0u32 }) | (if b2 { 1u32 << 9u32 } else { 0u32 })) | ((if c0 { 1u32 << 2u32 } else {
        0u32
    }) | (if c1 { 1u32 << 6u32 } else { 0u32 }) | (if c2 { 1u32 << 10u32 } else { 0u32 })) | ((
    if d0 { 1u32 << 3u32 } else { 0u32 }) | (if d1 { 1u32 << 7u32 } else { 0u32 }) | (if d2 {
        1u32 << 11u32
    } else { 0u32 })));
    assert(bit(w, 0) == a0 && bit(w, 4) == a1 && bit(w, 8) == a2 && bit(w, 1) == b0 && bit(w, 5)
        == b1 && bit(w, 9) == b2 && bit(w, 2) == c0 && bit(w, 6) == c1 && bit(w, 10) == c2 && bit(
        w,
        3,
    ) == d0 && bit(w, 7) == d1 && bit(w, 11) == d2) by (bit_vector)
        requires
            w == ((if a0 { 1u32 << 0u32 } else { 0u32 }) | (if a1 { 1u32 << 4u32 } else { 0u32 })
                | (if a2 { 1u32 << 8u32 } else { 0u32 })) | ((if b0 { 1u32 << 1u32 } else { 0u32 })
                | (if b1 { 1u32 << 5u32 } else { 0u32 }) | (if b2 { 1u32 << 9u32 } else { 0u32 }))
                | ((if c0 { 1u32 << 2u32 } else { 0u32 }) | (if c1 { 1u32 << 6u32 } else { 0u32 })
                | (if c2 { 1u32 << 10u32 } else { 0u32 })) | ((if d0 { 1u32 << 3u32 } else { 0u32 })
                | (if d1 { 1u32 << 7u32 } else { 0u32 }) | (if d2 { 1u32 << 11u32 } else { 0u32 })),
    ;
    assert(Flags::slots_of(w) =~= c);
}

/// Whether the buttons of an input word are numbered from its least significant
/// bit: bit 0 holds the first button (right on the digital pad) and bit 15 the
/// last (the second reserved bit). Decoding and encoding both follow it.
pub const BUTTONS_LSB_FIRST: bool = true;

/// A single frame of controller input.
/// - Mupen64 re-recordingv2 and later versions will trigger a power off/on reset when the value
/// for the controller info is specifically set to Reserved1 = 0x01 and Reserved2 = 0x01. The
/// controller info is then cleared from being sent to the PIF RAM to avoid errors.
///
/// # Raw data structure
/// | 000 - 001 | 002      | 003      |
/// |-----------|----------|----------|
/// | Buttons   | Analog X | Analog Y |
///
/// ## Buttons
/// Buttons pressed are determined by or-ing together values for whichever of those are pressed:
/// - 0x0001 Digital pad right
/// - 0x0002 Digital pad left
/// - 0x0004 Digital pad down
/// - 0x0008 Digital pad up
/// - 0x0010 Start
/// - 0x0020 Z
/// - 0x0040 B
/// - 0x0080 A
/// - 0x0100 C-Right
/// - 0x0200 C-Left
/// - 0x0400 C-Down
/// - 0x0800 C-Up
/// - 0x1000 Right shoulder
/// - 0x2000 Left shoulder
/// - 0x4000 reserved
/// - 0x8000 reserved
#[derive(Debug, Clone, Copy, PartialEq, Eq, Hash, Default)]
pub struct Input {
    /// Digital pad up.
    pub up_dpad: bool,
    /// Digital pad down.
    pub down_dpad: bool,
    /// Digital pad left.
    pub left_dpad: bool,
    /// Digital pad right.
    pub right_dpad: bool,
    /// Start button.
    pub start: bool,
    /// Z button.
    pub z_button: bool,
    /// A button.
    pub a_button: bool,
    /// B button.
    pub b_button: bool,
    /// Right shoulder button.
    pub right_shoulder: bool,
    /// Left shoulder button.
    pub left_shoulder: bool,
    /// C-up.
    pub up_cbutton: bool,
    /// C-down.
    pub down_cbutton: bool,
    /// C-left.
    pub left_cbutton: bool,
    /// C-right.
    pub right_cbutton: bool,
    /// Reserved.
    pub reserved_1: bool,
    /// Reserved.
    pub reserved_2: bool,
    /// Analog stick X-axis.
    pub x_axis: i8,
    /// Analog stick Y-axis.
    pub y_axis: i8,
}

impl Input {
    /// The input sample stored in the word `w`.
    pub open spec fn of_word(w: u32) -> Input {
        Input {
            right_dpad: bit(w, 0),
            left_dpad: bit(w, 1),
            down_dpad: bit(w, 2),
            up_dpad: bit(w, 3),
            start: bit(w, 4),
            z_button: bit(w, 5),
            b_button: bit(w, 6),
            a_button: bit(w, 7),
            right_cbutton: bit(w, 8),
            left_cbutton: bit(w, 9),
            down_cbutton: bit(w, 10),
            up_cbutton: bit(w, 11),
            right_shoulder: bit(w, 12),
            left_shoulder: bit(w, 13),
            reserved_1: bit(w, 14),
            reserved_2: bit(w, 15),
            x_axis: signed_byte(w, 16),
            y_axis: signed_byte(w, 24),
        }
    }

    /// The word that stores this input sample: the sixteen button bits from
    /// bit 0 up, then the X axis byte and the Y axis byte.
    pub open spec fn word(self) -> u32 {
        button_bits(
            self.right_dpad,
            self.left_dpad,
            self.down_dpad,
            self.up_dpad,
            self.start,
            self.z_button,
            self.b_button,
            self.a_button,
            self.right_cbutton,
            self.left_cbutton,
            self.down_cbutton,
            self.up_cbutton,
            self.right_shoulder,
            self.left_shoulder,
            self.reserved_1,
            self.reserved_2,
        ) | ((self.x_axis as u8 as u32) << 16u32) | ((self.y_axis as u8 as u32) << 24u32)
    }
}

/// The sixteen button bits, given in bit order from bit 0.
pub open spec fn button_bits(
    b0: bool,
    b1: bool,
    b2: bool,
    b3: bool,
    b4: bool,
    b5: bool,
    b6: bool,
    b7: bool,
    b8: bool,
    b9: bool,
    b10: bool,
    b11: bool,
    b12: bool,
    b13: bool,
    b14: bool,
    b15: bool,
) -> u32 {
    bit_if(b0, 0) | bit_if(b1, 1) | bit_if(b2, 2) | bit_if(b3, 3) | bit_if(b4, 4) | bit_if(b5, 5)
        | bit_if(b6, 6) | bit_if(b7, 7) | bit_if(b8, 8) | bit_if(b9, 9) | bit_if(b10, 10) | bit_if(
        b11,
        11,
    ) | bit_if(b12, 12) | bit_if(b13, 13) | bit_if(b14, 14) | bit_if(b15, 15)
}

/// The sixteen button bits, given in bit order from bit 0.
fn pack_buttons(
    b0: bool,
    b1: bool,
    b2: bool,
    b3: bool,
    b4: bool,
    b5: bool,
    b6: bool,
    b7: bool,
    b8: bool,
    b9: bool,
    b10: bool,
    b11: bool,
    b12: bool,
    b13: bool,
    b14: bool,
    b15: bool,
) -> (r: u32)
    ensures
        r == button_bits(b0, b1, b2, b3, b4, b5, b6, b7, b8, b9, b10, b11, b12, b13, b14, b15),
{
    flag_bit(b0, 0) | flag_bit(b1, 1) | flag_bit(b2, 2) | flag_bit(b3, 3) | flag_bit(b4, 4)
        | flag_bit(b5, 5) | flag_bit(b6, 6) | flag_bit(b7, 7) | flag_bit(b8, 8) | flag_bit(b9, 9)
        | flag_bit(b10, 10) | flag_bit(b11, 11) | flag_bit(b12, 12) | flag_bit(b13, 13) | flag_bit(
        b14,
        14,
    ) | flag_bit(b15, 15)
}

impl From<u32> for Input {
    fn from(value: u32) -> (input: Input)
        ensures
            input == Input::of_word(value),
    {
        Input {
            right_dpad: nth_bit(value, 0),
            left_dpad: nth_bit(value, 1),
            down_dpad: nth_bit(value, 2),
            up_dpad: nth_bit(value, 3),
            start: nth_bit(value, 4),
            z_button: nth_bit(value, 5),
            b_button: nth_bit(value, 6),
            a_button: nth_bit(value, 7),
            right_cbutton: nth_bit(value, 8),
            left_cbutton: nth_bit(value, 9),
            down_cbutton: nth_bit(value, 10),
            up_cbutton: nth_bit(value, 11),
            right_shoulder: nth_bit(value, 12),
            left_shoulder: nth_bit(value, 13),
            reserved_1: nth_bit(value, 14),
            reserved_2: nth_bit(value, 15),
            x_axis: byte_of(value, 16),
            y_axis: byte_of(value, 24),
        }
    }
}

impl vstd::std_specs::convert::FromSpecImpl<u32> for Input {
    open spec fn obeys_from_spec() -> bool {
        true
    }

    open spec fn from_spec(v: u32) -> Input {
        Input::of_word(v)
    }
}

impl From<Input> for u32 {
    fn from(input: Input) -> (value: u32)
        ensures
            value == input.word(),
    {
        let buttons = pack_buttons(
            input.right_dpad,
            input.left_dpad,
            input.down_dpad,
            input.up_dpad,
            input.start,
            input.z_button,
            input.b_button,
            input.a_button,
            input.right_cbutton,
            input.left_cbutton,
            input.down_cbutton,
            input.up_cbutton,
            input.right_shoulder,
            input.left_shoulder,
            input.reserved_1,
            input.reserved_2,
        );
        let x: u32 = input.x_axis as u8 as u32;
        let y: u32 = input.y_axis as u8 as u32;
        buttons | (x << 16u32) | (y << 24u32)
    }
}

impl vstd::std_specs::convert::FromSpecImpl<Input> for u32 {
    open spec fn obeys_from_spec() -> bool {
        true
    }

    open spec fn from_spec(v: Input) -> u32 {
        v.word()
    }
}

/// Decoding any word into an input sample and encoding that sample again
/// gives back the same word: no bit pattern is lost or rejected.
pub proof fn lemma_input_word_round_trip(w: u32)
    ensures
        Input::of_word(w).word() == w,
{
    reveal(bit_if);
    reveal(bit);
    reveal(signed_byte);
    assert(button_bits(
        bit(w, 0),
        bit(w, 1),
        bit(w, 2),
        bit(w, 3),
        bit(w, 4),
        bit(w, 5),
        bit(w, 6),
        bit(w, 7),
        bit(w, 8),
        bit(w, 9),
        bit(w, 10),
        bit(w, 11),
        bit(w, 12),
        bit(w, 13),
        bit(w, 14),
        bit(w, 15),
    ) | ((signed_byte(w, 16) as u8 as u32) << 16u32) | ((signed_byte(w, 24) as u8 as u32) << 24u32)
        == w) by (bit_vector);
}

/// Encoding an input sample into a word and decoding that word again gives
/// back the same sample.
pub proof fn lemma_input_round_trip(input: Input)
    ensures
        Input::of_word(input.word()) == input,
{
    lemma_packed_bits(
        input.right_dpad,
        input.left_dpad,
        input.down_dpad,
        input.up_dpad,
        input.start,
        input.z_button,
        input.b_button,
        input.a_button,
        input.right_cbutton,
        input.left_cbutton,
        input.down_cbutton,
        input.up_cbutton,
        input.right_shoulder,
        input.left_shoulder,
        input.reserved_1,
        input.reserved_2,
        input.x_axis,
        input.y_axis,
    );
}

/// Each button bit and each axis byte can be read back from a packed word.
proof fn lemma_packed_bits(
    b0: bool,
    b1: bool,
    b2: bool,
    b3: bool,
    b4: bool,
    b5: bool,
    b6: bool,
    b7: bool,
    b8: bool,
    b9: bool,
    b10: bool,
    b11: bool,
    b12: bool,
    b13: bool,
    b14: bool,
    b15: bool,
    x: i8,
    y: i8,
)
    ensures
        ({
            let w = button_bits(b0, b1, b2, b3, b4, b5, b6, b7, b8, b9, b10, b11, b12, b13, b14, b15)
                | ((x as u8 as u32) << 16u32) | ((y as u8 as u32) << 24u32);
            &&& bit(w, 0) == b0 && bit(w, 1) == b1 && bit(w, 2) == b2 && bit(w, 3) == b3
            &&& bit(w, 4) == b4 && bit(w, 5) == b5 && bit(w, 6) == b6 && bit(w, 7) == b7
            &&& bit(w, 8) == b8 && bit(w, 9) == b9 && bit(w, 10) == b10 && bit(w, 11) == b11
            &&& bit(w, 12) == b12 && bit(w, 13) == b13 && bit(w, 14) == b14 && bit(w, 15) == b15
            &&& signed_byte(w, 16) == x
            &&& signed_byte(w, 24) == y
        }),
{
    reveal(bit_if);
    reveal(bit);
    reveal(signed_byte);
    let w = button_bits(b0, b1, b2, b3, b4, b5, b6, b7, b8, b9, b10, b11, b12, b13, b14, b15) | ((
    x as u8 as u32) << 16u32) | ((y as u8 as u32) << 24u32);
    assert(bit(w, 0) == b0 && bit(w, 1) == b1 && bit(w, 2) == b2 && bit(w, 3) == b3 && bit(w, 4)
        == b4 && bit(w, 5) == b5 && bit(w, 6) == b6 && bit(w, 7) == b7 && bit(w, 8) == b8 && bit(
        w,
        9,
    ) == b9 && bit(w, 10) == b10 && bit(w, 11) == b11 && bit(w, 12) == b12 && bit(w, 13) == b13
        && bit(w, 14) == b14 && bit(w, 15) == b15 && signed_byte(w, 16) == x && signed_byte(w, 24)
        == y) by (bit_vector)
        requires
            w == button_bits(
                b0,
                b1,
                b2,
                b3,
                b4,
                b5,
                b6,
                b7,
                b8,
                b9,
                b10,
                b11,
                b12,
                b13,
                b14,
                b15,
            ) | ((x as u8 as u32) << 16u32) | ((y as u8 as u32) << 24u32),
    ;
}

/// The status word of four slots uses only its twelve low bits.
proof fn lemma_slot_bits_below(a: Flags, b: Flags, c: Flags, d: Flags)
    ensures
        a.slot_bits(0) | b.slot_bits(1) | c.slot_bits(2) | d.slot_bits(3) < 0x1000,
{
    reveal(bit_if);
    let (a0, a1, a2) = (a.controller_present, a.has_mempak, a.has_rumblepak);
    let (b0, b1, b2) = (b.controller_present, b.has_mempak, b.has_rumblepak);
    let (c0, c1, c2) = (c.controller_present, c.has_mempak, c.has_rumblepak);
    let (d0, d1, d2) = (d.controller_present, d.has_mempak, d.has_rumblepak);
    assert(((if a0 { 1u32 << 0u32 } else { 0u32 }) | (if a1 { 1u32 << 4u32 } else { 0u32 }) | (
    if a2 { 1u32 << 8u32 } else { 0u32 })) | ((if b0 { 1u32 << 1u32 } else { 0u32 }) | (if b1 {
        1u32 << 5u32
    } else { 0u32 }) | (if b2 { 1u32 << 9u32 } else { 0u32 })) | ((if c0 { 1u32 << 2u32 } else {
        0u32
    }) | (if c1 { 1u32 << 6u32 } else { 0u32 }) | (if c2 { 1u32 << 10u32 } else { 0u32 })) | ((
    if d0 { 1u32 << 3u32 } else { 0u32 }) | (if d1 { 1u32 << 7u32 } else { 0u32 }) | (if d2 {
        1u32 << 11u32
    } else { 0u32 })) < 0x1000) by (bit_vector);
}

/// The bit `n` of `value`.
fn nth_bit(value: u32, n: u32) -> (r: bool)
    requires
        n < 32,
    ensures
        r == bit(value, n),
{
    reveal(bit);
    assert((value >> n) & 1u32 != 0u32 <==> (value >> n) & 1u32 == 1u32) by (bit_vector);
    (value >> n) & 1u32 != 0
}

/// The byte at bits `n` to `n + 7` of `value`, read as a signed 8-bit number.
fn byte_of(value: u32, n: u32) -> (r: i8)
    requires
        n < 32,
    ensures
        r == signed_byte(value, n),
{
    reveal(signed_byte);
    ((value >> n) & 0xFFu32) as u8 as i8
}

/// The word with only bit `n` set when `b` holds, and zero otherwise.
fn flag_bit(b: bool, n: u32) -> (r: u32)
    requires
        n < 32,
    ensures
        r == bit_if(b, n),
{
    reveal(bit_if);
    if b {
        1u32 << n
    } else {
        0u32
    }
}

} // verus!
