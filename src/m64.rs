//! Contains the M64 struct and other types used for the M64 file.
use vstd::bytes::{spec_u16_to_le_bytes, spec_u32_to_le_bytes, u16_to_le_bytes, u32_to_le_bytes};
use vstd::prelude::*;

use crate::controller::{Flags, Input};
use crate::error::M64ParseError;
use crate::parser::{m64_from_u8, parse_outcome};
use crate::text::FixedText;

verus! {

/// The only file version this library reads and writes.
pub const VERSION: u32 = 3;

/// The size in bytes of the header that precedes the input samples.
pub const HEADER_SIZE: usize = 1024;

/// The four bytes every M64 file starts with: `M64` and an end-of-file mark.
pub open spec fn signature() -> Seq<u8> {
    seq![0x4Du8, 0x36u8, 0x34u8, 0x1Au8]
}

/// `n` zero bytes.
pub open spec fn zeros(n: nat) -> Seq<u8> {
    Seq::new(n, |_i: int| 0u8)
}

/// All possible movie start types.
#[derive(Debug, Clone, Copy, Hash, PartialEq, Eq)]
pub enum MovieStartType {
    /// Movie begins from snapshot.
    /// - The snapshot will be loaded from an external file with the movie filename with the `st` extension.
    SnapShot,
    /// Movie begins from power on.
    PowerOn,
    /// Movie begins from EEPROM.
    Eeprom,
}

impl MovieStartType {
    /// The number that stands for this start type in a file.
    pub open spec fn code(self) -> u16 {
        match self {
            MovieStartType::SnapShot => 1,
            MovieStartType::PowerOn => 2,
            MovieStartType::Eeprom => 4,
        }
    }

    /// The start type that `code` stands for, if any.
    pub open spec fn of_code(code: u16) -> Option<MovieStartType> {
        if code == 1 {
            Some(MovieStartType::SnapShot)
        } else if code == 2 {
            Some(MovieStartType::PowerOn)
        } else if code == 4 {
            Some(MovieStartType::Eeprom)
        } else {
            None
        }
    }

    /// The start type that `code` stands for: 1, 2 or 4; `None` for any other number.
    pub fn from_repr(code: u16) -> (r: Option<MovieStartType>)
        ensures
            r == MovieStartType::of_code(code),
    {
        if code == 1 {
            Some(MovieStartType::SnapShot)
        } else if code == 2 {
            Some(MovieStartType::PowerOn)
        } else if code == 4 {
            Some(MovieStartType::Eeprom)
        } else {
            None
        }
    }

    /// The number that stands for this start type in a file.
    pub fn to_u16(self) -> (r: u16)
        ensures
            r == self.code(),
    {
        match self {
            MovieStartType::SnapShot => 1,
            MovieStartType::PowerOn => 2,
            MovieStartType::Eeprom => 4,
        }
    }
}

impl Default for MovieStartType {
    fn default() -> (r: MovieStartType)
        ensures
            r == MovieStartType::PowerOn,
    {
        MovieStartType::PowerOn
    }
}

/// The M64 file.
/// Follows the format described in [this document](https://tasvideos.org/EmulatorResources/Mupen/M64).
#[derive(Clone, Debug, Hash, PartialEq, Eq)]
pub struct M64 {
    /// Identifies the movie-savestate relationship.
    /// Also used as the recording time in unix epoch format.
    pub uid: u32,
    /// Number of vertical interrupt frames.
    pub vi_frames: u32,
    /// Number of input samples for any controllers.
    pub input_frames: u32,
    /// Rerecord count.
    pub rerecords: u32,
    /// Frames per second in vertical interrupt frames.
    pub fps: u8,
    /// The number of controllers.
    pub controller_count: u8,
    /// Movie start type.
    pub movie_start_type: MovieStartType,
    /// The controller flags.
    pub controller_flags: [Flags; 4],
    /// Internal name of the ROM used when recording, directly from the ROM.
    pub rom_internal_name: FixedText<32>,
    /// CRC32 of the ROM used when recording, directly from the ROM.
    pub rom_crc_32: u32,
    /// Country code of the ROM used when recording, directly from the ROM.
    pub rom_country_code: u16,
    /// Name of the video plugin used when recording, directly from the plugin.
    pub video_plugin: FixedText<64>,
    /// Name of the sound plugin used when recording, directly from the plugin.
    pub sound_plugin: FixedText<64>,
    /// Name of the input plugin used when recording, directly from the plugin.
    pub input_plugin: FixedText<64>,
    /// Name of the RSP plugin used when recording, directly from the plugin.
    pub rsp_plugin: FixedText<64>,
    /// Author(s) of the TAS.
    pub author: FixedText<222>,
    /// Description of the TAS.
    pub description: FixedText<256>,
    /// The input samples.
    pub inputs: Vec<Input>,
}

/// The little-endian words of a sequence of input samples, in order.
pub open spec fn inputs_bytes(inputs: Seq<Input>) -> Seq<u8>
    decreases inputs.len(),
{
    if inputs.len() == 0 {
        Seq::empty()
    } else {
        inputs_bytes(inputs.drop_last()) + spec_u32_to_le_bytes(inputs.last().word())
    }
}

impl M64 {
    /// The 1024 header bytes of this movie, field after field; reserved
    /// regions are written as zeros.
    pub open spec fn header_bytes(&self) -> Seq<u8> {
        Seq::empty() + signature() + spec_u32_to_le_bytes(VERSION) + spec_u32_to_le_bytes(self.uid)
            + spec_u32_to_le_bytes(self.vi_frames) + spec_u32_to_le_bytes(self.rerecords) + seq![
            self.fps,
        ] + seq![self.controller_count] + zeros(2) + spec_u32_to_le_bytes(self.input_frames)
            + spec_u16_to_le_bytes(self.movie_start_type.code()) + zeros(2) + spec_u32_to_le_bytes(
            Flags::word_of(self.controller_flags@),
        ) + zeros(160) + self.rom_internal_name@ + spec_u32_to_le_bytes(self.rom_crc_32)
            + spec_u16_to_le_bytes(self.rom_country_code) + zeros(56) + self.video_plugin@
            + self.sound_plugin@ + self.input_plugin@ + self.rsp_plugin@ + self.author@
            + self.description@
    }

    /// Creates an instance of `M64` from an array of bytes.
    pub fn from_u8_array(data: &[u8]) -> (r: Result<Self, M64ParseError>)
        ensures
            parse_outcome(data@, r),
    {
        m64_from_u8(data)
    }

    /// The whole file for this movie: the header, then one word per input sample.
    pub open spec fn encoded(&self) -> Seq<u8> {
        self.header_bytes() + inputs_bytes(self.inputs@)
    }

    /// Writes the `M64` instance to the end of `out`.
    pub fn write_m64(&self, out: &mut Vec<u8>)
        ensures
            final(out)@ == old(out)@ + self.encoded(),
    {
        let mut header = self.header();
        out.append(&mut header);
        let ghost start = old(out)@ + self.header_bytes();
        let mut i: usize = 0;
        while i < self.inputs.len()
            invariant
                i <= self.inputs@.len(),
                out@ == start + inputs_bytes(self.inputs@.subrange(0, i as int)),
            decreases self.inputs@.len() - i,
        {
            let ghost before = out@;
            let word = u32::from(self.inputs[i]);
            let mut bytes = u32_to_le_bytes(word);
            out.append(&mut bytes);
            proof {
                let s = self.inputs@.subrange(0, i + 1);
                assert(s.drop_last() =~= self.inputs@.subrange(0, i as int));
                assert(out@ =~= start + inputs_bytes(s));
            }
            i += 1;
        }
        assert(self.inputs@.subrange(0, self.inputs@.len() as int) =~= self.inputs@);
        assert(out@ =~= old(out)@ + self.encoded());
    }

    /// The header bytes of this movie.
    fn header(&self) -> (h: Vec<u8>)
        ensures
            h@ == self.header_bytes(),
    {
        let mut h: Vec<u8> = Vec::new();
        h.push(0x4Du8);
        h.push(0x36u8);
        h.push(0x34u8);
        h.push(0x1Au8);
        assert(h@ =~= Seq::empty() + signature());
        push_u32(&mut h, VERSION);
        push_u32(&mut h, self.uid);
        push_u32(&mut h, self.vi_frames);
        push_u32(&mut h, self.rerecords);
        push_bytes(&mut h, &[self.fps]);
        push_bytes(&mut h, &[self.controller_count]);
        push_zeros(&mut h, 2);
        push_u32(&mut h, self.input_frames);
        push_u16(&mut h, self.movie_start_type.to_u16());
        push_zeros(&mut h, 2);
        push_u32(&mut h, Flags::to_u32(&self.controller_flags));
        push_zeros(&mut h, 160);
        push_bytes(&mut h, self.rom_internal_name.as_bytes());
        push_u32(&mut h, self.rom_crc_32);
        push_u16(&mut h, self.rom_country_code);
        push_zeros(&mut h, 56);
        push_bytes(&mut h, self.video_plugin.as_bytes());
        push_bytes(&mut h, self.sound_plugin.as_bytes());
        push_bytes(&mut h, self.input_plugin.as_bytes());
        push_bytes(&mut h, self.rsp_plugin.as_bytes());
        push_bytes(&mut h, self.author.as_bytes());
        push_bytes(&mut h, self.description.as_bytes());
        h
    }
}

/// Appends the little-endian bytes of `value`.
fn push_u32(out: &mut Vec<u8>, value: u32)
    ensures
        final(out)@ == old(out)@ + spec_u32_to_le_bytes(value),
{
    let mut bytes = u32_to_le_bytes(value);
    out.append(&mut bytes);
}

/// Appends the little-endian bytes of `value`.
fn push_u16(out: &mut Vec<u8>, value: u16)
    ensures
        final(out)@ == old(out)@ + spec_u16_to_le_bytes(value),
{
    let mut bytes = u16_to_le_bytes(value);
    out.append(&mut bytes);
}

/// Appends `n` zero bytes.
fn push_zeros(out: &mut Vec<u8>, n: usize)
    ensures
        final(out)@ == old(out)@ + zeros(n as nat),
{
    let ghost start = out@;
    let mut i: usize = 0;
    while i < n
        invariant
            i <= n,
            out@ == start + zeros(i as nat),
        decreases n - i,
    {
        out.push(0u8);
        i += 1;
        assert(out@ =~= start + zeros(i as nat));
    }
}

/// Appends `bytes`.
fn push_bytes(out: &mut Vec<u8>, bytes: &[u8])
    ensures
        final(out)@ == old(out)@ + bytes@,
{
    let ghost start = out@;
    let mut i: usize = 0;
    while i < bytes.len()
        invariant
            i <= bytes@.len(),
            out@ == start + bytes@.subrange(0, i as int),
        decreases bytes@.len() - i,
    {
        out.push(bytes[i]);
        i += 1;
        assert(out@ =~= start + bytes@.subrange(0, i as int));
    }
    assert(bytes@.subrange(0, bytes@.len() as int) =~= bytes@);
}

} // verus!
