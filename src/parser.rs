//! Decoding of M64 files, field by field, with the first failing field reported.
use vstd::bytes::{
    lemma_auto_spec_u16_to_from_le_bytes, lemma_auto_spec_u32_to_from_le_bytes, spec_u16_from_le_bytes,
    spec_u16_to_le_bytes, spec_u32_from_le_bytes, spec_u32_to_le_bytes, u16_from_le_bytes,
    u32_from_le_bytes,
};
use vstd::prelude::*;
use vstd::slice::{slice_subrange, slice_to_vec};
use vstd::utf8::valid_utf8;

use crate::controller::{lemma_input_word_round_trip, lemma_status_word_round_trip, Flags, Input};
use crate::error::{FieldName, M64ParseError};
use crate::m64::{inputs_bytes, signature, zeros, MovieStartType, HEADER_SIZE, M64, VERSION};
use crate::text::FixedText;

verus! {

/// The little-endian 32-bit number at offset `o` of `d`.
pub open spec fn u32_at(d: Seq<u8>, o: int) -> u32 {
    spec_u32_from_le_bytes(d.subrange(o, o + 4))
}

/// The little-endian 16-bit number at offset `o` of `d`.
pub open spec fn u16_at(d: Seq<u8>, o: int) -> u16 {
    spec_u16_from_le_bytes(d.subrange(o, o + 2))
}

/// True when the `n` bytes at offset `o` of `d` are all zero.
pub open spec fn zero_at(d: Seq<u8>, o: int, n: nat) -> bool {
    d.subrange(o, o + n) == zeros(n)
}

/// The error for a field that ends at offset `end` of a shorter file `d`.
pub open spec fn missing(d: Seq<u8>, field: FieldName, end: int) -> Result<M64, M64ParseError> {
    Err(M64ParseError::NotEnoughBytes { field, requires: (end - d.len()) as usize })
}

/// The error, if any, of a reserved region of `n` bytes at offset `o`.
pub open spec fn reserved_error(d: Seq<u8>, o: int, n: nat) -> Option<Result<M64, M64ParseError>> {
    if d.len() < o + n {
        Some(missing(d, FieldName::Reserved, o + n))
    } else if !zero_at(d, o, n) {
        Some(Err(M64ParseError::ReservedNotZero(o as usize)))
    } else {
        None
    }
}

/// The error, if any, of a text field of `n` bytes at offset `o`.
pub open spec fn text_error(d: Seq<u8>, o: int, n: nat, field: FieldName) -> Option<
    Result<M64, M64ParseError>,
> {
    if d.len() < o + n {
        Some(missing(d, field, o + n))
    } else if !valid_utf8(d.subrange(o, o + n)) {
        Some(Err(M64ParseError::InvalidString(field)))
    } else {
        None
    }
}

/// The error, if any, of a number field that ends at offset `end`.
pub open spec fn number_error(d: Seq<u8>, end: int, field: FieldName) -> Option<
    Result<M64, M64ParseError>,
> {
    if d.len() < end {
        Some(missing(d, field, end))
    } else {
        None
    }
}

/// The error that decoding the header of `d` reports once its signature has
/// matched: the first field, in file order, that is cut short or holds a
/// value the format forbids.
pub open spec fn header_error(d: Seq<u8>) -> Option<Result<M64, M64ParseError>> {
    if d.len() < 4 || d.subrange(0, 4) != signature() {
        None
    } else if d.len() < 0x08 {
        Some(missing(d, FieldName::Version, 0x08))
    } else if u32_at(d, 0x04) != VERSION {
        Some(Err(M64ParseError::InvalidVersion(u32_at(d, 0x04))))
    } else if number_error(d, 0x0C, FieldName::Uid) is Some {
        number_error(d, 0x0C, FieldName::Uid)
    } else if number_error(d, 0x10, FieldName::ViFrames) is Some {
        number_error(d, 0x10, FieldName::ViFrames)
    } else if number_error(d, 0x14, FieldName::Rerecords) is Some {
        number_error(d, 0x14, FieldName::Rerecords)
    } else if number_error(d, 0x15, FieldName::Fps) is Some {
        number_error(d, 0x15, FieldName::Fps)
    } else if number_error(d, 0x16, FieldName::ControllerCount) is Some {
        number_error(d, 0x16, FieldName::ControllerCount)
    } else if reserved_error(d, 0x16, 2) is Some {
        reserved_error(d, 0x16, 2)
    } else if number_error(d, 0x1C, FieldName::InputFrames) is Some {
        number_error(d, 0x1C, FieldName::InputFrames)
    } else if number_error(d, 0x1E, FieldName::MovieStartType) is Some {
        number_error(d, 0x1E, FieldName::MovieStartType)
    } else if MovieStartType::of_code(u16_at(d, 0x1C)) is None {
        Some(Err(M64ParseError::InvalidMovieStartType))
    } else if reserved_error(d, 0x1E, 2) is Some {
        reserved_error(d, 0x1E, 2)
    } else if number_error(d, 0x24, FieldName::ControllerFlags) is Some {
        number_error(d, 0x24, FieldName::ControllerFlags)
    } else if reserved_error(d, 0x24, 160) is Some {
        reserved_error(d, 0x24, 160)
    } else if text_error(d, 0xC4, 32, FieldName::RomInternalName) is Some {
        text_error(d, 0xC4, 32, FieldName::RomInternalName)
    } else if number_error(d, 0xE8, FieldName::RomCrc32) is Some {
        number_error(d, 0xE8, FieldName::RomCrc32)
    } else if number_error(d, 0xEA, FieldName::RomCountryCode) is Some {
        number_error(d, 0xEA, FieldName::RomCountryCode)
    } else if reserved_error(d, 0xEA, 56) is Some {
        reserved_error(d, 0xEA, 56)
    } else if text_error(d, 0x122, 64, FieldName::VideoPlugin) is Some {
        text_error(d, 0x122, 64, FieldName::VideoPlugin)
    } else if text_error(d, 0x162, 64, FieldName::SoundPlugin) is Some {
        text_error(d, 0x162, 64, FieldName::SoundPlugin)
    } else if text_error(d, 0x1A2, 64, FieldName::InputPlugin) is Some {
        text_error(d, 0x1A2, 64, FieldName::InputPlugin)
    } else if text_error(d, 0x1E2, 64, FieldName::RspPlugin) is Some {
        text_error(d, 0x1E2, 64, FieldName::RspPlugin)
    } else if text_error(d, 0x222, 222, FieldName::Author) is Some {
        text_error(d, 0x222, 222, FieldName::Author)
    } else {
        text_error(d, 0x300, 256, FieldName::Description)
    }
}

/// True when `m` holds the fields and input samples stored in `d`.
pub open spec fn decoded_from(m: M64, d: Seq<u8>) -> bool {
    &&& m.uid == u32_at(d, 0x08)
    &&& m.vi_frames == u32_at(d, 0x0C)
    &&& m.rerecords == u32_at(d, 0x10)
    &&& m.fps == d[0x14]
    &&& m.controller_count == d[0x15]
    &&& m.input_frames == u32_at(d, 0x18)
    &&& MovieStartType::of_code(u16_at(d, 0x1C)) == Some(m.movie_start_type)
    &&& m.controller_flags@ == Flags::slots_of(u32_at(d, 0x20))
    &&& m.rom_internal_name@ == d.subrange(0xC4, 0xE4)
    &&& m.rom_crc_32 == u32_at(d, 0xE4)
    &&& m.rom_country_code == u16_at(d, 0xE8)
    &&& m.video_plugin@ == d.subrange(0x122, 0x162)
    &&& m.sound_plugin@ == d.subrange(0x162, 0x1A2)
    &&& m.input_plugin@ == d.subrange(0x1A2, 0x1E2)
    &&& m.rsp_plugin@ == d.subrange(0x1E2, 0x222)
    &&& m.author@ == d.subrange(0x222, 0x300)
    &&& m.description@ == d.subrange(0x300, 0x400)
    &&& m.inputs@.len() == (d.len() - 0x400) / 4
    &&& forall|i: int|
        0 <= i < m.inputs@.len() ==> #[trigger] m.inputs@[i] == Input::of_word(
            u32_at(d, 0x400 + 4 * i),
        )
}

/// True when `r` is what decoding `d` gives: a file long enough to hold the
/// header must first have an input region that is a whole number of 4-byte
/// records; then the signature is checked, then each header field in file
/// order.
pub open spec fn parse_outcome(d: Seq<u8>, r: Result<M64, M64ParseError>) -> bool {
    if d.len() >= 0x400 && (d.len() - 0x400) % 4 != 0 {
        r == Err::<M64, M64ParseError>(
            M64ParseError::InputNot4BytesAligned(((d.len() - 0x400) % 4) as usize),
        )
    } else if d.len() < 4 || d.subrange(0, 4) != signature() {
        r matches Err(M64ParseError::InvalidSignature(got)) && got@ == d.subrange(
            0,
            if d.len() < 4 {
                d.len() as int
            } else {
                4
            },
        )
    } else if header_error(d) is Some {
        r == header_error(d)->Some_0
    } else {
        r matches Ok(m) && decoded_from(m, d)
    }
}

/// Decodes a whole M64 file.
pub fn m64_from_u8(data: &[u8]) -> (r: Result<M64, M64ParseError>)
    ensures
        parse_outcome(data@, r),
{
    if data.len() >= HEADER_SIZE && (data.len() - HEADER_SIZE) % 4 != 0 {
        return Err(M64ParseError::InputNot4BytesAligned((data.len() - HEADER_SIZE) % 4));
    }
    if data.len() < 4 || data[0] != 0x4D || data[1] != 0x36 || data[2] != 0x34 || data[3] != 0x1A {
        let end = if data.len() < 4 {
            data.len()
        } else {
            4
        };
        proof {
            if data@.len() >= 4 {
                assert(data@.subrange(0, 4) != signature()) by {
                    if data@.subrange(0, 4) == signature() {
                        assert(data@[0] == data@.subrange(0, 4)[0]);
                        assert(data@[1] == data@.subrange(0, 4)[1]);
                        assert(data@[2] == data@.subrange(0, 4)[2]);
                        assert(data@[3] == data@.subrange(0, 4)[3]);
                    }
                }
            }
        }
        return Err(M64ParseError::InvalidSignature(slice_to_vec(slice_subrange(data, 0, end))));
    }
    assert(data@.subrange(0, 4) =~= signature());
    let version = read_u32(data, 0x04, FieldName::Version)?;
    if version != VERSION {
        return Err(M64ParseError::InvalidVersion(version));
    }
    let uid = read_u32(data, 0x08, FieldName::Uid)?;
    let vi_frames = read_u32(data, 0x0C, FieldName::ViFrames)?;
    let rerecords = read_u32(data, 0x10, FieldName::Rerecords)?;
    let fps = read_u8(data, 0x14, FieldName::Fps)?;
    let controller_count = read_u8(data, 0x15, FieldName::ControllerCount)?;
    check_reserved(data, 0x16, 2)?;
    let input_frames = read_u32(data, 0x18, FieldName::InputFrames)?;
    let start_code = read_u16(data, 0x1C, FieldName::MovieStartType)?;
    let movie_start_type = match MovieStartType::from_repr(start_code) {
        Some(t) => t,
        None => return Err(M64ParseError::InvalidMovieStartType),
    };
    check_reserved(data, 0x1E, 2)?;
    let controller_flags = Flags::from_u32(read_u32(data, 0x20, FieldName::ControllerFlags)?);
    check_reserved(data, 0x24, 160)?;
    let rom_internal_name = read_text::<32>(data, 0xC4, FieldName::RomInternalName)?;
    let rom_crc_32 = read_u32(data, 0xE4, FieldName::RomCrc32)?;
    let rom_country_code = read_u16(data, 0xE8, FieldName::RomCountryCode)?;
    check_reserved(data, 0xEA, 56)?;
    let video_plugin = read_text::<64>(data, 0x122, FieldName::VideoPlugin)?;
    let sound_plugin = read_text::<64>(data, 0x162, FieldName::SoundPlugin)?;
    let input_plugin = read_text::<64>(data, 0x1A2, FieldName::InputPlugin)?;
    let rsp_plugin = read_text::<64>(data, 0x1E2, FieldName::RspPlugin)?;
    let author = read_text::<222>(data, 0x222, FieldName::Author)?;
    let description = read_text::<256>(data, 0x300, FieldName::Description)?;
    let inputs = read_inputs(data);
    Ok(
        M64 {
            uid,
            vi_frames,
            input_frames,
            rerecords,
            fps,
            controller_count,
            movie_start_type,
            controller_flags,
            rom_internal_name,
            rom_crc_32,
            rom_country_code,
            video_plugin,
            sound_plugin,
            input_plugin,
            rsp_plugin,
            author,
            description,
            inputs,
        },
    )
}

/// Reads the little-endian 32-bit number at offset `off`, if the data holds it.
fn read_u32(data: &[u8], off: usize, field: FieldName) -> (r: Result<u32, M64ParseError>)
    requires
        off <= data@.len(),
        off <= HEADER_SIZE,
    ensures
        data@.len() < off + 4 ==> r == Err::<u32, M64ParseError>(
            M64ParseError::NotEnoughBytes { field, requires: (off + 4 - data@.len()) as usize },
        ),
        data@.len() >= off + 4 ==> r == Ok::<u32, M64ParseError>(u32_at(data@, off as int)),
{
    if data.len() - off < 4 {
        return Err(M64ParseError::NotEnoughBytes { field, requires: off + 4 - data.len() });
    }
    Ok(u32_from_le_bytes(slice_subrange(data, off, off + 4)))
}

/// Reads the little-endian 16-bit number at offset `off`, if the data holds it.
fn read_u16(data: &[u8], off: usize, field: FieldName) -> (r: Result<u16, M64ParseError>)
    requires
        off <= data@.len(),
        off <= HEADER_SIZE,
    ensures
        data@.len() < off + 2 ==> r == Err::<u16, M64ParseError>(
            M64ParseError::NotEnoughBytes { field, requires: (off + 2 - data@.len()) as usize },
        ),
        data@.len() >= off + 2 ==> r == Ok::<u16, M64ParseError>(u16_at(data@, off as int)),
{
    if data.len() - off < 2 {
        return Err(M64ParseError::NotEnoughBytes { field, requires: off + 2 - data.len() });
    }
    Ok(u16_from_le_bytes(slice_subrange(data, off, off + 2)))
}

/// Reads the byte at offset `off`, if the data holds it.
fn read_u8(data: &[u8], off: usize, field: FieldName) -> (r: Result<u8, M64ParseError>)
    requires
        off <= data@.len(),
    ensures
        data@.len() == off ==> r == Err::<u8, M64ParseError>(
            M64ParseError::NotEnoughBytes { field, requires: 1 },
        ),
        data@.len() > off ==> r == Ok::<u8, M64ParseError>(data@[off as int]),
{
    if data.len() == off {
        return Err(M64ParseError::NotEnoughBytes { field, requires: 1 });
    }
    Ok(data[off])
}

/// Checks that the `n` bytes at offset `off` are present and all zero.
fn check_reserved(data: &[u8], off: usize, n: usize) -> (r: Result<(), M64ParseError>)
    requires
        off <= data@.len(),
        off + n <= HEADER_SIZE,
    ensures
        reserved_error(data@, off as int, n as nat) is None ==> r is Ok,
        reserved_error(data@, off as int, n as nat) matches Some(e) ==> (e matches Err(err) && r
            == Err::<(), M64ParseError>(err)),
{
    if data.len() - off < n {
        return Err(M64ParseError::NotEnoughBytes { field: FieldName::Reserved, requires: off + n - data.len() });
    }
    let mut i: usize = 0;
    while i < n
        invariant
            i <= n,
            off + n <= data@.len(),
            off + n <= HEADER_SIZE,
            forall|j: int| off <= j < off + i ==> #[trigger] data@[j] == 0u8,
        decreases n - i,
    {
        if data[off + i] != 0 {
            proof {
                assert(data@.subrange(off as int, off + n)[i as int] != zeros(n as nat)[i as int]);
            }
            return Err(M64ParseError::ReservedNotZero(off));
        }
        i += 1;
    }
    assert(data@.subrange(off as int, off + n) =~= zeros(n as nat));
    Ok(())
}

/// Reads the text field of `N` bytes at offset `off`, if the data holds it
/// and it is valid UTF-8.
fn read_text<const N: usize>(data: &[u8], off: usize, field: FieldName) -> (r: Result<
    FixedText<N>,
    M64ParseError,
>)
    requires
        off <= data@.len(),
        off + N <= HEADER_SIZE,
    ensures
        data@.len() < off + N ==> r == Err::<FixedText<N>, M64ParseError>(
            M64ParseError::NotEnoughBytes { field, requires: (off + N - data@.len()) as usize },
        ),
        data@.len() >= off + N ==> {
            &&& !valid_utf8(data@.subrange(off as int, off + N)) ==> r == Err::<
                FixedText<N>,
                M64ParseError,
            >(M64ParseError::InvalidString(field))
            &&& valid_utf8(data@.subrange(off as int, off + N)) ==> (r matches Ok(t) && t@
                == data@.subrange(off as int, off + N))
        },
{
    if data.len() - off < N {
        return Err(M64ParseError::NotEnoughBytes { field, requires: off + N - data.len() });
    }
    match FixedText::<N>::from_slice(slice_subrange(data, off, off + N)) {
        Some(t) => Ok(t),
        None => Err(M64ParseError::InvalidString(field)),
    }
}

/// Reads the input samples that follow the header, one per 4-byte record.
fn read_inputs(data: &[u8]) -> (v: Vec<Input>)
    requires
        data@.len() >= HEADER_SIZE,
        (data@.len() - 0x400) % 4 == 0,
    ensures
        v@.len() == (data@.len() - 0x400) / 4,
        forall|i: int|
            0 <= i < v@.len() ==> #[trigger] v@[i] == Input::of_word(u32_at(data@, 0x400 + 4 * i)),
{
    let mut inputs: Vec<Input> = Vec::new();
    let mut off: usize = HEADER_SIZE;
    while off < data.len()
        invariant
            HEADER_SIZE <= off <= data@.len(),
            (data@.len() - off) % 4 == 0,
            off == 0x400 + 4 * inputs@.len(),
            forall|i: int|
                0 <= i < inputs@.len() ==> #[trigger] inputs@[i] == Input::of_word(
                    u32_at(data@, 0x400 + 4 * i),
                ),
        decreases data@.len() - off,
    {
        let word = u32_from_le_bytes(slice_subrange(data, off, off + 4));
        inputs.push(Input::from(word));
        off += 4;
    }
    inputs
}

/// A file with both a wrong signature and a wrong version is reported for
/// its signature: the signature is checked before any other header field.
pub proof fn lemma_signature_checked_first(d: Seq<u8>, r: Result<M64, M64ParseError>)
    requires
        parse_outcome(d, r),
        d.len() >= 8,
        d.len() >= 0x400 ==> (d.len() - 0x400) % 4 == 0,
        d.subrange(0, 4) != signature(),
        u32_at(d, 0x04) != VERSION,
    ensures
        r matches Err(M64ParseError::InvalidSignature(_)),
{
}

/// Encoding a decoded file gives back the file byte for byte, as long as the
/// controller status word uses none of the bits above its twelve flags
/// (decoding keeps only the flags, so other bits cannot come back).
pub proof fn lemma_round_trip(d: Seq<u8>, m: M64)
    requires
        parse_outcome(d, Ok(m)),
        u32_at(d, 0x20) <= 0xFFF,
    ensures
        m.encoded() == d,
{
    lemma_auto_spec_u32_to_from_le_bytes();
    lemma_auto_spec_u16_to_from_le_bytes();
    assert(d.len() >= 0x400);
    let w = u32_at(d, 0x20);
    lemma_status_word_round_trip(w);
    assert(w & 0xFFF == w) by (bit_vector)
        requires
            w <= 0xFFF,
    ;
    assert(m.movie_start_type.code() == u16_at(d, 0x1C));
    let p = Seq::empty() + signature();
    assert(p =~= d.subrange(0, 4));
    let p = p + spec_u32_to_le_bytes(VERSION);
    lemma_join(d, 0, 4, 8);
    let p = p + spec_u32_to_le_bytes(m.uid);
    lemma_join(d, 0, 8, 12);
    let p = p + spec_u32_to_le_bytes(m.vi_frames);
    lemma_join(d, 0, 12, 16);
    let p = p + spec_u32_to_le_bytes(m.rerecords);
    lemma_join(d, 0, 16, 20);
    let p = p + seq![m.fps];
    lemma_join(d, 0, 20, 21);
    assert(seq![m.fps] =~= d.subrange(20, 21));
    let p = p + seq![m.controller_count];
    lemma_join(d, 0, 21, 22);
    assert(seq![m.controller_count] =~= d.subrange(21, 22));
    let p = p + zeros(2);
    lemma_join(d, 0, 22, 24);
    let p = p + spec_u32_to_le_bytes(m.input_frames);
    lemma_join(d, 0, 24, 28);
    let p = p + spec_u16_to_le_bytes(m.movie_start_type.code());
    lemma_join(d, 0, 28, 30);
    let p = p + zeros(2);
    lemma_join(d, 0, 30, 32);
    let p = p + spec_u32_to_le_bytes(Flags::word_of(m.controller_flags@));
    lemma_join(d, 0, 32, 36);
    let p = p + zeros(160);
    lemma_join(d, 0, 36, 196);
    let p = p + m.rom_internal_name@;
    lemma_join(d, 0, 196, 228);
    let p = p + spec_u32_to_le_bytes(m.rom_crc_32);
    lemma_join(d, 0, 228, 232);
    let p = p + spec_u16_to_le_bytes(m.rom_country_code);
    lemma_join(d, 0, 232, 234);
    let p = p + zeros(56);
    lemma_join(d, 0, 234, 290);
    let p = p + m.video_plugin@;
    lemma_join(d, 0, 290, 354);
    let p = p + m.sound_plugin@;
    lemma_join(d, 0, 354, 418);
    let p = p + m.input_plugin@;
    lemma_join(d, 0, 418, 482);
    let p = p + m.rsp_plugin@;
    lemma_join(d, 0, 482, 546);
    let p = p + m.author@;
    lemma_join(d, 0, 546, 768);
    let p = p + m.description@;
    lemma_join(d, 0, 768, 1024);
    assert(m.header_bytes() == d.subrange(0, 1024));
    let n = m.inputs@.len();
    lemma_inputs_round_trip(d, m.inputs@, n);
    assert(m.inputs@.subrange(0, n as int) =~= m.inputs@);
    lemma_join(d, 0, 1024, d.len() as int);
    assert(d.subrange(0, d.len() as int) =~= d);
}

/// The words of the first `k` decoded input samples are the `k` records
/// that follow the header.
proof fn lemma_inputs_round_trip(d: Seq<u8>, s: Seq<Input>, k: nat)
    requires
        k <= s.len(),
        0x400 + 4 * k <= d.len(),
        forall|i: int| 0 <= i < s.len() ==> #[trigger] s[i] == Input::of_word(u32_at(d, 0x400 + 4 * i)),
    ensures
        inputs_bytes(s.subrange(0, k as int)) == d.subrange(0x400, 0x400 + 4 * (k as int)),
    decreases k,
{
    if k == 0 {
        assert(d.subrange(0x400, 0x400) =~= Seq::<u8>::empty());
    } else {
        let t = s.subrange(0, k as int);
        assert(t.drop_last() =~= s.subrange(0, k - 1));
        lemma_inputs_round_trip(d, s, (k - 1) as nat);
        let o: int = 0x400 + 4 * (k - 1);
        assert(t.last() == Input::of_word(u32_at(d, o)));
        lemma_input_word_round_trip(u32_at(d, o));
        lemma_auto_spec_u32_to_from_le_bytes();
        lemma_join(d, 0x400, o, o + 4);
    }
}

/// Two adjacent ranges of `d` joined are the range that covers both.
proof fn lemma_join(d: Seq<u8>, a: int, b: int, c: int)
    requires
        0 <= a <= b <= c <= d.len(),
    ensures
        d.subrange(a, b) + d.subrange(b, c) == d.subrange(a, c),
{
    assert(d.subrange(a, b) + d.subrange(b, c) =~= d.subrange(a, c));
}

/// True when every text field of `m` holds valid UTF-8 of exactly its capacity,
/// as every text field built by this library does.
pub open spec fn texts_well_formed(m: M64) -> bool {
    &&& m.rom_internal_name@.len() == 32 && valid_utf8(m.rom_internal_name@)
    &&& m.video_plugin@.len() == 64 && valid_utf8(m.video_plugin@)
    &&& m.sound_plugin@.len() == 64 && valid_utf8(m.sound_plugin@)
    &&& m.input_plugin@.len() == 64 && valid_utf8(m.input_plugin@)
    &&& m.rsp_plugin@.len() == 64 && valid_utf8(m.rsp_plugin@)
    &&& m.author@.len() == 222 && valid_utf8(m.author@)
    &&& m.description@.len() == 256 && valid_utf8(m.description@)
}

/// Decoding the bytes written for a movie succeeds, and every field and input
/// sample of the movie is what those bytes hold.
pub proof fn lemma_encode_decode(m: M64, r: Result<M64, M64ParseError>)
    requires
        texts_well_formed(m),
        parse_outcome(m.encoded(), r),
    ensures
        r is Ok,
        decoded_from(m, m.encoded()),
{
    lemma_auto_spec_u32_to_from_le_bytes();
    lemma_auto_spec_u16_to_from_le_bytes();
    let c = m.movie_start_type.code();
    assert(MovieStartType::of_code(c) == Some(m.movie_start_type));
    crate::controller::lemma_status_slots_round_trip(m.controller_flags@);
    let to_00 = Seq::<u8>::empty();
    let to_04 = to_00 + signature();
    let to_08 = to_04 + spec_u32_to_le_bytes(VERSION);
    let to_0c = to_08 + spec_u32_to_le_bytes(m.uid);
    let to_10 = to_0c + spec_u32_to_le_bytes(m.vi_frames);
    let to_14 = to_10 + spec_u32_to_le_bytes(m.rerecords);
    let to_15 = to_14 + seq![m.fps];
    let to_16 = to_15 + seq![m.controller_count];
    let to_18 = to_16 + zeros(2);
    let to_1c = to_18 + spec_u32_to_le_bytes(m.input_frames);
    let to_1e = to_1c + spec_u16_to_le_bytes(c);
    let to_20 = to_1e + zeros(2);
    let to_24 = to_20 + spec_u32_to_le_bytes(Flags::word_of(m.controller_flags@));
    let to_c4 = to_24 + zeros(160);
    let to_e4 = to_c4 + m.rom_internal_name@;
    let to_e8 = to_e4 + spec_u32_to_le_bytes(m.rom_crc_32);
    let to_ea = to_e8 + spec_u16_to_le_bytes(m.rom_country_code);
    let to_122 = to_ea + zeros(56);
    let to_162 = to_122 + m.video_plugin@;
    let to_1a2 = to_162 + m.sound_plugin@;
    let to_1e2 = to_1a2 + m.input_plugin@;
    let to_222 = to_1e2 + m.rsp_plugin@;
    let to_300 = to_222 + m.author@;
    let h = to_300 + m.description@;
    assert(h == m.header_bytes());
    assert(h.len() == 0x400);
    let ins = inputs_bytes(m.inputs@);
    lemma_inputs_bytes_len(m.inputs@);
    let e = m.encoded();
    assert(e == h + ins);
    lemma_prefix(h, ins);
    lemma_prefix(to_300, m.description@);
    lemma_prefix(to_222, m.author@);
    lemma_prefix(to_1e2, m.rsp_plugin@);
    lemma_prefix(to_1a2, m.input_plugin@);
    lemma_prefix(to_162, m.sound_plugin@);
    lemma_prefix(to_122, m.video_plugin@);
    lemma_prefix(to_ea, zeros(56));
    lemma_prefix(to_e8, spec_u16_to_le_bytes(m.rom_country_code));
    lemma_prefix(to_e4, spec_u32_to_le_bytes(m.rom_crc_32));
    lemma_prefix(to_c4, m.rom_internal_name@);
    lemma_prefix(to_24, zeros(160));
    lemma_prefix(to_20, spec_u32_to_le_bytes(Flags::word_of(m.controller_flags@)));
    lemma_prefix(to_1e, zeros(2));
    lemma_prefix(to_1c, spec_u16_to_le_bytes(c));
    lemma_prefix(to_18, spec_u32_to_le_bytes(m.input_frames));
    lemma_prefix(to_16, zeros(2));
    lemma_prefix(to_15, seq![m.controller_count]);
    lemma_prefix(to_14, seq![m.fps]);
    lemma_prefix(to_10, spec_u32_to_le_bytes(m.rerecords));
    lemma_prefix(to_0c, spec_u32_to_le_bytes(m.vi_frames));
    lemma_prefix(to_08, spec_u32_to_le_bytes(m.uid));
    lemma_prefix(to_04, spec_u32_to_le_bytes(VERSION));
    lemma_prefix(to_00, signature());
    lemma_piece(e, h, 0x400);
    lemma_piece(e, to_300, 0x300);
    lemma_piece(e, to_222, 0x222);
    lemma_piece(e, to_1e2, 0x1E2);
    lemma_piece(e, to_1a2, 0x1A2);
    lemma_piece(e, to_162, 0x162);
    lemma_piece(e, to_122, 0x122);
    lemma_piece(e, to_ea, 0xEA);
    lemma_piece(e, to_e8, 0xE8);
    lemma_piece(e, to_e4, 0xE4);
    lemma_piece(e, to_c4, 0xC4);
    lemma_piece(e, to_24, 0x24);
    lemma_piece(e, to_20, 0x20);
    lemma_piece(e, to_1e, 0x1E);
    lemma_piece(e, to_1c, 0x1C);
    lemma_piece(e, to_18, 0x18);
    lemma_piece(e, to_16, 0x16);
    lemma_piece(e, to_15, 0x15);
    lemma_piece(e, to_14, 0x14);
    lemma_piece(e, to_10, 0x10);
    lemma_piece(e, to_0c, 0x0C);
    lemma_piece(e, to_08, 0x08);
    lemma_piece(e, to_04, 0x04);
    assert(e.subrange(0, 4) == signature());
    assert(e[0x14] == to_15[0x14]);
    assert(e[0x15] == to_16[0x15]);
    assert forall|i: int| 0 <= i < m.inputs@.len() implies #[trigger] m.inputs@[i]
        == Input::of_word(u32_at(e, 0x400 + 4 * i)) by {
        lemma_inputs_bytes_at(m.inputs@, i);
        assert(e.subrange(0x400 + 4 * i, 0x400 + 4 * i + 4) =~= ins.subrange(4 * i, 4 * i + 4));
        crate::controller::lemma_input_round_trip(m.inputs@[i]);
    }
}

/// `a + b` starts with `a`.
proof fn lemma_prefix(a: Seq<u8>, b: Seq<u8>)
    ensures
        (a + b).subrange(0, a.len() as int) == a,
        (a + b).subrange(a.len() as int, (a + b).len() as int) == b,
{
    assert((a + b).subrange(0, a.len() as int) =~= a);
    assert((a + b).subrange(a.len() as int, (a + b).len() as int) =~= b);
}

/// Once `e` is known to start with `p`, the first `n` bytes of `p` are the
/// first `n` bytes of `e`.
proof fn lemma_piece(e: Seq<u8>, p: Seq<u8>, n: int)
    requires
        n == p.len(),
        n <= e.len(),
    ensures
        e.subrange(0, n) == p ==> forall|a: int, b: int|
            0 <= a <= b <= n ==> #[trigger] e.subrange(a, b) == p.subrange(a, b),
{
    if e.subrange(0, n) == p {
        assert forall|a: int, b: int| 0 <= a <= b <= n implies #[trigger] e.subrange(a, b)
            == p.subrange(a, b) by {
            assert(e.subrange(a, b) =~= p.subrange(a, b));
        }
    }
}

/// Each input sample stands for four bytes.
proof fn lemma_inputs_bytes_len(s: Seq<Input>)
    ensures
        inputs_bytes(s).len() == 4 * s.len(),
    decreases s.len(),
{
    if s.len() > 0 {
        lemma_inputs_bytes_len(s.drop_last());
        lemma_auto_spec_u32_to_from_le_bytes();
    }
}

/// The four bytes of input sample `i` are its little-endian word.
proof fn lemma_inputs_bytes_at(s: Seq<Input>, i: int)
    requires
        0 <= i < s.len(),
    ensures
        inputs_bytes(s).subrange(4 * i, 4 * i + 4) == spec_u32_to_le_bytes(s[i].word()),
    decreases s.len(),
{
    lemma_inputs_bytes_len(s.drop_last());
    lemma_auto_spec_u32_to_from_le_bytes();
    let rest = inputs_bytes(s.drop_last());
    let last = spec_u32_to_le_bytes(s.last().word());
    if i == s.len() - 1 {
        lemma_prefix(rest, last);
    } else {
        lemma_inputs_bytes_at(s.drop_last(), i);
        assert((rest + last).subrange(4 * i, 4 * i + 4) =~= rest.subrange(4 * i, 4 * i + 4));
    }
}

} // verus!
