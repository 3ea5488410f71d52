//! Error types for the M64 parser.
use vstd::prelude::*;

verus! {

/// All possible M64 parsing errors.
#[derive(Debug, Clone, PartialEq, Eq)]
pub enum M64ParseError {
    /// File signature didn't match; holds the first four bytes of the file,
    /// or all of them when it is shorter.
    InvalidSignature(Vec<u8>),
    /// File version number wasn't 3.
    InvalidVersion(u32),
    /// Reserved bytes weren't zero; holds the offset of the reserved region.
    ReservedNotZero(usize),
    /// There was not enough bytes to make up for a field.
    NotEnoughBytes { field: FieldName, requires: usize },
    /// The input data wasn't 4 bytes aligned; holds the size of the incomplete last record.
    InputNot4BytesAligned(usize),
    /// Invalid movie start type.
    InvalidMovieStartType,
    /// Invalid UTF-8 string.
    InvalidString(FieldName),
}

/// M64 field names used for the error messages.
#[derive(Debug, Clone, Copy, PartialEq, Eq, Hash)]
pub enum FieldName {
    Version,
    Uid,
    ViFrames,
    InputFrames,
    Rerecords,
    Fps,
    ControllerCount,
    MovieStartType,
    ControllerFlags,
    RomInternalName,
    RomCrc32,
    RomCountryCode,
    VideoPlugin,
    SoundPlugin,
    InputPlugin,
    RspPlugin,
    Author,
    Description,
    /// A reserved region, which must be all zero.
    Reserved,
}

} // verus!
