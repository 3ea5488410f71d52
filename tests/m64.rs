use mupen64_movie_parser::controller::{Flags, Input};
use mupen64_movie_parser::error::{FieldName, M64ParseError};
use mupen64_movie_parser::m64::{MovieStartType, HEADER_SIZE, M64, VERSION};
use mupen64_movie_parser::text::FixedText;

fn sample(inputs: Vec<Input>) -> M64 {
    let none = Flags {
        controller_present: false,
        has_mempak: false,
        has_rumblepak: false,
    };
    let mut controller_flags = [none; 4];
    controller_flags[0] = Flags {
        controller_present: true,
        has_mempak: true,
        has_rumblepak: false,
    };
    M64 {
        uid: 1272727295,
        vi_frames: 290491,
        input_frames: inputs.len() as u32,
        rerecords: 2136942,
        fps: 60,
        controller_count: 1,
        movie_start_type: MovieStartType::PowerOn,
        controller_flags,
        rom_internal_name: FixedText::new("SUPER MARIO 64").unwrap(),
        rom_crc_32: 0xFF2B5A63,
        rom_country_code: 0x45,
        video_plugin: FixedText::new("Jabo's Direct3D8 1.6").unwrap(),
        sound_plugin: FixedText::new("Jabo's DirectSound 1.6").unwrap(),
        input_plugin: FixedText::new("TAS Input Plugin 0.6").unwrap(),
        rsp_plugin: FixedText::new("RSP emulation Plugin").unwrap(),
        author: FixedText::new("MKDasher, Nahoc, sonicpacker").unwrap(),
        description: FixedText::new("18:08.33 saved over Rikku.").unwrap(),
        inputs,
    }
}

fn sample_bytes(inputs: Vec<Input>) -> Vec<u8> {
    let mut out = Vec::new();
    sample(inputs).write_m64(&mut out);
    out
}

fn some_inputs() -> Vec<Input> {
    vec![
        Input::from(0x37F6_0080),
        Input::from(0x837D_0300),
        Input::from(0),
        Input::from(0xFFFF_FFFF),
    ]
}

#[test]
fn test_files_parse() {
    let files = [
        sample_bytes(Vec::new()),
        sample_bytes(some_inputs()),
        sample_bytes(vec![Input::from(0x0000_C000); 100]),
    ];

    for file in files {
        let m64 = M64::from_u8_array(&file).unwrap();
        let mut m64_u8 = Vec::new();
        m64.write_m64(&mut m64_u8);
        assert_eq!(m64_u8, file)
    }
}

#[test]
fn decoded_fields_match_what_was_written() {
    let file = sample_bytes(some_inputs());
    let m64 = M64::from_u8_array(&file).unwrap();
    assert_eq!(m64.uid, 1272727295);
    assert_eq!(m64.rerecords, 2136942);
    assert_eq!(m64.vi_frames, 290491);
    assert_eq!(m64.input_frames, 4);
    assert_eq!(m64.fps, 60);
    assert_eq!(m64.controller_count, 1);
    assert_eq!(m64.rom_crc_32, 0xFF2B5A63);
    assert_eq!(m64.rom_country_code, 0x45);
    assert!(m64.controller_flags[0].controller_present);
    assert!(m64.controller_flags[0].has_mempak);
    assert!(!m64.controller_flags[1].controller_present);
    assert_eq!(
        m64.author.as_str().trim_matches(char::from(0)),
        "MKDasher, Nahoc, sonicpacker"
    );
    assert_eq!(
        m64.description.as_str().trim_matches(char::from(0)),
        "18:08.33 saved over Rikku."
    );
    assert_eq!(m64.inputs, some_inputs());
    assert_eq!(m64.inputs[0].x_axis, -10);
    assert_eq!(m64.inputs[0].y_axis, 55);
}

#[test]
fn written_layout() {
    let file = sample_bytes(some_inputs());
    assert_eq!(file.len(), HEADER_SIZE + 4 * 4);
    assert_eq!(&file[0..4], &[0x4D, 0x36, 0x34, 0x1A]);
    assert_eq!(&file[4..8], &VERSION.to_le_bytes());
    assert_eq!(&file[8..12], &1272727295u32.to_le_bytes());
    assert_eq!(file[0x14], 60);
    assert_eq!(&file[0x1C..0x1E], &[2, 0]);
    assert_eq!(&file[0x20..0x24], &[0x11, 0, 0, 0]);
    assert_eq!(&file[0xC4..0xD2], b"SUPER MARIO 64");
    assert!(file[0xD2..0xE4].iter().all(|&b| b == 0));
    assert_eq!(&file[0x400..0x404], &[0x80, 0x00, 0xF6, 0x37]);
    assert_eq!(&file[0x40C..0x410], &[0xFF, 0xFF, 0xFF, 0xFF]);
}

#[test]
fn empty_file() {
    let file = Vec::new();
    let m64 = M64::from_u8_array(&file);
    assert_eq!(m64.unwrap_err(), M64ParseError::InvalidSignature(vec![]));
}

#[test]
fn invalid_signature() {
    let mut file = sample_bytes(some_inputs());
    file[0..4].copy_from_slice(&[0xFF, 0xFF, 0xFF, 0xFF]);
    let m64 = M64::from_u8_array(&file);
    assert_eq!(
        m64.unwrap_err(),
        M64ParseError::InvalidSignature(vec![0xFF, 0xFF, 0xFF, 0xFF])
    );
}

#[test]
fn invalid_signature_2() {
    let file = vec![0x4D, 0x36, 0x34];
    let m64 = M64::from_u8_array(&file);
    assert_eq!(
        m64.unwrap_err(),
        M64ParseError::InvalidSignature(vec![0x4D, 0x36, 0x34])
    );
}

#[test]
fn not_enough_data() {
    let file = vec![0x4D, 0x36, 0x34, 0x1A, 0x03, 0x00];
    let m64 = M64::from_u8_array(&file);
    assert_eq!(
        m64.unwrap_err(),
        M64ParseError::NotEnoughBytes {
            field: FieldName::Version,
            requires: 2
        }
    );
}

#[test]
fn wrong_version() {
    let mut file = sample_bytes(some_inputs());
    file[4] = 4;
    let m64 = M64::from_u8_array(&file);
    assert_eq!(m64.unwrap_err(), M64ParseError::InvalidVersion(4));
}

#[test]
fn wrong_version_not_enough_data() {
    let file = vec![0x4D, 0x36, 0x34, 0x1A, 0x04];
    let m64 = M64::from_u8_array(&file);
    assert_eq!(
        m64.unwrap_err(),
        M64ParseError::NotEnoughBytes {
            field: FieldName::Version,
            requires: 3
        }
    );
}

#[test]
fn invalid_reserved() {
    let mut file = sample_bytes(some_inputs());
    file[0x17] = 1;
    let m64 = M64::from_u8_array(&file);
    assert_eq!(m64.unwrap_err(), M64ParseError::ReservedNotZero(0x16));
}

#[test]
fn invalid_movie_start_type() {
    let mut file = sample_bytes(some_inputs());
    file[0x1C] = 3;
    let m64 = M64::from_u8_array(&file);
    assert_eq!(m64.unwrap_err(), M64ParseError::InvalidMovieStartType);
}

#[test]
fn invalid_utf8() {
    let mut file = sample_bytes(some_inputs());
    file[0xC4] = 0xFF;
    let m64 = M64::from_u8_array(&file);
    assert_eq!(
        m64.unwrap_err(),
        M64ParseError::InvalidString(FieldName::RomInternalName)
    );
}

#[test]
fn not_enough_input_data() {
    let mut file = sample_bytes(some_inputs());
    file.truncate(HEADER_SIZE + 4 * 3 + 2);
    let m64 = M64::from_u8_array(&file);
    assert_eq!(m64.unwrap_err(), M64ParseError::InputNot4BytesAligned(2));
}

#[test]
fn two_trailing_bytes_are_misaligned() {
    let mut file = sample_bytes(Vec::new());
    file.extend_from_slice(&[1, 2]);
    assert_eq!(file.len(), 1024 + 2);
    assert_eq!(
        M64::from_u8_array(&file).unwrap_err(),
        M64ParseError::InputNot4BytesAligned(2)
    );
}

#[test]
fn alignment_is_checked_before_the_header() {
    let file = vec![0u8; 1024 + 2];
    assert_eq!(
        M64::from_u8_array(&file).unwrap_err(),
        M64ParseError::InputNot4BytesAligned(2)
    );
    let mut file = sample_bytes(some_inputs());
    file[4] = 9;
    file.push(0);
    assert_eq!(
        M64::from_u8_array(&file).unwrap_err(),
        M64ParseError::InputNot4BytesAligned(1)
    );
    assert_eq!(
        M64::from_u8_array(&[0u8; 1023]).unwrap_err(),
        M64ParseError::InvalidSignature(vec![0, 0, 0, 0])
    );
}

#[test]
fn signature_is_reported_before_version() {
    let mut file = sample_bytes(some_inputs());
    file[0] = 0;
    file[4] = 9;
    assert_eq!(
        M64::from_u8_array(&file).unwrap_err(),
        M64ParseError::InvalidSignature(vec![0, 0x36, 0x34, 0x1A])
    );
}

#[test]
fn header_alone_decodes_to_no_inputs() {
    let file = sample_bytes(Vec::new());
    assert_eq!(file.len(), 1024);
    let m64 = M64::from_u8_array(&file).unwrap();
    assert!(m64.inputs.is_empty());
    let mut out = Vec::new();
    m64.write_m64(&mut out);
    assert_eq!(out, file);
}

#[test]
fn power_on_start_type_round_trips() {
    let file = sample_bytes(some_inputs());
    assert_eq!(&file[0x1C..0x1E], &[2, 0]);
    let m64 = M64::from_u8_array(&file).unwrap();
    assert_eq!(m64.movie_start_type, MovieStartType::PowerOn);
    let mut out = Vec::new();
    m64.write_m64(&mut out);
    assert_eq!(out, file);
}

#[test]
fn default_start_type_is_written_as_power_on() {
    let mut m64 = sample(Vec::new());
    m64.movie_start_type = MovieStartType::default();
    let mut out = Vec::new();
    m64.write_m64(&mut out);
    assert_eq!(&out[0x1C..0x1E], &[2, 0]);
}

#[test]
fn start_type_codes() {
    assert_eq!(MovieStartType::from_repr(1), Some(MovieStartType::SnapShot));
    assert_eq!(MovieStartType::from_repr(2), Some(MovieStartType::PowerOn));
    assert_eq!(MovieStartType::from_repr(4), Some(MovieStartType::Eeprom));
    assert_eq!(MovieStartType::from_repr(0), None);
    assert_eq!(MovieStartType::from_repr(3), None);
    assert_eq!(MovieStartType::Eeprom.to_u16(), 4);
    assert_eq!(MovieStartType::SnapShot.to_u16(), 1);
    assert_eq!(MovieStartType::default(), MovieStartType::PowerOn);
}

#[test]
fn other_start_types_round_trip() {
    for code in [1u8, 4u8] {
        let mut file = sample_bytes(some_inputs());
        file[0x1C] = code;
        let m64 = M64::from_u8_array(&file).unwrap();
        assert_eq!(m64.movie_start_type.to_u16(), code as u16);
        let mut out = Vec::new();
        m64.write_m64(&mut out);
        assert_eq!(out, file);
    }
}

#[test]
fn each_reserved_region_is_checked() {
    for (offset, region) in [(0x1F, 0x1E), (0x24, 0x24), (0xC3, 0x24), (0xEA, 0xEA), (0x121, 0xEA)] {
        let mut file = sample_bytes(Vec::new());
        file[offset] = 0x80;
        assert_eq!(
            M64::from_u8_array(&file).unwrap_err(),
            M64ParseError::ReservedNotZero(region)
        );
    }
}

#[test]
fn truncated_fields_report_what_is_missing() {
    let file = sample_bytes(Vec::new());
    let cases = [
        (0x0A, FieldName::Uid, 2),
        (0x0C, FieldName::ViFrames, 4),
        (0x11, FieldName::Rerecords, 3),
        (0x14, FieldName::Fps, 1),
        (0x15, FieldName::ControllerCount, 1),
        (0x17, FieldName::Reserved, 1),
        (0x18, FieldName::InputFrames, 4),
        (0x1D, FieldName::MovieStartType, 1),
        (0x21, FieldName::ControllerFlags, 3),
        (0x30, FieldName::Reserved, 0xC4 - 0x30),
        (0xD0, FieldName::RomInternalName, 0xE4 - 0xD0),
        (0xE5, FieldName::RomCrc32, 3),
        (0xE8, FieldName::RomCountryCode, 2),
        (0x122, FieldName::VideoPlugin, 64),
        (0x170, FieldName::SoundPlugin, 0x1A2 - 0x170),
        (0x1A2, FieldName::InputPlugin, 64),
        (0x221, FieldName::RspPlugin, 1),
        (0x222, FieldName::Author, 222),
        (0x3FF, FieldName::Description, 1),
    ];
    for (len, field, requires) in cases {
        assert_eq!(
            M64::from_u8_array(&file[..len]).unwrap_err(),
            M64ParseError::NotEnoughBytes { field, requires },
            "length {len:#x}"
        );
    }
}

#[test]
fn invalid_utf8_in_each_text_field() {
    let cases = [
        (0x122, FieldName::VideoPlugin),
        (0x162, FieldName::SoundPlugin),
        (0x1A2, FieldName::InputPlugin),
        (0x1E2, FieldName::RspPlugin),
        (0x222, FieldName::Author),
        (0x3FF, FieldName::Description),
    ];
    for (offset, field) in cases {
        let mut file = sample_bytes(Vec::new());
        file[offset] = 0xC3;
        assert_eq!(
            M64::from_u8_array(&file).unwrap_err(),
            M64ParseError::InvalidString(field)
        );
    }
}

#[test]
fn text_padding_is_kept_verbatim() {
    let mut file = sample_bytes(Vec::new());
    // "ab", a zero byte, then "c": not the canonical padding of any text.
    file[0xC4..0xC8].copy_from_slice(b"ab\0c");
    let m64 = M64::from_u8_array(&file).unwrap();
    assert_eq!(&m64.rom_internal_name.as_bytes()[..4], b"ab\0c");
    let mut out = Vec::new();
    m64.write_m64(&mut out);
    assert_eq!(out, file);
}

#[test]
fn controller_word_high_bits_are_not_written_back() {
    let mut file = sample_bytes(Vec::new());
    file[0x23] = 0x80;
    let m64 = M64::from_u8_array(&file).unwrap();
    let mut out = Vec::new();
    m64.write_m64(&mut out);
    assert_eq!(out[0x23], 0);
    assert_eq!(&out[0x20..0x22], &file[0x20..0x22]);
}

#[test]
fn write_appends_to_existing_bytes() {
    let mut out = vec![9, 9];
    sample(some_inputs()).write_m64(&mut out);
    assert_eq!(out.len(), 2 + 1024 + 16);
    assert_eq!(&out[0..2], &[9, 9]);
    assert_eq!(&out[2..6], &[0x4D, 0x36, 0x34, 0x1A]);
}

#[test]
fn fixed_text_capacity() {
    let t = FixedText::<4>::new("abcd").unwrap();
    assert_eq!(t.as_bytes(), b"abcd");
    assert!(FixedText::<4>::new("abcde").is_none());
    let t = FixedText::<4>::new("é").unwrap();
    assert_eq!(t.as_bytes(), &[0xC3, 0xA9, 0, 0]);
    assert_eq!(t.as_str(), "é\0\0");
    assert!(FixedText::<2>::new("éa").is_none());
    let e = FixedText::<3>::new("").unwrap();
    assert_eq!(e.as_bytes(), &[0, 0, 0]);
}

#[test]
fn fixed_text_from_slice() {
    assert_eq!(
        FixedText::<3>::from_slice(b"a\0b").unwrap().as_bytes(),
        b"a\0b"
    );
    assert!(FixedText::<3>::from_slice(b"ab").is_none());
    assert!(FixedText::<3>::from_slice(&[0x61, 0xFF, 0]).is_none());
    assert!(FixedText::<2>::from_slice(&[0xED, 0xA0]).is_none());
    let t = FixedText::<2>::from_slice(b"hi").unwrap();
    assert_eq!(t.clone(), t);
}
