use mupen64_movie_parser::controller::{Flags, Input, BUTTONS_LSB_FIRST};

#[test]
fn inputs_parse() {
    let inputs_raw = vec![
        0b00110111_11110110_00000000_10000000u32,
        0b10000011_01111101_00000011_00000000u32,
    ];
    let inputs = vec![
        Input {
            a_button: true,
            x_axis: -10,
            y_axis: 55,
            ..Default::default()
        },
        Input {
            left_cbutton: true,
            right_cbutton: true,
            x_axis: 125,
            y_axis: -125,
            ..Default::default()
        },
    ];

    for (input_raw, input) in inputs_raw.iter().copied().zip(inputs.iter().copied()) {
        let input_raw_parsed = Input::from(input_raw);
        assert_eq!(input_raw_parsed, input);
        let input_to_raw = u32::from(input);
        assert_eq!(input_to_raw, input_raw);
    }
}

#[test]
fn buttons_are_numbered_from_the_lowest_bit() {
    assert!(BUTTONS_LSB_FIRST);
    assert_eq!(
        Input::from(0x0000_0001),
        Input {
            right_dpad: true,
            ..Default::default()
        }
    );
    assert_eq!(
        Input::from(0x0000_8000),
        Input {
            reserved_2: true,
            ..Default::default()
        }
    );
}

#[test]
fn example_word_decodes_and_encodes_back() {
    let word = 0x0080_0037u32;
    let input = Input::from(word);
    assert_eq!(
        input,
        Input {
            right_dpad: true,
            left_dpad: true,
            down_dpad: true,
            start: true,
            z_button: true,
            x_axis: -128,
            y_axis: 0,
            ..Default::default()
        }
    );
    assert_eq!(u32::from(input), word);
}

#[test]
fn every_button_has_its_own_bit() {
    let all = Input {
        up_dpad: true,
        down_dpad: true,
        left_dpad: true,
        right_dpad: true,
        start: true,
        z_button: true,
        a_button: true,
        b_button: true,
        right_shoulder: true,
        left_shoulder: true,
        up_cbutton: true,
        down_cbutton: true,
        left_cbutton: true,
        right_cbutton: true,
        reserved_1: true,
        reserved_2: true,
        x_axis: 0,
        y_axis: 0,
    };
    assert_eq!(u32::from(all), 0x0000_FFFF);
    let reserved = Input {
        reserved_1: true,
        reserved_2: true,
        ..Default::default()
    };
    assert_eq!(u32::from(reserved), 0x0000_C000);
    assert_eq!(Input::from(0x0000_C000), reserved);
}

#[test]
fn axis_extremes_round_trip() {
    let input = Input {
        x_axis: -128,
        y_axis: 127,
        ..Default::default()
    };
    assert_eq!(u32::from(input), 0x7F80_0000);
    assert_eq!(Input::from(0x7F80_0000), input);
    let input = Input {
        x_axis: -1,
        y_axis: -1,
        ..Default::default()
    };
    assert_eq!(u32::from(input), 0xFFFF_0000);
}

#[test]
fn input_words_round_trip_on_samples() {
    let mut w: u32 = 0x1234_5678;
    for _ in 0..10_000 {
        w = w.wrapping_mul(1_664_525).wrapping_add(1_013_904_223);
        assert_eq!(u32::from(Input::from(w)), w);
    }
    for w in [0u32, u32::MAX, 0x8000_0000, 0x0000_0080, 0x00FF_0000] {
        assert_eq!(u32::from(Input::from(w)), w);
    }
}

#[test]
fn controller_flags_from_u32() {
    let flags = Flags::from_u32(0b0001_0010_0101);
    assert_eq!(
        flags[0],
        Flags {
            controller_present: true,
            has_mempak: false,
            has_rumblepak: true,
        }
    );
    assert_eq!(
        flags[1],
        Flags {
            controller_present: false,
            has_mempak: true,
            has_rumblepak: false,
        }
    );
    assert_eq!(
        flags[2],
        Flags {
            controller_present: true,
            has_mempak: false,
            has_rumblepak: false,
        }
    );
    assert_eq!(
        flags[3],
        Flags {
            controller_present: false,
            has_mempak: false,
            has_rumblepak: false,
        }
    );
}

#[test]
fn controller_flags_to_u32() {
    let none = Flags {
        controller_present: false,
        has_mempak: false,
        has_rumblepak: false,
    };
    let mut flags = [none; 4];
    flags[3] = Flags {
        controller_present: true,
        has_mempak: true,
        has_rumblepak: true,
    };
    assert_eq!(Flags::to_u32(&flags), 0b1000_1000_1000);
    flags[0].controller_present = true;
    assert_eq!(Flags::to_u32(&flags), 0b1000_1000_1001);
}

#[test]
fn controller_word_keeps_only_the_flag_bits() {
    let mut w: u32 = 0xDEAD_BEEF;
    for _ in 0..10_000 {
        w = w.wrapping_mul(22_695_477).wrapping_add(1);
        assert_eq!(Flags::to_u32(&Flags::from_u32(w)), w & 0xFFF);
    }
    assert_eq!(Flags::to_u32(&Flags::from_u32(0xFFFF_FFFF)), 0xFFF);
    assert_eq!(Flags::to_u32(&Flags::from_u32(0xFFFF_F000)), 0);
}
