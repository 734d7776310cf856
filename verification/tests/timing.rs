use edid::timing::{
    bits_1_0, bits_3_2, bits_5_4, bits_7_6, extend, extend_nibble, high_nibble, low_nibble,
};
use edid::{parse_detailed_timing, DecodeError, DetailedTiming, Step};

const TIMING_1680: [u8; 18] = [
    0x21, 0x39, 0x90, 0x30, 0x62, 0x1A, 0x27, 0x40, 0x68, 0xB0, 0x36, 0x00, 0xDA, 0x28, 0x11, 0x00,
    0x00, 0x1C,
];

const TIMING_1920: [u8; 18] = [
    0x1A, 0x36, 0x80, 0xA0, 0x70, 0x38, 0x1F, 0x40, 0x30, 0x20, 0x35, 0x00, 0x26, 0xA5, 0x10, 0x00,
    0x00, 0x18,
];

#[test]
fn timing_of_1680_by_1050() {
    let (rest, timing) = parse_detailed_timing(&TIMING_1680).unwrap();
    assert_eq!(rest.len(), 0);
    assert_eq!(
        timing,
        DetailedTiming {
            pixel_clock: 146250,
            horizontal_active_pixels: 1680,
            horizontal_blanking_pixels: 560,
            vertical_active_lines: 1050,
            vertical_blanking_lines: 39,
            horizontal_front_porch: 104,
            horizontal_sync_width: 176,
            vertical_front_porch: 3,
            vertical_sync_width: 6,
            horizontal_size: 474,
            vertical_size: 296,
            horizontal_border_pixels: 0,
            vertical_border_pixels: 0,
            features: 28,
        }
    );
}

#[test]
fn timing_of_1920_by_1080() {
    let (rest, timing) = parse_detailed_timing(&TIMING_1920).unwrap();
    assert_eq!(rest.len(), 0);
    assert_eq!(
        timing,
        DetailedTiming {
            pixel_clock: 138500,
            horizontal_active_pixels: 1920,
            horizontal_blanking_pixels: 160,
            vertical_active_lines: 1080,
            vertical_blanking_lines: 31,
            horizontal_front_porch: 48,
            horizontal_sync_width: 32,
            vertical_front_porch: 3,
            vertical_sync_width: 5,
            horizontal_size: 294,
            vertical_size: 165,
            horizontal_border_pixels: 0,
            vertical_border_pixels: 0,
            features: 24,
        }
    );
}

#[test]
fn timing_takes_the_high_bits_of_porch_and_sync_from_byte_11() {
    let mut bytes = TIMING_1680;
    bytes[11] = 0b11_10_01_11;
    let (_, timing) = parse_detailed_timing(&bytes).unwrap();
    assert_eq!(timing.horizontal_front_porch, 104 + 3 * 256);
    assert_eq!(timing.horizontal_sync_width, 176 + 2 * 256);
    assert_eq!(timing.vertical_front_porch, 19);
    assert_eq!(timing.vertical_sync_width, 54);
}

#[test]
fn timing_sets_the_vertical_high_bits_directly_above_the_nibbles() {
    let mut bytes = TIMING_1680;
    bytes[10] = 0x12;
    bytes[11] = 0x06;
    let (_, timing) = parse_detailed_timing(&bytes).unwrap();
    assert_eq!(timing.vertical_front_porch, 17);
    assert_eq!(timing.vertical_sync_width, 34);
    assert_eq!(timing.horizontal_front_porch, 104);
    assert_eq!(timing.horizontal_sync_width, 176);
}

#[test]
fn timing_vertical_porch_and_sync_stay_below_64() {
    for low in [0x00u8, 0x0F, 0xF0, 0xFF, 0x5A] {
        for high in 0..=255u8 {
            let mut bytes = TIMING_1680;
            bytes[10] = low;
            bytes[11] = high;
            let (_, timing) = parse_detailed_timing(&bytes).unwrap();
            assert!(timing.vertical_front_porch < 64);
            assert!(timing.vertical_sync_width < 64);
            assert_eq!(
                timing.vertical_front_porch,
                ((low >> 4) as u16) | ((((high >> 2) & 0x3) as u16) << 4)
            );
            assert_eq!(
                timing.vertical_sync_width,
                ((low & 0x0F) as u16) | (((high & 0x3) as u16) << 4)
            );
        }
    }
}

#[test]
fn timing_of_all_ones() {
    let bytes = [0xFFu8; 18];
    let (_, timing) = parse_detailed_timing(&bytes).unwrap();
    assert_eq!(
        timing,
        DetailedTiming {
            pixel_clock: 655350,
            horizontal_active_pixels: 4095,
            horizontal_blanking_pixels: 4095,
            vertical_active_lines: 4095,
            vertical_blanking_lines: 4095,
            horizontal_front_porch: 1023,
            horizontal_sync_width: 1023,
            vertical_front_porch: 63,
            vertical_sync_width: 63,
            horizontal_size: 4095,
            vertical_size: 4095,
            horizontal_border_pixels: 255,
            vertical_border_pixels: 255,
            features: 255,
        }
    );
}

#[test]
fn timing_of_all_zeros() {
    let bytes = [0u8; 18];
    let (_, timing) = parse_detailed_timing(&bytes).unwrap();
    assert_eq!(
        timing,
        DetailedTiming {
            pixel_clock: 0,
            horizontal_active_pixels: 0,
            horizontal_blanking_pixels: 0,
            vertical_active_lines: 0,
            vertical_blanking_lines: 0,
            horizontal_front_porch: 0,
            horizontal_sync_width: 0,
            vertical_front_porch: 0,
            vertical_sync_width: 0,
            horizontal_size: 0,
            vertical_size: 0,
            horizontal_border_pixels: 0,
            vertical_border_pixels: 0,
            features: 0,
        }
    );
}

#[test]
fn timing_reads_borders_and_features_as_they_are() {
    let mut bytes = TIMING_1680;
    bytes[15] = 7;
    bytes[16] = 9;
    bytes[17] = 0xA5;
    let (_, timing) = parse_detailed_timing(&bytes).unwrap();
    assert_eq!(timing.horizontal_border_pixels, 7);
    assert_eq!(timing.vertical_border_pixels, 9);
    assert_eq!(timing.features, 0xA5);
}

#[test]
fn timing_pixel_clock_is_a_multiple_of_ten() {
    for raw in [0u16, 1, 14625, 0x8000, u16::MAX] {
        let mut bytes = TIMING_1680;
        bytes[0] = (raw & 0xFF) as u8;
        bytes[1] = (raw >> 8) as u8;
        let (_, timing) = parse_detailed_timing(&bytes).unwrap();
        assert_eq!(timing.pixel_clock, raw as u32 * 10);
    }
}

#[test]
fn timing_leaves_what_follows() {
    let mut bytes = TIMING_1920.to_vec();
    bytes.extend_from_slice(&[1, 2, 3]);
    let (rest, _) = parse_detailed_timing(&bytes).unwrap();
    assert_eq!(rest, &[1, 2, 3]);
}

#[test]
fn timing_cut_short_is_refused() {
    for len in 0..18 {
        assert_eq!(
            parse_detailed_timing(&TIMING_1680[..len]),
            Err(DecodeError::UnexpectedEnd {
                step: Step::DetailedTiming,
                available: len,
                required: 18,
            })
        );
    }
}

#[test]
fn bit_fields_of_every_byte() {
    for b in 0..=255u8 {
        assert_eq!(high_nibble(b), b >> 4);
        assert_eq!(low_nibble(b), b & 0x0F);
        assert_eq!(bits_7_6(b), (b >> 6) & 3);
        assert_eq!(bits_5_4(b), (b >> 4) & 3);
        assert_eq!(bits_3_2(b), (b >> 2) & 3);
        assert_eq!(bits_1_0(b), b & 3);
        assert_eq!(high_nibble(b) * 16 + low_nibble(b), b);
        assert_eq!(bits_7_6(b) * 64 + bits_5_4(b) * 16 + bits_3_2(b) * 4 + bits_1_0(b), b);
    }
}

#[test]
fn extend_nibble_sets_the_high_part_above_four_bits() {
    assert_eq!(extend_nibble(0x2, 0x1), 18);
    assert_eq!(extend_nibble(0, 0), 0);
    assert_eq!(extend_nibble(0xF, 0x3), 63);
    assert_eq!(extend_nibble(0x3, 0), 3);
}

#[test]
fn extend_sets_the_high_part_above_eight_bits() {
    assert_eq!(extend(0x90, 0x6), 1680);
    assert_eq!(extend(0, 0), 0);
    assert_eq!(extend(0xFF, 0xFF), 0xFFFF);
    assert_eq!(extend(0x34, 0x12), 0x1234);
}
