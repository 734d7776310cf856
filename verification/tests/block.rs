use edid::{
    parse, parse_edid, DecodeError, Descriptor, DetailedTiming, Display, Header, Step, EDID,
};

const TIMING_1680: [u8; 18] = [
    0x21, 0x39, 0x90, 0x30, 0x62, 0x1A, 0x27, 0x40, 0x68, 0xB0, 0x36, 0x00, 0xDA, 0x28, 0x11, 0x00,
    0x00, 0x1C,
];

/// A block as a 22-inch monitor reports it: one detailed timing and three
/// monitor descriptors, tagged as range limits, product name and serial
/// number.
fn sample_block() -> Vec<u8> {
    let mut block: Vec<u8> = Vec::new();
    block.extend_from_slice(&[0x00, 0xFF, 0xFF, 0xFF, 0xFF, 0xFF, 0xFF, 0x00]);
    block.extend_from_slice(&[0x4C, 0x2D]);
    block.extend_from_slice(&[0x54, 0x02]);
    block.extend_from_slice(&[0x32, 0x32, 0x50, 0x44]);
    block.extend_from_slice(&[27, 17, 1, 3]);
    block.extend_from_slice(&[14, 47, 30, 120, 42]);
    block.extend_from_slice(&[0xEE, 0x91, 0xA3, 0x54, 0x4C, 0x99, 0x26, 0x0F, 0x50, 0x54]);
    block.extend_from_slice(&[0xBF, 0xEF, 0x80]);
    block.extend_from_slice(&[
        0xB3, 0x00, 0x81, 0x80, 0x81, 0x40, 0x71, 0x4F, 0x01, 0x01, 0x01, 0x01, 0x01, 0x01, 0x01,
        0x01,
    ]);
    block.extend_from_slice(&TIMING_1680);
    block.extend_from_slice(&[0x00, 0x00, 0x00, 0xFD, 0x00]);
    block.extend_from_slice(&[
        0x38, 0x4B, 0x1E, 0x51, 0x0E, 0x00, 0x0A, 0x20, 0x20, 0x20, 0x20, 0x20, 0x20,
    ]);
    block.extend_from_slice(&[0x00, 0x00, 0x00, 0xFC, 0x00]);
    block.extend_from_slice(b"SyncMaster\n  ");
    block.extend_from_slice(&[0x00, 0x00, 0x00, 0xFF, 0x00]);
    block.extend_from_slice(b"HS3P701105\n  ");
    block.push(0x00);
    let sum: u32 = block.iter().map(|b| *b as u32).sum();
    block.push(((256 - (sum % 256)) % 256) as u8);
    block
}

fn sample_record() -> EDID {
    EDID {
        header: Header {
            vendor: ['S', 'A', 'M'],
            product: 596,
            serial: 1146106418,
            week: 27,
            year: 17,
            version: 1,
            revision: 3,
        },
        display: Display { video_input: 14, width: 47, height: 30, gamma: 120, features: 42 },
        chromaticity: (),
        established_timing: (),
        standard_timing: (),
        descriptors: vec![
            Descriptor::DetailedTiming(DetailedTiming {
                pixel_clock: 146250,
                horizontal_active_pixels: 1680,
                horizontal_blanking_pixels: 560,
                vertical_active_lines: 1050,
                vertical_blanking_lines: 39,
                horizontal_front_porch: 104,
                horizontal_sync_width: 176,
                vertical_front_porch: 3,
                vertical_sync_width: 6,
                horizontal_size: 474,
                vertical_size: 296,
                horizontal_border_pixels: 0,
                vertical_border_pixels: 0,
                features: 28,
            }),
            Descriptor::SerialNumber("8K\u{1e}Q\u{e}\u{0}".to_string()),
            Descriptor::SerialNumber("SyncMaster".to_string()),
            Descriptor::SerialNumber("HS3P701105".to_string()),
        ],
    }
}

fn short(step: Step, available: usize, required: usize) -> DecodeError {
    DecodeError::UnexpectedEnd { step, available, required }
}

#[test]
fn sample_block_has_128_bytes() {
    assert_eq!(sample_block().len(), 128);
}

#[test]
fn whole_block_decodes_and_is_consumed() {
    let block = sample_block();
    let (rest, record) = parse(&block).unwrap();
    assert_eq!(rest.len(), 0);
    assert_eq!(record, sample_record());
}

#[test]
fn parse_edid_and_parse_agree() {
    let block = sample_block();
    assert_eq!(parse_edid(&block), parse(&block));
    assert_eq!(parse_edid(&block[..60]), parse(&block[..60]));
}

#[test]
fn bytes_after_the_block_are_handed_back_untouched() {
    let mut data = sample_block();
    data.extend_from_slice(&[0x02, 0x03, 0x04, 0xF1, 0x99]);
    let (rest, record) = parse_edid(&data).unwrap();
    assert_eq!(rest, &[0x02, 0x03, 0x04, 0xF1, 0x99]);
    assert_eq!(record, sample_record());
}

#[test]
fn every_block_of_128_bytes_behind_the_magic_decodes() {
    for fill in 0..=255u8 {
        let mut block = vec![fill; 128];
        block[..8].copy_from_slice(&[0x00, 0xFF, 0xFF, 0xFF, 0xFF, 0xFF, 0xFF, 0x00]);
        let (rest, record) = parse_edid(&block).unwrap();
        assert_eq!(rest.len(), 0);
        assert_eq!(record.descriptors.len(), 4);
    }
}

#[test]
fn checksum_and_extension_count_are_not_checked() {
    let mut block = sample_block();
    block[126] = 7;
    block[127] = block[127].wrapping_add(1);
    let (rest, record) = parse_edid(&block).unwrap();
    assert_eq!(rest.len(), 0);
    assert_eq!(record, sample_record());
}

#[test]
fn decoding_twice_gives_equal_records() {
    let block = sample_block();
    let first = parse_edid(&block);
    let second = parse_edid(&block);
    assert_eq!(first, second);
    let copy = block.clone();
    assert_eq!(parse_edid(&copy).unwrap().1, first.unwrap().1);
}

#[test]
fn clone_of_a_record_is_equal_to_it() {
    let record = sample_record();
    assert_eq!(record.clone(), record);
}

#[test]
fn buffer_shorter_than_the_magic_is_a_magic_mismatch() {
    let block = sample_block();
    for len in 0..8 {
        assert_eq!(parse_edid(&block[..len]), Err(DecodeError::MagicMismatch));
    }
}

#[test]
fn wrong_magic_is_a_magic_mismatch() {
    for at in 0..8 {
        let mut block = sample_block();
        block[at] ^= 0x10;
        assert_eq!(parse_edid(&block), Err(DecodeError::MagicMismatch));
    }
}

#[test]
fn truncated_block_names_the_part_it_ends_in() {
    let block = sample_block();
    let cases: [(usize, DecodeError); 20] = [
        (8, short(Step::Header, 8, 20)),
        (19, short(Step::Header, 19, 20)),
        (20, short(Step::Display, 0, 5)),
        (24, short(Step::Display, 4, 5)),
        (25, short(Step::Chromaticity, 0, 10)),
        (34, short(Step::Chromaticity, 9, 10)),
        (35, short(Step::EstablishedTimings, 0, 3)),
        (37, short(Step::EstablishedTimings, 2, 3)),
        (38, short(Step::StandardTimings, 0, 16)),
        (53, short(Step::StandardTimings, 15, 16)),
        (54, short(Step::DescriptorKind, 0, 2)),
        (55, short(Step::DescriptorKind, 1, 2)),
        (56, short(Step::DetailedTiming, 2, 18)),
        (71, short(Step::DetailedTiming, 17, 18)),
        (72, short(Step::DescriptorKind, 0, 2)),
        (74, short(Step::MonitorDescriptor, 2, 18)),
        (89, short(Step::MonitorDescriptor, 17, 18)),
        (125, short(Step::MonitorDescriptor, 17, 18)),
        (126, short(Step::ExtensionCount, 0, 1)),
        (127, short(Step::Checksum, 0, 1)),
    ];
    for (len, error) in cases {
        assert_eq!(parse_edid(&block[..len]), Err(error));
    }
}

#[test]
fn every_truncation_fails_and_none_panics() {
    let block = sample_block();
    for len in 0..128 {
        assert!(parse_edid(&block[..len]).is_err());
    }
}

#[test]
fn gamma_byte_120_stands_for_2_20() {
    let block = sample_block();
    let (_, record) = parse_edid(&block).unwrap();
    assert_eq!(record.display.gamma, 120);
    let gamma: f64 = record.display.gamma as f64 / 100.0 + 1.00;
    assert!((gamma - 2.20).abs() < 1e-9);
}
