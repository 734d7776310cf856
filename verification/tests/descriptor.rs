use edid::{parse_descriptor, DecodeError, Descriptor, DetailedTiming, Step};

const TIMING_1920: [u8; 18] = [
    0x1A, 0x36, 0x80, 0xA0, 0x70, 0x38, 0x1F, 0x40, 0x30, 0x20, 0x35, 0x00, 0x26, 0xA5, 0x10, 0x00,
    0x00, 0x18,
];

fn monitor_descriptor(sub_tag: u8, payload: &[u8; 13]) -> Vec<u8> {
    let mut slot = vec![0x00, 0x00, 0x00, sub_tag, 0x00];
    slot.extend_from_slice(payload);
    slot
}

fn short(step: Step, available: usize, required: usize) -> DecodeError {
    DecodeError::UnexpectedEnd { step, available, required }
}

#[test]
fn slot_with_a_pixel_clock_is_a_detailed_timing() {
    let (rest, descriptor) = parse_descriptor(&TIMING_1920).unwrap();
    assert_eq!(rest.len(), 0);
    assert_eq!(
        descriptor,
        Descriptor::DetailedTiming(DetailedTiming {
            pixel_clock: 138500,
            horizontal_active_pixels: 1920,
            horizontal_blanking_pixels: 160,
            vertical_active_lines: 1080,
            vertical_blanking_lines: 31,
            horizontal_front_porch: 48,
            horizontal_sync_width: 32,
            vertical_front_porch: 3,
            vertical_sync_width: 5,
            horizontal_size: 294,
            vertical_size: 165,
            horizontal_border_pixels: 0,
            vertical_border_pixels: 0,
            features: 24,
        })
    );
}

#[test]
fn slot_is_a_timing_when_either_of_its_first_bytes_is_set() {
    let mut slot = [0u8; 18];
    slot[0] = 1;
    assert!(matches!(parse_descriptor(&slot), Ok((_, Descriptor::DetailedTiming(_)))));
    slot[0] = 0;
    slot[1] = 1;
    assert!(matches!(parse_descriptor(&slot), Ok((_, Descriptor::DetailedTiming(_)))));
    slot[1] = 0;
    assert!(matches!(parse_descriptor(&slot), Ok((_, Descriptor::SerialNumber(_)))));
}

#[test]
fn serial_number_descriptor_is_a_serial_number() {
    let slot = monitor_descriptor(0xFF, b"HS3P701105\n  ");
    let (rest, descriptor) = parse_descriptor(&slot).unwrap();
    assert_eq!(rest.len(), 0);
    assert_eq!(descriptor, Descriptor::SerialNumber("HS3P701105".to_string()));
}

#[test]
fn product_name_descriptor_is_read_as_a_serial_number() {
    let slot = monitor_descriptor(0xFC, b"SyncMaster\n  ");
    let (_, descriptor) = parse_descriptor(&slot).unwrap();
    assert_eq!(descriptor, Descriptor::SerialNumber("SyncMaster".to_string()));
    assert_ne!(descriptor, Descriptor::ProductName("SyncMaster".to_string()));
}

#[test]
fn every_sub_tag_is_read_as_a_serial_number() {
    for sub_tag in 0..=255u8 {
        let slot = monitor_descriptor(sub_tag, b"DELL U2412M\n ");
        let (rest, descriptor) = parse_descriptor(&slot).unwrap();
        assert_eq!(rest.len(), 0);
        assert_eq!(descriptor, Descriptor::SerialNumber("DELL U2412M".to_string()));
    }
}

#[test]
fn reserved_bytes_of_a_monitor_descriptor_are_passed_over() {
    let mut slot = monitor_descriptor(0xFE, b"some text\n   ");
    slot[2] = 0x55;
    slot[4] = 0xAA;
    let (_, descriptor) = parse_descriptor(&slot).unwrap();
    assert_eq!(descriptor, Descriptor::SerialNumber("some text".to_string()));
}

#[test]
fn monitor_descriptor_text_starts_at_byte_5() {
    let slot: Vec<u8> = vec![0, 0, 0, 0xFC, b'Q', b'a', b'b', b'c', b'd', b'e', b'f', b'g', b'h',
        b'i', b'j', b'k', b'l', b'm', b'Z'];
    let (rest, descriptor) = parse_descriptor(&slot).unwrap();
    assert_eq!(rest, b"Z");
    assert_eq!(descriptor, Descriptor::SerialNumber("abcdefghijklm".to_string()));
}

#[test]
fn slot_leaves_what_follows() {
    let mut data = TIMING_1920.to_vec();
    data.extend_from_slice(&[4, 5]);
    let (rest, _) = parse_descriptor(&data).unwrap();
    assert_eq!(rest, &[4, 5]);
}

#[test]
fn slot_without_its_first_two_bytes_is_refused() {
    assert_eq!(parse_descriptor(&[]), Err(short(Step::DescriptorKind, 0, 2)));
    assert_eq!(parse_descriptor(&[0]), Err(short(Step::DescriptorKind, 1, 2)));
    assert_eq!(parse_descriptor(&[9]), Err(short(Step::DescriptorKind, 1, 2)));
}

#[test]
fn monitor_descriptor_cut_short_is_refused() {
    let slot = monitor_descriptor(0xFC, b"SyncMaster\n  ");
    for len in 2..18 {
        assert_eq!(parse_descriptor(&slot[..len]), Err(short(Step::MonitorDescriptor, len, 18)));
    }
}

#[test]
fn detailed_timing_slot_cut_short_is_refused() {
    for len in 2..18 {
        assert_eq!(
            parse_descriptor(&TIMING_1920[..len]),
            Err(short(Step::DetailedTiming, len, 18))
        );
    }
}
