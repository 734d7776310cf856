//! The 18-byte detailed timing: one display mode, with most of its numbers
//! split between a low byte and a few high bits kept in a byte shared with
//! a neighbour. The vertical front porch and sync width are shorter: four
//! low bits each, and two bits set directly above them.

use crate::error::{short, DecodeError, Step};
use crate::reader::{le16, le_u16, le_u8, or_short};
use vstd::prelude::*;

verus! {

/// One display mode.
#[derive(Debug, PartialEq, Copy, Clone)]
pub struct DetailedTiming {
    /// Pixel clock in kHz.
    pub pixel_clock: u32,
    pub horizontal_active_pixels: u16,
    pub horizontal_blanking_pixels: u16,
    pub vertical_active_lines: u16,
    pub vertical_blanking_lines: u16,
    pub horizontal_front_porch: u16,
    pub horizontal_sync_width: u16,
    pub vertical_front_porch: u16,
    pub vertical_sync_width: u16,
    /// Horizontal size in millimeters.
    pub horizontal_size: u16,
    /// Vertical size in millimeters.
    pub vertical_size: u16,
    /// Border pixels on one side of the screen: the total is twice this.
    pub horizontal_border_pixels: u8,
    /// Border pixels on one side of the screen: the total is twice this.
    pub vertical_border_pixels: u8,
    /// The raw flag byte.
    pub features: u8,
}

/// How many bytes a detailed timing takes.
pub const DETAILED_TIMING_LEN: usize = 18;

/// The number held in bits 7 to 4 of a byte.
pub open spec fn spec_high_nibble(byte: u8) -> u8 {
    byte / 16
}

/// The number held in bits 3 to 0 of a byte.
pub open spec fn spec_low_nibble(byte: u8) -> u8 {
    byte % 16
}

/// The number held in bits 7 and 6 of a byte.
pub open spec fn spec_bits_7_6(byte: u8) -> u8 {
    byte / 64
}

/// The number held in bits 5 and 4 of a byte.
pub open spec fn spec_bits_5_4(byte: u8) -> u8 {
    (byte / 16) % 4
}

/// The number held in bits 3 and 2 of a byte.
pub open spec fn spec_bits_3_2(byte: u8) -> u8 {
    (byte / 4) % 4
}

/// The number held in bits 1 and 0 of a byte.
pub open spec fn spec_bits_1_0(byte: u8) -> u8 {
    byte % 4
}

/// The number whose bits 7 to 0 are `low` and whose bits from 8 up are
/// `high`.
pub open spec fn spec_extend(low: u8, high: u8) -> u16 {
    (low + 256 * high) as u16
}

/// The number whose bits 3 to 0 are `low` and whose bits from 4 up are
/// `high`, where `low` is below 16: `high` sets in directly above the four
/// bits.
pub open spec fn spec_extend_nibble(low: u8, high: u8) -> u16 {
    (low + 16 * high) as u16
}

/// The timing that the first 18 bytes of `s` encode.
pub open spec fn timing_of(s: Seq<u8>) -> DetailedTiming
    recommends
        s.len() >= 18,
{
    DetailedTiming {
        pixel_clock: (10 * le16(s, 0)) as u32,
        horizontal_active_pixels: extend(s[2], high_nibble(s[4])),
        horizontal_blanking_pixels: extend(s[3], low_nibble(s[4])),
        vertical_active_lines: extend(s[5], high_nibble(s[7])),
        vertical_blanking_lines: extend(s[6], low_nibble(s[7])),
        horizontal_front_porch: extend(s[8], bits_7_6(s[11])),
        horizontal_sync_width: extend(s[9], bits_5_4(s[11])),
        vertical_front_porch: extend_nibble(high_nibble(s[10]), bits_3_2(s[11])),
        vertical_sync_width: extend_nibble(low_nibble(s[10]), bits_1_0(s[11])),
        horizontal_size: extend(s[12], high_nibble(s[14])),
        vertical_size: extend(s[13], low_nibble(s[14])),
        horizontal_border_pixels: s[15],
        vertical_border_pixels: s[16],
        features: s[17],
    }
}

/// What decoding a detailed timing from the front of `s` gives.
pub open spec fn decode_detailed_timing(s: Seq<u8>) -> Result<DetailedTiming, DecodeError> {
    if s.len() < 18 {
        Err(short(Step::DetailedTiming, s.len() as int, 18))
    } else {
        Ok(timing_of(s))
    }
}

impl DetailedTiming {
    /// What holds of every timing that was decoded from bytes: the ranges
    /// that the widths of the packed fields leave.
    pub open spec fn well_formed(&self) -> bool {
        &&& self.pixel_clock % 10 == 0
        &&& self.pixel_clock <= 655350
        &&& self.horizontal_active_pixels < 4096
        &&& self.horizontal_blanking_pixels < 4096
        &&& self.vertical_active_lines < 4096
        &&& self.vertical_blanking_lines < 4096
        &&& self.horizontal_front_porch < 1024
        &&& self.horizontal_sync_width < 1024
        &&& self.vertical_front_porch < 64
        &&& self.vertical_sync_width < 64
        &&& self.horizontal_size < 4096
        &&& self.vertical_size < 4096
    }
}

/// Every timing that bytes encode is well formed: no pattern of bytes is
/// refused.
pub proof fn lemma_timing_well_formed(s: Seq<u8>)
    ensures
        timing_of(s).well_formed(),
{
}

/// Bits 7 to 4 of a byte, as a number.
#[verifier::when_used_as_spec(spec_high_nibble)]
pub fn high_nibble(byte: u8) -> (r: u8)
    ensures
        r == spec_high_nibble(byte),
{
    assert(byte >> 4 == byte / 16) by (bit_vector);
    byte >> 4
}

/// Bits 3 to 0 of a byte, as a number.
#[verifier::when_used_as_spec(spec_low_nibble)]
pub fn low_nibble(byte: u8) -> (r: u8)
    ensures
        r == spec_low_nibble(byte),
{
    assert(byte & 0xf == byte % 16) by (bit_vector);
    byte & 0xf
}

/// Bits 7 and 6 of a byte, as a number.
#[verifier::when_used_as_spec(spec_bits_7_6)]
pub fn bits_7_6(byte: u8) -> (r: u8)
    ensures
        r == spec_bits_7_6(byte),
{
    assert(byte >> 6 == byte / 64) by (bit_vector);
    byte >> 6
}

/// Bits 5 and 4 of a byte, as a number.
#[verifier::when_used_as_spec(spec_bits_5_4)]
pub fn bits_5_4(byte: u8) -> (r: u8)
    ensures
        r == spec_bits_5_4(byte),
{
    assert((byte >> 4) & 0x3 == (byte / 16) % 4) by (bit_vector);
    (byte >> 4) & 0x3
}

/// Bits 3 and 2 of a byte, as a number.
#[verifier::when_used_as_spec(spec_bits_3_2)]
pub fn bits_3_2(byte: u8) -> (r: u8)
    ensures
        r == spec_bits_3_2(byte),
{
    assert((byte >> 2) & 0x3 == (byte / 4) % 4) by (bit_vector);
    (byte >> 2) & 0x3
}

/// Bits 1 and 0 of a byte, as a number.
#[verifier::when_used_as_spec(spec_bits_1_0)]
pub fn bits_1_0(byte: u8) -> (r: u8)
    ensures
        r == spec_bits_1_0(byte),
{
    assert(byte & 0x3 == byte % 4) by (bit_vector);
    byte & 0x3
}

/// Sets `high` above the eight bits of `low`.
#[verifier::when_used_as_spec(spec_extend)]
pub fn extend(low: u8, high: u8) -> (r: u16)
    ensures
        r == spec_extend(low, high),
{
    assert((low as u16) | ((high as u16) << 8) == (low as u16) + 256 * (high as u16))
        by (bit_vector);
    (low as u16) | ((high as u16) << 8)
}

/// Sets `high` above a number of four bits: shifted by four places and
/// added to `low`.
#[verifier::when_used_as_spec(spec_extend_nibble)]
pub fn extend_nibble(low: u8, high: u8) -> (r: u16)
    ensures
        r == spec_extend_nibble(low, high),
        low < 16 ==> r == (low as u16) | ((high as u16) << 4),
{
    assert(((high as u16) << 4) == 16 * (high as u16)) by (bit_vector);
    assert(low < 16 ==> (low as u16) + ((high as u16) << 4) == (low as u16) | ((high as u16)
        << 4)) by (bit_vector);
    (low as u16) + ((high as u16) << 4)
}

/// Decodes the detailed timing at the front of `input` and returns it with
/// the input after it. No pattern of 18 bytes is refused; fewer than 18
/// bytes are.
pub fn parse_detailed_timing<'a>(input: &'a [u8]) -> (r: Result<
    (&'a [u8], DetailedTiming),
    DecodeError,
>)
    ensures
        match r {
            Ok((rest, timing)) => input@.len() >= 18 && rest@ == input@.skip(18) && timing
                == timing_of(input@) && timing.well_formed(),
            Err(e) => input@.len() < 18 && e == short(
                Step::DetailedTiming,
                input@.len() as int,
                18,
            ),
        },
{
    broadcast use vstd::seq_lib::lemma_seq_skip_of_skip;

    let n = input.len();
    let (rest, pixel_clock_10khz) = or_short(le_u16(input), Step::DetailedTiming, n, DETAILED_TIMING_LEN)?;
    let (rest, horizontal_active_lo) = or_short(le_u8(rest), Step::DetailedTiming, n, DETAILED_TIMING_LEN)?;
    let (rest, horizontal_blanking_lo) = or_short(le_u8(rest), Step::DetailedTiming, n, DETAILED_TIMING_LEN)?;
    let (rest, horizontal_px_hi) = or_short(le_u8(rest), Step::DetailedTiming, n, DETAILED_TIMING_LEN)?;
    let (rest, vertical_active_lo) = or_short(le_u8(rest), Step::DetailedTiming, n, DETAILED_TIMING_LEN)?;
    let (rest, vertical_blanking_lo) = or_short(le_u8(rest), Step::DetailedTiming, n, DETAILED_TIMING_LEN)?;
    let (rest, vertical_px_hi) = or_short(le_u8(rest), Step::DetailedTiming, n, DETAILED_TIMING_LEN)?;
    let (rest, horizontal_front_porch_lo) = or_short(le_u8(rest), Step::DetailedTiming, n, DETAILED_TIMING_LEN)?;
    let (rest, horizontal_sync_width_lo) = or_short(le_u8(rest), Step::DetailedTiming, n, DETAILED_TIMING_LEN)?;
    let (rest, vertical_lo) = or_short(le_u8(rest), Step::DetailedTiming, n, DETAILED_TIMING_LEN)?;
    let (rest, porch_sync_hi) = or_short(le_u8(rest), Step::DetailedTiming, n, DETAILED_TIMING_LEN)?;
    let (rest, horizontal_size_lo) = or_short(le_u8(rest), Step::DetailedTiming, n, DETAILED_TIMING_LEN)?;
    let (rest, vertical_size_lo) = or_short(le_u8(rest), Step::DetailedTiming, n, DETAILED_TIMING_LEN)?;
    let (rest, size_hi) = or_short(le_u8(rest), Step::DetailedTiming, n, DETAILED_TIMING_LEN)?;
    let (rest, horizontal_border) = or_short(le_u8(rest), Step::DetailedTiming, n, DETAILED_TIMING_LEN)?;
    let (rest, vertical_border) = or_short(le_u8(rest), Step::DetailedTiming, n, DETAILED_TIMING_LEN)?;
    let (rest, features) = or_short(le_u8(rest), Step::DetailedTiming, n, DETAILED_TIMING_LEN)?;
    let timing = DetailedTiming {
        pixel_clock: pixel_clock_10khz as u32 * 10,
        horizontal_active_pixels: extend(horizontal_active_lo, high_nibble(horizontal_px_hi)),
        horizontal_blanking_pixels: extend(horizontal_blanking_lo, low_nibble(horizontal_px_hi)),
        vertical_active_lines: extend(vertical_active_lo, high_nibble(vertical_px_hi)),
        vertical_blanking_lines: extend(vertical_blanking_lo, low_nibble(vertical_px_hi)),
        horizontal_front_porch: extend(horizontal_front_porch_lo, bits_7_6(porch_sync_hi)),
        horizontal_sync_width: extend(horizontal_sync_width_lo, bits_5_4(porch_sync_hi)),
        vertical_front_porch: extend_nibble(high_nibble(vertical_lo), bits_3_2(porch_sync_hi)),
        vertical_sync_width: extend_nibble(low_nibble(vertical_lo), bits_1_0(porch_sync_hi)),
        horizontal_size: extend(horizontal_size_lo, high_nibble(size_hi)),
        vertical_size: extend(vertical_size_lo, low_nibble(size_hi)),
        horizontal_border_pixels: horizontal_border,
        vertical_border_pixels: vertical_border,
        features,
    };
    proof {
        lemma_timing_well_formed(input@);
    }
    Ok((rest, timing))
}

} // verus!
