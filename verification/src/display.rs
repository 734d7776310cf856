//! The five bytes of display parameters, and the three regions after them
//! that are passed over.

use crate::error::{short, DecodeError, Step};
use crate::reader::{le_u8, or_short, take};
use vstd::prelude::*;

verus! {

/// The physical parameters of the display. Every value of every byte is
/// legal.
#[derive(Debug, PartialEq, Copy, Clone)]
pub struct Display {
    /// The kind of signal and its flags.
    pub video_input: u8,
    /// Width in centimeters.
    pub width: u8,
    /// Height in centimeters.
    pub height: u8,
    /// A hundred times the gamma, less 100: 120 stands for 2.20.
    pub gamma: u8,
    pub features: u8,
}

/// How many bytes the display parameters take.
pub const DISPLAY_LEN: usize = 5;

/// How many bytes the chromaticity coordinates take.
pub const CHROMATICITY_LEN: usize = 10;

/// How many bytes the bitmap of established timings takes.
pub const ESTABLISHED_TIMING_LEN: usize = 3;

/// How many bytes the standard timing identifiers take.
pub const STANDARD_TIMING_LEN: usize = 16;

/// The parameters that the first five bytes of `s` encode.
pub open spec fn display_of(s: Seq<u8>) -> Display
    recommends
        s.len() >= 5,
{
    Display { video_input: s[0], width: s[1], height: s[2], gamma: s[3], features: s[4] }
}

/// What decoding display parameters from the front of `s` gives.
pub open spec fn decode_display(s: Seq<u8>) -> Result<Display, DecodeError> {
    if s.len() < 5 {
        Err(short(Step::Display, s.len() as int, 5))
    } else {
        Ok(display_of(s))
    }
}

/// Decodes the display parameters at the front of `input` and returns them
/// with the input after them. Fewer than five bytes are refused.
pub fn parse_display<'a>(input: &'a [u8]) -> (r: Result<(&'a [u8], Display), DecodeError>)
    ensures
        match r {
            Ok((rest, display)) => decode_display(input@) == Ok::<Display, DecodeError>(display)
                && rest@ == input@.skip(5),
            Err(e) => decode_display(input@) == Err::<Display, DecodeError>(e),
        },
{
    broadcast use vstd::seq_lib::lemma_seq_skip_of_skip;

    let n = input.len();
    let (rest, video_input) = or_short(le_u8(input), Step::Display, n, DISPLAY_LEN)?;
    let (rest, width) = or_short(le_u8(rest), Step::Display, n, DISPLAY_LEN)?;
    let (rest, height) = or_short(le_u8(rest), Step::Display, n, DISPLAY_LEN)?;
    let (rest, gamma) = or_short(le_u8(rest), Step::Display, n, DISPLAY_LEN)?;
    let (rest, features) = or_short(le_u8(rest), Step::Display, n, DISPLAY_LEN)?;
    Ok((rest, Display { video_input, width, height, gamma, features }))
}

/// Passes over the ten bytes of chromaticity coordinates at the front of
/// `input` and returns the input after them. Fewer than ten bytes are
/// refused.
pub fn parse_chromaticity<'a>(input: &'a [u8]) -> (r: Result<(&'a [u8], ()), DecodeError>)
    ensures
        match r {
            Ok((rest, _)) => input@.len() >= 10 && rest@ == input@.skip(10),
            Err(e) => input@.len() < 10 && e == short(
                Step::Chromaticity,
                input@.len() as int,
                10,
            ),
        },
{
    let (remaining, _) = or_short(
        take(CHROMATICITY_LEN, input),
        Step::Chromaticity,
        input.len(),
        CHROMATICITY_LEN,
    )?;
    Ok((remaining, ()))
}

/// Passes over the three bytes of established timings at the front of
/// `input` and returns the input after them. Fewer than three bytes are
/// refused.
pub fn parse_established_timing<'a>(input: &'a [u8]) -> (r: Result<(&'a [u8], ()), DecodeError>)
    ensures
        match r {
            Ok((rest, _)) => input@.len() >= 3 && rest@ == input@.skip(3),
            Err(e) => input@.len() < 3 && e == short(
                Step::EstablishedTimings,
                input@.len() as int,
                3,
            ),
        },
{
    let (remaining, _) = or_short(
        take(ESTABLISHED_TIMING_LEN, input),
        Step::EstablishedTimings,
        input.len(),
        ESTABLISHED_TIMING_LEN,
    )?;
    Ok((remaining, ()))
}

/// Passes over the sixteen bytes of standard timings at the front of
/// `input` and returns the input after them. Fewer than sixteen bytes are
/// refused.
pub fn parse_standard_timing<'a>(input: &'a [u8]) -> (r: Result<(&'a [u8], ()), DecodeError>)
    ensures
        match r {
            Ok((rest, _)) => input@.len() >= 16 && rest@ == input@.skip(16),
            Err(e) => input@.len() < 16 && e == short(
                Step::StandardTimings,
                input@.len() as int,
                16,
            ),
        },
{
    let (remaining, _) = or_short(
        take(STANDARD_TIMING_LEN, input),
        Step::StandardTimings,
        input.len(),
        STANDARD_TIMING_LEN,
    )?;
    Ok((remaining, ()))
}

} // verus!
