//! The 20-byte identity block: the fixed opening bytes, then who made the
//! display and when.

use crate::error::{short, DecodeError, Step};
use crate::reader::{be16, be_u16, le16, le32, le_u16, le_u32, le_u8, or_short, tag};
use vstd::prelude::*;

verus! {

/// Who made the display, and when.
#[derive(Debug, PartialEq, Copy, Clone)]
pub struct Header {
    /// The maker's three-letter code.
    pub vendor: [char; 3],
    pub product: u16,
    pub serial: u32,
    pub week: u8,
    /// Years since 1990.
    pub year: u8,
    pub version: u8,
    pub revision: u8,
}

/// How many bytes the identity block takes.
pub const HEADER_LEN: usize = 20;

/// The eight bytes that open every block.
pub const MAGIC: [u8; 8] = [0x00, 0xFF, 0xFF, 0xFF, 0xFF, 0xFF, 0xFF, 0x00];

/// Whether `s` begins with the eight opening bytes.
pub open spec fn has_magic(s: Seq<u8>) -> bool {
    s.len() >= 8 && s.take(8) == MAGIC@
}

/// The character of a five-bit field: 1 is `A`, 2 is `B`, and so on to 26,
/// which is `Z`.
pub open spec fn letter(field: int) -> char
    recommends
        0 <= field < 32,
{
    (field + 64) as char
}

/// The number held in bits 14 to 10 of `v`.
pub open spec fn field_14_10(v: u16) -> int {
    (v as int / 1024) % 32
}

/// The number held in bits 9 to 5 of `v`.
pub open spec fn field_9_5(v: u16) -> int {
    (v as int / 32) % 32
}

/// The number held in bits 4 to 0 of `v`.
pub open spec fn field_4_0(v: u16) -> int {
    v as int % 32
}

/// The three characters packed into `v`, one to each five-bit field. Bit 15
/// counts for nothing.
pub open spec fn vendor_code(v: u16) -> [char; 3] {
    [letter(field_14_10(v)), letter(field_9_5(v)), letter(field_4_0(v))]
}

/// Unpacks the three characters of a maker's code.
pub fn parse_vendor(v: u16) -> (vendor: [char; 3])
    ensures
        vendor == vendor_code(v),
{
    let mask: u16 = 0x1F;  // Each letter is 5 bits
    let i0: u8 = 64;  // One below 'A', so that 1 is 'A'
    assert((v >> 10) & 0x1F == (v / 1024) % 32) by (bit_vector);
    assert((v >> 5) & 0x1F == (v / 32) % 32) by (bit_vector);
    assert(v & 0x1F == v % 32) by (bit_vector);
    let vendor = [
        ((((v >> 10) & mask) as u8) + i0) as char,
        ((((v >> 5) & mask) as u8) + i0) as char,
        (((v & mask) as u8) + i0) as char,
    ];
    assert(vendor =~= vendor_code(v));
    vendor
}

/// A code whose three fields all lie between 1 and 26 spells three capital
/// letters. Whatever the fields are, each character lies between `@` and
/// `_`, the 32 characters from 64 on.
pub proof fn lemma_vendor_letters(v: u16)
    ensures
        forall|i: int| 0 <= i < 3 ==> '@' <= #[trigger] vendor_code(v)[i] <= '_',
        (1 <= field_14_10(v) <= 26 && 1 <= field_9_5(v) <= 26 && 1 <= field_4_0(v) <= 26)
            ==> forall|i: int| 0 <= i < 3 ==> 'A' <= #[trigger] vendor_code(v)[i] <= 'Z',
{
}

/// The identity that bytes 8 to 19 of `s` encode.
pub open spec fn header_of(s: Seq<u8>) -> Header
    recommends
        s.len() >= 20,
{
    Header {
        vendor: vendor_code(be16(s, 8) as u16),
        product: le16(s, 10) as u16,
        serial: le32(s, 12) as u32,
        week: s[16],
        year: s[17],
        version: s[18],
        revision: s[19],
    }
}

/// What decoding an identity block from the front of `s` gives.
pub open spec fn decode_header(s: Seq<u8>) -> Result<Header, DecodeError> {
    if !has_magic(s) {
        Err(DecodeError::MagicMismatch)
    } else if s.len() < 20 {
        Err(short(Step::Header, s.len() as int, 20))
    } else {
        Ok(header_of(s))
    }
}

/// Decodes the identity block at the front of `input` and returns it with
/// the input after it.
///
/// An input that does not begin with the eight opening bytes is refused as
/// `MagicMismatch`, one shorter than eight bytes too; one that begins with
/// them and is shorter than 20 bytes is refused as `UnexpectedEnd`.
pub fn parse_header<'a>(input: &'a [u8]) -> (r: Result<(&'a [u8], Header), DecodeError>)
    ensures
        match r {
            Ok((rest, header)) => decode_header(input@) == Ok::<Header, DecodeError>(header)
                && rest@ == input@.skip(20),
            Err(e) => decode_header(input@) == Err::<Header, DecodeError>(e),
        },
{
    broadcast use vstd::seq_lib::lemma_seq_skip_of_skip;

    let n = input.len();
    let rest = match tag(MAGIC.as_slice(), input) {
        Ok((rest, _)) => rest,
        Err(_) => {
            return Err(DecodeError::MagicMismatch);
        },
    };
    let (rest, vendor) = or_short(be_u16(rest), Step::Header, n, HEADER_LEN)?;
    let (rest, product) = or_short(le_u16(rest), Step::Header, n, HEADER_LEN)?;
    let (rest, serial) = or_short(le_u32(rest), Step::Header, n, HEADER_LEN)?;
    let (rest, week) = or_short(le_u8(rest), Step::Header, n, HEADER_LEN)?;
    let (rest, year) = or_short(le_u8(rest), Step::Header, n, HEADER_LEN)?;
    let (rest, version) = or_short(le_u8(rest), Step::Header, n, HEADER_LEN)?;
    let (rest, revision) = or_short(le_u8(rest), Step::Header, n, HEADER_LEN)?;
    let header = Header {
        vendor: parse_vendor(vendor),
        product,
        serial,
        week,
        year,
        version,
        revision,
    };
    Ok((rest, header))
}

} // verus!
