//! Code page 437, the character set of the text in a monitor descriptor.
//!
//! The lower half of the code page is ASCII, control codes included. The
//! upper half holds accented letters, box-drawing characters, Greek letters
//! and mathematical signs; it is laid out here as on a code chart, one row
//! to each value of the upper four bits of a code.

use vstd::prelude::*;

verus! {

/// The characters of the codes 0x80 to 0x8F.
pub const ROW_8: [char; 16] = [
    '\u{00C7}', '\u{00FC}', '\u{00E9}', '\u{00E2}', '\u{00E4}', '\u{00E0}', '\u{00E5}', '\u{00E7}',
    '\u{00EA}', '\u{00EB}', '\u{00E8}', '\u{00EF}', '\u{00EE}', '\u{00EC}', '\u{00C4}', '\u{00C5}',
];

/// The characters of the codes 0x90 to 0x9F.
pub const ROW_9: [char; 16] = [
    '\u{00C9}', '\u{00E6}', '\u{00C6}', '\u{00F4}', '\u{00F6}', '\u{00F2}', '\u{00FB}', '\u{00F9}',
    '\u{00FF}', '\u{00D6}', '\u{00DC}', '\u{00A2}', '\u{00A3}', '\u{00A5}', '\u{20A7}', '\u{0192}',
];

/// The characters of the codes 0xA0 to 0xAF.
pub const ROW_A: [char; 16] = [
    '\u{00E1}', '\u{00ED}', '\u{00F3}', '\u{00FA}', '\u{00F1}', '\u{00D1}', '\u{00AA}', '\u{00BA}',
    '\u{00BF}', '\u{2310}', '\u{00AC}', '\u{00BD}', '\u{00BC}', '\u{00A1}', '\u{00AB}', '\u{00BB}',
];

/// The characters of the codes 0xB0 to 0xBF.
pub const ROW_B: [char; 16] = [
    '\u{2591}', '\u{2592}', '\u{2593}', '\u{2502}', '\u{2524}', '\u{2561}', '\u{2562}', '\u{2556}',
    '\u{2555}', '\u{2563}', '\u{2551}', '\u{2557}', '\u{255D}', '\u{255C}', '\u{255B}', '\u{2510}',
];

/// The characters of the codes 0xC0 to 0xCF.
pub const ROW_C: [char; 16] = [
    '\u{2514}', '\u{2534}', '\u{252C}', '\u{251C}', '\u{2500}', '\u{253C}', '\u{255E}', '\u{255F}',
    '\u{255A}', '\u{2554}', '\u{2569}', '\u{2566}', '\u{2560}', '\u{2550}', '\u{256C}', '\u{2567}',
];

/// The characters of the codes 0xD0 to 0xDF.
pub const ROW_D: [char; 16] = [
    '\u{2568}', '\u{2564}', '\u{2565}', '\u{2559}', '\u{2558}', '\u{2552}', '\u{2553}', '\u{256B}',
    '\u{256A}', '\u{2518}', '\u{250C}', '\u{2588}', '\u{2584}', '\u{258C}', '\u{2590}', '\u{2580}',
];

/// The characters of the codes 0xE0 to 0xEF.
pub const ROW_E: [char; 16] = [
    '\u{03B1}', '\u{00DF}', '\u{0393}', '\u{03C0}', '\u{03A3}', '\u{03C3}', '\u{00B5}', '\u{03C4}',
    '\u{03A6}', '\u{0398}', '\u{03A9}', '\u{03B4}', '\u{221E}', '\u{03C6}', '\u{03B5}', '\u{2229}',
];

/// The characters of the codes 0xF0 to 0xFF.
pub const ROW_F: [char; 16] = [
    '\u{2261}', '\u{00B1}', '\u{2265}', '\u{2264}', '\u{2320}', '\u{2321}', '\u{00F7}', '\u{2248}',
    '\u{00B0}', '\u{2219}', '\u{00B7}', '\u{221A}', '\u{207F}', '\u{00B2}', '\u{25A0}', '\u{00A0}',
];

/// The character that a code stands for.
pub open spec fn spec_forward(code: u8) -> char {
    let column = (code % 16) as int;
    match code / 16 {
        0x8 => ROW_8[column],
        0x9 => ROW_9[column],
        0xA => ROW_A[column],
        0xB => ROW_B[column],
        0xC => ROW_C[column],
        0xD => ROW_D[column],
        0xE => ROW_E[column],
        0xF => ROW_F[column],
        _ => code as char,
    }
}

/// The character that a code stands for.
#[verifier::when_used_as_spec(spec_forward)]
pub fn forward(code: u8) -> (c: char)
    ensures
        c == spec_forward(code),
{
    let column: usize = (code % 16) as usize;
    match code / 16 {
        0x8 => ROW_8[column],
        0x9 => ROW_9[column],
        0xA => ROW_A[column],
        0xB => ROW_B[column],
        0xC => ROW_C[column],
        0xD => ROW_D[column],
        0xE => ROW_E[column],
        0xF => ROW_F[column],
        _ => code as char,
    }
}

} // verus!
