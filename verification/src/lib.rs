//! Decoder for the 128-byte identification block that a display reports
//! about itself: its maker, its physical parameters and its timings.
//!
//! Every function here is verified against a model of the block as a
//! sequence of bytes. Fixed-size reads are made by `nom`; what a read
//! returns is stated in the contracts of the `reader` module.

pub mod cp437;
pub mod descriptor;
pub mod display;
pub mod edid;
pub mod error;
pub mod header;
pub mod reader;
pub mod text;
pub mod timing;

pub use descriptor::{parse_descriptor, Descriptor};
pub use display::{
    parse_chromaticity, parse_display, parse_established_timing, parse_standard_timing, Display,
};
pub use edid::{parse, parse_edid, EDID};
pub use error::{DecodeError, Step};
pub use header::{parse_header, parse_vendor, Header};
pub use text::parse_descriptor_text;
pub use timing::{parse_detailed_timing, DetailedTiming};
