use vstd::prelude::*;

verus! {

/// The part of the block that the decoder was reading when the input ran out.
#[derive(Debug, Clone, Copy, PartialEq, Eq, Structural)]
pub enum Step {
    /// The 20-byte identity block.
    Header,
    /// The 5 bytes of display parameters.
    Display,
    /// The 10 bytes of chromaticity coordinates.
    Chromaticity,
    /// The 3-byte bitmap of established timings.
    EstablishedTimings,
    /// The 16 bytes of standard timing identifiers.
    StandardTimings,
    /// The 2 bytes at the start of a descriptor slot that tell its kind.
    DescriptorKind,
    /// An 18-byte detailed timing.
    DetailedTiming,
    /// An 18-byte monitor descriptor.
    MonitorDescriptor,
    /// The 13 bytes of text inside a monitor descriptor.
    DescriptorText,
    /// The byte that counts the extension blocks.
    ExtensionCount,
    /// The checksum byte.
    Checksum,
}

/// Why a decode stopped. No partial record is ever returned with it.
#[derive(Debug, Clone, Copy, PartialEq, Eq, Structural)]
pub enum DecodeError {
    /// The input does not begin with the eight bytes that open every block.
    MagicMismatch,
    /// A fixed-size read found fewer bytes than it needs.
    UnexpectedEnd {
        /// What was being read.
        step: Step,
        /// How many bytes were left where that part begins.
        available: usize,
        /// How many bytes that part takes.
        required: usize,
    },
}

/// The error of `step`, which takes `required` bytes, finding only
/// `available` of them.
pub open spec fn short(step: Step, available: int, required: int) -> DecodeError {
    DecodeError::UnexpectedEnd { step, available: available as usize, required: required as usize }
}

} // verus!
