//! The whole block: identity, display parameters, three regions that are
//! passed over, four descriptor slots, and two closing bytes.

use crate::descriptor::{
    decode_descriptor, lemma_descriptor_needs_18, parse_descriptor, Descriptor, DescriptorView,
};
use crate::display::{
    decode_display, parse_chromaticity, parse_display, parse_established_timing,
    parse_standard_timing, Display,
};
use crate::error::{short, DecodeError, Step};
use crate::header::{decode_header, has_magic, parse_header, Header};
use crate::reader::{or_short, take};
use vstd::prelude::*;

verus! {

/// What a display says of itself.
#[derive(Debug, PartialEq)]
pub struct EDID {
    pub header: Header,
    pub display: Display,
    /// The chromaticity coordinates were passed over: nothing of them is kept.
    pub chromaticity: (),
    /// The established timings were passed over: nothing of them is kept.
    pub established_timing: (),
    /// The standard timings were passed over: nothing of them is kept.
    pub standard_timing: (),
    /// The four descriptors, in the order of their slots.
    pub descriptors: Vec<Descriptor>,
}

impl Clone for EDID {
    fn clone(&self) -> Self {
        EDID {
            header: self.header,
            display: self.display,
            chromaticity: (),
            established_timing: (),
            standard_timing: (),
            descriptors: self.descriptors.clone(),
        }
    }
}

/// A decoded block as a mathematical value.
pub struct EdidView {
    pub header: Header,
    pub display: Display,
    pub descriptors: Seq<DescriptorView>,
}

/// The descriptors as mathematical values, in order.
pub open spec fn views(descriptors: Seq<Descriptor>) -> Seq<DescriptorView> {
    descriptors.map_values(|d: Descriptor| d@)
}

impl View for EDID {
    type V = EdidView;

    open spec fn view(&self) -> EdidView {
        EdidView {
            header: self.header,
            display: self.display,
            descriptors: views(self.descriptors@),
        }
    }
}

/// How many descriptor slots a block holds.
pub const DESCRIPTOR_COUNT: usize = 4;

/// What decoding the first `count` slots of 18 bytes at the front of `s`
/// gives: the descriptors in order, or the error of the first slot that
/// fails.
pub open spec fn decode_descriptors(s: Seq<u8>, count: nat) -> Result<
    Seq<DescriptorView>,
    DecodeError,
>
    decreases count,
{
    if count == 0 {
        Ok(Seq::empty())
    } else {
        match decode_descriptors(s, (count - 1) as nat) {
            Err(e) => Err(e),
            Ok(before) => match decode_descriptor(s.skip(18 * (count - 1))) {
                Err(e) => Err(e),
                Ok(descriptor) => Ok(before.push(descriptor)),
            },
        }
    }
}

/// The error of the first of the three passed-over regions that `s`, the
/// bytes after the display parameters, is too short for.
pub open spec fn skipped_error(s: Seq<u8>) -> Option<DecodeError> {
    if s.len() < 10 {
        Some(short(Step::Chromaticity, s.len() as int, 10))
    } else if s.len() < 13 {
        Some(short(Step::EstablishedTimings, s.len() - 10, 3))
    } else if s.len() < 29 {
        Some(short(Step::StandardTimings, s.len() - 13, 16))
    } else {
        None
    }
}

/// The error of the first of the two closing bytes that `s`, the bytes
/// after the descriptor slots, lacks.
pub open spec fn closing_error(s: Seq<u8>) -> Option<DecodeError> {
    if s.len() < 1 {
        Some(short(Step::ExtensionCount, 0, 1))
    } else if s.len() < 2 {
        Some(short(Step::Checksum, 0, 1))
    } else {
        None
    }
}

/// What decoding a block from the front of `s` gives. The parts are read
/// in order and the first that fails gives the error: the identity at 0,
/// the display parameters at 20, the passed-over regions at 25, 35 and 38,
/// the four slots from 54 on, the count of extensions at 126, the checksum
/// at 127. The last two are read and not looked at.
pub open spec fn decode_edid(s: Seq<u8>) -> Result<EdidView, DecodeError> {
    match decode_header(s) {
        Err(e) => Err(e),
        Ok(header) => match decode_display(s.skip(20)) {
            Err(e) => Err(e),
            Ok(display) => match skipped_error(s.skip(25)) {
                Some(e) => Err(e),
                None => match decode_descriptors(s.skip(54), 4) {
                    Err(e) => Err(e),
                    Ok(descriptors) => match closing_error(s.skip(126)) {
                        Some(e) => Err(e),
                        None => Ok(EdidView { header, display, descriptors }),
                    },
                },
            },
        },
    }
}

impl EDID {
    /// A block holds four descriptors.
    pub open spec fn well_formed(&self) -> bool {
        self.descriptors@.len() == 4
    }
}

/// Slots decode exactly when all their bytes are there, and then there are
/// as many descriptors as slots.
pub proof fn lemma_descriptors_need_all(s: Seq<u8>, count: nat)
    ensures
        decode_descriptors(s, count) is Ok <==> s.len() >= 18 * count,
        decode_descriptors(s, count) matches Ok(descriptors) ==> descriptors.len() == count,
    decreases count,
{
    if count > 0 {
        lemma_descriptors_need_all(s, (count - 1) as nat);
        if s.len() >= 18 * (count - 1) {
            lemma_descriptor_needs_18(s.skip(18 * (count - 1)));
        }
    }
}

/// A block decodes exactly when it begins with the eight opening bytes and
/// holds 128 bytes: nothing else that the bytes hold is ever refused. A
/// decoded block holds four descriptors.
pub proof fn lemma_well_formed_decodes(s: Seq<u8>)
    ensures
        decode_edid(s) is Ok <==> has_magic(s) && s.len() >= 128,
        decode_edid(s) matches Ok(edid) ==> edid.descriptors.len() == 4,
{
    if has_magic(s) && s.len() >= 54 {
        lemma_descriptors_need_all(s.skip(54), 4);
    }
}

/// An input that does not begin with the eight opening bytes never decodes,
/// and one shorter than eight bytes does not begin with them.
pub proof fn lemma_truncated_is_refused(s: Seq<u8>)
    ensures
        !has_magic(s) ==> decode_edid(s) == Err::<EdidView, DecodeError>(
            DecodeError::MagicMismatch,
        ),
        s.len() < 8 ==> !has_magic(s),
{
}

/// Whether `r` is what decoding `input` gives: the block that the bytes
/// encode with the bytes after it, or the error that they call for.
pub open spec fn is_outcome(input: Seq<u8>, r: Result<(&[u8], EDID), DecodeError>) -> bool {
    match r {
        Ok((rest, edid)) => decode_edid(input) == Ok::<EdidView, DecodeError>(edid@) && rest@
            == input.skip(128),
        Err(e) => decode_edid(input) == Err::<EdidView, DecodeError>(e),
    }
}

/// Decoding the same bytes twice gives the same: two errors that are equal,
/// or two records that are equal field by field with equal remainders.
/// Nothing but the bytes decides.
pub proof fn lemma_decoding_twice_agrees(
    input: Seq<u8>,
    first: Result<(&[u8], EDID), DecodeError>,
    second: Result<(&[u8], EDID), DecodeError>,
)
    requires
        is_outcome(input, first),
        is_outcome(input, second),
    ensures
        match (first, second) {
            (Ok((rest1, edid1)), Ok((rest2, edid2))) => edid1@ == edid2@ && rest1@ == rest2@,
            (Err(e1), Err(e2)) => e1 == e2,
            _ => false,
        },
{
}

/// A slot is decoded from its 18 bytes alone.
pub proof fn lemma_slot_reads_18_bytes(a: Seq<u8>, b: Seq<u8>)
    requires
        a.len() >= 18,
        b.len() >= 18,
        a.take(18) == b.take(18),
    ensures
        decode_descriptor(a) == decode_descriptor(b),
{
    assert forall|i: int| 0 <= i < 18 implies a[i] == b[i] by {
        assert(a[i] == a.take(18)[i]);
        assert(b[i] == b.take(18)[i]);
    }
    crate::descriptor::lemma_monitor_descriptor_is_serial_number_or_timing(a);
    crate::descriptor::lemma_monitor_descriptor_is_serial_number_or_timing(b);
    assert(a.subrange(5, 18) =~= b.subrange(5, 18));
}

/// A run of slots is decoded from its bytes alone.
pub proof fn lemma_slots_read_their_bytes(a: Seq<u8>, b: Seq<u8>, count: nat)
    requires
        a.len() >= 18 * count,
        b.len() >= 18 * count,
        a.take(18 * count as int) == b.take(18 * count as int),
    ensures
        decode_descriptors(a, count) == decode_descriptors(b, count),
    decreases count,
{
    if count > 0 {
        let before = (count - 1) as nat;
        let all: int = 18 * (count as int);
        let at: int = 18 * (before as int);
        assert(a.take(at) =~= a.take(all).take(at));
        assert(b.take(at) =~= b.take(all).take(at));
        lemma_slots_read_their_bytes(a, b, before);
        assert(a.skip(at).take(18) =~= a.take(all).skip(at));
        assert(b.skip(at).take(18) =~= b.take(all).skip(at));
        lemma_slot_reads_18_bytes(a.skip(at), b.skip(at));
    }
}

/// A block is decoded from its 128 bytes alone: what follows them belongs
/// to extension blocks and changes nothing of the record.
pub proof fn lemma_only_the_block_is_read(a: Seq<u8>, b: Seq<u8>)
    requires
        a.len() >= 128,
        b.len() >= 128,
        a.take(128) == b.take(128),
    ensures
        decode_edid(a) == decode_edid(b),
{
    assert forall|i: int| 0 <= i < 128 implies a[i] == b[i] by {
        assert(a[i] == a.take(128)[i]);
        assert(b[i] == b.take(128)[i]);
    }
    assert(a.take(8) =~= b.take(8));
    assert(crate::header::header_of(a).vendor =~= crate::header::header_of(b).vendor);
    assert(a.skip(54).take(72) =~= a.take(128).subrange(54, 126));
    assert(b.skip(54).take(72) =~= b.take(128).subrange(54, 126));
    lemma_slots_read_their_bytes(a.skip(54), b.skip(54), 4);
}

/// Once a slot fails, its error is that of every longer run of slots.
proof fn lemma_first_failure_stays(s: Seq<u8>, failed: nat, count: nat, e: DecodeError)
    requires
        failed < count,
        decode_descriptors(s, failed) is Ok,
        decode_descriptor(s.skip(18 * failed as int)) == Err::<DescriptorView, DecodeError>(e),
    ensures
        decode_descriptors(s, count) == Err::<Seq<DescriptorView>, DecodeError>(e),
    decreases count,
{
    if count > failed + 1 {
        lemma_first_failure_stays(s, failed, (count - 1) as nat, e);
    }
}

/// Decodes `count` descriptor slots, one after the other, and returns the
/// descriptors in order with the input after the last slot. The first slot
/// that fails ends the run with its error.
fn parse_descriptors<'a>(input: &'a [u8], count: usize) -> (r: Result<
    (&'a [u8], Vec<Descriptor>),
    DecodeError,
>)
    ensures
        match r {
            Ok((rest, descriptors)) => decode_descriptors(input@, count as nat) == Ok::<
                Seq<DescriptorView>,
                DecodeError,
            >(views(descriptors@)) && rest@ == input@.skip(18 * count),
            Err(e) => decode_descriptors(input@, count as nat) == Err::<
                Seq<DescriptorView>,
                DecodeError,
            >(e),
        },
{
    broadcast use vstd::seq_lib::lemma_seq_skip_of_skip;

    let mut descriptors: Vec<Descriptor> = Vec::new();
    let mut rest = input;
    let mut i: usize = 0;
    assert(views(descriptors@) =~= Seq::<DescriptorView>::empty());
    assert(input@.skip(0) =~= input@);
    while i < count
        invariant
            i <= count,
            input@.len() >= 18 * i,
            rest@ == input@.skip(18 * i),
            decode_descriptors(input@, i as nat) == Ok::<Seq<DescriptorView>, DecodeError>(
                views(descriptors@),
            ),
        decreases count - i,
    {
        match parse_descriptor(rest) {
            Ok((after, descriptor)) => {
                assert(views(descriptors@.push(descriptor)) =~= views(descriptors@).push(
                    descriptor@,
                ));
                descriptors.push(descriptor);
                rest = after;
            },
            Err(e) => {
                proof {
                    lemma_first_failure_stays(input@, i as nat, count as nat, e);
                }
                return Err(e);
            },
        }
        i += 1;
    }
    Ok((rest, descriptors))
}

/// Decodes the block at the front of `input` and returns it with the input
/// after its 128 bytes, which belongs to extension blocks and is not looked
/// at.
///
/// An input that begins with the eight opening bytes and holds 128 bytes
/// always decodes. One that does not begin with them is refused as
/// `MagicMismatch`, and one that does and is shorter as `UnexpectedEnd`,
/// with the part that the input ends in. The count of extensions and the
/// checksum are read and not checked.
pub fn parse_edid<'a>(input: &'a [u8]) -> (r: Result<(&'a [u8], EDID), DecodeError>)
    ensures
        is_outcome(input@, r),
        r is Ok <==> has_magic(input@) && input@.len() >= 128,
        r matches Ok((_, edid)) ==> edid.well_formed(),
{
    broadcast use vstd::seq_lib::lemma_seq_skip_of_skip;

    proof {
        lemma_well_formed_decodes(input@);
    }
    let (rest, header) = parse_header(input)?;
    let (rest, display) = parse_display(rest)?;
    let (rest, chromaticity) = parse_chromaticity(rest)?;
    let (rest, established_timing) = parse_established_timing(rest)?;
    let (rest, standard_timing) = parse_standard_timing(rest)?;
    let (rest, descriptors) = parse_descriptors(rest, DESCRIPTOR_COUNT)?;
    proof {
        lemma_descriptors_need_all(input@.skip(54), 4);
    }
    assert(rest@ == input@.skip(126));
    let (rest, _) = or_short(take(1, rest), Step::ExtensionCount, rest.len(), 1)?;
    let (rest, _) = or_short(take(1, rest), Step::Checksum, rest.len(), 1)?;
    Ok(
        (
            rest,
            EDID {
                header,
                display,
                chromaticity,
                established_timing,
                standard_timing,
                descriptors,
            },
        ),
    )
}

/// Decodes the block at the front of `data`: `parse_edid` under its short
/// name.
pub fn parse<'a>(data: &'a [u8]) -> (r: Result<(&'a [u8], EDID), DecodeError>)
    ensures
        is_outcome(data@, r),
        r is Ok <==> has_magic(data@) && data@.len() >= 128,
        r matches Ok((_, edid)) ==> edid.well_formed(),
{
    parse_edid(data)
}

} // verus!
