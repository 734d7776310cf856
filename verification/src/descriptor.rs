//! The 18-byte descriptor slot: either a detailed timing or a monitor
//! descriptor, told apart by the first two bytes of the slot.

use crate::error::{short, DecodeError, Step};
use crate::reader::{le16, le_u16, le_u8, or_short, take};
use crate::text::{parse_descriptor_text, text_of};
use crate::timing::{decode_detailed_timing, parse_detailed_timing, timing_of, DetailedTiming};
use vstd::prelude::*;

verus! {

/// What a descriptor slot holds.
#[derive(Debug, PartialEq, Clone)]
pub enum Descriptor {
    DetailedTiming(DetailedTiming),
    SerialNumber(String),
    UnspecifiedText(String),
    RangeLimits,
    ProductName(String),
    WhitePoint,
    StandardTiming,
    ColorManagement,
    TimingCodes,
    EstablishedTimings,
    Dummy,
    Unknown([u8; 13]),
}

/// A descriptor as a mathematical value: its texts are sequences of
/// characters, its raw bytes a sequence of bytes.
pub enum DescriptorView {
    DetailedTiming(DetailedTiming),
    SerialNumber(Seq<char>),
    UnspecifiedText(Seq<char>),
    RangeLimits,
    ProductName(Seq<char>),
    WhitePoint,
    StandardTiming,
    ColorManagement,
    TimingCodes,
    EstablishedTimings,
    Dummy,
    Unknown(Seq<u8>),
}

impl View for Descriptor {
    type V = DescriptorView;

    open spec fn view(&self) -> DescriptorView {
        match self {
            Descriptor::DetailedTiming(timing) => DescriptorView::DetailedTiming(*timing),
            Descriptor::SerialNumber(text) => DescriptorView::SerialNumber(text@),
            Descriptor::UnspecifiedText(text) => DescriptorView::UnspecifiedText(text@),
            Descriptor::RangeLimits => DescriptorView::RangeLimits,
            Descriptor::ProductName(text) => DescriptorView::ProductName(text@),
            Descriptor::WhitePoint => DescriptorView::WhitePoint,
            Descriptor::StandardTiming => DescriptorView::StandardTiming,
            Descriptor::ColorManagement => DescriptorView::ColorManagement,
            Descriptor::TimingCodes => DescriptorView::TimingCodes,
            Descriptor::EstablishedTimings => DescriptorView::EstablishedTimings,
            Descriptor::Dummy => DescriptorView::Dummy,
            Descriptor::Unknown(raw) => DescriptorView::Unknown(raw@),
        }
    }
}

/// How many bytes a descriptor slot takes.
pub const DESCRIPTOR_LEN: usize = 18;

/// How many bytes at the start of a slot tell its kind.
pub const KIND_LEN: usize = 2;

/// The payload of a monitor descriptor whose bytes after the sub-tag are
/// `s`: the 13 bytes after the reserved one.
pub open spec fn payload(s: Seq<u8>) -> Seq<u8>
    recommends
        s.len() >= 14,
{
    s.subrange(1, 14)
}

/// A sub-decoder that reads the payload as text and makes `kind` of it.
pub open spec fn text_alternative(
    s: Seq<u8>,
    kind: spec_fn(Seq<char>) -> DescriptorView,
) -> Option<DescriptorView> {
    if s.len() < 14 {
        None
    } else {
        Some(kind(text_of(payload(s))))
    }
}

/// A sub-decoder that passes over the payload and makes `kind`.
pub open spec fn placeholder_alternative(s: Seq<u8>, kind: DescriptorView) -> Option<
    DescriptorView,
> {
    if s.len() < 14 {
        None
    } else {
        Some(kind)
    }
}

/// The sub-decoder that keeps the payload as it is.
pub open spec fn raw_alternative(s: Seq<u8>) -> Option<DescriptorView> {
    if s.len() < 14 {
        None
    } else {
        Some(DescriptorView::Unknown(payload(s)))
    }
}

/// What each sub-decoder of a monitor descriptor makes of `s`, the bytes
/// after the sub-tag, in the order in which the sub-decoders are tried.
pub open spec fn alternatives(s: Seq<u8>) -> Seq<Option<DescriptorView>> {
    seq![
        text_alternative(s, |text: Seq<char>| DescriptorView::SerialNumber(text)),
        text_alternative(s, |text: Seq<char>| DescriptorView::UnspecifiedText(text)),
        placeholder_alternative(s, DescriptorView::RangeLimits),
        text_alternative(s, |text: Seq<char>| DescriptorView::ProductName(text)),
        placeholder_alternative(s, DescriptorView::WhitePoint),
        placeholder_alternative(s, DescriptorView::StandardTiming),
        placeholder_alternative(s, DescriptorView::ColorManagement),
        placeholder_alternative(s, DescriptorView::TimingCodes),
        placeholder_alternative(s, DescriptorView::EstablishedTimings),
        placeholder_alternative(s, DescriptorView::Dummy),
        raw_alternative(s),
    ]
}

/// The first success in a list of attempts, if there is one.
pub open spec fn first_success(attempts: Seq<Option<DescriptorView>>) -> Option<DescriptorView>
    decreases attempts.len(),
{
    if attempts.len() == 0 {
        None
    } else if attempts.first() is Some {
        attempts.first()
    } else {
        first_success(attempts.drop_first())
    }
}

/// What decoding a monitor descriptor from the front of `s` gives: three
/// reserved bytes and the sub-tag are passed over, and the first
/// sub-decoder that succeeds on the rest decides. The sub-tag takes no part
/// in it.
pub open spec fn decode_monitor_descriptor(s: Seq<u8>) -> Result<DescriptorView, DecodeError> {
    if s.len() < 4 {
        Err(short(Step::MonitorDescriptor, s.len() as int, 18))
    } else {
        match first_success(alternatives(s.skip(4))) {
            Some(descriptor) => Ok(descriptor),
            None => Err(short(Step::MonitorDescriptor, s.len() as int, 18)),
        }
    }
}

/// What decoding a descriptor slot from the front of `s` gives: a monitor
/// descriptor where the first two bytes are zero, a detailed timing where
/// they are not.
pub open spec fn decode_descriptor(s: Seq<u8>) -> Result<DescriptorView, DecodeError> {
    if s.len() < 2 {
        Err(short(Step::DescriptorKind, s.len() as int, 2))
    } else if le16(s, 0) == 0 {
        decode_monitor_descriptor(s)
    } else {
        match decode_detailed_timing(s) {
            Ok(timing) => Ok(DescriptorView::DetailedTiming(timing)),
            Err(e) => Err(e),
        }
    }
}

/// Where no attempt succeeds, there is no first success.
pub proof fn lemma_no_success(attempts: Seq<Option<DescriptorView>>)
    requires
        forall|i: int| 0 <= i < attempts.len() ==> attempts[i] is None,
    ensures
        first_success(attempts) is None,
    decreases attempts.len(),
{
    if attempts.len() > 0 {
        lemma_no_success(attempts.drop_first());
    }
}

/// On fewer than 14 bytes every sub-decoder fails; on 14 or more the first
/// in the list succeeds, so a monitor descriptor is always read as a serial
/// number.
pub proof fn lemma_first_alternative_wins(s: Seq<u8>)
    ensures
        s.len() < 14 ==> first_success(alternatives(s)) is None,
        s.len() >= 14 ==> first_success(alternatives(s)) == Some(
            DescriptorView::SerialNumber(text_of(payload(s))),
        ),
{
    if s.len() < 14 {
        lemma_no_success(alternatives(s));
    }
}

/// A slot of 18 bytes whose first two bytes are zero decodes to a serial
/// number, whose text is that of bytes 5 to 17, whatever its sub-tag (byte
/// 3) says that it is.
pub proof fn lemma_monitor_descriptor_is_serial_number(s: Seq<u8>)
    requires
        s.len() >= 18,
        s[0] == 0,
        s[1] == 0,
    ensures
        decode_descriptor(s) == Ok::<DescriptorView, DecodeError>(
            DescriptorView::SerialNumber(text_of(s.subrange(5, 18))),
        ),
{
    lemma_first_alternative_wins(s.skip(4));
    assert(payload(s.skip(4)) =~= s.subrange(5, 18));
}

/// What a slot of 18 bytes decodes to, by its first two bytes: a serial
/// number with the text of bytes 5 to 17, or the timing that the 18 bytes
/// encode.
pub proof fn lemma_monitor_descriptor_is_serial_number_or_timing(s: Seq<u8>)
    requires
        s.len() >= 18,
    ensures
        decode_descriptor(s) == Ok::<DescriptorView, DecodeError>(
            if s[0] == 0 && s[1] == 0 {
                DescriptorView::SerialNumber(text_of(s.subrange(5, 18)))
            } else {
                DescriptorView::DetailedTiming(timing_of(s))
            },
        ),
{
    if s[0] == 0 && s[1] == 0 {
        lemma_monitor_descriptor_is_serial_number(s);
    }
}

/// The sub-tag of a monitor descriptor decides nothing: with any other
/// byte in its place the slot decodes to the same.
pub proof fn lemma_sub_tag_ignored(s: Seq<u8>, sub_tag: u8)
    requires
        s.len() >= 4,
        s[0] == 0,
        s[1] == 0,
    ensures
        decode_descriptor(s.update(3, sub_tag)) == decode_descriptor(s),
{
    assert(s.update(3, sub_tag).skip(4) =~= s.skip(4));
}

/// A slot decodes exactly when it holds 18 bytes.
pub proof fn lemma_descriptor_needs_18(s: Seq<u8>)
    ensures
        decode_descriptor(s) is Ok <==> s.len() >= 18,
{
    if s.len() >= 4 {
        lemma_first_alternative_wins(s.skip(4));
    }
}

/// One reserved byte, then 13 bytes of text.
fn reserved_then_text<'a>(input: &'a [u8]) -> (r: Option<(&'a [u8], String)>)
    ensures
        match r {
            Some((rest, text)) => input@.len() >= 14 && rest@ == input@.skip(14) && text@
                == text_of(payload(input@)),
            None => input@.len() < 14,
        },
{
    broadcast use vstd::seq_lib::lemma_seq_skip_of_skip;

    match le_u8(input) {
        Ok((rest, _)) => match parse_descriptor_text(rest) {
            Ok(found) => {
                assert(input@.skip(1).take(13) =~= payload(input@));
                Some(found)
            },
            Err(_) => None,
        },
        Err(_) => None,
    }
}

/// One reserved byte, then 13 bytes that are passed over.
fn reserved_then_skipped<'a>(input: &'a [u8]) -> (r: Option<&'a [u8]>)
    ensures
        match r {
            Some(rest) => input@.len() >= 14 && rest@ == input@.skip(14),
            None => input@.len() < 14,
        },
{
    broadcast use vstd::seq_lib::lemma_seq_skip_of_skip;

    match le_u8(input) {
        Ok((rest, _)) => match take(13, rest) {
            Ok((rest, _)) => Some(rest),
            Err(_) => None,
        },
        Err(_) => None,
    }
}

/// One reserved byte, then 13 bytes that are kept as they are.
fn reserved_then_raw<'a>(input: &'a [u8]) -> (r: Option<(&'a [u8], [u8; 13])>)
    ensures
        match r {
            Some((rest, raw)) => input@.len() >= 14 && rest@ == input@.skip(14) && raw@
                == payload(input@),
            None => input@.len() < 14,
        },
{
    broadcast use vstd::seq_lib::lemma_seq_skip_of_skip;

    let mut rest = match le_u8(input) {
        Ok((rest, _)) => rest,
        Err(_) => {
            return None;
        },
    };
    let mut raw: [u8; 13] = [0u8;13];
    let mut i: usize = 0;
    while i < 13
        invariant
            i <= 13,
            input@.len() >= 1 + i,
            rest@ == input@.skip(1 + i),
            forall|k: int| 0 <= k < i ==> raw@[k] == input@[1 + k],
        decreases 13 - i,
    {
        match le_u8(rest) {
            Ok((after, byte)) => {
                raw[i] = byte;
                rest = after;
            },
            Err(_) => {
                return None;
            },
        }
        i += 1;
    }
    assert(raw@ =~= payload(input@));
    Some((rest, raw))
}

/// Tries the sub-decoders of a monitor descriptor on the bytes after the
/// sub-tag, in their fixed order, and returns what the first to succeed
/// made, with the input after it.
///
/// Each of them succeeds wherever 14 bytes are left, so the first one
/// always wins: it is the order of this list that decides, not the
/// sub-tag.
fn first_alternative<'a>(input: &'a [u8]) -> (r: Option<(&'a [u8], Descriptor)>)
    ensures
        match r {
            Some((rest, descriptor)) => first_success(alternatives(input@)) == Some(descriptor@)
                && rest@ == input@.skip(14),
            None => first_success(alternatives(input@)) is None,
        },
{
    proof {
        lemma_first_alternative_wins(input@);
    }
    if let Some((rest, text)) = reserved_then_text(input) {
        return Some((rest, Descriptor::SerialNumber(text)));
    }
    if let Some((rest, text)) = reserved_then_text(input) {
        return Some((rest, Descriptor::UnspecifiedText(text)));
    }
    if let Some(rest) = reserved_then_skipped(input) {
        return Some((rest, Descriptor::RangeLimits));
    }
    if let Some((rest, text)) = reserved_then_text(input) {
        return Some((rest, Descriptor::ProductName(text)));
    }
    if let Some(rest) = reserved_then_skipped(input) {
        return Some((rest, Descriptor::WhitePoint));
    }
    if let Some(rest) = reserved_then_skipped(input) {
        return Some((rest, Descriptor::StandardTiming));
    }
    if let Some(rest) = reserved_then_skipped(input) {
        return Some((rest, Descriptor::ColorManagement));
    }
    if let Some(rest) = reserved_then_skipped(input) {
        return Some((rest, Descriptor::TimingCodes));
    }
    if let Some(rest) = reserved_then_skipped(input) {
        return Some((rest, Descriptor::EstablishedTimings));
    }
    if let Some(rest) = reserved_then_skipped(input) {
        return Some((rest, Descriptor::Dummy));
    }
    match reserved_then_raw(input) {
        Some((rest, raw)) => Some((rest, Descriptor::Unknown(raw))),
        None => None,
    }
}

/// Decodes the descriptor slot at the front of `input` and returns the
/// descriptor with the input after the slot.
///
/// The first two bytes are looked at and left in place. Where they are
/// zero the slot is a monitor descriptor, and it decodes to a serial number
/// whatever its sub-tag says; where they are not, it is a detailed timing.
/// A slot of fewer than 18 bytes is refused.
pub fn parse_descriptor<'a>(input: &'a [u8]) -> (r: Result<(&'a [u8], Descriptor), DecodeError>)
    ensures
        match r {
            Ok((rest, descriptor)) => decode_descriptor(input@) == Ok::<
                DescriptorView,
                DecodeError,
            >(descriptor@) && rest@ == input@.skip(18),
            Err(e) => decode_descriptor(input@) == Err::<DescriptorView, DecodeError>(e),
        },
        r is Ok <==> input@.len() >= 18,
        r matches Ok((_, descriptor)) ==> (if input@[0] == 0 && input@[1] == 0 {
            descriptor@ == DescriptorView::SerialNumber(text_of(input@.subrange(5, 18)))
        } else {
            descriptor@ == DescriptorView::DetailedTiming(timing_of(input@))
        }),
{
    broadcast use vstd::seq_lib::lemma_seq_skip_of_skip;

    proof {
        lemma_descriptor_needs_18(input@);
        if input@.len() >= 18 && input@[0] == 0 && input@[1] == 0 {
            lemma_monitor_descriptor_is_serial_number(input@);
        }
    }
    let n = input.len();
    let (_, descriptor_type) = or_short(le_u16(input), Step::DescriptorKind, n, KIND_LEN)?;
    if descriptor_type == 0 {
        let (rest, _) = or_short(take(3, input), Step::MonitorDescriptor, n, DESCRIPTOR_LEN)?;
        let (rest, _) = or_short(le_u8(rest), Step::MonitorDescriptor, n, DESCRIPTOR_LEN)?;
        match first_alternative(rest) {
            Some(found) => Ok(found),
            None => Err(
                DecodeError::UnexpectedEnd {
                    step: Step::MonitorDescriptor,
                    available: n,
                    required: DESCRIPTOR_LEN,
                },
            ),
        }
    } else {
        let (rest, timing) = parse_detailed_timing(input)?;
        Ok((rest, Descriptor::DetailedTiming(timing)))
    }
}

} // verus!
