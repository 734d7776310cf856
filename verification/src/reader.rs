//! Fixed-size reads from the front of a byte slice, made by `nom`.
//!
//! Each read hands its input to one `nom` parser and returns what the parser
//! returned. Their bodies are not verified: the contracts state what the
//! parsers' sources show, and the rest of the crate is proved from them.

use crate::error::{DecodeError, Step};
use nom::error::VerboseError;
use nom::IResult;
use vstd::prelude::*;

verus! {

/// `nom::Err`, the error of every `nom` parser. Nothing is known of a value.
#[verifier::external_type_specification]
#[verifier::external_body]
#[verifier::reject_recursive_types(E)]
pub struct ExNomErr<E>(nom::Err<E>);

/// `nom::error::VerboseError`. Nothing is known of a value.
#[verifier::external_type_specification]
#[verifier::external_body]
#[verifier::reject_recursive_types(I)]
pub struct ExVerboseError<I>(VerboseError<I>);

/// The number that the two bytes at `at` spell, least significant first.
pub open spec fn le16(s: Seq<u8>, at: int) -> int
    recommends
        0 <= at && at + 2 <= s.len(),
{
    s[at] + 256 * s[at + 1]
}

/// The number that the two bytes at `at` spell, most significant first.
pub open spec fn be16(s: Seq<u8>, at: int) -> int
    recommends
        0 <= at && at + 2 <= s.len(),
{
    256 * s[at] + s[at + 1]
}

/// The number that the four bytes at `at` spell, least significant first.
pub open spec fn le32(s: Seq<u8>, at: int) -> int
    recommends
        0 <= at && at + 4 <= s.len(),
{
    s[at] + 256 * s[at + 1] + 65536 * s[at + 2] + 16777216 * s[at + 3]
}

/// `nom::bytes::complete::tag` on byte slices: succeeds exactly when the
/// input begins with `pattern`, and then returns the input after the
/// pattern and the part that matched it.
#[verifier::external_body]
pub(crate) fn tag<'a>(pattern: &[u8], input: &'a [u8]) -> (r: IResult<
    &'a [u8],
    &'a [u8],
    VerboseError<&'a [u8]>,
>)
    ensures
        r is Ok <==> (input@.len() >= pattern@.len() && input@.take(pattern@.len() as int)
            == pattern@),
        r matches Ok((rest, found)) ==> (rest@ == input@.skip(pattern@.len() as int) && found@
            == pattern@),
{
    nom::bytes::complete::tag(pattern)(input)
}

/// `nom::bytes::complete::take` on a byte slice: succeeds exactly when the
/// input holds `count` bytes, and then returns the input after them and
/// those bytes.
#[verifier::external_body]
pub(crate) fn take<'a>(count: usize, input: &'a [u8]) -> (r: IResult<
    &'a [u8],
    &'a [u8],
    VerboseError<&'a [u8]>,
>)
    ensures
        r is Ok <==> input@.len() >= count,
        r matches Ok((rest, taken)) ==> (rest@ == input@.skip(count as int) && taken@
            == input@.take(count as int)),
{
    nom::bytes::complete::take(count)(input)
}

/// `nom::number::complete::le_u8`: succeeds exactly when the input is not
/// empty, and then returns its first byte and the input after it.
#[verifier::external_body]
pub(crate) fn le_u8<'a>(input: &'a [u8]) -> (r: IResult<&'a [u8], u8, VerboseError<&'a [u8]>>)
    ensures
        r is Ok <==> input@.len() >= 1,
        r matches Ok((rest, value)) ==> (rest@ == input@.skip(1) && value == input@[0]),
{
    nom::number::complete::le_u8(input)
}

/// `nom::number::complete::le_u16`: succeeds exactly when the input holds
/// two bytes, and then returns the number they spell, least significant
/// first, and the input after them.
#[verifier::external_body]
pub(crate) fn le_u16<'a>(input: &'a [u8]) -> (r: IResult<&'a [u8], u16, VerboseError<&'a [u8]>>)
    ensures
        r is Ok <==> input@.len() >= 2,
        r matches Ok((rest, value)) ==> (rest@ == input@.skip(2) && value == le16(input@, 0)),
{
    nom::number::complete::le_u16(input)
}

/// `nom::number::complete::be_u16`: succeeds exactly when the input holds
/// two bytes, and then returns the number they spell, most significant
/// first, and the input after them.
#[verifier::external_body]
pub(crate) fn be_u16<'a>(input: &'a [u8]) -> (r: IResult<&'a [u8], u16, VerboseError<&'a [u8]>>)
    ensures
        r is Ok <==> input@.len() >= 2,
        r matches Ok((rest, value)) ==> (rest@ == input@.skip(2) && value == be16(input@, 0)),
{
    nom::number::complete::be_u16(input)
}

/// `nom::number::complete::le_u32`: succeeds exactly when the input holds
/// four bytes, and then returns the number they spell, least significant
/// first, and the input after them.
#[verifier::external_body]
pub(crate) fn le_u32<'a>(input: &'a [u8]) -> (r: IResult<&'a [u8], u32, VerboseError<&'a [u8]>>)
    ensures
        r is Ok <==> input@.len() >= 4,
        r matches Ok((rest, value)) ==> (rest@ == input@.skip(4) && value == le32(input@, 0)),
{
    nom::number::complete::le_u32(input)
}

/// What a read returned, or the error of `step` running short where the
/// read failed.
pub(crate) fn or_short<'a, T>(
    read: IResult<&'a [u8], T, VerboseError<&'a [u8]>>,
    step: Step,
    available: usize,
    required: usize,
) -> (r: Result<(&'a [u8], T), DecodeError>)
    ensures
        match read {
            Ok(found) => r == Ok::<(&'a [u8], T), DecodeError>(found),
            Err(_) => r == Err::<(&'a [u8], T), DecodeError>(
                DecodeError::UnexpectedEnd { step, available, required },
            ),
        },
{
    match read {
        Ok(found) => Ok(found),
        Err(_) => Err(DecodeError::UnexpectedEnd { step, available, required }),
    }
}

} // verus!
