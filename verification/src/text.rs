//! The text of a monitor descriptor: 13 bytes in code page 437, padded
//! with a line feed and spaces.

use crate::cp437::{forward, spec_forward};
use crate::error::{short, DecodeError, Step};
use crate::reader::{or_short, take};
use vstd::prelude::*;

verus! {

/// How many bytes the text of a monitor descriptor takes.
pub const TEXT_LEN: usize = 13;

/// The line feed, which ends a text shorter than its field and is no part
/// of it.
pub const LINE_FEED: u8 = 0x0A;

/// Whether a character is white space, as Unicode defines it by the
/// property White_Space.
pub open spec fn spec_is_white_space(c: char) -> bool {
    let code = c as u32;
    ||| 0x09 <= code <= 0x0D
    ||| code == 0x20
    ||| code == 0x85
    ||| code == 0xA0
    ||| code == 0x1680
    ||| 0x2000 <= code <= 0x200A
    ||| code == 0x2028
    ||| code == 0x2029
    ||| code == 0x202F
    ||| code == 0x205F
    ||| code == 0x3000
}

/// Whether a character is white space, as Unicode defines it by the
/// property White_Space.
#[verifier::when_used_as_spec(spec_is_white_space)]
pub fn is_white_space(c: char) -> (r: bool)
    ensures
        r == spec_is_white_space(c),
{
    let code: u32 = c as u32;
    (0x09 <= code && code <= 0x0D) || code == 0x20 || code == 0x85 || code == 0xA0 || code
        == 0x1680 || (0x2000 <= code && code <= 0x200A) || code == 0x2028 || code == 0x2029
        || code == 0x202F || code == 0x205F || code == 0x3000
}

/// `s` without the white space at its front.
pub open spec fn trim_start(s: Seq<char>) -> Seq<char>
    decreases s.len(),
{
    if s.len() > 0 && is_white_space(s.first()) {
        trim_start(s.drop_first())
    } else {
        s
    }
}

/// `s` without the white space at its end.
pub open spec fn trim_end(s: Seq<char>) -> Seq<char>
    decreases s.len(),
{
    if s.len() > 0 && is_white_space(s.last()) {
        trim_end(s.drop_last())
    } else {
        s
    }
}

/// `s` without the white space at its front and at its end.
pub open spec fn trim(s: Seq<char>) -> Seq<char> {
    trim_end(trim_start(s))
}

/// Holds of every byte but the line feed.
pub open spec fn not_line_feed() -> spec_fn(u8) -> bool {
    |byte: u8| byte != LINE_FEED
}

/// Takes each code to its character.
pub open spec fn to_char() -> spec_fn(u8) -> char {
    |code: u8| spec_forward(code)
}

/// The characters of the bytes that are no line feed, in order.
pub open spec fn characters(bytes: Seq<u8>) -> Seq<char> {
    bytes.filter(not_line_feed()).map_values(to_char())
}

/// The text that the bytes of a text field hold: their characters, but for
/// line feeds, without the white space around them.
pub open spec fn text_of(bytes: Seq<u8>) -> Seq<char> {
    trim(characters(bytes))
}

/// The characters of the bytes that are no line feed, in order.
pub fn translate(bytes: &[u8]) -> (chars: Vec<char>)
    ensures
        chars@ == characters(bytes@),
{
    let mut chars: Vec<char> = Vec::new();
    let mut i: usize = 0;
    assert(bytes@.take(0) =~= Seq::<u8>::empty());
    assert(characters(Seq::<u8>::empty()) =~= Seq::<char>::empty()) by {
        reveal(Seq::filter);
    }
    while i < bytes.len()
        invariant
            i <= bytes@.len(),
            chars@ == characters(bytes@.take(i as int)),
        decreases bytes@.len() - i,
    {
        let byte = bytes[i];
        proof {
            let before = bytes@.take(i as int);
            let after = bytes@.take(i + 1);
            assert(after.drop_last() =~= before);
            assert(after.last() == byte);
            reveal(Seq::filter);
            if byte != LINE_FEED {
                assert(after.filter(not_line_feed()) == before.filter(not_line_feed()).push(
                    byte,
                ));
                assert(characters(after) =~= characters(before).push(spec_forward(byte)));
            } else {
                assert(after.filter(not_line_feed()) == before.filter(not_line_feed()));
            }
        }
        if byte != LINE_FEED {
            chars.push(forward(byte));
        }
        i += 1;
    }
    assert(bytes@.take(i as int) =~= bytes@);
    chars
}

/// `String::push` appends one character to a string.
pub assume_specification[ String::push ](text: &mut String, c: char)
    ensures
        final(text)@ == old(text)@.push(c),
;

/// The characters without the white space at their front and at their end,
/// as a string.
pub fn trimmed(chars: &[char]) -> (text: String)
    ensures
        text@ == trim(chars@),
{
    let mut start: usize = 0;
    assert(chars@.skip(0) =~= chars@);
    while start < chars.len() && is_white_space(chars[start])
        invariant
            start <= chars@.len(),
            trim_start(chars@) == trim_start(chars@.skip(start as int)),
        decreases chars@.len() - start,
    {
        assert(chars@.skip(start as int).drop_first() =~= chars@.skip(start + 1));
        start += 1;
    }
    let mut end: usize = chars.len();
    assert(chars@.subrange(start as int, end as int) =~= chars@.skip(start as int));
    assert(trim_start(chars@) == chars@.skip(start as int));
    while end > start && is_white_space(chars[end - 1])
        invariant
            start <= end <= chars@.len(),
            trim(chars@) == trim_end(chars@.subrange(start as int, end as int)),
        decreases end,
    {
        assert(chars@.subrange(start as int, end as int).drop_last() =~= chars@.subrange(
            start as int,
            end - 1,
        ));
        end -= 1;
    }
    assert(trim(chars@) == chars@.subrange(start as int, end as int));
    let mut text = String::new();
    let mut i: usize = start;
    while i < end
        invariant
            start <= i <= end <= chars@.len(),
            text@ =~= chars@.subrange(start as int, i as int),
        decreases end - i,
    {
        text.push(chars[i]);
        i += 1;
    }
    text
}

/// Decodes the 13 bytes of text at the front of `input` and returns the
/// text with the input after it. No pattern of 13 bytes is refused; fewer
/// than 13 bytes are.
pub fn parse_descriptor_text<'a>(input: &'a [u8]) -> (r: Result<(&'a [u8], String), DecodeError>)
    ensures
        match r {
            Ok((rest, text)) => input@.len() >= 13 && rest@ == input@.skip(13) && text@
                == text_of(input@.take(13)),
            Err(e) => input@.len() < 13 && e == short(
                Step::DescriptorText,
                input@.len() as int,
                13,
            ),
        },
{
    let (rest, bytes) = or_short(take(TEXT_LEN, input), Step::DescriptorText, input.len(), TEXT_LEN)?;
    let chars = translate(bytes);
    let text = trimmed(chars.as_slice());
    Ok((rest, text))
}

} // verus!
