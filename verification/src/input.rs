//! Reading a line of colour codes as typed by the player.

use crate::colour::{colour_of_code, FigureColour, ParseError};
use vstd::prelude::*;
use vstd::std_specs::iter::IteratorSpec;

verus! {

/// Whether `char::is_whitespace` holds of `c`, that is, whether Unicode
/// marks `c` as `White_Space`. This is what `str::trim_end` trims.
pub uninterp spec fn is_whitespace(c: char) -> bool;

/// The text without the whitespace at its end.
pub open spec fn trimmed(text: Seq<char>) -> Seq<char>
    decreases text.len(),
{
    if text.len() > 0 && is_whitespace(text.last()) {
        trimmed(text.drop_last())
    } else {
        text
    }
}

/// Calls `str::trim_end`.
///
/// Claimed of it: the result is the start of `line` up to and including its
/// last character that is not whitespace, so that all it leaves out is
/// whitespace.
#[verifier::external_body]
fn trim_end(line: &str) -> (body: &str)
    ensures
        body@.len() <= line@.len(),
        body@ == line@.take(body@.len() as int),
        body@.len() > 0 ==> !is_whitespace(body@.last()),
        forall|i: int| body@.len() <= i < line@.len() ==> is_whitespace(#[trigger] line@[i]),
{
    line.trim_end()
}

/// What `trim_end` promises is `trimmed`.
proof fn lemma_trimmed(line: Seq<char>, body: Seq<char>)
    requires
        body.len() <= line.len(),
        body == line.take(body.len() as int),
        body.len() > 0 ==> !is_whitespace(body.last()),
        forall|i: int| body.len() <= i < line.len() ==> is_whitespace(#[trigger] line[i]),
    ensures
        trimmed(line) == body,
    decreases line.len(),
{
    if line.len() > body.len() {
        assert(is_whitespace(line[line.len() - 1]));
        assert(line.drop_last().take(body.len() as int) =~= body);
        lemma_trimmed(line.drop_last(), body);
    } else {
        assert(line =~= body);
    }
}

/// Whether every character of `codes` is the code of a colour.
pub open spec fn all_codes(codes: Seq<char>) -> bool {
    forall|i: int| 0 <= i < codes.len() ==> colour_of_code(#[trigger] codes[i]) is Some
}

/// The colours that `codes` stand for, one for each character.
pub open spec fn decoded(codes: Seq<char>) -> Seq<FigureColour> {
    Seq::new(codes.len(), |i: int| colour_of_code(codes[i])->0)
}

/// Reads colour codes, such as `"RGBY"`: every character must be the code
/// of a colour.
pub fn decode_colours(codes: &str) -> (r: Result<Vec<FigureColour>, ParseError>)
    ensures
        r is Ok <==> all_codes(codes@),
        r matches Ok(colours) ==> colours@ == decoded(codes@),
{
    let mut colours: Vec<FigureColour> = Vec::new();
    let mut chars = codes.chars();
    loop
        invariant
            colours@.len() <= codes@.len(),
            chars.remaining() == codes@.skip(colours@.len() as int),
            forall|i: int|
                0 <= i < colours@.len() ==> colour_of_code(#[trigger] codes@[i]) == Some(
                    colours@[i],
                ),
        decreases codes@.len() - colours@.len(),
    {
        match chars.next() {
            Some(c) => {
                assert(c == codes@[colours@.len() as int]);
                match FigureColour::from_char(c) {
                    Ok(colour) => {
                        colours.push(colour);
                    },
                    Err(e) => {
                        return Err(e);
                    },
                }
                assert(codes@.skip(colours@.len() - 1).drop_first() =~= codes@.skip(
                    colours@.len() as int,
                ));
            },
            None => {
                assert(colours@ =~= decoded(codes@));
                return Ok(colours);
            },
        }
    }
}

/// Reads a line as the player typed it, such as `"RGBY\n"`.
///
/// Whitespace at the end of the line, such as the line break, is ignored.
/// Every remaining character must be the code of a colour.
pub fn parse_colours(line: &str) -> (r: Result<Vec<FigureColour>, ParseError>)
    ensures
        r is Ok <==> all_codes(trimmed(line@)),
        r matches Ok(colours) ==> colours@ == decoded(trimmed(line@)),
{
    let body = trim_end(line);
    proof {
        lemma_trimmed(line@, body@);
    }
    decode_colours(body)
}

} // verus!
