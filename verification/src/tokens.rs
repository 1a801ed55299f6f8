//! From text to payloads: the input is cut at runs of separators, and every
//! piece that is not empty becomes a string payload.

use vstd::prelude::*;
use crate::item::{ItemType, ItemValue};

verus! {

/// The pattern that matches one run of separators: newlines and commas.
pub const SEPARATORS: &'static str = r"([\n,]+)";

/// The error type of the `regex` crate, `regex::Error`: why a pattern was not
/// compiled. Nothing is read from it here.
#[verifier::external_type_specification]
#[verifier::external_body]
pub struct ExRegexError(regex::Error);

/// Whether the `regex` crate compiles `pattern`.
pub uninterp spec fn regex_accepts(pattern: Seq<char>) -> bool;

/// The pieces that the `regex` crate cuts `text` into at the matches of
/// `pattern`, in their order.
pub uninterp spec fn regex_pieces(pattern: Seq<char>, text: Seq<char>) -> Seq<Seq<char>>;

/// What a vector of strings holds.
pub open spec fn texts(strings: Seq<String>) -> Seq<Seq<char>> {
    strings.map_values(|s: String| s@)
}

/// What a vector of payloads holds.
pub open spec fn values(payloads: Seq<ItemType>) -> Seq<ItemValue> {
    payloads.map_values(|p: ItemType| p@)
}

/// Calls `regex::Regex::new` on `pattern` and `Regex::split` on `text`, and
/// copies each piece into a `String`. The contract names what the crate
/// returns, as functions of pattern and text: whether the pattern compiles,
/// and the pieces between its matches, which include the empty pieces next
/// to a match at either end of the text. Nothing more is claimed of them.
#[verifier::external_body]
fn split_at_matches(pattern: &str, text: &str) -> (pieces: Result<Vec<String>, regex::Error>)
    ensures
        pieces is Ok == regex_accepts(pattern@),
        pieces matches Ok(v) ==> texts(v@) == regex_pieces(pattern@, text@),
{
    let re = regex::Regex::new(pattern)?;
    Ok(re.split(text).map(|piece| piece.to_string()).collect())
}

/// The payloads of `pieces`: each piece that is not empty as a string, in
/// the order of the pieces.
pub open spec fn payloads_of(pieces: Seq<Seq<char>>) -> Seq<ItemValue>
    decreases pieces.len(),
{
    if pieces.len() == 0 {
        Seq::empty()
    } else if pieces.last().len() == 0 {
        payloads_of(pieces.drop_last())
    } else {
        payloads_of(pieces.drop_last()).push(ItemValue::Str(pieces.last()))
    }
}

/// Turns the pieces of a text into payloads, leaving the empty ones out.
pub fn payloads(pieces: Vec<String>) -> (items: Vec<ItemType>)
    ensures
        values(items@) == payloads_of(texts(pieces@)),
{
    let ghost all = texts(pieces@);
    let mut items: Vec<ItemType> = Vec::new();
    assert(values(items@) =~= Seq::empty());
    for piece in it: pieces.into_iter()
        invariant
            texts(it.seq()) == all,
            values(items@) == payloads_of(all.take(it.index() as int)),
    {
        proof {
            assert(all.take(it.index() + 1).drop_last() =~= all.take(it.index() as int));
        }
        let ghost before = items@;
        if !piece.as_str().is_empty() {
            let ghost text = piece@;
            items.push(ItemType::Str(piece));
            assert(values(items@) =~= values(before).push(ItemValue::Str(text)));
        }
    }
    proof {
        assert(all.take(all.len() as int) =~= all);
    }
    items
}

/// Why a text could not be cut into payloads: the pattern for its
/// separators was not accepted.
#[derive(Debug, Clone, Copy, PartialEq, Eq, Structural)]
pub struct BadSeparators {}

/// Cuts `content` at the matches of `pattern` and gives the pieces that are
/// not empty, in their order, as string payloads.
pub fn tokenize_by(pattern: &str, content: &str) -> (r: Result<Vec<ItemType>, BadSeparators>)
    ensures
        r is Ok == regex_accepts(pattern@),
        r matches Ok(items) ==> values(items@) == payloads_of(regex_pieces(pattern@, content@)),
{
    match split_at_matches(pattern, content) {
        Ok(pieces) => Ok(payloads(pieces)),
        Err(_) => Err(BadSeparators {}),
    }
}

/// Cuts `content` at its runs of newlines and commas and gives the pieces
/// that are not empty, in their order, as string payloads.
pub fn tokenize(content: &str) -> (r: Result<Vec<ItemType>, BadSeparators>)
    ensures
        r is Ok == regex_accepts(SEPARATORS@),
        r matches Ok(items) ==> values(items@) == payloads_of(
            regex_pieces(SEPARATORS@, content@),
        ),
{
    tokenize_by(SEPARATORS, content)
}

} // verus!
