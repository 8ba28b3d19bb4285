//! The request and response messages of the protocol, and the body shapes
//! they share.
use crate::decoder::{line_split, lemma_find, crlf, text_of, Decoder};
use crate::error::Error;
use vstd::prelude::*;

pub mod article;
pub mod auth;
pub mod capabilities;
pub mod date;
pub mod greeting;
pub mod group;
pub mod head;
pub mod list;
pub mod newsgroups;
pub mod xover;

verus! {

/// Taking a line from a non-empty body leaves fewer bytes.
pub proof fn lemma_line_split_shorter(b: Seq<u8>)
    requires
        b.len() > 0,
    ensures
        line_split(b).1.len() < b.len(),
{
    lemma_find(b, crlf());
}

/// A body that is one line of text; an empty body is the empty text.
pub open spec fn line_text(b: Seq<u8>) -> Result<Seq<char>, Error> {
    if b.len() == 0 {
        Ok(Seq::empty())
    } else {
        match text_of(line_split(b).0) {
            Some(t) => Ok(t),
            None => Err(Error::DecodeError),
        }
    }
}

/// The lines of a body as text, up to the first line that is not valid UTF-8.
pub open spec fn text_lines(b: Seq<u8>) -> Seq<Seq<char>>
    decreases b.len(),
{
    if b.len() == 0 {
        Seq::empty()
    } else {
        match text_of(line_split(b).0) {
            Some(t) => if line_split(b).1.len() < b.len() {
                seq![t] + text_lines(line_split(b).1)
            } else {
                seq![t]
            },
            None => Seq::empty(),
        }
    }
}

/// The bytes after the first line of a body.
pub open spec fn after_first_line(b: Seq<u8>) -> Seq<u8> {
    if b.len() == 0 {
        b
    } else {
        line_split(b).1
    }
}

/// The views of a sequence of strings.
pub open spec fn texts(v: Seq<String>) -> Seq<Seq<char>> {
    v.map_values(|s: String| s@)
}

/// Decodes a body that is one line of text.
pub fn decode_line_text(bytes: &mut Decoder) -> (r: Result<String, Error>)
    ensures
        match line_text(old(bytes)@) {
            Ok(t) => r matches Ok(s) && s@ == t,
            Err(e) => r matches Err(f) && f == e,
        },
{
    match bytes.get_line() {
        Ok(Some(s)) => Ok(s),
        Ok(None) => Ok(String::new()),
        Err(e) => Err(e),
    }
}

/// Drops the first line of a body.
pub fn skip_line(bytes: &mut Decoder)
    ensures
        final(bytes)@ == after_first_line(old(bytes)@),
{
    let _ = bytes.line();
}

/// Decodes the lines of a body as text, up to the first that is not valid UTF-8.
pub fn decode_text_lines(bytes: &mut Decoder) -> (r: Vec<String>)
    ensures
        texts(r@) == text_lines(old(bytes)@),
{
    let mut out: Vec<String> = Vec::new();
    let ghost start = bytes@;
    loop
        invariant
            start == old(bytes)@,
            texts(out@) + text_lines(bytes@) == text_lines(start),
        decreases bytes@.len(),
    {
        let ghost before = bytes@;
        match bytes.get_line() {
            Ok(Some(s)) => {
                proof {
                    lemma_line_split_shorter(before);
                }
                assert(texts(out@.push(s)) =~= texts(out@) + seq![s@]);
                out.push(s);
                assert(text_lines(before) == seq![s@] + text_lines(bytes@));
                assert(texts(out@) + text_lines(bytes@) =~= texts(out@).drop_last() + text_lines(before));
            },
            _ => {
                assert(text_lines(before) == Seq::<Seq<char>>::empty());
                assert(texts(out@) + text_lines(before) =~= texts(out@));
                return out;
            },
        }
    }
}

} // verus!
