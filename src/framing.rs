//! Response framing: a status code is looked up in the classification table
//! of the expected response, which decides the terminator that closes the
//! response and whether the code means success.
use crate::decoder::{crlf, dot_crlf, ends_with, is_digit, matches_at_exec, Decoder};
use crate::error::Error;
use vstd::prelude::*;

verus! {

/// One row of a classification table: status code, multi-line, success.
pub type ResponseCodeTuple = (u16, bool, bool);

/// The first row of `table` for `code`.
pub open spec fn lookup(table: Seq<ResponseCodeTuple>, code: u16) -> Option<ResponseCodeTuple>
    decreases table.len(),
{
    if table.len() == 0 {
        None
    } else if table[0].0 == code {
        Some(table[0])
    } else {
        lookup(table.drop_first(), code)
    }
}

/// Some row of `table` lists `code` as a success.
pub open spec fn table_ok(table: Seq<ResponseCodeTuple>, code: u16) -> bool {
    exists|i: int| 0 <= i < table.len() && (#[trigger] table[i]).0 == code && table[i].2
}

/// A classification table whose codes have three digits, each listed once.
pub open spec fn table_wf(table: Seq<ResponseCodeTuple>) -> bool {
    &&& forall|i: int| 0 <= i < table.len() ==> 100 <= (#[trigger] table[i]).0 <= 999
    &&& forall|i: int, j: int|
        0 <= i < table.len() && 0 <= j < table.len() && (#[trigger] table[i]).0 == (#[trigger] table[j]).0
            ==> i == j
}

/// The bytes that close a response of the given shape.
pub open spec fn terminator(multi_line: bool) -> Seq<u8> {
    if multi_line {
        dot_crlf()
    } else {
        crlf()
    }
}

/// The classification table of a response type.
pub trait ExpectedResponseCode {
    spec fn table() -> Seq<ResponseCodeTuple>;

    /// Every code of the table has three digits and is listed once.
    proof fn lemma_table_wf()
        ensures
            table_wf(Self::table()),
    ;

    fn codes() -> (r: Vec<ResponseCodeTuple>)
        ensures
            r@ == Self::table(),
    ;
}

/// A response body decoded from the bytes that framing leaves for it.
pub trait Decode: ExpectedResponseCode + View + Sized {
    /// What the body decoder yields, as a view, for a status code and the body's bytes.
    spec fn body(code: u16, bytes: Seq<u8>) -> Result<Self::V, Error>;

    fn decoder(bytes: &mut Decoder, code: u16) -> (r: Result<Self, Error>)
        ensures
            view_result(r) == Self::body(code, old(bytes)@),
    ;
}

/// A result with its success value replaced by that value's view.
pub open spec fn view_result<T: View>(r: Result<T, Error>) -> Result<T::V, Error> {
    match r {
        Ok(x) => Ok(x@),
        Err(e) => Err(e),
    }
}

/// A request rendered as its command line, without the terminator.
pub trait Encode {
    spec fn command(&self) -> Seq<u8>;

    fn encoder(&self, bytes: &mut Decoder)
        ensures
            final(bytes)@ == old(bytes)@ + self.command(),
    ;
}

/// The response type that answers a request type.
pub trait ExpectedResponse {
    type Response;
}

/// What framing yields for a body: the table decides the terminator, a
/// missing terminator asks for more bytes, and a non-zero code has the
/// terminator stripped before the body decoder runs.
pub open spec fn framed<T: Decode>(code: u16, s: Seq<u8>) -> Result<T::V, Error> {
    match lookup(T::table(), code) {
        None => Err(Error::UnexpectedResponseCode(code)),
        Some(row) => {
            let t = terminator(row.1);
            if !ends_with(s, t) {
                Err(Error::DecodeNeedMoreBytes)
            } else if code > 0 {
                T::body(code, s.subrange(0, s.len() - t.len()))
            } else {
                T::body(code, s)
            }
        },
    }
}

/// The bytes of a request: its command line and one terminator.
pub open spec fn encoded<T: Encode>(request: &T) -> Seq<u8> {
    request.command() + crlf()
}

/// The row of the table for `code`, if any.
pub fn find_code(table: &Vec<ResponseCodeTuple>, code: u16) -> (r: Option<ResponseCodeTuple>)
    ensures
        r == lookup(table@, code),
{
    let mut i: usize = 0;
    assert(table@.subrange(0, table@.len() as int) =~= table@);
    while i < table.len()
        invariant
            i <= table@.len(),
            lookup(table@, code) == lookup(table@.subrange(i as int, table@.len() as int), code),
        decreases table@.len() - i,
    {
        let ghost rest = table@.subrange(i as int, table@.len() as int);
        assert(rest.drop_first() =~= table@.subrange(i + 1, table@.len() as int));
        if table[i].0 == code {
            return Some(table[i]);
        }
        i += 1;
    }
    None
}

/// Whether `code` is a success code of `T`: a lookup in the table alone.
pub fn is_ok<T: ExpectedResponseCode>(code: u16) -> (r: bool)
    ensures
        r == table_ok(T::table(), code),
{
    let table = T::codes();
    let mut i: usize = 0;
    while i < table.len()
        invariant
            i <= table@.len(),
            table@ == T::table(),
            forall|k: int| 0 <= k < i ==> !((#[trigger] table@[k]).0 == code && table@[k].2),
        decreases table@.len() - i,
    {
        if table[i].0 == code && table[i].2 {
            assert(table@[i as int].0 == code && table@[i as int].2);
            return true;
        }
        i += 1;
    }
    false
}

/// Frames and decodes a body for `code` out of `bytes`.
pub fn decode<T: Decode>(bytes: &mut Decoder, code: u16) -> (r: Result<T, Error>)
    ensures
        view_result(r) == framed::<T>(code, old(bytes)@),
        lookup(T::table(), code) is None || !ends_with(
            old(bytes)@,
            terminator(lookup(T::table(), code).unwrap().1),
        ) ==> final(bytes)@ == old(bytes)@,
{
    let table = T::codes();
    let row = match find_code(&table, code) {
        Some(row) => row,
        None => return Err(Error::UnexpectedResponseCode(code)),
    };
    let n = bytes.len();
    let ok = if row.1 {
        let t = [13u8, 10u8, 46u8, 13u8, 10u8];
        assert(t@ == dot_crlf());
        n >= 5 && matches_at_exec(bytes.as_slice(), &t, n - 5)
    } else {
        let t = [13u8, 10u8];
        assert(t@ == crlf());
        n >= 2 && matches_at_exec(bytes.as_slice(), &t, n - 2)
    };
    if !ok {
        return Err(Error::DecodeNeedMoreBytes);
    }
    if code > 0 {
        let tl: usize = if row.1 {
            5
        } else {
            2
        };
        bytes.truncate(n - tl);
    }
    T::decoder(bytes, code)
}

/// Appends the encoded request: its command line, then one terminator.
pub fn encode<T: Encode>(request: &T, bytes: &mut Decoder)
    ensures
        final(bytes)@ == old(bytes)@ + encoded(request),
{
    request.encoder(bytes);
    let t = [13u8, 10u8];
    assert(t@ == crlf());
    bytes.extend(&t);
    assert(old(bytes)@ + request.command() + crlf() =~= old(bytes)@ + (request.command() + crlf()));
}

/// A decoded response: its status code and its body.
pub struct GenericMessage<T> {
    pub code: u16,
    pub kind: T,
}

impl<T: View> View for GenericMessage<T> {
    type V = (u16, T::V);

    open spec fn view(&self) -> (u16, T::V) {
        (self.code, self.kind@)
    }
}

/// The envelope that a request yields.
pub type Response<T> = GenericMessage<T>;

impl<T> GenericMessage<T> {
    pub fn code(&self) -> (r: u16)
        ensures
            r == self.code,
    {
        self.code
    }

    pub fn kind(&self) -> (r: &T)
        ensures
            r == &self.kind,
    {
        &self.kind
    }
}

impl<T: ExpectedResponseCode> GenericMessage<T> {
    /// Whether the status code means success for this response type.
    pub fn ok(&self) -> (r: bool)
        ensures
            r == table_ok(T::table(), self.code),
    {
        is_ok::<T>(self.code)
    }
}

/// What a whole accumulated response decodes to: the status line must be
/// closed by `"\r\n"`, it starts with three digits, the code, and a space, and
/// the bytes after the space are framed as the body.
pub open spec fn response_of<T: Decode>(s: Seq<u8>) -> Result<(u16, T::V), Error> {
    if s.len() < 3 || !ends_with(s, crlf()) {
        Err(Error::DecodeNeedMoreBytes)
    } else if !status_line_start(s) {
        Err(Error::DecodeError)
    } else {
        match framed::<T>(status_code(s), s.subrange(4, s.len() as int)) {
            Ok(k) => Ok((status_code(s), k)),
            Err(e) => Err(e),
        }
    }
}

/// A status line starts with exactly three ASCII digits and a space.
pub open spec fn status_line_start(s: Seq<u8>) -> bool {
    &&& s.len() >= 4
    &&& is_digit(s[0]) && is_digit(s[1]) && is_digit(s[2])
    &&& s[3] == 32
}

/// The code that the first three digits spell.
pub open spec fn status_code(s: Seq<u8>) -> u16 {
    ((s[0] - 48) * 100 + (s[1] - 48) * 10 + (s[2] - 48)) as u16
}

/// Decodes a whole accumulated response; the bytes themselves are left as they are,
/// so that a later attempt can run again over a longer buffer.
pub fn decode_response<T: Decode>(s: &[u8]) -> (r: Result<GenericMessage<T>, Error>)
    ensures
        view_result(r) == response_of::<T>(s@),
{
    let n = s.len();
    let t = [13u8, 10u8];
    assert(t@ == crlf());
    if n < 3 || !matches_at_exec(s, &t, n - 2) {
        return Err(Error::DecodeNeedMoreBytes);
    }
    if n < 4 || s[0] < 48 || s[0] > 57 || s[1] < 48 || s[1] > 57 || s[2] < 48 || s[2] > 57
        || s[3] != 32 {
        return Err(Error::DecodeError);
    }
    let code: u16 = (s[0] - 48) as u16 * 100 + (s[1] - 48) as u16 * 10 + (s[2] - 48) as u16;
    let mut bytes = Decoder::from_slice(s);
    let _ = bytes.take_prefix(4);
    match decode::<T>(&mut bytes, code) {
        Ok(k) => Ok(GenericMessage { code, kind: k }),
        Err(e) => Err(e),
    }
}

} // verus!

verus! {

/// The status line's start for a three-digit code: its digits and a space.
pub open spec fn status_prefix(code: u16) -> Seq<u8> {
    seq![(48 + code / 100) as u8, (48 + code / 10 % 10) as u8, (48 + code % 10) as u8, 32u8]
}

proof fn lemma_status_digits(code: u16, rest: Seq<u8>)
    requires
        100 <= code <= 999,
    ensures
        status_line_start(status_prefix(code) + rest),
        status_code(status_prefix(code) + rest) == code,
{
    let s = status_prefix(code) + rest;
    let x = code as int;
    assert(s[0] == 48 + x / 100 && s[1] == 48 + x / 10 % 10 && s[2] == 48 + x % 10 && s[3] == 32);
    assert((x / 100) * 100 + (x / 10 % 10) * 10 + x % 10 == x) by (nonlinear_arith)
        requires
            100 <= x <= 999,
    ;
}

/// For each row of a response type's table: the status line with that code,
/// any text, and the row's terminator decode to what the body decoder makes of
/// the text, and the code's success is the row's.
pub proof fn lemma_round_trip_framing<T: Decode>(i: int, text: Seq<u8>)
    requires
        0 <= i < T::table().len(),
    ensures
        response_of::<T>(status_prefix(T::table()[i].0) + text + terminator(T::table()[i].1))
            == match T::body(T::table()[i].0, text) {
            Ok(v) => Ok((T::table()[i].0, v)),
            Err(e) => Err::<(u16, T::V), Error>(e),
        },
        table_ok(T::table(), T::table()[i].0) == T::table()[i].2,
{
    let row = T::table()[i];
    let t = terminator(row.1);
    let s = status_prefix(row.0) + text + t;
    T::lemma_table_wf();
    lemma_status_digits(row.0, text + t);
    assert(s =~= status_prefix(row.0) + (text + t));
    lemma_lookup_unique(T::table(), i);
    assert(s.subrange(4, s.len() as int) =~= text + t);
    assert(s.subrange(s.len() - 2, s.len() as int) =~= crlf());
    assert((text + t).subrange((text + t).len() - t.len(), (text + t).len() as int) =~= t);
    assert((text + t).subrange(0, (text + t).len() - t.len()) =~= text);
    if table_ok(T::table(), row.0) {
        let j = choose|j: int| 0 <= j < T::table().len() && (#[trigger] T::table()[j]).0 == row.0 && T::table()[j].2;
        assert(j == i);
    }
    if row.2 {
        assert(T::table()[i].0 == row.0 && T::table()[i].2);
    }
}

proof fn lemma_lookup_unique(table: Seq<ResponseCodeTuple>, i: int)
    requires
        0 <= i < table.len(),
        forall|j: int| 0 <= j < table.len() && (#[trigger] table[j]).0 == table[i].0 ==> j == i,
    ensures
        lookup(table, table[i].0) == Some(table[i]),
    decreases table.len(),
{
    if i > 0 {
        let rest = table.drop_first();
        assert(rest[i - 1] == table[i]);
        assert forall|j: int| 0 <= j < rest.len() && (#[trigger] rest[j]).0 == rest[i - 1].0 implies j
            == i - 1 by {
            assert(rest[j] == table[j + 1]);
        }
        lemma_lookup_unique(rest, i - 1);
    }
}

/// A status line that is complete but whose code is not in the table fails
/// with that code; it never waits for more bytes.
pub proof fn lemma_unknown_code<T: Decode>(s: Seq<u8>, code: u16)
    requires
        ends_with(s, crlf()),
        status_line_start(s),
        status_code(s) == code,
        lookup(T::table(), code) is None,
    ensures
        response_of::<T>(s) == Err::<(u16, T::V), Error>(Error::UnexpectedResponseCode(code)),
{
}

/// A multi-line body is closed by the `"\r\n.\r\n"` that ends the bytes, and
/// earlier `"\r\n"` in the payload stay in the body; without that ending more
/// bytes are needed.
pub proof fn lemma_multi_line_termination<T: Decode>(code: u16, s: Seq<u8>)
    requires
        code > 0,
        lookup(T::table(), code) matches Some(row) && row.1,
    ensures
        ends_with(s, dot_crlf()) ==> framed::<T>(code, s) == T::body(code, s.subrange(0, s.len() - 5)),
        !ends_with(s, dot_crlf()) ==> framed::<T>(code, s) == Err::<T::V, Error>(Error::DecodeNeedMoreBytes),
{
}

} // verus!
