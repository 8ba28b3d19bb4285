//! The byte cursor: an owned byte sequence from whose front lines and fields
//! are taken, and the decoding of numbers and text out of those pieces.
use crate::buffer::{
    buffer_advance, buffer_bytes, buffer_extend, buffer_len, buffer_new, buffer_slice,
    buffer_split_to, buffer_truncate,
};
use crate::error::Error;
use bytes::BytesMut;
use vstd::prelude::*;
use vstd::utf8::{decode_utf8, encode_utf8, valid_utf8};

verus! {

/// The single-line terminator `"\r\n"`.
pub open spec fn crlf() -> Seq<u8> {
    seq![13u8, 10u8]
}

/// The multi-line terminator `"\r\n.\r\n"`.
pub open spec fn dot_crlf() -> Seq<u8> {
    seq![13u8, 10u8, 46u8, 13u8, 10u8]
}

/// `pat` occurs in `s` starting at offset `p`.
pub open spec fn matches_at(s: Seq<u8>, pat: Seq<u8>, p: int) -> bool {
    0 <= p && p + pat.len() <= s.len() && s.subrange(p, p + pat.len()) == pat
}

/// The first offset at or after `i` where `pat` occurs in `s`.
pub open spec fn find_from(s: Seq<u8>, pat: Seq<u8>, i: int) -> Option<int>
    decreases s.len() + 1 - i,
{
    if i < 0 || i + pat.len() > s.len() {
        None
    } else if matches_at(s, pat, i) {
        Some(i)
    } else {
        find_from(s, pat, i + 1)
    }
}

/// The first offset where `pat` occurs in `s`.
pub open spec fn find(s: Seq<u8>, pat: Seq<u8>) -> Option<int> {
    find_from(s, pat, 0)
}

/// `s` ends with `t`.
pub open spec fn ends_with(s: Seq<u8>, t: Seq<u8>) -> bool {
    t.len() <= s.len() && s.subrange(s.len() - t.len(), s.len() as int) == t
}

/// A line and what follows it: everything before the first `"\r\n"` and
/// everything after it, or the whole sequence when it holds no terminator.
pub open spec fn line_split(s: Seq<u8>) -> (Seq<u8>, Seq<u8>) {
    match find(s, crlf()) {
        Some(p) => (s.subrange(0, p), s.subrange(p + 2, s.len() as int)),
        None => (s, Seq::empty()),
    }
}

/// Where a field ends and how long its delimiter is: the nearer of the first
/// `delim` and the first `"\r\n"`, the delimiter winning a tie.
pub open spec fn field_end(s: Seq<u8>, delim: Seq<u8>) -> Option<(int, int)> {
    match (find(s, delim), find(s, crlf())) {
        (Some(a), Some(b)) => if a <= b {
            Some((a, delim.len() as int))
        } else {
            Some((b, 2))
        },
        (Some(a), None) => Some((a, delim.len() as int)),
        (None, Some(b)) => Some((b, 2)),
        (None, None) => None,
    }
}

/// A field and what follows its delimiter; the whole sequence when no delimiter occurs.
pub open spec fn field_split(s: Seq<u8>, delim: Seq<u8>) -> (Seq<u8>, Seq<u8>) {
    match field_end(s, delim) {
        Some((p, l)) => (s.subrange(0, p), s.subrange(p + l, s.len() as int)),
        None => (s, Seq::empty()),
    }
}

pub open spec fn is_digit(b: u8) -> bool {
    48 <= b <= 57
}

/// The value of a sequence of decimal digits.
pub open spec fn digits_value(d: Seq<u8>) -> int
    decreases d.len(),
{
    if d.len() == 0 {
        0
    } else {
        digits_value(d.drop_last()) * 10 + (d.last() - 48)
    }
}

/// The digits of an unsigned decimal: an optional leading `+` is dropped.
pub open spec fn unsigned_digits(t: Seq<u8>) -> Seq<u8> {
    if t.len() > 0 && t[0] == 43 {
        t.drop_first()
    } else {
        t
    }
}

/// The value of an unsigned decimal token: an optional `+` and at least one digit.
pub open spec fn unsigned_value(t: Seq<u8>) -> Option<int> {
    let d = unsigned_digits(t);
    if d.len() > 0 && forall|i: int| 0 <= i < d.len() ==> is_digit(#[trigger] d[i]) {
        Some(digits_value(d))
    } else {
        None
    }
}

/// The value of an unsigned decimal token that does not exceed `max`.
pub open spec fn bounded_value(t: Seq<u8>, max: int) -> Option<int> {
    match unsigned_value(t) {
        Some(v) => if v <= max {
            Some(v)
        } else {
            None
        },
        None => None,
    }
}

/// The decimal digits of `n`, most significant first, without leading zeros.
pub open spec fn decimal_digits(n: nat) -> Seq<u8>
    decreases n,
{
    if n < 10 {
        seq![(48 + n) as u8]
    } else {
        decimal_digits(n / 10).push((48 + n % 10) as u8)
    }
}

/// The text that bytes encode, when they are valid UTF-8.
pub open spec fn text_of(b: Seq<u8>) -> Option<Seq<char>> {
    if valid_utf8(b) {
        Some(decode_utf8(b))
    } else {
        None
    }
}

proof fn lemma_find_from(s: Seq<u8>, pat: Seq<u8>, i: int)
    requires
        0 <= i,
    ensures
        match find_from(s, pat, i) {
            Some(p) => i <= p && matches_at(s, pat, p) && forall|q: int|
                i <= q < p ==> !#[trigger] matches_at(s, pat, q),
            None => forall|q: int| i <= q ==> !#[trigger] matches_at(s, pat, q),
        },
    decreases s.len() + 1 - i,
{
    if i + pat.len() > s.len() {
    } else if matches_at(s, pat, i) {
    } else {
        lemma_find_from(s, pat, i + 1);
    }
}

/// What `find` returns: the first occurrence, or none at all.
pub proof fn lemma_find(s: Seq<u8>, pat: Seq<u8>)
    ensures
        match find(s, pat) {
            Some(p) => 0 <= p && matches_at(s, pat, p) && forall|q: int|
                0 <= q < p ==> !#[trigger] matches_at(s, pat, q),
            None => forall|q: int| !#[trigger] matches_at(s, pat, q),
        },
{
    lemma_find_from(s, pat, 0);
}

pub(crate) fn matches_at_exec(s: &[u8], pat: &[u8], p: usize) -> (r: bool)
    requires
        p + pat@.len() <= s@.len(),
    ensures
        r == matches_at(s@, pat@, p as int),
{
    let n = s.len();
    let mut j: usize = 0;
    while j < pat.len()
        invariant
            n == s@.len(),
            j <= pat@.len(),
            p + pat@.len() <= s@.len(),
            forall|k: int| 0 <= k < j ==> s@[p + k] == pat@[k],
        decreases pat@.len() - j,
    {
        if s[p + j] != pat[j] {
            assert(s@.subrange(p as int, p + pat@.len())[j as int] != pat@[j as int]);
            return false;
        }
        j += 1;
    }
    assert(s@.subrange(p as int, p + pat@.len()) =~= pat@);
    true
}

/// The first offset where `pat` occurs in `s`.
pub fn position(s: &[u8], pat: &[u8]) -> (r: Option<usize>)
    ensures
        match r {
            Some(p) => find(s@, pat@) == Some(p as int),
            None => find(s@, pat@) is None,
        },
{
    if pat.len() == 0 {
        assert(s@.subrange(0, 0) =~= pat@);
        assert(matches_at(s@, pat@, 0));
        return Some(0);
    }
    let mut i: usize = 0;
    while i <= s.len() && pat.len() <= s.len() - i
        invariant
            i <= s@.len(),
            pat@.len() > 0,
            find(s@, pat@) == find_from(s@, pat@, i as int),
        decreases s@.len() - i,
    {
        if matches_at_exec(s, pat, i) {
            return Some(i);
        }
        i += 1;
    }
    None
}

/// The value of an unsigned decimal token, when it does not exceed `max`.
pub fn parse_decimal(t: &[u8], max: usize) -> (r: Option<usize>)
    ensures
        match r {
            Some(v) => bounded_value(t@, max as int) == Some(v as int),
            None => bounded_value(t@, max as int) is None,
        },
{
    let start: usize = if t.len() > 0 && t[0] == 43 {
        1
    } else {
        0
    };
    let ghost d = unsigned_digits(t@);
    assert(d =~= t@.subrange(start as int, t@.len() as int));
    if start >= t.len() {
        return None;
    }
    let mut v: usize = 0;
    let mut overflow = false;
    let mut i: usize = start;
    while i < t.len()
        invariant
            start <= i <= t@.len(),
            d == t@.subrange(start as int, t@.len() as int),
            d == unsigned_digits(t@),
            forall|k: int| start <= k < i ==> is_digit(#[trigger] t@[k]),
            !overflow ==> v == digits_value(t@.subrange(start as int, i as int)) && v <= max,
            overflow ==> digits_value(t@.subrange(start as int, i as int)) > max,
        decreases t@.len() - i,
    {
        let b = t[i];
        if b < 48 || b > 57 {
            assert(d[i - start] == t@[i as int]);
            assert(!is_digit(d[i - start]));
            assert(!(forall|k: int| 0 <= k < d.len() ==> is_digit(#[trigger] d[k])));
            assert(unsigned_value(t@) is None);
            return None;
        }
        let ghost prev = t@.subrange(start as int, i as int);
        let ghost next = t@.subrange(start as int, i + 1);
        assert(next.drop_last() =~= prev);
        assert(digits_value(next) == digits_value(prev) * 10 + (b - 48));
        let dig = (b - 48) as usize;
        if !overflow {
            if dig > max || v > (max - dig) / 10 {
                assert(v * 10 + dig > max) by (nonlinear_arith)
                    requires
                        dig > max || v > (max - dig) / 10,
                        v >= 0,
                ;
                overflow = true;
            } else {
                assert(v * 10 + dig <= max) by (nonlinear_arith)
                    requires
                        v <= (max - dig) / 10,
                        dig <= max,
                ;
                v = v * 10 + dig;
            }
        } else {
            assert(digits_value(next) >= digits_value(prev)) by (nonlinear_arith)
                requires
                    digits_value(next) == digits_value(prev) * 10 + (b - 48),
                    digits_value(prev) >= 0,
                    b >= 48,
            ;
        }
        i += 1;
    }
    assert(t@.subrange(start as int, i as int) =~= d);
    if overflow {
        None
    } else {
        Some(v)
    }
}

/// Relies on `String::from_utf8`: it succeeds exactly on valid UTF-8 and then holds the decoded text.
#[verifier::external_body]
pub(crate) fn utf8_string(b: &[u8]) -> (r: Option<String>)
    ensures
        match r {
            Some(s) => text_of(b@) == Some(s@),
            None => text_of(b@) is None,
        },
{
    String::from_utf8(b.to_vec()).ok()
}

/// Where a field ends, and how many delimiter bytes follow it.
#[derive(Debug, Clone, Copy, PartialEq, Eq, Structural)]
pub struct PositionWithLength {
    pub position: usize,
    pub length: usize,
}

impl PositionWithLength {
    pub fn new(position: usize, length: usize) -> (r: PositionWithLength)
        ensures
            r.position == position,
            r.length == length,
    {
        PositionWithLength { position, length }
    }

    pub fn position(&self) -> (r: usize)
        ensures
            r == self.position,
    {
        self.position
    }

    pub fn length(&self) -> (r: usize)
        ensures
            r == self.length,
    {
        self.length
    }
}

/// An owned byte sequence consumed from the front.
pub struct Decoder {
    bytes: BytesMut,
}

impl View for Decoder {
    type V = Seq<u8>;

    closed spec fn view(&self) -> Seq<u8> {
        buffer_bytes(self.bytes)
    }
}

impl Decoder {
    pub fn new() -> (r: Decoder)
        ensures
            r@ == Seq::<u8>::empty(),
    {
        Decoder { bytes: buffer_new() }
    }

    pub fn with_bytes(bytes: BytesMut) -> (r: Decoder)
        ensures
            r@ == buffer_bytes(bytes),
    {
        Decoder { bytes }
    }

    pub fn from_slice(s: &[u8]) -> (r: Decoder)
        ensures
            r@ == s@,
    {
        let mut bytes = buffer_new();
        buffer_extend(&mut bytes, s);
        assert(Seq::<u8>::empty() + s@ =~= s@);
        Decoder { bytes }
    }

    pub fn len(&self) -> (r: usize)
        ensures
            r == self@.len(),
    {
        buffer_len(&self.bytes)
    }

    pub fn as_slice(&self) -> (r: &[u8])
        ensures
            r@ == self@,
    {
        buffer_slice(&self.bytes)
    }

    /// Appends bytes at the back.
    pub fn extend(&mut self, s: &[u8])
        ensures
            final(self)@ == old(self)@ + s@,
    {
        buffer_extend(&mut self.bytes, s)
    }

    /// Keeps the first `n` bytes; all of them when there are fewer.
    pub fn truncate(&mut self, n: usize)
        ensures
            n <= old(self)@.len() ==> final(self)@ == old(self)@.subrange(0, n as int),
            n > old(self)@.len() ==> final(self)@ == old(self)@,
    {
        buffer_truncate(&mut self.bytes, n)
    }

    /// Appends the decimal digits of `v`.
    pub fn push_decimal(&mut self, v: usize)
        ensures
            final(self)@ == old(self)@ + decimal_digits(v as nat),
        decreases v,
    {
        if v >= 10 {
            self.push_decimal(v / 10);
        }
        let d = [(48 + v % 10) as u8];
        self.extend(&d);
        assert(d@ =~= seq![(48 + v % 10) as u8]);
        if v >= 10 {
            assert(old(self)@ + decimal_digits((v / 10) as nat) + d@ =~= old(self)@ + decimal_digits(
                v as nat,
            ));
        } else {
            assert(decimal_digits(v as nat) == d@);
        }
    }

    /// Appends the UTF-8 bytes of a text.
    pub fn push_str(&mut self, s: &str)
        ensures
            final(self)@ == old(self)@ + encode_utf8(s@),
    {
        self.extend(s.as_bytes())
    }

    /// Removes the first `at` bytes and returns them.
    pub fn take_prefix(&mut self, at: usize) -> (r: Decoder)
        requires
            at <= old(self)@.len(),
        ensures
            r@ == old(self)@.subrange(0, at as int),
            final(self)@ == old(self)@.subrange(at as int, old(self)@.len() as int),
    {
        Decoder { bytes: buffer_split_to(&mut self.bytes, at) }
    }

    /// The first line, without its terminator; `None` once nothing is left.
    /// A last line without a terminator is returned whole.
    pub fn line(&mut self) -> (r: Option<Decoder>)
        ensures
            old(self)@.len() == 0 ==> r is None && final(self)@ == old(self)@,
            old(self)@.len() > 0 ==> (r matches Some(l) && l@ == line_split(old(self)@).0
                && final(self)@ == line_split(old(self)@).1),
    {
        let n = buffer_len(&self.bytes);
        if n == 0 {
            return None;
        }
        let end = position(buffer_slice(&self.bytes), &[13u8, 10u8]);
        assert(seq![13u8, 10u8] == crlf());
        match end {
            Some(p) => {
                proof {
                    lemma_find(self@, crlf());
                }
                let l = buffer_split_to(&mut self.bytes, p);
                buffer_advance(&mut self.bytes, 2);
                assert(buffer_bytes(self.bytes) =~= line_split(old(self)@).1);
                Some(Decoder { bytes: l })
            },
            None => {
                let l = buffer_split_to(&mut self.bytes, n);
                assert(buffer_bytes(self.bytes) =~= Seq::<u8>::empty());
                assert(buffer_bytes(l) =~= old(self)@);
                Some(Decoder { bytes: l })
            },
        }
    }

    /// The first line as text; `Ok(None)` once nothing is left.
    pub fn get_line(&mut self) -> (r: Result<Option<String>, Error>)
        ensures
            old(self)@.len() == 0 ==> (r matches Ok(None) && final(self)@ == old(self)@),
            old(self)@.len() > 0 ==> final(self)@ == line_split(old(self)@).1 && match text_of(
                line_split(old(self)@).0,
            ) {
                Some(t) => r matches Ok(Some(s)) && s@ == t,
                None => r == Err::<Option<String>, Error>(Error::DecodeError),
            },
    {
        match self.line() {
            None => Ok(None),
            Some(l) => match utf8_string(l.as_slice()) {
                Some(s) => Ok(Some(s)),
                None => Err(Error::DecodeError),
            },
        }
    }

    /// Takes the next field, ended by the nearer of `delim` and `"\r\n"`, and its delimiter.
    pub fn take_field(&mut self, delim: &[u8]) -> (r: Decoder)
        ensures
            r@ == field_split(old(self)@, delim@).0,
            final(self)@ == field_split(old(self)@, delim@).1,
    {
        let s = buffer_slice(&self.bytes);
        let a = position(s, delim);
        let b = position(s, &[13u8, 10u8]);
        assert(seq![13u8, 10u8] == crlf());
        proof {
            lemma_find(self@, delim@);
            lemma_find(self@, crlf());
        }
        let end: Option<PositionWithLength> = match (a, b) {
            (Some(x), Some(y)) => if x <= y {
                Some(PositionWithLength::new(x, delim.len()))
            } else {
                Some(PositionWithLength::new(y, 2))
            },
            (Some(x), None) => Some(PositionWithLength::new(x, delim.len())),
            (None, Some(y)) => Some(PositionWithLength::new(y, 2)),
            (None, None) => None,
        };
        match end {
            Some(e) => {
                let f = buffer_split_to(&mut self.bytes, e.position());
                buffer_advance(&mut self.bytes, e.length());
                assert(buffer_bytes(self.bytes) =~= field_split(old(self)@, delim@).1);
                Decoder { bytes: f }
            },
            None => {
                let n = buffer_len(&self.bytes);
                let f = buffer_split_to(&mut self.bytes, n);
                assert(buffer_bytes(self.bytes) =~= Seq::<u8>::empty());
                assert(buffer_bytes(f) =~= old(self)@);
                Decoder { bytes: f }
            },
        }
    }

    /// The next field, ended by `delim` or `"\r\n"`, as an unsigned number.
    pub fn get_usize_with_delimiter(&mut self, delim: &[u8]) -> (r: Result<usize, Error>)
        ensures
            final(self)@ == field_split(old(self)@, delim@).1,
            match bounded_value(field_split(old(self)@, delim@).0, usize::MAX as int) {
                Some(v) => r == Ok::<usize, Error>(v as usize),
                None => r == Err::<usize, Error>(Error::DecodeError),
            },
    {
        let f = self.take_field(delim);
        match parse_decimal(f.as_slice(), usize::MAX) {
            Some(v) => Ok(v),
            None => Err(Error::DecodeError),
        }
    }

    /// The next field, ended by `delim` or `"\r\n"`, as text.
    pub fn get_string_with_delimiter(&mut self, delim: &[u8]) -> (r: Result<String, Error>)
        ensures
            final(self)@ == field_split(old(self)@, delim@).1,
            match text_of(field_split(old(self)@, delim@).0) {
                Some(t) => r matches Ok(s) && s@ == t,
                None => r == Err::<String, Error>(Error::DecodeError),
            },
    {
        let f = self.take_field(delim);
        match utf8_string(f.as_slice()) {
            Some(s) => Ok(s),
            None => Err(Error::DecodeError),
        }
    }

    /// The next space-delimited field as an unsigned number.
    pub fn get_usize(&mut self) -> (r: Result<usize, Error>)
        ensures
            final(self)@ == field_split(old(self)@, seq![32u8]).1,
            match bounded_value(field_split(old(self)@, seq![32u8]).0, usize::MAX as int) {
                Some(v) => r == Ok::<usize, Error>(v as usize),
                None => r == Err::<usize, Error>(Error::DecodeError),
            },
    {
        let d = [32u8];
        assert(d@ == seq![32u8]);
        self.get_usize_with_delimiter(&d)
    }

    /// The next space-delimited field as text.
    pub fn get_string(&mut self) -> (r: Result<String, Error>)
        ensures
            final(self)@ == field_split(old(self)@, seq![32u8]).1,
            match text_of(field_split(old(self)@, seq![32u8]).0) {
                Some(t) => r matches Ok(s) && s@ == t,
                None => r == Err::<String, Error>(Error::DecodeError),
            },
    {
        let d = [32u8];
        assert(d@ == seq![32u8]);
        self.get_string_with_delimiter(&d)
    }

    /// Everything that is left, as text.
    pub fn all_string(&mut self) -> (r: Result<String, Error>)
        ensures
            final(self)@ == Seq::<u8>::empty(),
            match text_of(old(self)@) {
                Some(t) => r matches Ok(s) && s@ == t,
                None => r == Err::<String, Error>(Error::DecodeError),
            },
    {
        let n = buffer_len(&self.bytes);
        let f = buffer_split_to(&mut self.bytes, n);
        assert(buffer_bytes(f) =~= old(self)@);
        assert(buffer_bytes(self.bytes) =~= Seq::<u8>::empty());
        match utf8_string(buffer_slice(&f)) {
            Some(s) => Ok(s),
            None => Err(Error::DecodeError),
        }
    }
}

} // verus!
