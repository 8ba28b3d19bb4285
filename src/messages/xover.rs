use crate::decoder::{bounded_value, decimal_digits, field_split, line_split, text_of, Decoder};
use crate::error::Error;
use crate::framing::{Decode, Encode, ExpectedResponse, ExpectedResponseCode, ResponseCodeTuple};
use crate::messages::{after_first_line, lemma_line_split_shorter, skip_line};
use crate::messages::list::record_views;
use chrono::{DateTime, NaiveDateTime};
use vstd::prelude::*;
use vstd::utf8::encode_utf8;

verus! {

/// The Unix time that `chrono::DateTime::parse_from_rfc2822` reads from a text, if any.
pub uninterp spec fn rfc2822_timestamp(s: Seq<char>) -> Option<i64>;

/// The Unix time that `chrono::DateTime::parse_from_str` reads from a text with a format, if any.
pub uninterp spec fn zoned_timestamp(s: Seq<char>, fmt: Seq<char>) -> Option<i64>;

/// The Unix time, taken as UTC, that `chrono::NaiveDateTime::parse_from_str`
/// reads from a text with a format, if any.
pub uninterp spec fn naive_timestamp(s: Seq<char>, fmt: Seq<char>) -> Option<i64>;

/// Relies on `chrono::DateTime::parse_from_rfc2822`: the result depends on the text alone.
#[verifier::external_body]
fn parse_rfc2822(s: &str) -> (r: Option<i64>)
    ensures
        r == rfc2822_timestamp(s@),
{
    DateTime::parse_from_rfc2822(s).ok().map(|d| d.timestamp())
}

/// Relies on `chrono::DateTime::parse_from_str`: the result depends on the text and format alone.
#[verifier::external_body]
fn parse_zoned(s: &str, fmt: &str) -> (r: Option<i64>)
    ensures
        r == zoned_timestamp(s@, fmt@),
{
    DateTime::parse_from_str(s, fmt).ok().map(|d| d.timestamp())
}

/// Relies on `chrono::NaiveDateTime::parse_from_str`: the result depends on the text and format alone.
#[verifier::external_body]
fn parse_naive(s: &str, fmt: &str) -> (r: Option<i64>)
    ensures
        r == naive_timestamp(s@, fmt@),
{
    NaiveDateTime::parse_from_str(s, fmt).ok().map(|d| d.and_utc().timestamp())
}

/// The fallback formats tried after RFC 2822, in order.
pub open spec fn date_formats() -> Seq<Seq<char>> {
    seq![
        "%a, %d %b %y %H:%M:%S UTC"@,
        "%a, %d %b %y %H:%M:%S GMT"@,
        "%a, %d %b %Y %H:%M:%S UTC"@,
        "%a, %d %b %Y %H:%M:%S GMT"@,
    ]
}

/// The first format from position `i` on that reads the text, with or without a zone.
pub open spec fn from_formats(s: Seq<char>, fmts: Seq<Seq<char>>, i: int) -> Option<i64>
    decreases fmts.len() - i,
{
    if i < 0 || i >= fmts.len() {
        None
    } else {
        match zoned_timestamp(s, fmts[i]) {
            Some(t) => Some(t),
            None => match naive_timestamp(s, fmts[i]) {
                Some(t) => Some(t),
                None => from_formats(s, fmts, i + 1),
            },
        }
    }
}

/// The Unix time of an overview date: RFC 2822 first, then each fallback format.
pub open spec fn datetime_of(s: Seq<char>) -> Option<i64> {
    match rfc2822_timestamp(s) {
        Some(t) => Some(t),
        None => from_formats(s, date_formats(), 0),
    }
}

/// Reads the date of an overview record.
pub fn parse_datetime(s: &str) -> (r: Option<i64>)
    ensures
        r == datetime_of(s@),
{
    if let Some(t) = parse_rfc2822(s) {
        return Some(t);
    }
    let formats: [&str; 4] = [
        "%a, %d %b %y %H:%M:%S UTC",
        "%a, %d %b %y %H:%M:%S GMT",
        "%a, %d %b %Y %H:%M:%S UTC",
        "%a, %d %b %Y %H:%M:%S GMT",
    ];
    let ghost fmts = formats@.map_values(|f: &str| f@);
    assert(fmts =~= date_formats());
    let mut i: usize = 0;
    while i < 4
        invariant
            i <= 4,
            fmts == formats@.map_values(|f: &str| f@),
            fmts == date_formats(),
            datetime_of(s@) == from_formats(s@, fmts, i as int),
        decreases 4 - i,
    {
        let f = formats[i];
        assert(f@ == fmts[i as int]);
        if let Some(t) = parse_zoned(s, f) {
            return Some(t);
        }
        if let Some(t) = parse_naive(s, f) {
            return Some(t);
        }
        i += 1;
    }
    None
}

/// Which articles an `XOVER` request covers.
pub enum RangeType {
    /// One article: `N`.
    Single(usize),
    /// From an article on: `N-`.
    Start(usize),
    /// A closed range: `N-M`.
    StartEnd(usize, usize),
}

/// The range argument of `XOVER`.
pub open spec fn range_parameter(t: RangeType) -> Seq<u8> {
    match t {
        RangeType::Single(a) => decimal_digits(a as nat),
        RangeType::Start(a) => decimal_digits(a as nat) + seq![45u8],
        RangeType::StartEnd(a, b) => decimal_digits(a as nat) + seq![45u8] + decimal_digits(b as nat),
    }
}

/// `XOVER <range>`: asks for the overview records of a range of articles.
pub struct XoverRequest {
    pub range: RangeType,
}

/// One overview record: article number, subject, author, and date as Unix time.
pub struct XoverMessage {
    pub number: usize,
    pub subject: String,
    pub author: String,
    pub date: i64,
}

/// The overview records whose date could be read.
pub struct XoverResponse {
    pub messages: Vec<XoverMessage>,
}

impl XoverRequest {
    pub fn new(range: RangeType) -> (r: XoverRequest)
        ensures
            r.range == range,
    {
        XoverRequest { range }
    }
}

impl View for XoverMessage {
    type V = (usize, Seq<char>, Seq<char>, i64);

    open spec fn view(&self) -> (usize, Seq<char>, Seq<char>, i64) {
        (self.number, self.subject@, self.author@, self.date)
    }
}

impl XoverMessage {
    pub fn new(number: usize, subject: String, author: String, date: i64) -> (r: XoverMessage)
        ensures
            r@ == (number, subject@, author@, date),
    {
        XoverMessage { number, subject, author, date }
    }

    pub fn number(&self) -> (r: usize)
        ensures
            r == self.number,
    {
        self.number
    }

    pub fn subject(&self) -> (r: &str)
        ensures
            r@ == self.subject@,
    {
        self.subject.as_str()
    }

    pub fn author(&self) -> (r: &str)
        ensures
            r@ == self.author@,
    {
        self.author.as_str()
    }

    /// The date as seconds since the Unix epoch.
    pub fn date(&self) -> (r: i64)
        ensures
            r == self.date,
    {
        self.date
    }
}

impl View for XoverResponse {
    type V = Seq<(usize, Seq<char>, Seq<char>, i64)>;

    open spec fn view(&self) -> Seq<(usize, Seq<char>, Seq<char>, i64)> {
        record_views(self.messages@)
    }
}

impl XoverResponse {
    pub fn messages(&self) -> (r: &Vec<XoverMessage>)
        ensures
            r@ == self.messages@,
    {
        &self.messages
    }
}

impl Encode for XoverRequest {
    open spec fn command(&self) -> Seq<u8> {
        encode_utf8("XOVER "@) + range_parameter(self.range)
    }

    fn encoder(&self, bytes: &mut Decoder) {
        bytes.push_str("XOVER ");
        let dash = [45u8];
        match self.range {
            RangeType::Single(a) => bytes.push_decimal(a),
            RangeType::Start(a) => {
                bytes.push_decimal(a);
                bytes.extend(&dash);
            },
            RangeType::StartEnd(a, b) => {
                bytes.push_decimal(a);
                bytes.extend(&dash);
                bytes.push_decimal(b);
            },
        }
        assert(bytes@ =~= old(bytes)@ + self.command());
    }
}

impl ExpectedResponse for XoverRequest {
    type Response = XoverResponse;
}

impl ExpectedResponseCode for XoverResponse {
    open spec fn table() -> Seq<ResponseCodeTuple> {
        seq![(224u16, true, true)]
    }

    proof fn lemma_table_wf() {
    }

    fn codes() -> (r: Vec<ResponseCodeTuple>) {
        let r = vec![(224u16, true, true)];
        assert(r@ =~= Self::table());
        r
    }
}

/// One tab-separated overview line: `Ok(None)` when its date cannot be read.
pub open spec fn xover_record(line: Seq<u8>) -> Result<Option<(usize, Seq<char>, Seq<char>, i64)>, Error> {
    let f1 = field_split(line, seq![9u8]);
    let f2 = field_split(f1.1, seq![9u8]);
    let f3 = field_split(f2.1, seq![9u8]);
    let f4 = field_split(f3.1, seq![9u8]);
    match bounded_value(f1.0, usize::MAX as int) {
        None => Err(Error::DecodeError),
        Some(n) => match text_of(f2.0) {
            None => Err(Error::DecodeError),
            Some(subject) => match text_of(f3.0) {
                None => Err(Error::DecodeError),
                Some(author) => match text_of(f4.0) {
                    None => Err(Error::DecodeError),
                    Some(time) => match datetime_of(time) {
                        Some(t) => Ok(Some((n as usize, subject, author, t))),
                        None => Ok(None),
                    },
                },
            },
        },
    }
}

/// The records of the lines of a body, stopping at the first line that fails.
pub open spec fn xover_records(b: Seq<u8>) -> Result<Seq<(usize, Seq<char>, Seq<char>, i64)>, Error>
    decreases b.len(),
{
    if b.len() == 0 {
        Ok(Seq::empty())
    } else {
        let rest: Result<Seq<(usize, Seq<char>, Seq<char>, i64)>, Error> = if line_split(b).1.len()
            < b.len() {
            xover_records(line_split(b).1)
        } else {
            Ok(Seq::empty())
        };
        match xover_record(line_split(b).0) {
            Err(e) => Err(e),
            Ok(None) => rest,
            Ok(Some(m)) => match rest {
                Ok(s) => Ok(seq![m] + s),
                Err(e) => Err(e),
            },
        }
    }
}

fn parse_xover_line(line: &mut Decoder) -> (r: Result<Option<XoverMessage>, Error>)
    ensures
        match xover_record(old(line)@) {
            Ok(Some(v)) => r matches Ok(Some(m)) && m@ == v,
            Ok(None) => r matches Ok(None),
            Err(e) => r matches Err(f) && f == e,
        },
{
    let tab = [9u8];
    assert(tab@ == seq![9u8]);
    let number = match line.get_usize_with_delimiter(&tab) {
        Ok(v) => v,
        Err(e) => return Err(e),
    };
    let subject = match line.get_string_with_delimiter(&tab) {
        Ok(v) => v,
        Err(e) => return Err(e),
    };
    let author = match line.get_string_with_delimiter(&tab) {
        Ok(v) => v,
        Err(e) => return Err(e),
    };
    let time = match line.get_string_with_delimiter(&tab) {
        Ok(v) => v,
        Err(e) => return Err(e),
    };
    match parse_datetime(time.as_str()) {
        Some(date) => Ok(Some(XoverMessage { number, subject, author, date })),
        None => Ok(None),
    }
}

impl Decode for XoverResponse {
    /// The rest of the status line is dropped; each following line is a record,
    /// and a record whose date cannot be read is left out.
    open spec fn body(code: u16, bytes: Seq<u8>) -> Result<Seq<(usize, Seq<char>, Seq<char>, i64)>, Error> {
        xover_records(after_first_line(bytes))
    }

    fn decoder(bytes: &mut Decoder, code: u16) -> (r: Result<Self, Error>) {
        skip_line(bytes);
        let ghost start = bytes@;
        let mut messages: Vec<XoverMessage> = Vec::new();
        loop
            invariant
                start == after_first_line(old(bytes)@),
                xover_records(start) == match xover_records(bytes@) {
                    Ok(s) => Ok(record_views(messages@) + s),
                    Err(e) => Err(e),
                },
            decreases bytes@.len(),
        {
            let ghost before = bytes@;
            let mut line = match bytes.line() {
                None => {
                    assert(record_views(messages@) + Seq::empty() =~= record_views(messages@));
                    return Ok(XoverResponse { messages });
                },
                Some(l) => l,
            };
            proof {
                lemma_line_split_shorter(before);
            }
            match parse_xover_line(&mut line) {
                Ok(Some(m)) => {
                    let ghost rv_old = record_views(messages@);
                    let ghost m_view = m@;
                    assert(record_views(messages@.push(m)) =~= record_views(messages@) + seq![m@]);
                    messages.push(m);
                    proof {
                        match xover_records(bytes@) {
                            Ok(s) => {
                                assert(rv_old + (seq![m_view] + s) =~= record_views(messages@) + s);
                            },
                            Err(_) => {},
                        }
                    }
                },
                Ok(None) => {},
                Err(e) => return Err(e),
            }
        }
    }
}

} // verus!
