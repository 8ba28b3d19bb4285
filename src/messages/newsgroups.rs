use crate::decoder::Decoder;
use crate::error::Error;
use crate::framing::{Decode, Encode, ExpectedResponse, ExpectedResponseCode, ResponseCodeTuple};
use crate::messages::{after_first_line, decode_text_lines, skip_line, text_lines, texts};
use vstd::prelude::*;
use vstd::utf8::encode_utf8;

verus! {

/// A UTC calendar date and time of day.
#[derive(Debug, Clone, Copy, PartialEq, Eq, Structural)]
pub struct NewsDate {
    pub year: u16,
    pub month: u8,
    pub day: u8,
    pub hour: u8,
    pub minute: u8,
    pub second: u8,
}

impl NewsDate {
    /// A four-digit year, a month and day of month, and a time of day
    /// (a leap second may be second 60).
    pub open spec fn wf(&self) -> bool {
        &&& self.year <= 9999
        &&& 1 <= self.month <= 12
        &&& 1 <= self.day <= 31
        &&& self.hour < 24
        &&& self.minute < 60
        &&& self.second <= 60
    }

    pub fn new(year: u16, month: u8, day: u8, hour: u8, minute: u8, second: u8) -> (r: Option<NewsDate>)
        ensures
            match r {
                Some(d) => d.wf() && d == (NewsDate { year, month, day, hour, minute, second }),
                None => !(NewsDate { year, month, day, hour, minute, second }).wf(),
            },
    {
        let d = NewsDate { year, month, day, hour, minute, second };
        if year <= 9999 && 1 <= month && month <= 12 && 1 <= day && day <= 31 && hour < 24
            && minute < 60 && second <= 60 {
            Some(d)
        } else {
            None
        }
    }
}

/// `n` as exactly two decimal digits.
pub open spec fn two_digits(n: int) -> Seq<u8> {
    seq![(48 + n / 10) as u8, (48 + n % 10) as u8]
}

/// `n` as exactly four decimal digits.
pub open spec fn four_digits(n: int) -> Seq<u8> {
    two_digits(n / 100) + two_digits(n % 100)
}

fn push_two(bytes: &mut Decoder, n: u8)
    requires
        n < 100,
    ensures
        final(bytes)@ == old(bytes)@ + two_digits(n as int),
{
    let d = [48 + n / 10, 48 + n % 10];
    assert(d@ =~= two_digits(n as int));
    bytes.extend(&d);
}

fn push_four(bytes: &mut Decoder, n: u16)
    requires
        n < 10000,
    ensures
        final(bytes)@ == old(bytes)@ + four_digits(n as int),
{
    push_two(bytes, (n / 100) as u8);
    push_two(bytes, (n % 100) as u8);
    assert(old(bytes)@ + two_digits(n as int / 100) + two_digits(n as int % 100) =~= old(bytes)@ + four_digits(
        n as int,
    ));
}

/// `NEWGROUPS <yyyymmdd> <hhmmss>`: asks for the groups created since a moment.
pub struct NewsgroupsRequest {
    datetime: NewsDate,
}

/// The names of the new groups.
pub struct NewsgroupsResponse {
    pub groups: Vec<String>,
}

impl NewsgroupsRequest {
    #[verifier::type_invariant]
    spec fn inv(&self) -> bool {
        self.datetime.wf()
    }

    pub closed spec fn spec_datetime(&self) -> NewsDate {
        self.datetime
    }

    pub fn datetime(&self) -> (r: NewsDate)
        ensures
            r == self.spec_datetime(),
            r.wf(),
    {
        proof {
            use_type_invariant(self);
        }
        self.datetime
    }

    pub fn new(datetime: NewsDate) -> (r: NewsgroupsRequest)
        requires
            datetime.wf(),
        ensures
            r.spec_datetime() == datetime,
    {
        NewsgroupsRequest { datetime }
    }
}

impl View for NewsgroupsResponse {
    type V = Seq<Seq<char>>;

    open spec fn view(&self) -> Seq<Seq<char>> {
        texts(self.groups@)
    }
}

impl NewsgroupsResponse {
    pub fn groups(&self) -> (r: &Vec<String>)
        ensures
            r@ == self.groups@,
    {
        &self.groups
    }
}

impl Encode for NewsgroupsRequest {
    open spec fn command(&self) -> Seq<u8> {
        let d = self.spec_datetime();
        encode_utf8("NEWGROUPS "@) + four_digits(d.year as int) + two_digits(d.month as int)
            + two_digits(d.day as int) + encode_utf8(" "@) + two_digits(d.hour as int) + two_digits(
            d.minute as int,
        ) + two_digits(d.second as int)
    }

    fn encoder(&self, bytes: &mut Decoder) {
        let d = self.datetime();
        bytes.push_str("NEWGROUPS ");
        push_four(bytes, d.year);
        push_two(bytes, d.month);
        push_two(bytes, d.day);
        bytes.push_str(" ");
        push_two(bytes, d.hour);
        push_two(bytes, d.minute);
        push_two(bytes, d.second);
    }
}

impl ExpectedResponse for NewsgroupsRequest {
    type Response = NewsgroupsResponse;
}

impl ExpectedResponseCode for NewsgroupsResponse {
    open spec fn table() -> Seq<ResponseCodeTuple> {
        seq![(231u16, true, true)]
    }

    proof fn lemma_table_wf() {
    }

    fn codes() -> (r: Vec<ResponseCodeTuple>) {
        let r = vec![(231u16, true, true)];
        assert(r@ =~= Self::table());
        r
    }
}

impl Decode for NewsgroupsResponse {
    /// The rest of the status line is dropped; each following line names a group.
    open spec fn body(code: u16, bytes: Seq<u8>) -> Result<Seq<Seq<char>>, Error> {
        Ok(text_lines(after_first_line(bytes)))
    }

    fn decoder(bytes: &mut Decoder, code: u16) -> (r: Result<Self, Error>) {
        skip_line(bytes);
        Ok(NewsgroupsResponse { groups: decode_text_lines(bytes) })
    }
}

} // verus!
