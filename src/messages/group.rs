use crate::decoder::{bounded_value, field_split, text_of, Decoder};
use crate::error::Error;
use crate::framing::{Decode, Encode, ExpectedResponse, ExpectedResponseCode, ResponseCodeTuple};
use vstd::prelude::*;
use vstd::utf8::encode_utf8;

verus! {

/// `GROUP <name>`: selects a newsgroup.
pub struct GroupRequest {
    pub name: String,
}

/// The selected group: estimated article count, lowest and highest article
/// numbers, and the group's name. All are zero and empty when there is no such group.
pub struct GroupResponse {
    pub number: usize,
    pub low: usize,
    pub high: usize,
    pub group: String,
}

impl GroupRequest {
    pub fn new(name: String) -> (r: GroupRequest)
        ensures
            r.name@ == name@,
    {
        GroupRequest { name }
    }
}

impl View for GroupResponse {
    type V = (usize, usize, usize, Seq<char>);

    open spec fn view(&self) -> (usize, usize, usize, Seq<char>) {
        (self.number, self.low, self.high, self.group@)
    }
}

impl GroupResponse {
    pub fn number(&self) -> (r: usize)
        ensures
            r == self.number,
    {
        self.number
    }

    pub fn low(&self) -> (r: usize)
        ensures
            r == self.low,
    {
        self.low
    }

    pub fn high(&self) -> (r: usize)
        ensures
            r == self.high,
    {
        self.high
    }

    pub fn group(&self) -> (r: &str)
        ensures
            r@ == self.group@,
    {
        self.group.as_str()
    }
}

impl Encode for GroupRequest {
    open spec fn command(&self) -> Seq<u8> {
        encode_utf8("GROUP "@) + encode_utf8(self.name@)
    }

    fn encoder(&self, bytes: &mut Decoder) {
        bytes.push_str("GROUP ");
        bytes.push_str(self.name.as_str());
    }
}

impl ExpectedResponse for GroupRequest {
    type Response = GroupResponse;
}

impl ExpectedResponseCode for GroupResponse {
    open spec fn table() -> Seq<ResponseCodeTuple> {
        seq![(211u16, false, true), (411u16, false, false)]
    }

    proof fn lemma_table_wf() {
    }

    fn codes() -> (r: Vec<ResponseCodeTuple>) {
        let r = vec![(211u16, false, true), (411u16, false, false)];
        assert(r@ =~= Self::table());
        r
    }
}

/// The four space-separated fields of a selected group: three numbers and a name.
pub open spec fn group_fields(b: Seq<u8>) -> Result<(usize, usize, usize, Seq<char>), Error> {
    let f1 = field_split(b, seq![32u8]);
    let f2 = field_split(f1.1, seq![32u8]);
    let f3 = field_split(f2.1, seq![32u8]);
    let f4 = field_split(f3.1, seq![32u8]);
    match (
        bounded_value(f1.0, usize::MAX as int),
        bounded_value(f2.0, usize::MAX as int),
        bounded_value(f3.0, usize::MAX as int),
        text_of(f4.0),
    ) {
        (Some(n), Some(l), Some(h), Some(g)) => Ok((n as usize, l as usize, h as usize, g)),
        _ => Err(Error::DecodeError),
    }
}

impl Decode for GroupResponse {
    /// "No such group" yields the empty response; otherwise the four fields.
    open spec fn body(code: u16, bytes: Seq<u8>) -> Result<(usize, usize, usize, Seq<char>), Error> {
        if code == 411 {
            Ok((0usize, 0usize, 0usize, Seq::empty()))
        } else {
            group_fields(bytes)
        }
    }

    fn decoder(bytes: &mut Decoder, code: u16) -> (r: Result<Self, Error>) {
        if code == 411 {
            return Ok(GroupResponse { number: 0, low: 0, high: 0, group: String::new() });
        }
        let number = bytes.get_usize();
        let low = bytes.get_usize();
        let high = bytes.get_usize();
        let group = bytes.get_string();
        match (number, low, high, group) {
            (Ok(number), Ok(low), Ok(high), Ok(group)) => Ok(GroupResponse { number, low, high, group }),
            _ => Err(Error::DecodeError),
        }
    }
}

} // verus!
