use crate::decoder::Decoder;
use crate::error::Error;
use crate::framing::{Decode, Encode, ExpectedResponse, ExpectedResponseCode, ResponseCodeTuple};
use crate::messages::{decode_line_text, line_text};
use vstd::prelude::*;
use vstd::utf8::encode_utf8;

verus! {

/// `DATE`: asks for the server's clock.
pub struct DateRequest;

/// The server's answer to `DATE`.
pub struct DateResponse {
    pub text: String,
}

impl DateRequest {
    pub fn new() -> (r: DateRequest) {
        DateRequest
    }
}

impl View for DateResponse {
    type V = Seq<char>;

    open spec fn view(&self) -> Seq<char> {
        self.text@
    }
}

impl DateResponse {
    pub fn text(&self) -> (r: &str)
        ensures
            r@ == self.text@,
    {
        self.text.as_str()
    }
}

impl Encode for DateRequest {
    open spec fn command(&self) -> Seq<u8> {
        encode_utf8("DATE"@)
    }

    fn encoder(&self, bytes: &mut Decoder) {
        bytes.push_str("DATE");
    }
}

impl ExpectedResponse for DateRequest {
    type Response = DateResponse;
}

impl ExpectedResponseCode for DateResponse {
    open spec fn table() -> Seq<ResponseCodeTuple> {
        seq![(111u16, false, true)]
    }

    proof fn lemma_table_wf() {
    }

    fn codes() -> (r: Vec<ResponseCodeTuple>) {
        let r = vec![(111u16, false, true)];
        assert(r@ =~= Self::table());
        r
    }
}

impl Decode for DateResponse {
    open spec fn body(code: u16, bytes: Seq<u8>) -> Result<Seq<char>, Error> {
        line_text(bytes)
    }

    fn decoder(bytes: &mut Decoder, code: u16) -> (r: Result<Self, Error>) {
        match decode_line_text(bytes) {
            Ok(s) => Ok(DateResponse { text: s }),
            Err(e) => Err(e),
        }
    }
}

} // verus!
