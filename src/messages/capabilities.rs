use crate::decoder::Decoder;
use crate::error::Error;
use crate::framing::{Decode, Encode, ExpectedResponse, ExpectedResponseCode, ResponseCodeTuple};
use crate::messages::{after_first_line, decode_text_lines, skip_line, text_lines, texts};
use vstd::prelude::*;
use vstd::utf8::encode_utf8;

verus! {

/// `CAPABILITIES`: asks what the server supports.
pub struct CapabilitiesRequest;

/// The capability lines that follow the status line.
pub struct CapabilitiesResponse {
    pub caps: Vec<String>,
}

impl CapabilitiesRequest {
    pub fn new() -> (r: CapabilitiesRequest) {
        CapabilitiesRequest
    }
}

impl View for CapabilitiesResponse {
    type V = Seq<Seq<char>>;

    open spec fn view(&self) -> Seq<Seq<char>> {
        texts(self.caps@)
    }
}

impl CapabilitiesResponse {
    pub fn text(&self) -> (r: &Vec<String>)
        ensures
            r@ == self.caps@,
    {
        &self.caps
    }
}

impl Encode for CapabilitiesRequest {
    open spec fn command(&self) -> Seq<u8> {
        encode_utf8("CAPABILITIES"@)
    }

    fn encoder(&self, bytes: &mut Decoder) {
        bytes.push_str("CAPABILITIES");
    }
}

impl ExpectedResponse for CapabilitiesRequest {
    type Response = CapabilitiesResponse;
}

impl ExpectedResponseCode for CapabilitiesResponse {
    open spec fn table() -> Seq<ResponseCodeTuple> {
        seq![(101u16, true, true)]
    }

    proof fn lemma_table_wf() {
    }

    fn codes() -> (r: Vec<ResponseCodeTuple>) {
        let r = vec![(101u16, true, true)];
        assert(r@ =~= Self::table());
        r
    }
}

impl Decode for CapabilitiesResponse {
    /// The rest of the status line is dropped; each following line is a capability.
    open spec fn body(code: u16, bytes: Seq<u8>) -> Result<Seq<Seq<char>>, Error> {
        Ok(text_lines(after_first_line(bytes)))
    }

    fn decoder(bytes: &mut Decoder, code: u16) -> (r: Result<Self, Error>) {
        skip_line(bytes);
        Ok(CapabilitiesResponse { caps: decode_text_lines(bytes) })
    }
}

} // verus!
