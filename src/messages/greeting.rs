use crate::decoder::Decoder;
use crate::error::Error;
use crate::framing::{Decode, ExpectedResponseCode, ResponseCodeTuple};
use crate::messages::{decode_line_text, line_text};
use vstd::prelude::*;

verus! {

/// The server's greeting, sent once the connection is open.
pub struct GreetingResponse {
    pub greeting: String,
}

impl View for GreetingResponse {
    type V = Seq<char>;

    open spec fn view(&self) -> Seq<char> {
        self.greeting@
    }
}

impl GreetingResponse {
    pub fn greeting(&self) -> (r: &str)
        ensures
            r@ == self.greeting@,
    {
        self.greeting.as_str()
    }
}

impl ExpectedResponseCode for GreetingResponse {
    open spec fn table() -> Seq<ResponseCodeTuple> {
        seq![(200u16, false, true)]
    }

    proof fn lemma_table_wf() {
    }

    fn codes() -> (r: Vec<ResponseCodeTuple>) {
        let r = vec![(200u16, false, true)];
        assert(r@ =~= Self::table());
        r
    }
}

impl Decode for GreetingResponse {
    open spec fn body(code: u16, bytes: Seq<u8>) -> Result<Seq<char>, Error> {
        line_text(bytes)
    }

    fn decoder(bytes: &mut Decoder, code: u16) -> (r: Result<Self, Error>) {
        match decode_line_text(bytes) {
            Ok(s) => Ok(GreetingResponse { greeting: s }),
            Err(e) => Err(e),
        }
    }
}

} // verus!
