use crate::decoder::Decoder;
use crate::error::Error;
use crate::framing::{Decode, Encode, ExpectedResponse, ExpectedResponseCode, ResponseCodeTuple};
use crate::messages::{decode_line_text, line_text};
use vstd::prelude::*;
use vstd::utf8::encode_utf8;

verus! {

/// Which credential an `AUTHINFO` request carries.
#[derive(Debug, Clone, Copy, PartialEq, Eq, Structural)]
pub enum AuthinfoMode {
    Username,
    Password,
}

/// `AUTHINFO USER <value>` or `AUTHINFO PASS <value>`.
pub struct AuthinfoRequest {
    pub mode: AuthinfoMode,
    pub value: String,
}

/// The server's answer to an `AUTHINFO` request.
pub struct AuthinfoResponse {
    pub text: String,
}

impl AuthinfoRequest {
    pub fn new(mode: AuthinfoMode, value: String) -> (r: AuthinfoRequest)
        ensures
            r.mode == mode,
            r.value@ == value@,
    {
        AuthinfoRequest { mode, value }
    }
}

impl View for AuthinfoResponse {
    type V = Seq<char>;

    open spec fn view(&self) -> Seq<char> {
        self.text@
    }
}

impl AuthinfoResponse {
    pub fn text(&self) -> (r: &str)
        ensures
            r@ == self.text@,
    {
        self.text.as_str()
    }
}

impl Encode for AuthinfoRequest {
    open spec fn command(&self) -> Seq<u8> {
        let prefix = match self.mode {
            AuthinfoMode::Username => encode_utf8("AUTHINFO USER "@),
            AuthinfoMode::Password => encode_utf8("AUTHINFO PASS "@),
        };
        prefix + encode_utf8(self.value@)
    }

    fn encoder(&self, bytes: &mut Decoder) {
        match self.mode {
            AuthinfoMode::Username => bytes.push_str("AUTHINFO USER "),
            AuthinfoMode::Password => bytes.push_str("AUTHINFO PASS "),
        }
        bytes.push_str(self.value.as_str());
    }
}

impl ExpectedResponse for AuthinfoRequest {
    type Response = AuthinfoResponse;
}

impl ExpectedResponseCode for AuthinfoResponse {
    open spec fn table() -> Seq<ResponseCodeTuple> {
        seq![(281u16, false, true), (381u16, false, true), (502u16, false, false)]
    }

    proof fn lemma_table_wf() {
    }

    fn codes() -> (r: Vec<ResponseCodeTuple>) {
        let r = vec![(281u16, false, true), (381u16, false, true), (502u16, false, false)];
        assert(r@ =~= Self::table());
        r
    }
}

impl Decode for AuthinfoResponse {
    open spec fn body(code: u16, bytes: Seq<u8>) -> Result<Seq<char>, Error> {
        line_text(bytes)
    }

    fn decoder(bytes: &mut Decoder, code: u16) -> (r: Result<Self, Error>) {
        match decode_line_text(bytes) {
            Ok(s) => Ok(AuthinfoResponse { text: s }),
            Err(e) => Err(e),
        }
    }
}

} // verus!
