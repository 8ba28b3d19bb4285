use crate::decoder::Decoder;
use crate::error::Error;
use crate::framing::{Decode, Encode, ExpectedResponse, ExpectedResponseCode, ResponseCodeTuple};
use crate::messages::head::{head_of, head_parameter, header_view, push_head_parameter, HeadResponse, HeadType, HeaderView};
use vstd::prelude::*;
use vstd::utf8::encode_utf8;

verus! {

/// `ARTICLE <article>`: asks for an article's headers and body.
pub struct ArticleRequest {
    pub target: HeadType,
}

/// An article: its number, id and headers, then the raw bytes of its body.
pub struct ArticleResponse {
    pub header: HeadResponse,
    pub body: Vec<u8>,
}

impl ArticleRequest {
    pub fn new(target: HeadType) -> (r: ArticleRequest)
        ensures
            r.target == target,
    {
        ArticleRequest { target }
    }
}

impl View for ArticleResponse {
    type V = ((usize, Seq<char>, HeaderView), Seq<u8>);

    open spec fn view(&self) -> ((usize, Seq<char>, HeaderView), Seq<u8>) {
        (self.header@, self.body@)
    }
}

impl ArticleResponse {
    pub fn number(&self) -> (r: usize)
        ensures
            r == self.header.number,
    {
        self.header.number()
    }

    pub fn id(&self) -> (r: &str)
        ensures
            r@ == self.header.id@,
    {
        self.header.id()
    }

    pub fn headers(&self) -> (r: &Vec<(String, Vec<String>)>)
        ensures
            r@ == self.header.headers@,
    {
        self.header.headers()
    }

    pub fn body(&self) -> (r: &Vec<u8>)
        ensures
            r@ == self.body@,
    {
        &self.body
    }
}

impl Encode for ArticleRequest {
    open spec fn command(&self) -> Seq<u8> {
        encode_utf8("ARTICLE"@) + head_parameter(&self.target)
    }

    fn encoder(&self, bytes: &mut Decoder) {
        bytes.push_str("ARTICLE");
        push_head_parameter(&self.target, bytes);
    }
}

impl ExpectedResponse for ArticleRequest {
    type Response = ArticleResponse;
}

impl ExpectedResponseCode for ArticleResponse {
    open spec fn table() -> Seq<ResponseCodeTuple> {
        seq![(220u16, true, true), (430u16, false, false)]
    }

    proof fn lemma_table_wf() {
    }

    fn codes() -> (r: Vec<ResponseCodeTuple>) {
        let r = vec![(220u16, true, true), (430u16, false, false)];
        assert(r@ =~= Self::table());
        r
    }
}

impl Decode for ArticleResponse {
    /// "No such article" yields the empty response; otherwise the head as for
    /// `HEAD`, and everything after the header block's empty line as the body.
    open spec fn body(code: u16, bytes: Seq<u8>) -> Result<
        ((usize, Seq<char>, HeaderView), Seq<u8>),
        Error,
    > {
        if code == 430 {
            Ok(((0usize, Seq::empty(), Seq::empty()), Seq::empty()))
        } else {
            head_of(bytes)
        }
    }

    fn decoder(bytes: &mut Decoder, code: u16) -> (r: Result<Self, Error>) {
        if code == 430 {
            let header = HeadResponse { number: 0, id: String::new(), headers: Vec::new() };
            assert(header_view(header.headers@) =~= Seq::<(Seq<char>, Seq<Seq<char>>)>::empty());
            return Ok(ArticleResponse { header, body: Vec::new() });
        }
        match HeadResponse::parse_head(bytes) {
            Ok(header) => Ok(ArticleResponse { header, body: vstd::slice::slice_to_vec(bytes.as_slice()) }),
            Err(e) => Err(e),
        }
    }
}

} // verus!
