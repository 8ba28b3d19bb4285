//! The address of a news server: a host name and a port.
use crate::decoder::{bounded_value, decimal_digits, find, lemma_find, parse_decimal, position, text_of, utf8_string, Decoder};
use crate::error::Error;
use vstd::prelude::*;
use vstd::utf8::encode_utf8;

verus! {

/// The port used when an address names none.
pub const DEFAULT_NNTP_PORT: u16 = 563;

/// What an address string `host` or `host:port` denotes, given its UTF-8
/// bytes: the host is everything before the first `:`, and must not be empty;
/// the port is everything after it, an unsigned decimal up to 65535, and
/// defaults to 563 when there is no `:`.
pub open spec fn address_of(b: Seq<u8>) -> Result<(Seq<char>, u16), Error> {
    let colon = find(b, seq![58u8]);
    let host = match colon {
        Some(p) => b.subrange(0, p),
        None => b,
    };
    if host.len() == 0 {
        Err(Error::ServerNameNotFound)
    } else {
        match text_of(host) {
            None => Err(Error::DecodeError),
            Some(name) => match colon {
                None => Ok((name, 563u16)),
                Some(p) => match bounded_value(b.subrange(p + 1, b.len() as int), 65535) {
                    Some(v) => Ok((name, v as u16)),
                    None => Err(Error::ServerPortInvalid),
                },
            },
        }
    }
}

/// A news server's host name and port.
pub struct NewsServer {
    pub name: String,
    pub port: u16,
}

impl NewsServer {
    pub fn new(name: String, port: u16) -> (r: NewsServer)
        ensures
            r.name@ == name@,
            r.port == port,
    {
        NewsServer { name, port }
    }

    /// Parses `host` or `host:port`.
    pub fn parse(server: &str) -> (r: Result<NewsServer, Error>)
        ensures
            match address_of(encode_utf8(server@)) {
                Ok((name, port)) => r matches Ok(s) && s.name@ == name && s.port == port,
                Err(e) => r matches Err(f) && f == e,
            },
    {
        let b = server.as_bytes();
        let n = b.len();
        let sep: [u8; 1] = [58u8];
        assert(sep@ == seq![58u8]);
        let colon = position(b, &sep);
        proof {
            lemma_find(b@, seq![58u8]);
        }
        let end = match colon {
            Some(p) => p,
            None => b.len(),
        };
        let host = vstd::slice::slice_subrange(b, 0, end);
        if end == 0 {
            return Err(Error::ServerNameNotFound);
        }
        assert(colon is None ==> host@ =~= b@);
        let name = match utf8_string(host) {
            Some(n) => n,
            None => return Err(Error::DecodeError),
        };
        let port = match colon {
            None => DEFAULT_NNTP_PORT,
            Some(p) => {
                let digits = vstd::slice::slice_subrange(b, p + 1, n);
                match parse_decimal(digits, 65535) {
                    Some(v) => v as u16,
                    None => return Err(Error::ServerPortInvalid),
                }
            },
        };
        Ok(NewsServer { name, port })
    }

    pub fn name(&self) -> (r: &str)
        ensures
            r@ == self.name@,
    {
        self.name.as_str()
    }

    pub fn port(&self) -> (r: u16)
        ensures
            r == self.port,
    {
        self.port
    }

    /// The bytes of `host:port`, as dialled.
    pub fn addr(&self) -> (r: Vec<u8>)
        ensures
            r@ == encode_utf8(self.name@) + seq![58u8] + decimal_digits(self.port as nat),
    {
        let mut out = Decoder::new();
        out.push_str(self.name.as_str());
        let colon = [58u8];
        out.extend(&colon);
        out.push_decimal(self.port as usize);
        assert(Seq::<u8>::empty() + encode_utf8(self.name@) =~= encode_utf8(self.name@));
        vstd::slice::slice_to_vec(out.as_slice())
    }
}

} // verus!
