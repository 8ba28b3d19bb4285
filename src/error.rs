use vstd::prelude::*;

verus! {

/// Every failure the library reports.
#[derive(Debug, Clone, Copy, PartialEq, Eq, Structural)]
pub enum Error {
    /// The server address has an empty host name.
    ServerNameNotFound,
    /// The port of a server address is not a number in `0..=65535`.
    ServerPortInvalid,
    /// The host name is not acceptable as a TLS server name.
    InvalidSni,
    /// The TCP connection could not be established.
    TcpError,
    /// The TLS handshake failed.
    TlsError,
    /// Reading from the transport failed.
    ReadError,
    /// Writing to the transport failed.
    WriteError,
    /// The peer closed the stream.
    Eof,
    /// The status code is not listed in the classification table of the expected response.
    UnexpectedResponseCode(u16),
    /// The response is not complete yet; more bytes must be read.
    DecodeNeedMoreBytes,
    /// A field held a value outside the set of known keywords.
    DecodeFromStr,
    /// A field could not be decoded (not a number, or not UTF-8 text).
    DecodeError,
    /// A request could not be encoded.
    EncodeError,
    /// A request was issued while another one is still waiting for its response.
    RequestInFlight,
    /// Response bytes arrived while no request was waiting for them.
    NoRequestInFlight,
    /// An earlier request failed; the connection carries no further requests.
    ConnectionUnusable,
}

/// The description of each error.
pub open spec fn error_text(e: Error) -> &'static str {
    match e {
        Error::ServerNameNotFound => "Server must not be empty",
        Error::ServerPortInvalid => "Port is invalid",
        Error::InvalidSni => "SNI is invalid",
        Error::TcpError => "Unable to TCP connect",
        Error::TlsError => "Unable to TLS handshake",
        Error::ReadError => "Read failed",
        Error::WriteError => "Write failed",
        Error::Eof => "Stream closed",
        Error::UnexpectedResponseCode(_) => "Unexpected response code",
        Error::DecodeNeedMoreBytes => "Need more bytes",
        Error::DecodeFromStr => "Attempt to decode from string failed",
        Error::DecodeError => "Decode error",
        Error::EncodeError => "Encode error",
        Error::RequestInFlight => "A request is already in flight",
        Error::NoRequestInFlight => "No request is in flight",
        Error::ConnectionUnusable => "Connection is unusable after an earlier failure",
    }
}

impl Error {
    /// A short human-readable description of the error.
    pub fn message(&self) -> (r: &'static str)
        ensures
            r == error_text(*self),
    {
        match self {
            Error::ServerNameNotFound => "Server must not be empty",
            Error::ServerPortInvalid => "Port is invalid",
            Error::InvalidSni => "SNI is invalid",
            Error::TcpError => "Unable to TCP connect",
            Error::TlsError => "Unable to TLS handshake",
            Error::ReadError => "Read failed",
            Error::WriteError => "Write failed",
            Error::Eof => "Stream closed",
            Error::UnexpectedResponseCode(_) => "Unexpected response code",
            Error::DecodeNeedMoreBytes => "Need more bytes",
            Error::DecodeFromStr => "Attempt to decode from string failed",
            Error::DecodeError => "Decode error",
            Error::EncodeError => "Encode error",
            Error::RequestInFlight => "A request is already in flight",
            Error::NoRequestInFlight => "No request is in flight",
            Error::ConnectionUnusable => "Connection is unusable after an earlier failure",
        }
    }
}

} // verus!
