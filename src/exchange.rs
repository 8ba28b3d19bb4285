//! The decisions of a connection: one request at a time, and the bytes that
//! arrive for it accumulated and decoded afresh after every read until a
//! whole response is there. The reads and writes themselves are done by the
//! caller, which hands each chunk in.
use crate::decoder::{crlf, dot_crlf, ends_with, find, lemma_find, matches_at, Decoder};
use crate::error::Error;
use crate::framing::{
    decode_response, lookup, response_of, status_code, status_line_start, Decode, GenericMessage,
};
use vstd::prelude::*;

verus! {

/// Where a connection stands.
#[derive(Debug, Clone, Copy, PartialEq, Eq, Structural)]
pub enum Phase {
    /// Ready for a request.
    Idle,
    /// A request was sent and its response has not been decoded yet.
    AwaitingResponse,
    /// An earlier request failed; no further request is accepted.
    Unusable,
}

/// One connection's half-duplex state: its phase and the bytes received so far
/// for the request in flight.
pub struct Exchange {
    phase: Phase,
    pending: Decoder,
}

impl Exchange {
    pub closed spec fn spec_phase(&self) -> Phase {
        self.phase
    }

    pub closed spec fn spec_pending(&self) -> Seq<u8> {
        self.pending@
    }

    /// A new connection: it awaits the server's greeting before any request.
    pub fn new() -> (r: Exchange)
        ensures
            r.spec_phase() == Phase::AwaitingResponse,
            r.spec_pending() == Seq::<u8>::empty(),
    {
        Exchange { phase: Phase::AwaitingResponse, pending: Decoder::new() }
    }

    pub fn phase(&self) -> (r: Phase)
        ensures
            r == self.spec_phase(),
    {
        self.phase
    }

    /// Starts a request. Only an idle connection accepts one: while a response
    /// is awaited the request is refused and nothing changes.
    pub fn begin(&mut self) -> (r: Result<(), Error>)
        ensures
            old(self).spec_phase() == Phase::Idle ==> r is Ok && final(self).spec_phase()
                == Phase::AwaitingResponse && final(self).spec_pending() == Seq::<u8>::empty(),
            old(self).spec_phase() == Phase::AwaitingResponse ==> r == Err::<(), Error>(
                Error::RequestInFlight,
            ) && *final(self) == *old(self),
            old(self).spec_phase() == Phase::Unusable ==> r == Err::<(), Error>(
                Error::ConnectionUnusable,
            ) && *final(self) == *old(self),
    {
        match self.phase {
            Phase::Idle => {
                self.phase = Phase::AwaitingResponse;
                self.pending = Decoder::new();
                Ok(())
            },
            Phase::AwaitingResponse => Err(Error::RequestInFlight),
            Phase::Unusable => Err(Error::ConnectionUnusable),
        }
    }

    /// Marks the connection unusable, after a failure of the transport.
    pub fn fail(&mut self)
        ensures
            final(self).spec_phase() == Phase::Unusable,
    {
        self.phase = Phase::Unusable;
    }

    /// Takes in one chunk of received bytes and tries to decode the whole
    /// accumulated response again.
    pub fn receive<T: Decode>(&mut self, chunk: &[u8]) -> (r: Result<
        Option<GenericMessage<T>>,
        Error,
    >)
        ensures
            old(self).spec_phase() != Phase::AwaitingResponse ==> r == Err::<
                Option<GenericMessage<T>>,
                Error,
            >(Error::NoRequestInFlight) && *final(self) == *old(self),
            old(self).spec_phase() == Phase::AwaitingResponse ==> view_step(r) == step::<T>(
                old(self).spec_pending(),
                chunk@,
            ) && match step::<T>(old(self).spec_pending(), chunk@) {
                Ok(None) => final(self).spec_phase() == Phase::AwaitingResponse
                    && final(self).spec_pending() == old(self).spec_pending() + chunk@,
                Ok(Some(_)) => final(self).spec_phase() == Phase::Idle
                    && final(self).spec_pending() == Seq::<u8>::empty(),
                Err(_) => final(self).spec_phase() == Phase::Unusable,
            },
    {
        if self.phase != Phase::AwaitingResponse {
            return Err(Error::NoRequestInFlight);
        }
        self.pending.extend(chunk);
        match decode_response::<T>(self.pending.as_slice()) {
            Ok(m) => {
                self.phase = Phase::Idle;
                self.pending = Decoder::new();
                Ok(Some(m))
            },
            Err(Error::DecodeNeedMoreBytes) => Ok(None),
            Err(e) => {
                self.phase = Phase::Unusable;
                Err(e)
            },
        }
    }
}

/// A decode attempt's outcome with the response replaced by its view.
pub open spec fn view_step<T: View>(r: Result<Option<GenericMessage<T>>, Error>) -> Result<
    Option<(u16, T::V)>,
    Error,
> {
    match r {
        Ok(Some(m)) => Ok(Some(m@)),
        Ok(None) => Ok(None),
        Err(e) => Err(e),
    }
}

/// One decode attempt after a chunk arrives: the accumulated bytes and the
/// chunk are decoded as a whole; a response that is not complete yet is `Ok(None)`.
pub open spec fn step<T: Decode>(pending: Seq<u8>, chunk: Seq<u8>) -> Result<
    Option<(u16, T::V)>,
    Error,
> {
    match response_of::<T>(pending + chunk) {
        Ok(m) => Ok(Some(m)),
        Err(Error::DecodeNeedMoreBytes) => Ok(None),
        Err(e) => Err(e),
    }
}

/// Feeding chunks one at a time, from accumulated bytes `pending`, until an
/// attempt yields a response or an error; `Ok(None)` when the chunks run out first.
pub open spec fn deliver<T: Decode>(pending: Seq<u8>, chunks: Seq<Seq<u8>>) -> Result<
    Option<(u16, T::V)>,
    Error,
>
    decreases chunks.len(),
{
    if chunks.len() == 0 {
        Ok(None)
    } else {
        match step::<T>(pending, chunks[0]) {
            Ok(None) => deliver::<T>(pending + chunks[0], chunks.drop_first()),
            r => r,
        }
    }
}

/// A complete response that ends at its own terminator: three digits, the
/// code, and a space, and no earlier point at which the response would already be closed
/// (for a single-line response the first `"\r\n"` is the last two bytes; for a
/// multi-line one, the first `"\r\n.\r\n"` after the code ends the bytes).
pub open spec fn well_framed<T: Decode>(s: Seq<u8>) -> bool {
    &&& s.len() >= 6
    &&& status_line_start(s)
    &&& match lookup(T::table(), status_code(s)) {
        Some(row) => if row.1 {
            s.len() >= 9 && find(s.subrange(4, s.len() as int), dot_crlf()) == Some(
                s.len() - 9,
            )
        } else {
            find(s, crlf()) == Some(s.len() - 2)
        },
        None => find(s, crlf()) == Some(s.len() - 2),
    }
}

proof fn lemma_prefix_incomplete<T: Decode>(s: Seq<u8>, k: int)
    requires
        well_framed::<T>(s),
        0 <= k < s.len(),
    ensures
        response_of::<T>(s.subrange(0, k)) == Err::<(u16, T::V), Error>(
            Error::DecodeNeedMoreBytes,
        ),
{
    let p = s.subrange(0, k);
    if p.len() < 3 || !ends_with(p, crlf()) {
    } else {
        assert(p.subrange(k - 2, k) == s.subrange(k - 2, k));
        assert(matches_at(s, crlf(), k - 2));
        if k == 3 {
            assert(p.subrange(1, 3)[0] == s[1]);
            assert(false);
        }
        assert(p[0] == s[0] && p[1] == s[1] && p[2] == s[2] && p[3] == s[3]);
        let c = status_code(s);
        let body = p.subrange(4, k);
        lemma_find(s, crlf());
        match lookup(T::table(), c) {
            Some(row) => {
                if row.1 {
                    let tail = s.subrange(4, s.len() as int);
                    lemma_find(tail, dot_crlf());
                    if ends_with(body, dot_crlf()) {
                        assert(body.subrange(body.len() - 5, body.len() as int) =~= tail.subrange(
                            k - 9,
                            k - 4,
                        ));
                        assert(matches_at(tail, dot_crlf(), k - 9));
                        assert(false);
                    }
                } else {
                    assert(false);
                }
            },
            None => {
                assert(false);
            },
        }
    }
}

proof fn lemma_deliver_from<T: Decode>(whole: Seq<u8>, pending: Seq<u8>, chunks: Seq<Seq<u8>>)
    requires
        well_framed::<T>(whole),
        chunks.len() > 0,
        forall|i: int| 0 <= i < chunks.len() ==> (#[trigger] chunks[i]).len() > 0,
        pending + chunks.flatten() == whole,
    ensures
        deliver::<T>(pending, chunks) == deliver::<T>(Seq::empty(), seq![whole]),
    decreases chunks.len(),
{
    let next = pending + chunks[0];
    let rest = chunks.drop_first();
    assert(chunks.flatten() == chunks[0] + rest.flatten());
    assert(next + rest.flatten() =~= whole);
    assert(seq![whole].drop_first() =~= Seq::<Seq<u8>>::empty());
    assert(Seq::<u8>::empty() + whole =~= whole);
    assert(seq![whole][0] == whole);
    assert(deliver::<T>(whole, Seq::<Seq<u8>>::empty()) == Ok::<Option<(u16, T::V)>, Error>(
        None,
    ));
    if rest.len() == 0 {
        assert(next =~= whole);
        assert(deliver::<T>(next, rest) == Ok::<Option<(u16, T::V)>, Error>(None));
        assert(step::<T>(Seq::empty(), whole) == step::<T>(pending, chunks[0]));
    } else {
        assert(rest[0].len() > 0);
        assert(rest.flatten() == rest[0] + rest.drop_first().flatten());
        assert(whole.subrange(0, next.len() as int) =~= next);
        lemma_prefix_incomplete::<T>(whole, next.len() as int);
        assert forall|i: int| 0 <= i < rest.len() implies (#[trigger] rest[i]).len() > 0 by {
            assert(rest[i] == chunks[i + 1]);
        }
        lemma_deliver_from::<T>(whole, next, rest);
        assert(step::<T>(pending, chunks[0]) == Ok::<Option<(u16, T::V)>, Error>(None));
    }
}

/// Splitting a complete response into any non-empty chunks and decoding after
/// each one yields what decoding the whole response at once yields.
pub proof fn lemma_incremental_delivery<T: Decode>(whole: Seq<u8>, chunks: Seq<Seq<u8>>)
    requires
        well_framed::<T>(whole),
        chunks.len() > 0,
        forall|i: int| 0 <= i < chunks.len() ==> (#[trigger] chunks[i]).len() > 0,
        chunks.flatten() == whole,
    ensures
        deliver::<T>(Seq::empty(), chunks) == deliver::<T>(Seq::empty(), seq![whole]),
{
    assert(Seq::<u8>::empty() + chunks.flatten() =~= whole);
    lemma_deliver_from::<T>(whole, Seq::empty(), chunks);
}

} // verus!
