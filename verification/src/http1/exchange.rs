//! A fetch over a raw byte stream: the request to write, and the response
//! as it is read back.

use vstd::prelude::*;
use vstd::utf8::encode_utf8;

use crate::fetch::{Event, EventView, Fetch, Progress, SignalView, State};
use crate::http1::decoder::{Decoder, DecoderView, Phase};
use crate::http1::encode::{encode, host_of, is_askable, path_of, request_bytes, target, Target};
use crate::method::Method;
use crate::request::Request;

verus! {

/// A fetch that goes over a byte stream which its owner reads and writes.
///
/// The exchange does no I/O.  Its owner connects to [`Exchange::target`],
/// writes [`Exchange::request_bytes`], hands what the stream delivers to
/// [`Exchange::feed`], and polls.
#[derive(Debug)]
pub struct Exchange<'a> {
    fetch: Fetch<'a>,
    decoder: Decoder,
}

impl<'a> Exchange<'a> {
    /// The fetch that goes over the stream.
    pub closed spec fn fetch(&self) -> &Fetch<'a> {
        &self.fetch
    }

    /// The reader of the response.
    pub closed spec fn decoder(&self) -> DecoderView {
        self.decoder@
    }

    /// One poll of a fetch in `state` whose response `decoder` reads.
    ///
    /// A terminal state repeats its last event, and the decoder is left
    /// alone.  Else the decoder is polled and its signal handed to the
    /// fetch; and where that opens the body, the decoder is polled once
    /// more at once, for the first piece of the body.
    pub open spec fn step(state: State, decoder: DecoderView) -> (
        State,
        DecoderView,
        Progress<EventView>,
    ) {
        if state.is_terminal() {
            (state, decoder, Progress::Ready(state.last_event()))
        } else {
            let (signal, read) = decoder.poll();
            let (next, progress) = state.step(signal);
            if state is Initiating && next is Streaming {
                let (signal, read) = read.poll();
                let (next, progress) = next.step(signal);
                (next, read, progress)
            } else {
                (next, read, progress)
            }
        }
    }

    /// Carry `fetch` over a byte stream.  Nothing is read yet; the response
    /// to a `HEAD` is read as one without a body.
    pub fn new(fetch: Fetch<'a>) -> (exchange: Self)
        ensures
            *exchange.fetch() == fetch,
            exchange.decoder() == (DecoderView {
                phase: Phase::StatusLine,
                carry: Seq::empty(),
                closed: false,
                head_only: fetch.request().method == Method::Head,
            }),
    {
        let head_only = match fetch.request().method {
            Method::Head => true,
            _ => false,
        };
        Exchange { fetch, decoder: Decoder::new(head_only) }
    }

    /// Where to connect, if the request's address can be asked for.
    pub fn target(&self) -> (target: Option<Target>)
        ensures
            target is Some <==> is_askable(encode_utf8(self.fetch().request().url@)),
            target matches Some(t) ==> t.host@ == host_of(encode_utf8(self.fetch().request().url@))
                && t.path@ == path_of(encode_utf8(self.fetch().request().url@)),
    {
        target(self.fetch.request().url)
    }

    /// The bytes to write to the stream, if the request's address can be
    /// asked for: the request for the path that the address names.
    pub fn request_bytes(&self) -> (bytes: Option<Vec<u8>>)
        ensures
            bytes is Some <==> is_askable(encode_utf8(self.fetch().request().url@)),
            bytes matches Some(b) ==> b@ == request_bytes(
                self.fetch().request().method,
                path_of(encode_utf8(self.fetch().request().url@)),
                self.fetch().request().headers@,
                self.fetch().request().body@,
            ),
    {
        match target(self.fetch.request().url) {
            Some(target) => Some(encode(self.fetch.request(), &target.path)),
            None => None,
        }
    }

    /// Take the bytes that a read of the stream delivered.
    pub fn feed(&mut self, bytes: &[u8])
        ensures
            final(self).fetch() == old(self).fetch(),
            final(self).decoder() == old(self).decoder().feed(bytes@),
    {
        self.decoder.feed(bytes);
    }

    /// Take note that the stream has ended.
    pub fn close(&mut self)
        ensures
            final(self).fetch() == old(self).fetch(),
            final(self).decoder() == old(self).decoder().close(),
    {
        self.decoder.close();
    }

    /// Take note that the transport failed: the connection could not be
    /// made, or a read or a write went wrong.
    pub fn abort(&mut self)
        ensures
            final(self).fetch() == old(self).fetch(),
            final(self).decoder() == old(self).decoder().abort(),
    {
        self.decoder.abort();
    }

    /// Read on as far as the bytes taken allow, and say what the caller
    /// gets: an event, or nothing yet.  State, decoder and result are those
    /// of [`Exchange::step`]; the request is left as it is.
    pub fn poll_next(&mut self) -> (progress: Progress<Event>)
        ensures
            final(self).fetch().request() == old(self).fetch().request(),
            (final(self).fetch().state(), final(self).decoder(), progress@) == Exchange::step(
                old(self).fetch().state(),
                old(self).decoder(),
            ),
    {
        match self.fetch.state() {
            State::Done => Progress::Ready(Event::EndOfBody),
            State::Failed(kind) => Progress::Ready(Event::Error(kind)),
            State::Streaming => {
                let signal = self.decoder.poll();
                self.fetch.poll_next(signal)
            },
            State::Initiating => {
                let signal = self.decoder.poll();
                let progress = self.fetch.poll_next(signal);
                match self.fetch.state() {
                    State::Streaming => {
                        let signal = self.decoder.poll();
                        self.fetch.poll_next(signal)
                    },
                    _ => progress,
                }
            },
        }
    }
}

} // verus!
