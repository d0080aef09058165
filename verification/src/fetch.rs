use vstd::prelude::*;

use crate::all::All;
use crate::builder::FetchBuilder;
use crate::error::Error;
use crate::header::Header;
use crate::method::Method;
use crate::request::Request;

pub mod laws;

verus! {

/// Where a fetch stands.  It begins in `Initiating` and moves on only:
/// from `Initiating` to `Streaming`, `Done` or `Failed`, from `Streaming` to
/// `Done` or `Failed`.  `Done` and `Failed` are never left.
#[derive(Debug, Copy, Clone, PartialEq, Eq, Structural)]
pub enum State {
    /// The request is on its way; status and headers are not known yet.
    Initiating,
    /// The response was accepted and its body is being read.
    Streaming,
    /// The body is exhausted.
    Done,
    /// The fetch failed, for the reason given.
    Failed(Error),
}

/// What the transport answers when it is asked for the step that the fetch
/// waits for: the response's head while `Initiating`, the next piece of the
/// body while `Streaming`.
#[derive(Debug, Clone, PartialEq, Eq)]
pub enum Signal {
    /// Nothing has arrived yet.
    NotReady,
    /// The connection could not be made, or broke off.
    Broken,
    /// What the peer sent is not a well-formed response.
    Malformed,
    /// The response's head arrived, with this status; `has_body` says
    /// whether the response declares a body.
    Response { status: u16, has_body: bool },
    /// The next piece of the body arrived.
    Chunk(Vec<u8>),
    /// The body is complete.
    End,
}

/// A [`Signal`] as a mathematical value.
pub enum SignalView {
    NotReady,
    Broken,
    Malformed,
    Response { status: u16, has_body: bool },
    Chunk(Seq<u8>),
    End,
}

impl View for Signal {
    type V = SignalView;

    open spec fn view(&self) -> SignalView {
        match self {
            Signal::NotReady => SignalView::NotReady,
            Signal::Broken => SignalView::Broken,
            Signal::Malformed => SignalView::Malformed,
            Signal::Response { status, has_body } => SignalView::Response {
                status: *status,
                has_body: *has_body,
            },
            Signal::Chunk(bytes) => SignalView::Chunk(bytes@),
            Signal::End => SignalView::End,
        }
    }
}

/// What a fetch hands to its caller.
#[derive(Debug, Clone, PartialEq, Eq)]
pub enum Event {
    /// One piece of the response's body
    Chunk(Vec<u8>),
    /// The body is complete; nothing follows.
    EndOfBody,
    /// The fetch failed; nothing follows.
    Error(Error),
}

/// An [`Event`] as a mathematical value.
pub enum EventView {
    Chunk(Seq<u8>),
    EndOfBody,
    Error(Error),
}

impl View for Event {
    type V = EventView;

    open spec fn view(&self) -> EventView {
        match self {
            Event::Chunk(bytes) => EventView::Chunk(bytes@),
            Event::EndOfBody => EventView::EndOfBody,
            Event::Error(kind) => EventView::Error(*kind),
        }
    }
}

impl EventView {
    /// Whether the event is the last of its stream.
    pub open spec fn is_last(self) -> bool {
        !(self is Chunk)
    }
}

/// The outcome of one poll: a value, or nothing yet.
#[derive(Debug, Clone, PartialEq, Eq)]
pub enum Progress<T> {
    /// Nothing yet: poll again once the transport has news.
    Pending,
    /// The poll produced a value.
    Ready(T),
}

impl<T: View> View for Progress<T> {
    type V = Progress<T::V>;

    open spec fn view(&self) -> Progress<T::V> {
        match self {
            Progress::Pending => Progress::Pending,
            Progress::Ready(value) => Progress::Ready(value@),
        }
    }
}

impl State {
    /// Whether the state is one that is never left.
    pub open spec fn is_terminal(self) -> bool {
        self is Done || self is Failed
    }

    /// The event that a terminal state repeats at every poll.
    pub open spec fn last_event(self) -> EventView
        recommends
            self.is_terminal(),
    {
        match self {
            State::Failed(kind) => EventView::Error(kind),
            _ => EventView::EndOfBody,
        }
    }

    /// The state in which a fetch fails, and the event that says so.
    pub open spec fn fail(kind: Error) -> (State, Progress<EventView>) {
        (State::Failed(kind), Progress::Ready(EventView::Error(kind)))
    }

    /// One poll: the state that follows `self` when the transport answers
    /// `signal`, and what the poll hands to the caller.
    ///
    /// While `Initiating`, a response with a status outside 200..=299 fails
    /// the fetch with the kind that stands for the status, whether or not it
    /// declares a body; one that succeeds ends the fetch at once if it
    /// declares no body, and else opens the stream without an event.  While
    /// `Streaming`, each piece of the body is handed on as it is.  A signal
    /// that does not answer the step waited for fails the fetch with
    /// `Protocol`.  A terminal state repeats its last event whatever the
    /// signal, and stays.
    pub open spec fn step(self, signal: SignalView) -> (State, Progress<EventView>) {
        match self {
            State::Initiating => match signal {
                SignalView::NotReady => (State::Initiating, Progress::Pending),
                SignalView::Broken => State::fail(Error::Network),
                SignalView::Malformed => State::fail(Error::Protocol),
                SignalView::Response { status, has_body } => {
                    if !Error::is_success(status) {
                        State::fail(Error::of_status(status))
                    } else if has_body {
                        (State::Streaming, Progress::Pending)
                    } else {
                        (State::Done, Progress::Ready(EventView::EndOfBody))
                    }
                },
                SignalView::Chunk(_) => State::fail(Error::Protocol),
                SignalView::End => State::fail(Error::Protocol),
            },
            State::Streaming => match signal {
                SignalView::NotReady => (State::Streaming, Progress::Pending),
                SignalView::Broken => State::fail(Error::Network),
                SignalView::Malformed => State::fail(Error::Protocol),
                SignalView::Response { .. } => State::fail(Error::Protocol),
                SignalView::Chunk(bytes) => (
                    State::Streaming,
                    Progress::Ready(EventView::Chunk(bytes)),
                ),
                SignalView::End => (State::Done, Progress::Ready(EventView::EndOfBody)),
            },
            State::Done => (State::Done, Progress::Ready(EventView::EndOfBody)),
            State::Failed(kind) => State::fail(kind),
        }
    }
}

/// The answers of a transport, one for each poll, as a mathematical value.
pub type Signals = Seq<SignalView>;

impl State {
    /// How far the state is along its way: terminal states are the farthest.
    pub open spec fn rank(self) -> nat {
        match self {
            State::Initiating => 0,
            State::Streaming => 1,
            _ => 2,
        }
    }

    /// The state reached from `self` by one poll for each of `signals`, in
    /// order.
    pub open spec fn run(self, signals: Signals) -> State
        decreases signals.len(),
    {
        if signals.len() == 0 {
            self
        } else {
            self.step(signals[0]).0.run(signals.drop_first())
        }
    }

    /// The stream that the caller sees over one poll for each of `signals`,
    /// in order: the events handed out, up to and including the first that
    /// is the last of its stream.
    pub open spec fn trace(self, signals: Signals) -> Seq<EventView>
        decreases signals.len(),
    {
        if signals.len() == 0 {
            Seq::empty()
        } else {
            let (next, progress) = self.step(signals[0]);
            match progress {
                Progress::Pending => next.trace(signals.drop_first()),
                Progress::Ready(event) => if event.is_last() {
                    seq![event]
                } else {
                    seq![event] + next.trace(signals.drop_first())
                },
            }
        }
    }
}

/// The answers among `signals` that carry news: all but `NotReady`, in order.
pub open spec fn news(signals: Signals) -> Signals
    decreases signals.len(),
{
    if signals.len() == 0 {
        Seq::empty()
    } else if signals[0] is NotReady {
        news(signals.drop_first())
    } else {
        seq![signals[0]] + news(signals.drop_first())
    }
}

/// The answers of a transport that delivers `chunks` one by one.
pub open spec fn chunk_signals(chunks: Seq<Seq<u8>>) -> Signals {
    chunks.map_values(|bytes: Seq<u8>| SignalView::Chunk(bytes))
}

/// The events that hand out `chunks` one by one.
pub open spec fn chunk_events(chunks: Seq<Seq<u8>>) -> Seq<EventView> {
    chunks.map_values(|bytes: Seq<u8>| EventView::Chunk(bytes))
}

/// A fetch in progress: the request, and where the exchange stands.
///
/// The fetch does no I/O itself.  Whoever drives it asks the transport for
/// the step that the state waits for, and hands the answer to
/// [`Fetch::poll_next`].
#[derive(Debug)]
pub struct Fetch<'a> {
    request: Request<'a>,
    state: State,
}

impl<'a> Fetch<'a> {
    /// The request that is being fetched.
    pub closed spec fn spec_request(&self) -> &Request<'a> {
        &self.request
    }

    /// Where the fetch stands.
    pub closed spec fn spec_state(&self) -> State {
        self.state
    }

    /// Begin a fetch of `url`.
    pub fn new(url: &'a str, method: Method, headers: Vec<Header<'a>>, body: Vec<u8>) -> (fetch:
        Self)
        ensures
            fetch.state() == State::Initiating,
            *fetch.request() == (Request { url, method, headers, body }),
    {
        Fetch { request: Request { url, method, headers, body }, state: State::Initiating }
    }

    /// The request that is being fetched.
    #[verifier::when_used_as_spec(spec_request)]
    pub fn request(&self) -> (request: &Request<'a>)
        ensures
            request == self.request(),
    {
        &self.request
    }

    /// Where the fetch stands.
    #[verifier::when_used_as_spec(spec_state)]
    pub fn state(&self) -> (state: State)
        ensures
            state == self.state(),
    {
        self.state
    }

    /// Take the transport's answer to the step that the fetch waits for, and
    /// say what the caller gets: an event, or nothing yet.  State and result
    /// are those of [`State::step`]; the request is left as it is.
    pub fn poll_next(&mut self, signal: Signal) -> (progress: Progress<Event>)
        ensures
            final(self).request() == old(self).request(),
            (final(self).state(), progress@) == old(self).state().step(signal@),
    {
        match self.state {
            State::Initiating => match signal {
                Signal::NotReady => Progress::Pending,
                Signal::Broken => self.fail(Error::Network),
                Signal::Malformed => self.fail(Error::Protocol),
                Signal::Response { status, has_body } => {
                    if !Error::succeeded(status) {
                        self.fail(Error::new(status))
                    } else if has_body {
                        self.state = State::Streaming;
                        Progress::Pending
                    } else {
                        self.state = State::Done;
                        Progress::Ready(Event::EndOfBody)
                    }
                },
                Signal::Chunk(_) => self.fail(Error::Protocol),
                Signal::End => self.fail(Error::Protocol),
            },
            State::Streaming => match signal {
                Signal::NotReady => Progress::Pending,
                Signal::Broken => self.fail(Error::Network),
                Signal::Malformed => self.fail(Error::Protocol),
                Signal::Response { .. } => self.fail(Error::Protocol),
                Signal::Chunk(bytes) => Progress::Ready(Event::Chunk(bytes)),
                Signal::End => {
                    self.state = State::Done;
                    Progress::Ready(Event::EndOfBody)
                },
            },
            State::Done => Progress::Ready(Event::EndOfBody),
            State::Failed(kind) => Progress::Ready(Event::Error(kind)),
        }
    }

    /// Get a builder for configuring the fetch request.
    pub fn builder(url: &str) -> (built: FetchBuilder<'_>)
        ensures
            built.url() == url,
            built.chosen_method() == Method::Get,
            built.headers() == Seq::<Header<'_>>::empty(),
            built.data()@ == Seq::<u8>::empty(),
    {
        FetchBuilder::new(url)
    }

    /// Fetch the entire contents all at once: drain this fetch to its end.
    pub fn all(self) -> (all: All<Fetch<'a>>)
        ensures
            *all.fetch() == self,
            all.buffer() == Seq::<u8>::empty(),
    {
        All::new(self)
    }

    /// Enter `Failed(kind)` and report it.
    fn fail(&mut self, kind: Error) -> (progress: Progress<Event>)
        ensures
            final(self).request() == old(self).request(),
            (final(self).state(), progress@) == State::fail(kind),
    {
        self.state = State::Failed(kind);
        Progress::Ready(Event::Error(kind))
    }
}

} // verus!
