use vstd::prelude::*;

use crate::error::Error;
use crate::fetch::{EventView, Event, Fetch, Progress, Signal, SignalView, Signals, State};

pub mod laws;

verus! {

/// How a whole-body fetch ends: with the body, or with the first error.
pub type Outcome = Result<Vec<u8>, Error>;

/// An [`Outcome`], or none yet, as a mathematical value.
pub type OutcomeView = Progress<Result<Seq<u8>, Error>>;

/// The mathematical value of what one poll of a whole-body fetch hands out.
pub open spec fn outcome_view(outcome: Progress<Outcome>) -> OutcomeView {
    match outcome {
        Progress::Pending => Progress::Pending,
        Progress::Ready(Ok(body)) => Progress::Ready(Ok(body@)),
        Progress::Ready(Err(kind)) => Progress::Ready(Err(kind)),
    }
}

/// A fetch that is drained to its end: the chunks are gathered in a buffer
/// that nobody sees until the body is complete.  `F` is what hands out the
/// events: a [`Fetch`], or whatever drives one.
#[derive(Debug)]
pub struct All<F> {
    fetch: F,
    buffer: Vec<u8>,
}

/// What one event does to the bytes gathered so far, and what it makes
/// of the whole: a chunk is added at the end and leaves the outcome
/// open; the end of the body gives out all that was gathered; an error
/// is the outcome, and what was gathered is dropped.
pub open spec fn gather(buffer: Seq<u8>, event: EventView) -> (Seq<u8>, OutcomeView) {
    match event {
        EventView::Chunk(bytes) => (buffer + bytes, Progress::Pending),
        EventView::EndOfBody => (Seq::empty(), Progress::Ready(Ok(buffer))),
        EventView::Error(kind) => (Seq::empty(), Progress::Ready(Err(kind))),
    }
}

/// One poll of a whole-body fetch in `state` with `buffer` gathered,
/// when the transport answers `signal`: the poll of the fetch, and then
/// [`gather`] on the event, if there is one.
pub open spec fn step(state: State, buffer: Seq<u8>, signal: SignalView) -> (
    State,
    Seq<u8>,
    OutcomeView,
) {
    let (next, progress) = state.step(signal);
    match progress {
        Progress::Pending => (next, buffer, Progress::Pending),
        Progress::Ready(event) => {
            let (gathered, outcome) = gather(buffer, event);
            (next, gathered, outcome)
        },
    }
}

/// The outcome of one poll for each of `signals`, in order: that of the
/// first poll that has one.
pub open spec fn resolve(state: State, buffer: Seq<u8>, signals: Signals) -> OutcomeView
    decreases signals.len(),
{
    if signals.len() == 0 {
        Progress::Pending
    } else {
        let (next, gathered, outcome) = step(state, buffer, signals[0]);
        match outcome {
            Progress::Pending => resolve(next, gathered, signals.drop_first()),
            _ => outcome,
        }
    }
}

/// The outcome of a stream of events, of which `buffer` was gathered
/// before: that of the first event that has one.
pub open spec fn drain(buffer: Seq<u8>, events: Seq<EventView>) -> OutcomeView
    decreases events.len(),
{
    if events.len() == 0 {
        Progress::Pending
    } else {
        let (gathered, outcome) = gather(buffer, events[0]);
        match outcome {
            Progress::Pending => drain(gathered, events.drop_first()),
            _ => outcome,
        }
    }
}

impl<F> All<F> {
    /// The fetch that is drained.
    pub closed spec fn fetch(&self) -> &F {
        &self.fetch
    }

    /// The bytes gathered so far.
    pub closed spec fn buffer(&self) -> Seq<u8> {
        self.buffer@
    }

    /// Drain `fetch`, with nothing gathered yet.
    pub fn new(fetch: F) -> (all: Self)
        ensures
            *all.fetch() == fetch,
            all.buffer() == Seq::<u8>::empty(),
    {
        All { fetch, buffer: Vec::new() }
    }

    /// The fetch that is drained, to poll it.  What was gathered stays.
    pub fn fetch_mut(&mut self) -> (fetch: &mut F)
        ensures
            *fetch == *old(self).fetch(),
            *final(self).fetch() == *final(fetch),
            final(self).buffer() == old(self).buffer(),
    {
        &mut self.fetch
    }

    /// Take one event of the fetch: gather a chunk, give out the body at
    /// its end, or pass an error on.  Buffer and result are those of
    /// [`gather`]; the fetch is left as it is.
    pub fn fill(&mut self, data: Event) -> (outcome: Progress<Outcome>)
        ensures
            final(self).fetch() == old(self).fetch(),
            (final(self).buffer(), outcome_view(outcome)) == gather(old(self).buffer(), data@),
    {
        match data {
            Event::Chunk(bytes) => {
                let mut bytes = bytes;
                self.buffer.append(&mut bytes);
                Progress::Pending
            },
            Event::EndOfBody => {
                let mut body: Vec<u8> = Vec::new();
                core::mem::swap(&mut body, &mut self.buffer);
                Progress::Ready(Ok(body))
            },
            Event::Error(kind) => {
                self.buffer.clear();
                Progress::Ready(Err(kind))
            },
        }
    }
}

impl<'a> All<Fetch<'a>> {
    /// Take the transport's answer to the step that the fetch waits for,
    /// poll the fetch with it and gather what comes out.  State, buffer and
    /// result are those of [`step`]; the request is left as it is.
    pub fn poll_next(&mut self, signal: Signal) -> (outcome: Progress<Outcome>)
        ensures
            final(self).fetch().request() == old(self).fetch().request(),
            (final(self).fetch().state(), final(self).buffer(), outcome_view(outcome)) == step(
                old(self).fetch().state(),
                old(self).buffer(),
                signal@,
            ),
    {
        match self.fetch.poll_next(signal) {
            Progress::Pending => Progress::Pending,
            Progress::Ready(event) => self.fill(event),
        }
    }
}

} // verus!
