//! What holds of every whole-body fetch, whatever the transport answers.

use vstd::prelude::*;

use crate::all::{drain, gather, resolve};
use crate::error::Error;
use crate::fetch::laws::{
    lemma_failure_status, lemma_last_event_ends, lemma_success_with_body,
    lemma_success_without_body,
};
use crate::fetch::{chunk_events, chunk_signals, news, EventView, Progress, SignalView, Signals, State};

verus! {

/// A whole-body fetch resolves as the stream of its fetch says: its outcome
/// over a run of polls is what draining the stream of that run gives.
pub proof fn lemma_resolve_drains_trace(state: State, buffer: Seq<u8>, signals: Signals)
    requires
        !state.is_terminal(),
    ensures
        resolve(state, buffer, signals) == drain(buffer, state.trace(signals)),
    decreases signals.len(),
{
    if signals.len() > 0 {
        let rest = signals.drop_first();
        let (next, progress) = state.step(signals[0]);
        lemma_last_event_ends(state, signals[0]);
        match progress {
            Progress::Pending => lemma_resolve_drains_trace(next, buffer, rest),
            Progress::Ready(event) => {
                if !event.is_last() {
                    let stream = state.trace(signals);
                    assert(stream[0] == event);
                    assert(stream.drop_first() =~= next.trace(rest));
                    lemma_resolve_drains_trace(next, gather(buffer, event).0, rest);
                }
            },
        }
    }
}

/// Draining a stream of chunks gathers them in order, behind what was
/// gathered before, and goes on with what follows them.
pub proof fn lemma_drain_chunks(buffer: Seq<u8>, chunks: Seq<Seq<u8>>, rest: Seq<EventView>)
    ensures
        drain(buffer, chunk_events(chunks) + rest) == drain(
            buffer + chunks.flatten(),
            rest,
        ),
    decreases chunks.len(),
{
    let events = chunk_events(chunks) + rest;
    if chunks.len() == 0 {
        assert(events =~= rest);
        assert(buffer + chunks.flatten() =~= buffer);
    } else {
        let tail = chunks.drop_first();
        assert(events[0] == EventView::Chunk(chunks[0]));
        assert(events.drop_first() =~= chunk_events(tail) + rest);
        lemma_drain_chunks(buffer + chunks[0], tail, rest);
        assert(buffer + chunks[0] + tail.flatten() =~= buffer + chunks.flatten());
    }
}

/// A whole-body fetch of a response that succeeds and whose body arrives as
/// `chunks` resolves with the chunks joined in the order of arrival,
/// whatever the transport answers afterwards.
pub proof fn lemma_all_of_body(signals: Signals, status: u16, chunks: Seq<Seq<u8>>, rest: Signals)
    requires
        Error::is_success(status),
        news(signals) == seq![SignalView::Response { status, has_body: true }] + chunk_signals(
            chunks,
        ) + seq![SignalView::End] + rest,
    ensures
        resolve(State::Initiating, Seq::empty(), signals) == Progress::Ready(
            Ok::<Seq<u8>, Error>(chunks.flatten()),
        ),
{
    lemma_success_with_body(signals, status, chunks, rest);
    lemma_resolve_drains_trace(State::Initiating, Seq::empty(), signals);
    let ending = seq![EventView::EndOfBody];
    lemma_drain_chunks(Seq::empty(), chunks, ending);
    assert(Seq::<u8>::empty() + chunks.flatten() =~= chunks.flatten());
    assert(ending[0] == EventView::EndOfBody);
}

/// A whole-body fetch of a response that succeeds and declares no body
/// resolves with no bytes.
pub proof fn lemma_all_of_nothing(signals: Signals, status: u16, rest: Signals)
    requires
        Error::is_success(status),
        news(signals) == seq![SignalView::Response { status, has_body: false }] + rest,
    ensures
        resolve(State::Initiating, Seq::empty(), signals) == Progress::Ready(
            Ok::<Seq<u8>, Error>(Seq::empty()),
        ),
{
    lemma_success_without_body(signals, status, rest);
    lemma_resolve_drains_trace(State::Initiating, Seq::empty(), signals);
    assert(seq![EventView::EndOfBody][0] == EventView::EndOfBody);
}

/// A whole-body fetch of a response whose status is outside 200..=299
/// resolves with the error that stands for the status, whether or not the
/// response declares a body and whatever the transport answers afterwards.
pub proof fn lemma_all_of_failure(signals: Signals, status: u16, has_body: bool, rest: Signals)
    requires
        !Error::is_success(status),
        news(signals) == seq![SignalView::Response { status, has_body }] + rest,
    ensures
        resolve(State::Initiating, Seq::empty(), signals) == Progress::Ready(
            Err::<Seq<u8>, Error>(Error::of_status(status)),
        ),
{
    lemma_failure_status(signals, status, has_body, rest);
    lemma_resolve_drains_trace(State::Initiating, Seq::empty(), signals);
    assert(seq![EventView::Error(Error::of_status(status))][0] == EventView::Error(
        Error::of_status(status),
    ));
}

/// An error resolves a whole-body fetch at once, and what was gathered
/// before it is dropped: the outcome holds none of it.
pub proof fn lemma_error_drops_gathered(
    buffer: Seq<u8>,
    chunks: Seq<Seq<u8>>,
    kind: Error,
    rest: Seq<EventView>,
)
    ensures
        drain(buffer, chunk_events(chunks) + seq![EventView::Error(kind)] + rest)
            == Progress::Ready(Err::<Seq<u8>, Error>(kind)),
{
    let ending = seq![EventView::Error(kind)] + rest;
    assert(chunk_events(chunks) + seq![EventView::Error(kind)] + rest =~= chunk_events(chunks)
        + ending);
    lemma_drain_chunks(buffer, chunks, ending);
    assert(ending[0] == EventView::Error(kind));
}

} // verus!
