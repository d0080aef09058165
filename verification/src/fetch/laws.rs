//! What holds of every run of a fetch, whatever the transport answers.

use vstd::prelude::*;

use crate::error::Error;
use crate::fetch::{chunk_events, chunk_signals, news, EventView, Progress, SignalView, Signals, State};

verus! {

/// A poll never takes a fetch backwards, and never out of a terminal state:
/// `Initiating` leads to any state, `Streaming` to itself, `Done` or
/// `Failed`, and a terminal state to itself.
pub proof fn lemma_step_moves_forward(state: State, signal: SignalView)
    ensures
        state.rank() <= state.step(signal).0.rank(),
        state.is_terminal() ==> state.step(signal).0 == state,
        state.step(signal).0 is Initiating ==> state is Initiating,
{
}

/// A poll enters a terminal state exactly when it hands out the last event
/// of the stream, and the event is the one that the state repeats.
pub proof fn lemma_last_event_ends(state: State, signal: SignalView)
    requires
        !state.is_terminal(),
    ensures
        state.step(signal).0.is_terminal() <==> (state.step(signal).1 matches Progress::Ready(
            event,
        ) && event.is_last()),
        state.step(signal).0.is_terminal() ==> state.step(signal).1 == Progress::Ready(
            state.step(signal).0.last_event(),
        ),
{
}

/// Once a fetch is `Done` or `Failed`, every further poll leaves it there
/// and hands out the same event again: `EndOfBody` when `Done`, and the same
/// kind of error when `Failed`.
pub proof fn lemma_terminal_repeats(state: State, signals: Signals, i: int)
    requires
        state.is_terminal(),
        0 <= i < signals.len(),
    ensures
        state.run(signals) == state,
        state.run(signals.take(i)) == state,
        state.run(signals.take(i)).step(signals[i]) == (
            state,
            Progress::Ready(state.last_event()),
        ),
    decreases signals.len(),
{
    lemma_terminal_stays(state, signals);
    lemma_terminal_stays(state, signals.take(i));
}

/// Once a fetch is `Done` or `Failed`, no run of polls takes it elsewhere.
pub proof fn lemma_terminal_stays(state: State, signals: Signals)
    requires
        state.is_terminal(),
    ensures
        state.run(signals) == state,
    decreases signals.len(),
{
    if signals.len() > 0 {
        lemma_terminal_stays(state, signals.drop_first());
    }
}

/// Running over two rows of answers in turn is running over the two joined.
pub proof fn lemma_run_joined(state: State, first: Signals, second: Signals)
    ensures
        state.run(first + second) == state.run(first).run(second),
    decreases first.len(),
{
    if first.len() == 0 {
        assert(first + second =~= second);
    } else {
        assert((first + second).drop_first() =~= first.drop_first() + second);
        lemma_run_joined(state.step(first[0]).0, first.drop_first(), second);
    }
}

/// Polls that find the transport not ready change nothing: before its last
/// event, a fetch shows the same stream whether or not such polls are mixed
/// into the run.
pub proof fn lemma_not_ready_is_silent(state: State, signals: Signals)
    requires
        !state.is_terminal(),
    ensures
        state.trace(signals) == state.trace(news(signals)),
    decreases signals.len(),
{
    if signals.len() > 0 {
        let rest = signals.drop_first();
        let (next, progress) = state.step(signals[0]);
        if signals[0] is NotReady {
            lemma_not_ready_is_silent(state, rest);
        } else {
            let told = news(signals);
            assert(told[0] == signals[0]);
            assert(told.drop_first() =~= news(rest));
            lemma_last_event_ends(state, signals[0]);
            if !next.is_terminal() {
                lemma_not_ready_is_silent(next, rest);
            }
        }
    }
}

/// While the body streams, the chunks that arrive are handed out one event
/// each, in the order of arrival, and the stream goes on after them as it
/// would have without them.
pub proof fn lemma_chunks_pass_through(chunks: Seq<Seq<u8>>, rest: Signals)
    ensures
        State::Streaming.trace(chunk_signals(chunks) + rest) == chunk_events(chunks)
            + State::Streaming.trace(rest),
        State::Streaming.run(chunk_signals(chunks)) == State::Streaming,
    decreases chunks.len(),
{
    let signals = chunk_signals(chunks) + rest;
    if chunks.len() == 0 {
        assert(signals =~= rest);
        assert(chunk_events(chunks) + State::Streaming.trace(rest) =~= State::Streaming.trace(
            rest,
        ));
    } else {
        let tail = chunks.drop_first();
        assert(signals[0] == SignalView::Chunk(chunks[0]));
        assert(signals.drop_first() =~= chunk_signals(tail) + rest);
        assert(chunk_signals(chunks).drop_first() =~= chunk_signals(tail));
        lemma_chunks_pass_through(tail, rest);
        assert(chunk_events(chunks) =~= seq![EventView::Chunk(chunks[0])] + chunk_events(tail));
        assert(seq![EventView::Chunk(chunks[0])] + (chunk_events(tail) + State::Streaming.trace(
            rest,
        )) =~= chunk_events(chunks) + State::Streaming.trace(rest));
    }
}

/// A response that succeeds and declares no body makes a stream of exactly
/// one event, `EndOfBody`, whatever the transport answers afterwards, and
/// leaves the fetch `Done`.
pub proof fn lemma_success_without_body(signals: Signals, status: u16, rest: Signals)
    requires
        Error::is_success(status),
        news(signals) == seq![SignalView::Response { status, has_body: false }] + rest,
    ensures
        State::Initiating.trace(signals) == seq![EventView::EndOfBody],
        State::Initiating.run(news(signals)) == State::Done,
{
    lemma_not_ready_is_silent(State::Initiating, signals);
    let told = news(signals);
    assert(told[0] == SignalView::Response { status, has_body: false });
    assert(told.drop_first() =~= rest);
    lemma_terminal_stays(State::Done, rest);
}

/// A response that succeeds and whose body arrives as `chunks` makes a
/// stream of one `Chunk` event for each of them, in the order of arrival,
/// then one `EndOfBody` and nothing more, whatever the transport answers
/// afterwards, and leaves the fetch `Done`.
pub proof fn lemma_success_with_body(
    signals: Signals,
    status: u16,
    chunks: Seq<Seq<u8>>,
    rest: Signals,
)
    requires
        Error::is_success(status),
        news(signals) == seq![SignalView::Response { status, has_body: true }] + chunk_signals(
            chunks,
        ) + seq![SignalView::End] + rest,
    ensures
        State::Initiating.trace(signals) == chunk_events(chunks) + seq![EventView::EndOfBody],
        State::Initiating.run(news(signals)) == State::Done,
{
    lemma_not_ready_is_silent(State::Initiating, signals);
    let told = news(signals);
    let body = chunk_signals(chunks) + (seq![SignalView::End] + rest);
    assert(told[0] == SignalView::Response { status, has_body: true });
    assert(told.drop_first() =~= body);
    lemma_chunks_pass_through(chunks, seq![SignalView::End] + rest);
    let ending = seq![SignalView::End] + rest;
    assert(ending[0] == SignalView::End);
    assert(State::Streaming.trace(ending) == seq![EventView::EndOfBody]);
    lemma_run_joined(State::Streaming, chunk_signals(chunks), ending);
    assert(ending.drop_first() =~= rest);
    lemma_terminal_stays(State::Done, rest);
}

/// A response whose status is outside 200..=299 makes a stream of exactly
/// one event, the error that stands for the status, whether or not the
/// response declares a body and whatever the transport answers afterwards:
/// no chunk is ever handed out.  The fetch is left `Failed` with that kind.
pub proof fn lemma_failure_status(signals: Signals, status: u16, has_body: bool, rest: Signals)
    requires
        !Error::is_success(status),
        news(signals) == seq![SignalView::Response { status, has_body }] + rest,
    ensures
        State::Initiating.trace(signals) == seq![EventView::Error(Error::of_status(status))],
        State::Initiating.run(news(signals)) == State::Failed(Error::of_status(status)),
{
    lemma_not_ready_is_silent(State::Initiating, signals);
    let told = news(signals);
    assert(told[0] == SignalView::Response { status, has_body });
    assert(told.drop_first() =~= rest);
    lemma_terminal_stays(State::Failed(Error::of_status(status)), rest);
}

/// A stream holds at most one last event, and holds it at its end: nothing,
/// and so no chunk, follows `EndOfBody` or an error.
pub proof fn lemma_trace_ends_once(state: State, signals: Signals, i: int)
    requires
        0 <= i < state.trace(signals).len(),
        state.trace(signals)[i].is_last(),
    ensures
        i == state.trace(signals).len() - 1,
    decreases signals.len(),
{
    if signals.len() > 0 {
        let (next, progress) = state.step(signals[0]);
        match progress {
            Progress::Pending => lemma_trace_ends_once(next, signals.drop_first(), i),
            Progress::Ready(event) => {
                if !event.is_last() {
                    if i > 0 {
                        lemma_trace_ends_once(next, signals.drop_first(), i - 1);
                    }
                }
            },
        }
    }
}

} // verus!
