//! Reading a response out of a byte stream that arrives in pieces.

use vstd::prelude::*;
use vstd::slice::slice_subrange;

use crate::fetch::{Signal, SignalView};
use crate::http1::head::{
    add_field, chunk_size_of, declares_body, field_of, framing_with, has_body, read_chunk_size,
    read_field, read_status, status_of,
};
use crate::http1::text::{find_line, lemma_line_end_found, line_end, push_bytes, CR, LF};

verus! {

/// How far a response has been read.
#[derive(Debug, Copy, Clone, PartialEq, Eq, Structural)]
pub enum Phase {
    /// The status line is awaited.
    StatusLine,
    /// The status is known and header fields are read, up to the blank line
    /// that ends the head.
    Fields { status: u16, length: Option<u64>, chunked: bool },
    /// The body has a declared length, of which `remaining` bytes are
    /// still to come.
    Fixed { remaining: u64 },
    /// The body comes in chunks, and the line with the next chunk's size
    /// is awaited.
    ChunkSize,
    /// The `size` bytes of a chunk and the line break behind them are
    /// awaited.
    ChunkData { size: usize },
    /// The last chunk is read, and trailer lines are skipped up to the
    /// blank line that ends the body.
    Trailer,
    /// The response is read to its end.
    Finished,
    /// The stream broke off before the response's end.
    Broken,
    /// What arrived is no well-formed response.
    Malformed,
}

impl Phase {
    /// Whether nothing more is read in this phase.
    pub open spec fn is_terminal(self) -> bool {
        self is Finished || self is Broken || self is Malformed
    }

    /// Whether the head is still being read.
    pub open spec fn in_head(self) -> bool {
        self is StatusLine || self is Fields
    }

    /// The signal that a terminal phase repeats at every poll.
    pub open spec fn last_signal(self) -> SignalView
        recommends
            self.is_terminal(),
    {
        match self {
            Phase::Broken => SignalView::Broken,
            Phase::Malformed => SignalView::Malformed,
            _ => SignalView::End,
        }
    }
}

/// A decoder as a mathematical value.
pub struct DecoderView {
    /// How far the response has been read
    pub phase: Phase,
    /// The bytes that arrived and are not read yet: the start of a line or
    /// of a chunk that is not complete
    pub carry: Seq<u8>,
    /// Whether the stream has ended
    pub closed: bool,
    /// Whether the response answers a `HEAD`, and so has no body
    pub head_only: bool,
}

/// What a decoder can do with the bytes it holds, in one step.
pub enum Micro {
    /// Nothing: more bytes are needed.
    Stall,
    /// Read a line and go on, with nothing to report.
    Move(DecoderView),
    /// Report a signal.
    Emit(SignalView, DecoderView),
}

impl DecoderView {
    /// The decoder after `used` bytes were read, in `phase`.
    pub open spec fn moved(self, phase: Phase, used: int) -> DecoderView {
        DecoderView { phase, carry: self.carry.skip(used), ..self }
    }

    /// The decoder at its end, in the terminal `phase`: it holds no bytes.
    pub open spec fn ended(self, phase: Phase) -> DecoderView {
        DecoderView { phase, carry: Seq::empty(), ..self }
    }

    /// The step that ends the reading in the terminal `phase`.
    pub open spec fn end_with(self, phase: Phase) -> Micro {
        Micro::Emit(phase.last_signal(), self.ended(phase))
    }

    /// The step where the bytes held do not suffice: to wait for more, or,
    /// where the stream has ended, to fail.  A stream that ends inside the
    /// head is malformed; one that ends inside the body broke off.
    pub open spec fn starve(self) -> Micro {
        if !self.closed {
            Micro::Stall
        } else if self.phase.in_head() {
            self.end_with(Phase::Malformed)
        } else {
            self.end_with(Phase::Broken)
        }
    }

    /// The decoder after `bytes` arrived: they are added behind those held.
    /// Nothing is taken after the stream's end, nor in a terminal phase.
    pub open spec fn feed(self, bytes: Seq<u8>) -> DecoderView {
        if self.closed || self.phase.is_terminal() {
            self
        } else {
            DecoderView { carry: self.carry + bytes, ..self }
        }
    }

    /// The decoder after the stream ended.
    pub open spec fn close(self) -> DecoderView {
        DecoderView { closed: true, ..self }
    }

    /// The decoder after the transport failed: `Broken`, unless its phase
    /// was terminal before.
    pub open spec fn abort(self) -> DecoderView {
        if self.phase.is_terminal() {
            self
        } else {
            self.ended(Phase::Broken)
        }
    }

    /// One step of reading.
    ///
    /// In the head, one line is read at a time: the status line, then field
    /// lines, of which those on the framing are followed, up to the blank
    /// line, at which the response is reported.  A body of declared length
    /// is handed out in pieces as large as the bytes held allow, and ends
    /// when the length is reached.  A chunked body is handed out chunk by
    /// chunk, each one when all of it and the line break behind it have
    /// arrived; the chunk of size 0 ends it, after trailer lines up to a
    /// blank line.  A line that cannot be read as what is awaited, and a
    /// chunk that no line break follows, make the response malformed.  A
    /// terminal phase repeats its signal and stays.
    pub open spec fn micro(self) -> Micro {
        match self.phase {
            Phase::StatusLine => match line_end(self.carry) {
                None => self.starve(),
                Some(end) => match status_of(self.carry.take(end)) {
                    None => self.end_with(Phase::Malformed),
                    Some(status) => Micro::Move(
                        self.moved(Phase::Fields { status, length: None, chunked: false }, end + 2),
                    ),
                },
            },
            Phase::Fields { status, length, chunked } => match line_end(self.carry) {
                None => self.starve(),
                Some(end) => if end == 0 {
                    let has_body = declares_body(self.head_only, status, length, chunked);
                    let signal = SignalView::Response { status, has_body };
                    if !has_body {
                        Micro::Emit(signal, self.ended(Phase::Finished))
                    } else if chunked {
                        Micro::Emit(signal, self.moved(Phase::ChunkSize, 2))
                    } else {
                        Micro::Emit(
                            signal,
                            self.moved(Phase::Fixed { remaining: length.unwrap() }, 2),
                        )
                    }
                } else {
                    match field_of(self.carry.take(end)) {
                        None => self.end_with(Phase::Malformed),
                        Some(field) => match framing_with(length, chunked, field) {
                            None => self.end_with(Phase::Malformed),
                            Some(framing) => Micro::Move(
                                self.moved(
                                    Phase::Fields { status, length: framing.0, chunked: framing.1 },
                                    end + 2,
                                ),
                            ),
                        },
                    }
                },
            },
            Phase::Fixed { remaining } => if remaining == 0 {
                self.end_with(Phase::Finished)
            } else if self.carry.len() > 0 {
                let n = if self.carry.len() <= remaining {
                    self.carry.len() as int
                } else {
                    remaining as int
                };
                Micro::Emit(
                    SignalView::Chunk(self.carry.take(n)),
                    self.moved(Phase::Fixed { remaining: (remaining - n) as u64 }, n),
                )
            } else {
                self.starve()
            },
            Phase::ChunkSize => match line_end(self.carry) {
                None => self.starve(),
                Some(end) => match chunk_size_of(self.carry.take(end)) {
                    None => self.end_with(Phase::Malformed),
                    Some(size) => if size == 0 {
                        Micro::Move(self.moved(Phase::Trailer, end + 2))
                    } else {
                        Micro::Move(self.moved(Phase::ChunkData { size }, end + 2))
                    },
                },
            },
            Phase::ChunkData { size } => if self.carry.len() < size + 2 {
                self.starve()
            } else if self.carry[size as int] == CR && self.carry[size + 1] == LF {
                Micro::Emit(
                    SignalView::Chunk(self.carry.take(size as int)),
                    self.moved(Phase::ChunkSize, size + 2),
                )
            } else {
                self.end_with(Phase::Malformed)
            },
            Phase::Trailer => match line_end(self.carry) {
                None => self.starve(),
                Some(end) => if end == 0 {
                    self.end_with(Phase::Finished)
                } else {
                    Micro::Move(self.moved(Phase::Trailer, end + 2))
                },
            },
            Phase::Finished => Micro::Emit(SignalView::End, self),
            Phase::Broken => Micro::Emit(SignalView::Broken, self),
            Phase::Malformed => Micro::Emit(SignalView::Malformed, self),
        }
    }

    /// All the news that the bytes held give, and the decoder after them:
    /// steps of reading, up to where more bytes are needed or a terminal
    /// phase is reached.
    pub open spec fn run(self) -> (Seq<SignalView>, DecoderView)
        decreases self.carry.len(), (if self.phase.is_terminal() {
            0nat
        } else {
            1nat
        }),
    {
        if self.phase.is_terminal() {
            (Seq::empty(), self)
        } else {
            match self.micro() {
                Micro::Stall => (Seq::empty(), self),
                Micro::Move(next) => next.run(),
                Micro::Emit(signal, next) => (seq![signal] + next.run().0, next.run().1),
            }
        }
    }

    /// One poll: steps of reading up to the first that has a signal, which
    /// is reported, or up to where more bytes are needed, which is reported
    /// as `NotReady`.
    pub open spec fn poll(self) -> (SignalView, DecoderView)
        decreases self.carry.len(),
    {
        match self.micro() {
            Micro::Stall => (SignalView::NotReady, self),
            Micro::Move(next) => next.poll(),
            Micro::Emit(signal, next) => (signal, next),
        }
    }
}

/// A step that reads a line uses up bytes.
pub proof fn lemma_move_shrinks(v: DecoderView)
    ensures
        v.micro() matches Micro::Move(next) ==> next.carry.len() + 2 <= v.carry.len()
            && next.closed == v.closed && next.head_only == v.head_only
            && !next.phase.is_terminal() && !v.phase.is_terminal(),
{
    lemma_line_end_found(v.carry);
}

/// Reads a response out of a byte stream that arrives in pieces of any
/// size.  Whoever reads the stream hands each piece to [`Decoder::feed`] and
/// polls for what has become readable; the decoder holds no more bytes than
/// the line or chunk that is not complete yet.
#[derive(Debug)]
pub struct Decoder {
    phase: Phase,
    carry: Vec<u8>,
    closed: bool,
    head_only: bool,
}

impl View for Decoder {
    type V = DecoderView;

    closed spec fn view(&self) -> DecoderView {
        DecoderView {
            phase: self.phase,
            carry: self.carry@,
            closed: self.closed,
            head_only: self.head_only,
        }
    }
}

/// What one step of reading did.
enum Turn {
    Stall,
    Moved,
    Emit(Signal),
}

/// Whether a step that returned `turn` and left the decoder as `after` is
/// the step `micro`.
spec fn turn_is(turn: Turn, before: DecoderView, after: DecoderView, micro: Micro) -> bool {
    match micro {
        Micro::Stall => turn is Stall && after == before,
        Micro::Move(next) => turn is Moved && after == next,
        Micro::Emit(signal, next) => turn matches Turn::Emit(s) && s@ == signal && after == next,
    }
}

impl Decoder {
    /// A decoder that has read nothing.  `head_only` says that the
    /// response answers a `HEAD`.
    pub fn new(head_only: bool) -> (decoder: Self)
        ensures
            decoder@ == (DecoderView {
                phase: Phase::StatusLine,
                carry: Seq::empty(),
                closed: false,
                head_only,
            }),
    {
        Decoder { phase: Phase::StatusLine, carry: Vec::new(), closed: false, head_only }
    }

    /// How far the response has been read.
    pub fn phase(&self) -> (phase: Phase)
        ensures
            phase == self@.phase,
    {
        self.phase
    }

    /// Take the bytes that a read of the stream delivered.
    pub fn feed(&mut self, bytes: &[u8])
        ensures
            final(self)@ == old(self)@.feed(bytes@),
    {
        if self.closed || self.is_over() {
            return ;
        }
        push_bytes(&mut self.carry, bytes);
    }

    /// Take note that the stream has ended: no more bytes will arrive.
    pub fn close(&mut self)
        ensures
            final(self)@ == old(self)@.close(),
    {
        self.closed = true;
    }

    /// Take note that the transport failed.
    pub fn abort(&mut self)
        ensures
            final(self)@ == old(self)@.abort(),
    {
        if !self.is_over() {
            self.phase = Phase::Broken;
            self.carry = Vec::new();
        }
    }

    /// Whether the phase is terminal.
    fn is_over(&self) -> (over: bool)
        ensures
            over == self@.phase.is_terminal(),
    {
        match self.phase {
            Phase::Finished => true,
            Phase::Broken => true,
            Phase::Malformed => true,
            _ => false,
        }
    }

    /// Drop the first `used` bytes held, and enter `phase`.
    fn go_on(&mut self, phase: Phase, used: usize)
        requires
            used <= old(self)@.carry.len(),
        ensures
            final(self)@ == old(self)@.moved(phase, used as int),
    {
        let rest = self.carry.split_off(used);
        self.carry = rest;
        self.phase = phase;
    }

    /// Take the first `size` bytes held out of the decoder.
    fn take_front(&mut self, size: usize) -> (front: Vec<u8>)
        requires
            size <= old(self)@.carry.len(),
        ensures
            front@ == old(self)@.carry.take(size as int),
            final(self)@ == old(self)@.moved(old(self)@.phase, size as int),
    {
        let rest = self.carry.split_off(size);
        let mut front = rest;
        core::mem::swap(&mut self.carry, &mut front);
        front
    }

    /// End the reading in the terminal `phase`, and report it.
    fn end_with(&mut self, phase: Phase) -> (turn: Turn)
        requires
            phase.is_terminal(),
        ensures
            turn_is(turn, old(self)@, final(self)@, old(self)@.end_with(phase)),
    {
        self.phase = phase;
        self.carry = Vec::new();
        match phase {
            Phase::Broken => Turn::Emit(Signal::Broken),
            Phase::Malformed => Turn::Emit(Signal::Malformed),
            _ => Turn::Emit(Signal::End),
        }
    }

    /// Wait for more bytes, or fail where none will arrive.
    fn starve(&mut self) -> (turn: Turn)
        ensures
            turn_is(turn, old(self)@, final(self)@, old(self)@.starve()),
    {
        if !self.closed {
            Turn::Stall
        } else {
            match self.phase {
                Phase::StatusLine => self.end_with(Phase::Malformed),
                Phase::Fields { .. } => self.end_with(Phase::Malformed),
                _ => self.end_with(Phase::Broken),
            }
        }
    }

    /// One step of reading.
    fn turn(&mut self) -> (turn: Turn)
        ensures
            turn_is(turn, old(self)@, final(self)@, old(self)@.micro()),
    {
        proof {
            lemma_line_end_found(self@.carry);
        }
        match self.phase {
            Phase::StatusLine => match find_line(&self.carry) {
                None => self.starve(),
                Some(end) => match read_status(slice_subrange(self.carry.as_slice(), 0, end)) {
                    None => self.end_with(Phase::Malformed),
                    Some(status) => {
                        self.go_on(Phase::Fields { status, length: None, chunked: false }, end + 2);
                        Turn::Moved
                    },
                },
            },
            Phase::Fields { status, length, chunked } => match find_line(&self.carry) {
                None => self.starve(),
                Some(end) => if end == 0 {
                    let has_body = has_body(self.head_only, status, length, chunked);
                    if !has_body {
                        self.phase = Phase::Finished;
                        self.carry = Vec::new();
                    } else if chunked {
                        self.go_on(Phase::ChunkSize, 2);
                    } else {
                        match length {
                            Some(remaining) => self.go_on(Phase::Fixed { remaining }, 2),
                            None => {},
                        }
                    }
                    Turn::Emit(Signal::Response { status, has_body })
                } else {
                    match read_field(slice_subrange(self.carry.as_slice(), 0, end)) {
                        None => self.end_with(Phase::Malformed),
                        Some(field) => match add_field(length, chunked, field) {
                            None => self.end_with(Phase::Malformed),
                            Some(framing) => {
                                self.go_on(
                                    Phase::Fields { status, length: framing.0, chunked: framing.1 },
                                    end + 2,
                                );
                                Turn::Moved
                            },
                        },
                    }
                },
            },
            Phase::Fixed { remaining } => {
                let held = self.carry.len();
                if remaining == 0 {
                    self.end_with(Phase::Finished)
                } else if held > 0 {
                    let n: usize = if held as u64 <= remaining {
                        held
                    } else {
                        remaining as usize
                    };
                    let chunk = self.take_front(n);
                    self.phase = Phase::Fixed { remaining: remaining - n as u64 };
                    Turn::Emit(Signal::Chunk(chunk))
                } else {
                    self.starve()
                }
            },
            Phase::ChunkSize => match find_line(&self.carry) {
                None => self.starve(),
                Some(end) => match read_chunk_size(slice_subrange(self.carry.as_slice(), 0, end)) {
                    None => self.end_with(Phase::Malformed),
                    Some(size) => {
                        if size == 0 {
                            self.go_on(Phase::Trailer, end + 2);
                        } else {
                            self.go_on(Phase::ChunkData { size }, end + 2);
                        }
                        Turn::Moved
                    },
                },
            },
            Phase::ChunkData { size } => {
                let held = self.carry.len();
                if held < 2 || held - 2 < size {
                    self.starve()
                } else if self.carry[size] == CR && self.carry[size + 1] == LF {
                    let chunk = self.take_front(size);
                    self.go_on(Phase::ChunkSize, 2);
                    assert(self@.carry =~= old(self)@.carry.skip(size + 2));
                    Turn::Emit(Signal::Chunk(chunk))
                } else {
                    self.end_with(Phase::Malformed)
                }
            },
            Phase::Trailer => match find_line(&self.carry) {
                None => self.starve(),
                Some(end) => if end == 0 {
                    self.end_with(Phase::Finished)
                } else {
                    self.go_on(Phase::Trailer, end + 2);
                    Turn::Moved
                },
            },
            Phase::Finished => Turn::Emit(Signal::End),
            Phase::Broken => Turn::Emit(Signal::Broken),
            Phase::Malformed => Turn::Emit(Signal::Malformed),
        }
    }

    /// Read on as far as the bytes held allow, and report the first news:
    /// the response's head, a piece of the body, its end or a failure; or
    /// `NotReady` where more bytes are needed.  Signal and decoder are
    /// those of [`DecoderView::poll`].
    pub fn poll(&mut self) -> (signal: Signal)
        ensures
            (signal@, final(self)@) == old(self)@.poll(),
    {
        loop
            invariant
                self@.poll() == old(self)@.poll(),
            decreases self@.carry.len(),
        {
            proof {
                lemma_move_shrinks(self@);
            }
            match self.turn() {
                Turn::Stall => {
                    return Signal::NotReady;
                },
                Turn::Emit(signal) => {
                    return signal;
                },
                Turn::Moved => {},
            }
        }
    }
}

} // verus!
