//! What holds of every response, however the stream cuts it into reads.

use vstd::prelude::*;

use crate::fetch::SignalView;
use crate::http1::decoder::{lemma_move_shrinks, DecoderView, Micro, Phase};
use crate::http1::text::{crlf_at, first_crlf, lemma_line_end_found, lemma_line_end_is, line_end};

verus! {

/// What a row of signals tells, apart from where the body was cut into
/// pieces: the signals that are no pieces of the body, in order, and the
/// bytes of the body, in order.
pub struct Heard {
    /// The signals other than `Chunk`
    pub marks: Seq<SignalView>,
    /// The bytes of all the chunks, joined
    pub body: Seq<u8>,
}

/// What `signals` tell, apart from where the body was cut into pieces.
pub open spec fn heard(signals: Seq<SignalView>) -> Heard
    decreases signals.len(),
{
    if signals.len() == 0 {
        Heard { marks: Seq::empty(), body: Seq::empty() }
    } else {
        let rest = heard(signals.drop_first());
        match signals[0] {
            SignalView::Chunk(bytes) => Heard { marks: rest.marks, body: bytes + rest.body },
            mark => Heard { marks: seq![mark] + rest.marks, body: rest.body },
        }
    }
}

/// The news of reading a stream piece by piece: each of `reads` is fed to
/// the decoder, which then reads as far as it can.
pub open spec fn read_each(v: DecoderView, reads: Seq<Seq<u8>>) -> (Seq<SignalView>, DecoderView)
    decreases reads.len(),
{
    if reads.len() == 0 {
        v.run()
    } else {
        let (first, next) = v.feed(reads[0]).run();
        let (more, last) = read_each(next, reads.drop_first());
        (first + more, last)
    }
}

/// What two rows of signals tell one after the other is what the two
/// joined tell.
pub proof fn lemma_heard_joined(a: Seq<SignalView>, b: Seq<SignalView>)
    ensures
        heard(a + b).marks == heard(a).marks + heard(b).marks,
        heard(a + b).body == heard(a).body + heard(b).body,
    decreases a.len(),
{
    if a.len() == 0 {
        assert(a + b =~= b);
        assert(heard(a).marks + heard(b).marks =~= heard(b).marks);
        assert(heard(a).body + heard(b).body =~= heard(b).body);
    } else {
        assert((a + b).drop_first() =~= a.drop_first() + b);
        lemma_heard_joined(a.drop_first(), b);
        let rest = heard(a.drop_first());
        match a[0] {
            SignalView::Chunk(bytes) => {
                assert(bytes + (rest.body + heard(b).body) =~= (bytes + rest.body) + heard(b).body);
            },
            mark => {
                assert(seq![mark] + (rest.marks + heard(b).marks) =~= (seq![mark] + rest.marks)
                    + heard(b).marks);
            },
        }
    }
}

/// A line that is complete stays the first line when more bytes follow.
pub proof fn lemma_line_end_stable(held: Seq<u8>, more: Seq<u8>)
    ensures
        line_end(held) matches Some(end) ==> line_end(held + more) == Some(end) && (held
            + more).take(end) == held.take(end) && (held + more).skip(end + 2) == held.skip(end + 2)
            + more,
{
    lemma_line_end_found(held);
    if let Some(end) = line_end(held) {
        let all = held + more;
        assert(crlf_at(all, end));
        assert forall|j: int| 0 <= j < end implies !#[trigger] crlf_at(all, j) by {
            assert(!crlf_at(held, j));
        }
        assert(first_crlf(all, end));
        lemma_line_end_is(all, end);
        assert(all.take(end) =~= held.take(end));
        assert(all.skip(end + 2) =~= held.skip(end + 2) + more);
    }
}

/// Whether the decoder would hand out a piece of a body of declared
/// length that is cut where the bytes held end, not where the body ends.
pub open spec fn cuts_short(v: DecoderView) -> bool {
    v.phase matches Phase::Fixed { remaining } && 0 < v.carry.len() < remaining
}

/// A step that the bytes held allow is the same step when more bytes
/// follow them, but for a piece of a body of declared length, which is as
/// large as the bytes held.
pub proof fn lemma_step_stable(v: DecoderView, more: Seq<u8>)
    requires
        !v.closed,
        !cuts_short(v),
    ensures
        match v.micro() {
            Micro::Stall => true,
            Micro::Move(next) => v.feed(more).micro() == Micro::Move(next.feed(more)),
            Micro::Emit(signal, next) => v.feed(more).micro() == Micro::Emit(
                signal,
                next.feed(more),
            ),
        },
{
    lemma_line_end_stable(v.carry, more);
    lemma_line_end_found(v.carry);
    let all = v.carry + more;
    match v.phase {
        Phase::Fields { status, length, chunked } => {
            if line_end(v.carry) == Some(0int) {
                assert(all.skip(2) =~= v.carry.skip(2) + more);
            }
        },
        Phase::Fixed { remaining } => {
            if remaining > 0 && v.carry.len() > 0 {
                assert(all.take(remaining as int) =~= v.carry.take(remaining as int));
                assert(all.skip(remaining as int) =~= v.carry.skip(remaining as int) + more);
            }
        },
        Phase::ChunkData { size } => {
            if v.carry.len() >= size + 2 {
                assert(all.take(size as int) =~= v.carry.take(size as int));
                assert(all.skip(size + 2) =~= v.carry.skip(size + 2) + more);
            }
        },
        _ => {},
    }
}

/// Reading as far as the bytes allow leaves the stream as open or closed
/// as it was, and the decoder with nothing more to read: a second run
/// gives no news.
pub proof fn lemma_run_settles(v: DecoderView)
    ensures
        v.run().1.closed == v.closed,
        v.run().1.head_only == v.head_only,
        v.run().1.run() == (Seq::<SignalView>::empty(), v.run().1),
    decreases v.carry.len(), (if v.phase.is_terminal() {
        0nat
    } else {
        1nat
    }),
{
    lemma_line_end_found(v.carry);
    if !v.phase.is_terminal() {
        match v.micro() {
            Micro::Stall => {},
            Micro::Move(next) => lemma_run_settles(next),
            Micro::Emit(signal, next) => lemma_run_settles(next),
        }
    }
}

/// A run is what polling gives: while the decoder's phase is not terminal,
/// a poll that answers `NotReady` ends the run, and any other poll gives
/// the run's next signal.
pub proof fn lemma_run_is_polling(v: DecoderView)
    requires
        !v.phase.is_terminal(),
    ensures
        v.poll().0 is NotReady ==> v.run() == (Seq::<SignalView>::empty(), v.poll().1),
        !(v.poll().0 is NotReady) ==> v.run() == (
            seq![v.poll().0] + v.poll().1.run().0,
            v.poll().1.run().1,
        ),
    decreases v.carry.len(),
{
    lemma_move_shrinks(v);
    match v.micro() {
        Micro::Move(next) => {
            lemma_run_is_polling(next);
        },
        _ => {},
    }
}

/// The step that hands out a piece of a body of declared length.
proof fn lemma_piece(v: DecoderView, remaining: u64)
    requires
        v.phase == (Phase::Fixed { remaining }),
        remaining > 0,
        v.carry.len() > 0,
    ensures
        v.micro() == Micro::Emit(
            SignalView::Chunk(v.carry.take(piece(v.carry.len(), remaining))),
            v.moved(
                Phase::Fixed { remaining: (remaining - piece(v.carry.len(), remaining)) as u64 },
                piece(v.carry.len(), remaining),
            ),
        ),
{
}

/// The size of the piece handed out of `held` bytes of a body of which
/// `remaining` bytes are to come: all that is held, up to all that is to
/// come.
pub open spec fn piece(held: nat, remaining: u64) -> int {
    if held <= remaining {
        held as int
    } else {
        remaining as int
    }
}

/// `lemma_read_in_two` where the first read ends inside a body of declared
/// length.
proof fn lemma_read_in_two_short(v: DecoderView, more: Seq<u8>)
    requires
        !v.closed,
        cuts_short(v),
    ensures
        heard(v.run().0 + v.run().1.feed(more).run().0) == heard(v.feed(more).run().0),
        v.run().1.feed(more).run().1 == v.feed(more).run().1,
{
    let both = v.feed(more);
    let remaining = v.phase->remaining;
    let held = v.carry;
    let left = (remaining - held.len()) as u64;
    let next = v.moved(Phase::Fixed { remaining: left }, held.len() as int);
    lemma_piece(v, remaining);
    assert(held.take(held.len() as int) =~= held);
    assert(next.carry =~= Seq::<u8>::empty());
    assert(next.micro() == Micro::Stall);
    assert(next.run() == (Seq::<SignalView>::empty(), next));
    let first = seq![SignalView::Chunk(held)];
    assert(v.run().0 =~= first);
    assert(v.run().1 == next);
    let rest = next.feed(more);
    assert(rest.carry =~= more);
    let all = held + more;
    if more.len() == 0 {
        assert(all =~= held);
        assert(both == v);
        assert(rest == next);
        assert(first + rest.run().0 =~= first);
    } else {
        let m = piece(more.len(), left);
        let n = held.len() + m;
        assert(n == piece(all.len(), remaining));
        let after = both.moved(Phase::Fixed { remaining: (remaining - n) as u64 }, n);
        assert(all.skip(n) =~= more.skip(m));
        assert(rest.moved(Phase::Fixed { remaining: (left - m) as u64 }, m) == after);
        lemma_piece(both, remaining);
        lemma_piece(rest, left);
        assert(both.micro() == Micro::Emit(SignalView::Chunk(all.take(n)), after));
        assert(rest.micro() == Micro::Emit(SignalView::Chunk(more.take(m)), after));
        let tail = after.run().0;
        let second = seq![SignalView::Chunk(more.take(m))] + tail;
        let whole = seq![SignalView::Chunk(all.take(n))] + tail;
        assert(rest.run().0 == second);
        assert(both.run().0 == whole);
        lemma_heard_joined(first, second);
        lemma_heard_joined(seq![SignalView::Chunk(more.take(m))], tail);
        lemma_heard_joined(seq![SignalView::Chunk(all.take(n))], tail);
        lemma_heard_one(SignalView::Chunk(held));
        lemma_heard_one(SignalView::Chunk(more.take(m)));
        lemma_heard_one(SignalView::Chunk(all.take(n)));
        assert(held + more.take(m) =~= all.take(n));
        assert(held + (more.take(m) + heard(tail).body) =~= all.take(n) + heard(tail).body);
        assert(Seq::<SignalView>::empty() + (Seq::<SignalView>::empty() + heard(tail).marks)
            =~= Seq::<SignalView>::empty() + heard(tail).marks);
    }
}

/// Bytes that arrive in two reads are read as if they had arrived in one:
/// reading what is held and then what follows tells the same, and leaves
/// the same decoder, as reading both at once.
pub proof fn lemma_read_in_two(v: DecoderView, more: Seq<u8>)
    requires
        !v.closed,
    ensures
        heard(v.run().0 + v.run().1.feed(more).run().0) == heard(v.feed(more).run().0),
        v.run().1.feed(more).run().1 == v.feed(more).run().1,
    decreases v.carry.len(), (if v.phase.is_terminal() {
        0nat
    } else {
        1nat
    }),
{
    if v.phase.is_terminal() {
        assert(v.run().0 + v.run().0 =~= v.run().0);
    } else if cuts_short(v) {
        lemma_read_in_two_short(v, more);
    } else {
        lemma_step_stable(v, more);
        lemma_move_shrinks(v);
        lemma_emit_shrinks(v);
        match v.micro() {
            Micro::Stall => {
                assert(v.run().0 + v.feed(more).run().0 =~= v.feed(more).run().0);
            },
            Micro::Move(next) => {
                lemma_read_in_two(next, more);
            },
            Micro::Emit(signal, next) => {
                lemma_read_in_two(next, more);
                let one = seq![signal];
                let a = next.run().0;
                let b = next.run().1.feed(more).run().0;
                assert(v.run().0 + b =~= one + (a + b));
                lemma_heard_joined(one, a + b);
                lemma_heard_joined(one, next.feed(more).run().0);
            },
        }
    }
}

/// A step that reports a signal uses up bytes, or ends the reading.
proof fn lemma_emit_shrinks(v: DecoderView)
    requires
        !v.phase.is_terminal(),
    ensures
        v.micro() matches Micro::Emit(_, next) ==> next.closed == v.closed && (next.carry.len()
            < v.carry.len() || (next.carry.len() == v.carry.len() && next.phase.is_terminal())),
{
    lemma_line_end_found(v.carry);
}

/// What a single signal tells.
proof fn lemma_heard_one(signal: SignalView)
    ensures
        heard(seq![signal]) == match signal {
            SignalView::Chunk(bytes) => Heard { marks: Seq::empty(), body: bytes },
            mark => Heard { marks: seq![mark], body: Seq::empty() },
        },
{
    let one = seq![signal];
    assert(one.drop_first() =~= Seq::<SignalView>::empty());
    assert(heard(one.drop_first()) == Heard { marks: Seq::empty(), body: Seq::empty() });
    match signal {
        SignalView::Chunk(bytes) => {
            assert(bytes + Seq::<u8>::empty() =~= bytes);
        },
        mark => {
            assert(seq![mark] + Seq::<SignalView>::empty() =~= seq![mark]);
        },
    }
}

/// A body of declared length is the bytes that follow the head, up to
/// that length and no further: of the bytes that arrive in the body's first
/// read, the first `remaining` are handed out, none missing and none twice,
/// and the end is reported once they are all there.
pub proof fn lemma_declared_length(v: DecoderView, remaining: u64, bytes: Seq<u8>)
    requires
        !v.closed,
        v.phase == (Phase::Fixed { remaining }),
        v.carry.len() == 0,
    ensures
        heard(v.feed(bytes).run().0).body == bytes.take(piece(bytes.len(), remaining)),
        heard(v.feed(bytes).run().0).marks == if bytes.len() >= remaining {
            seq![SignalView::End]
        } else {
            Seq::empty()
        },
{
    let fed = v.feed(bytes);
    assert(fed.carry =~= bytes);
    if remaining == 0 {
        lemma_heard_one(SignalView::End);
        let ended = fed.ended(Phase::Finished);
        assert(fed.micro() == Micro::Emit(SignalView::End, ended));
        assert(ended.run().0 =~= Seq::<SignalView>::empty());
        assert(fed.run().0 =~= seq![SignalView::End]);
        assert(bytes.take(0) =~= Seq::<u8>::empty());
    } else if bytes.len() == 0 {
        assert(bytes.take(0) =~= Seq::<u8>::empty());
    } else {
        let n = piece(bytes.len(), remaining);
        lemma_piece(fed, remaining);
        let next = fed.moved(Phase::Fixed { remaining: (remaining - n) as u64 }, n);
        let first = seq![SignalView::Chunk(bytes.take(n))];
        lemma_heard_one(SignalView::Chunk(bytes.take(n)));
        if bytes.len() >= remaining {
            lemma_heard_one(SignalView::End);
            let ended = next.ended(Phase::Finished);
            assert(next.micro() == Micro::Emit(SignalView::End, ended));
            assert(ended.run().0 =~= Seq::<SignalView>::empty());
            assert(next.run().0 =~= seq![SignalView::End]);
            lemma_heard_joined(first, seq![SignalView::End]);
            assert(bytes.take(n) + Seq::<u8>::empty() =~= bytes.take(n));
            assert(Seq::<SignalView>::empty() + seq![SignalView::End] =~= seq![SignalView::End]);
        } else {
            assert(next.carry =~= Seq::<u8>::empty());
            assert(next.run().0 =~= Seq::<SignalView>::empty());
            assert(fed.run().0 =~= first);
        }
    }
}

/// Feeding two rows of bytes in turn is feeding the two joined.
pub proof fn lemma_feed_joined(v: DecoderView, first: Seq<u8>, second: Seq<u8>)
    ensures
        v.feed(first).feed(second) == v.feed(first + second),
{
    assert(v.carry + first + second =~= v.carry + (first + second));
}

/// A response that the stream cuts into many reads is read as if it had
/// arrived in one read.  Whatever the decoder holds and however the bytes
/// that follow are cut into `reads`, feeding them one by one, and reading
/// after each as far as the bytes allow, tells the same as feeding them all
/// at once: the same signals in the same order and the same bytes of the
/// body, none missing and none twice, with only the places where the body
/// is cut into pieces left open.  The decoder is left the same too.
pub proof fn lemma_reads_do_not_matter(v: DecoderView, reads: Seq<Seq<u8>>)
    requires
        !v.closed,
    ensures
        heard(read_each(v, reads).0) == heard(v.feed(reads.flatten()).run().0),
        read_each(v, reads).1 == v.feed(reads.flatten()).run().1,
    decreases reads.len(),
{
    if reads.len() == 0 {
        assert(v.carry + reads.flatten() =~= v.carry);
        assert(v.feed(reads.flatten()) == v);
    } else {
        let rest = reads.drop_first();
        let fed = v.feed(reads[0]);
        let (first, next) = fed.run();
        lemma_run_settles(fed);
        lemma_reads_do_not_matter(next, rest);
        lemma_read_in_two(fed, rest.flatten());
        lemma_feed_joined(v, reads[0], rest.flatten());
        assert(reads.flatten() == reads[0] + rest.flatten());
        let more = read_each(next, rest).0;
        let once = next.feed(rest.flatten()).run().0;
        lemma_heard_joined(first, more);
        lemma_heard_joined(first, once);
    }
}

/// Whether a chunked body is being read, or nothing any more.
pub open spec fn in_chunks(phase: Phase) -> bool {
    phase is ChunkSize || phase is ChunkData || phase is Trailer || phase.is_terminal()
}

/// Within a chunked body the steps of reading stay within it.
proof fn lemma_chunks_stay(v: DecoderView)
    requires
        in_chunks(v.phase),
    ensures
        match v.micro() {
            Micro::Stall => true,
            Micro::Move(next) => in_chunks(next.phase),
            Micro::Emit(_, next) => in_chunks(next.phase),
        },
{
}

/// The chunks of a chunked body that arrives in two reads are the chunks
/// of the body that arrives in one: the same signals, chunk for chunk.
pub proof fn lemma_chunks_read_in_two(v: DecoderView, more: Seq<u8>)
    requires
        !v.closed,
        in_chunks(v.phase),
    ensures
        v.run().0 + v.run().1.feed(more).run().0 == v.feed(more).run().0,
        v.run().1.feed(more).run().1 == v.feed(more).run().1,
    decreases v.carry.len(), (if v.phase.is_terminal() {
        0nat
    } else {
        1nat
    }),
{
    if v.phase.is_terminal() {
        assert(v.run().0 + v.run().0 =~= v.run().0);
    } else {
        lemma_step_stable(v, more);
        lemma_move_shrinks(v);
        lemma_emit_shrinks(v);
        lemma_chunks_stay(v);
        match v.micro() {
            Micro::Stall => {
                assert(v.run().0 + v.feed(more).run().0 =~= v.feed(more).run().0);
            },
            Micro::Move(next) => {
                lemma_chunks_read_in_two(next, more);
            },
            Micro::Emit(signal, next) => {
                lemma_chunks_read_in_two(next, more);
                let one = seq![signal];
                let a = next.run().0;
                let b = next.run().1.feed(more).run().0;
                assert(v.run().0 + b =~= one + (a + b));
            },
        }
    }
}

/// Reading within a chunked body stays within it.
proof fn lemma_run_stays_in_chunks(v: DecoderView)
    requires
        in_chunks(v.phase),
    ensures
        in_chunks(v.run().1.phase),
    decreases v.carry.len(), (if v.phase.is_terminal() {
        0nat
    } else {
        1nat
    }),
{
    if !v.phase.is_terminal() {
        lemma_move_shrinks(v);
        lemma_emit_shrinks(v);
        lemma_chunks_stay(v);
        match v.micro() {
            Micro::Stall => {},
            Micro::Move(next) => lemma_run_stays_in_chunks(next),
            Micro::Emit(_, next) => lemma_run_stays_in_chunks(next),
        }
    }
}

/// A chunked body that the stream cuts into many reads is handed out in
/// the chunks in which the peer sent it, wherever the reads cut them:
/// feeding the reads one by one gives the same signals, chunk for chunk, as
/// feeding them all at once.
pub proof fn lemma_reads_keep_chunks(v: DecoderView, reads: Seq<Seq<u8>>)
    requires
        !v.closed,
        in_chunks(v.phase),
    ensures
        read_each(v, reads).0 == v.feed(reads.flatten()).run().0,
        read_each(v, reads).1 == v.feed(reads.flatten()).run().1,
    decreases reads.len(),
{
    if reads.len() == 0 {
        assert(v.carry + reads.flatten() =~= v.carry);
        assert(v.feed(reads.flatten()) == v);
    } else {
        let rest = reads.drop_first();
        let fed = v.feed(reads[0]);
        lemma_run_settles(fed);
        lemma_run_stays_in_chunks(fed);
        lemma_reads_keep_chunks(fed.run().1, rest);
        lemma_chunks_read_in_two(fed, rest.flatten());
        lemma_feed_joined(v, reads[0], rest.flatten());
        assert(reads.flatten() == reads[0] + rest.flatten());
    }
}

} // verus!
