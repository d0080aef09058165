use fetchy::fetch::Signal;
use fetchy::http1::decoder::{Decoder, Phase};

fn run(decoder: &mut Decoder) -> Vec<Signal> {
    let mut news = Vec::new();
    loop {
        match decoder.phase() {
            Phase::Finished | Phase::Broken | Phase::Malformed => return news,
            _ => {},
        }
        match decoder.poll() {
            Signal::NotReady => return news,
            signal => news.push(signal),
        }
    }
}

fn read_in(reads: &[&[u8]], head_only: bool, close: bool) -> (Vec<Signal>, Phase) {
    let mut decoder = Decoder::new(head_only);
    let mut news = Vec::new();
    for read in reads {
        decoder.feed(read);
        news.extend(run(&mut decoder));
    }
    if close {
        decoder.close();
        news.extend(run(&mut decoder));
    }
    (news, decoder.phase())
}

fn told(signals: &[Signal]) -> (Vec<Signal>, Vec<u8>) {
    let mut marks = Vec::new();
    let mut body = Vec::new();
    for signal in signals {
        match signal {
            Signal::Chunk(bytes) => body.extend_from_slice(bytes),
            mark => marks.push(mark.clone()),
        }
    }
    (marks, body)
}

fn response(status: u16, has_body: bool) -> Signal {
    Signal::Response { status, has_body }
}

fn chunk(bytes: &[u8]) -> Signal {
    Signal::Chunk(bytes.to_vec())
}

#[test]
fn a_fresh_decoder_waits() {
    let mut decoder = Decoder::new(false);
    assert_eq!(decoder.phase(), Phase::StatusLine);
    assert_eq!(decoder.poll(), Signal::NotReady);
    assert_eq!(decoder.phase(), Phase::StatusLine);
}

#[test]
fn a_body_of_declared_length() {
    let (news, phase) =
        read_in(&[b"HTTP/1.1 200 OK\r\nContent-Length: 9\r\n\r\nabcdefghi"], false, false);
    assert_eq!(news, vec![response(200, true), chunk(b"abcdefghi"), Signal::End]);
    assert_eq!(phase, Phase::Finished);
}

#[test]
fn a_body_of_declared_length_comes_as_the_reads_bring_it() {
    let (news, phase) = read_in(
        &[b"HTTP/1.1 200 OK\r\nContent-Length: 9\r\n\r\nab", b"cdefg", b"", b"hi"],
        false,
        false,
    );
    assert_eq!(
        news,
        vec![response(200, true), chunk(b"ab"), chunk(b"cdefg"), chunk(b"hi"), Signal::End]
    );
    assert_eq!(phase, Phase::Finished);
}

#[test]
fn bytes_behind_a_declared_length_are_not_body() {
    let (news, phase) =
        read_in(&[b"HTTP/1.1 200 OK\r\nContent-Length: 3\r\n\r\nabcdef"], false, false);
    assert_eq!(news, vec![response(200, true), chunk(b"abc"), Signal::End]);
    assert_eq!(phase, Phase::Finished);
}

#[test]
fn a_declared_length_of_zero_is_an_empty_body() {
    let (news, phase) = read_in(&[b"HTTP/1.1 200 OK\r\nContent-Length: 0\r\n\r\n"], false, false);
    assert_eq!(news, vec![response(200, true), Signal::End]);
    assert_eq!(phase, Phase::Finished);
}

#[test]
fn a_chunked_body() {
    let (news, phase) = read_in(
        &[b"HTTP/1.1 200 OK\r\nTransfer-Encoding: chunked\r\n\r\n3\r\nabc\r\n3\r\ndef\r\n3\r\nghi\r\n0\r\n\r\n"],
        false,
        false,
    );
    assert_eq!(
        news,
        vec![response(200, true), chunk(b"abc"), chunk(b"def"), chunk(b"ghi"), Signal::End]
    );
    assert_eq!(phase, Phase::Finished);
}

#[test]
fn chunks_may_hold_line_breaks_and_have_extensions_and_trailers() {
    let (news, phase) = read_in(
        &[b"HTTP/1.1 200 OK\r\nTransfer-Encoding: chunked\r\n\r\n4;x=y\r\na\r\nb\r\nA\r\n0123456789\r\n0\r\nExpires: never\r\nX: y\r\n\r\n"],
        false,
        false,
    );
    assert_eq!(news, vec![response(200, true), chunk(b"a\r\nb"), chunk(b"0123456789"), Signal::End]);
    assert_eq!(phase, Phase::Finished);
}

#[test]
fn a_chunk_is_held_until_it_is_whole() {
    let mut decoder = Decoder::new(false);
    decoder.feed(b"HTTP/1.1 200 OK\r\nTransfer-Encoding: chunked\r\n\r\n5\r\nab");
    assert_eq!(decoder.poll(), response(200, true));
    assert_eq!(decoder.poll(), Signal::NotReady);
    assert_eq!(decoder.phase(), Phase::ChunkData { size: 5 });
    decoder.feed(b"cde");
    assert_eq!(decoder.poll(), Signal::NotReady);
    decoder.feed(b"\r");
    assert_eq!(decoder.poll(), Signal::NotReady);
    decoder.feed(b"\n");
    assert_eq!(decoder.poll(), chunk(b"abcde"));
    assert_eq!(decoder.poll(), Signal::NotReady);
    assert_eq!(decoder.phase(), Phase::ChunkSize);
}

#[test]
fn one_poll_gives_at_most_one_chunk() {
    let mut decoder = Decoder::new(false);
    decoder.feed(b"HTTP/1.1 200 OK\r\nTransfer-Encoding: chunked\r\n\r\n1\r\na\r\n1\r\nb\r\n0\r\n\r\n");
    assert_eq!(decoder.poll(), response(200, true));
    assert_eq!(decoder.poll(), chunk(b"a"));
    assert_eq!(decoder.poll(), chunk(b"b"));
    assert_eq!(decoder.poll(), Signal::End);
    assert_eq!(decoder.poll(), Signal::End);
}

#[test]
fn chunked_wins_over_a_declared_length() {
    let (news, _) = read_in(
        &[b"HTTP/1.1 200 OK\r\nContent-Length: 100\r\nTransfer-Encoding: chunked\r\n\r\n1\r\na\r\n0\r\n\r\n"],
        false,
        false,
    );
    assert_eq!(news, vec![response(200, true), chunk(b"a"), Signal::End]);
}

#[test]
fn a_head_without_framing_declares_no_body() {
    let (news, phase) = read_in(&[b"HTTP/1.0 200 OK\r\nServer: x\r\n\r\nstray"], false, false);
    assert_eq!(news, vec![response(200, false)]);
    assert_eq!(phase, Phase::Finished);
}

#[test]
fn the_answer_to_a_head_request_has_no_body() {
    let (news, phase) =
        read_in(&[b"HTTP/1.1 200 OK\r\nContent-Length: 1234\r\n\r\n"], true, false);
    assert_eq!(news, vec![response(200, false)]);
    assert_eq!(phase, Phase::Finished);
}

#[test]
fn no_content_and_not_modified_have_no_body() {
    let (news, _) = read_in(&[b"HTTP/1.1 204 No Content\r\nContent-Length: 5\r\n\r\n"], false, false);
    assert_eq!(news, vec![response(204, false)]);
    let (news, _) =
        read_in(&[b"HTTP/1.1 304 Not Modified\r\nTransfer-Encoding: chunked\r\n\r\n"], false, false);
    assert_eq!(news, vec![response(304, false)]);
}

#[test]
fn a_failure_status_is_reported_with_its_body() {
    let (news, _) = read_in(
        &[b"HTTP/1.1 404 Not Found\r\nContent-Length: 9\r\n\r\nnot found"],
        false,
        false,
    );
    assert_eq!(news, vec![response(404, true), chunk(b"not found"), Signal::End]);
}

const CHUNKED: &[u8] = b"HTTP/1.1 200 OK\r\nContent-Type: text/plain\r\nTransfer-Encoding: chunked\r\n\r\n3\r\nabc\r\n3\r\ndef\r\n3\r\nghi\r\n0\r\n\r\n";
const FIXED: &[u8] = b"HTTP/1.1 200 OK\r\nContent-Type: text/plain\r\ncontent-length: 9\r\n\r\nabcdefghi";

#[test]
fn byte_by_byte_is_read_as_in_one_read_chunked() {
    let whole = read_in(&[CHUNKED], false, false);
    let pieces: Vec<&[u8]> = CHUNKED.chunks(1).collect();
    let split = read_in(&pieces, false, false);
    assert_eq!(split, whole);
    assert_eq!(told(&whole.0).1, b"abcdefghi".to_vec());
}

#[test]
fn byte_by_byte_is_read_as_in_one_read_declared_length() {
    let whole = read_in(&[FIXED], false, false);
    let pieces: Vec<&[u8]> = FIXED.chunks(1).collect();
    let split = read_in(&pieces, false, false);
    assert_eq!(told(&split.0), told(&whole.0));
    assert_eq!(told(&whole.0), (vec![response(200, true), Signal::End], b"abcdefghi".to_vec()));
    assert_eq!(split.1, whole.1);
    assert_eq!(split.0.len(), 11);
}

#[test]
fn every_cut_in_two_is_read_as_in_one_read() {
    for stream in [CHUNKED, FIXED] {
        let whole = read_in(&[stream], false, false);
        for cut in 0..=stream.len() {
            let split = read_in(&[&stream[..cut], &stream[cut..]], false, false);
            assert_eq!(told(&split.0), told(&whole.0), "cut at {}", cut);
            assert_eq!(split.1, whole.1, "cut at {}", cut);
        }
    }
}

#[test]
fn every_piece_size_is_read_as_in_one_read() {
    for stream in [CHUNKED, FIXED] {
        let whole = read_in(&[stream], false, true);
        for size in 1..stream.len() {
            let pieces: Vec<&[u8]> = stream.chunks(size).collect();
            let split = read_in(&pieces, false, true);
            assert_eq!(told(&split.0), told(&whole.0), "pieces of {}", size);
            assert_eq!(split.1, whole.1, "pieces of {}", size);
        }
    }
}

#[test]
fn malformed_status_lines() {
    for stream in [&b"garbage\r\n"[..], b"HTTP/2 200 OK\r\n", b"\r\n", b"HTTP/1.1 abc OK\r\n"] {
        let (news, phase) = read_in(&[stream], false, false);
        assert_eq!(news, vec![Signal::Malformed]);
        assert_eq!(phase, Phase::Malformed);
    }
}

#[test]
fn malformed_fields() {
    for stream in [
        &b"HTTP/1.1 200 OK\r\nno colon\r\n\r\n"[..],
        b"HTTP/1.1 200 OK\r\n: nameless\r\n\r\n",
        b"HTTP/1.1 200 OK\r\nContent-Length: many\r\n\r\n",
        b"HTTP/1.1 200 OK\r\nContent-Length: 1\r\nContent-Length: 2\r\n\r\n",
        b"HTTP/1.1 200 OK\r\nTransfer-Encoding: gzip\r\n\r\n",
    ] {
        let (news, phase) = read_in(&[stream], false, false);
        assert_eq!(news, vec![Signal::Malformed]);
        assert_eq!(phase, Phase::Malformed);
    }
}

#[test]
fn a_repeated_length_that_agrees_is_accepted() {
    let (news, _) = read_in(
        &[b"HTTP/1.1 200 OK\r\nContent-Length: 1\r\nContent-Length: 1\r\n\r\nx"],
        false,
        false,
    );
    assert_eq!(news, vec![response(200, true), chunk(b"x"), Signal::End]);
}

#[test]
fn corrupt_chunk_framing_is_malformed() {
    let head = b"HTTP/1.1 200 OK\r\nTransfer-Encoding: chunked\r\n\r\n".to_vec();
    for body in [&b"zz\r\nabc\r\n"[..], b"3\r\nabcd\r\n", b"3\r\nabc\n\n", b"\r\n"] {
        let mut stream = head.clone();
        stream.extend_from_slice(body);
        let (news, phase) = read_in(&[&stream], false, false);
        assert_eq!(news, vec![response(200, true), Signal::Malformed]);
        assert_eq!(phase, Phase::Malformed);
    }
}

#[test]
fn a_stream_that_ends_in_the_head_is_malformed() {
    for stream in [&b""[..], b"HTTP/1.1 200", b"HTTP/1.1 200 OK\r\n", b"HTTP/1.1 200 OK\r\nA: b\r\n\r"] {
        let (news, phase) = read_in(&[stream], false, true);
        assert_eq!(news, vec![Signal::Malformed]);
        assert_eq!(phase, Phase::Malformed);
    }
}

#[test]
fn a_stream_that_ends_in_the_body_broke_off() {
    let (news, phase) =
        read_in(&[b"HTTP/1.1 200 OK\r\nContent-Length: 9\r\n\r\nabc"], false, true);
    assert_eq!(news, vec![response(200, true), chunk(b"abc"), Signal::Broken]);
    assert_eq!(phase, Phase::Broken);
    for body in [&b""[..], b"3", b"3\r\nab", b"3\r\nabc\r\n", b"3\r\nabc\r\n0\r\n", b"0\r\nA: b\r\n"] {
        let mut stream = b"HTTP/1.1 200 OK\r\nTransfer-Encoding: chunked\r\n\r\n".to_vec();
        stream.extend_from_slice(body);
        let (news, phase) = read_in(&[&stream], false, true);
        assert_eq!(news.last(), Some(&Signal::Broken));
        assert_eq!(phase, Phase::Broken);
    }
}

#[test]
fn a_stream_that_ends_behind_the_response_is_fine() {
    let (news, phase) = read_in(&[CHUNKED], false, true);
    assert_eq!(told(&news), (vec![response(200, true), Signal::End], b"abcdefghi".to_vec()));
    assert_eq!(phase, Phase::Finished);
}

#[test]
fn nothing_is_taken_after_the_end_of_the_stream() {
    let mut decoder = Decoder::new(false);
    decoder.feed(b"HTTP/1.1 200 OK\r\nContent-Length: 3\r\n\r\n");
    decoder.close();
    decoder.feed(b"abc");
    assert_eq!(decoder.poll(), response(200, true));
    assert_eq!(decoder.poll(), Signal::Broken);
}

#[test]
fn terminal_phases_repeat_their_signal_and_take_nothing() {
    let mut decoder = Decoder::new(false);
    decoder.feed(b"nonsense\r\n");
    assert_eq!(decoder.poll(), Signal::Malformed);
    decoder.feed(b"HTTP/1.1 200 OK\r\n\r\n");
    assert_eq!(decoder.poll(), Signal::Malformed);
    decoder.abort();
    assert_eq!(decoder.poll(), Signal::Malformed);
    decoder.close();
    assert_eq!(decoder.poll(), Signal::Malformed);
    assert_eq!(decoder.phase(), Phase::Malformed);
}

#[test]
fn abort_breaks_the_reading_off() {
    let mut decoder = Decoder::new(false);
    decoder.feed(b"HTTP/1.1 200 OK\r\nContent-Length: 3\r\n\r\nabc");
    decoder.abort();
    assert_eq!(decoder.phase(), Phase::Broken);
    assert_eq!(decoder.poll(), Signal::Broken);
    let mut decoder = Decoder::new(false);
    decoder.feed(b"HTTP/1.1 200 OK\r\nContent-Length: 0\r\n\r\n");
    assert_eq!(decoder.poll(), response(200, true));
    assert_eq!(decoder.poll(), Signal::End);
    decoder.abort();
    assert_eq!(decoder.poll(), Signal::End);
}
