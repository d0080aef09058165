use fetchy::fetch::{Event, Progress, Signal};
use fetchy::{All, Error, Fetch};

fn fresh() -> All<Fetch<'static>> {
    Fetch::builder("https://example.com/").fetch().all()
}

fn drain(all: &mut All<Fetch<'_>>, signals: Vec<Signal>) -> Progress<Result<Vec<u8>, Error>> {
    for signal in signals {
        if let Progress::Ready(outcome) = all.poll_next(signal) {
            return Progress::Ready(outcome);
        }
    }
    Progress::Pending
}

#[test]
fn three_chunks_resolve_with_their_concatenation() {
    let mut all = fresh();
    let outcome = drain(
        &mut all,
        vec![
            Signal::Response { status: 200, has_body: true },
            Signal::Chunk(b"abc".to_vec()),
            Signal::Chunk(b"def".to_vec()),
            Signal::Chunk(b"ghi".to_vec()),
            Signal::End,
        ],
    );
    assert_eq!(outcome, Progress::Ready(Ok(b"abcdefghi".to_vec())));
}

#[test]
fn not_found_resolves_with_missing_whatever_the_body() {
    for has_body in [false, true] {
        let mut all = fresh();
        let outcome = drain(
            &mut all,
            vec![
                Signal::NotReady,
                Signal::Response { status: 404, has_body },
                Signal::Chunk(b"<html>not found</html>".to_vec()),
                Signal::End,
            ],
        );
        assert_eq!(outcome, Progress::Ready(Err(Error::Missing)));
    }
}

#[test]
fn no_body_resolves_with_no_bytes() {
    let mut all = fresh();
    let outcome = drain(&mut all, vec![Signal::Response { status: 204, has_body: false }]);
    assert_eq!(outcome, Progress::Ready(Ok(Vec::new())));
}

#[test]
fn pending_until_the_end() {
    let mut all = fresh();
    assert_eq!(all.poll_next(Signal::NotReady), Progress::Pending);
    assert_eq!(all.poll_next(Signal::Response { status: 200, has_body: true }), Progress::Pending);
    assert_eq!(all.poll_next(Signal::Chunk(b"abc".to_vec())), Progress::Pending);
    assert_eq!(all.poll_next(Signal::NotReady), Progress::Pending);
    assert_eq!(all.poll_next(Signal::End), Progress::Ready(Ok(b"abc".to_vec())));
}

#[test]
fn an_error_mid_stream_discards_what_was_gathered() {
    let mut all = fresh();
    let outcome = drain(
        &mut all,
        vec![
            Signal::Response { status: 200, has_body: true },
            Signal::Chunk(b"abc".to_vec()),
            Signal::Broken,
        ],
    );
    assert_eq!(outcome, Progress::Ready(Err(Error::Network)));
    assert_eq!(all.fill(Event::EndOfBody), Progress::Ready(Ok(Vec::new())));
}

#[test]
fn fill_gathers_swaps_out_and_forwards() {
    let mut all = fresh();
    assert_eq!(all.fill(Event::Chunk(b"ab".to_vec())), Progress::Pending);
    assert_eq!(all.fill(Event::Chunk(b"".to_vec())), Progress::Pending);
    assert_eq!(all.fill(Event::Chunk(b"c".to_vec())), Progress::Pending);
    assert_eq!(all.fill(Event::EndOfBody), Progress::Ready(Ok(b"abc".to_vec())));
    assert_eq!(all.fill(Event::EndOfBody), Progress::Ready(Ok(Vec::new())));
    assert_eq!(all.fill(Event::Error(Error::Teapot)), Progress::Ready(Err(Error::Teapot)));
}

#[test]
fn dropping_a_drain_mid_stream_is_quiet() {
    let mut all = fresh();
    all.poll_next(Signal::Response { status: 200, has_body: true });
    all.poll_next(Signal::Chunk(b"abc".to_vec()));
    drop(all);
}

#[test]
fn the_fetch_inside_can_be_polled_and_the_buffer_stays() {
    let mut all = fresh();
    assert_eq!(all.fill(Event::Chunk(b"ab".to_vec())), Progress::Pending);
    let fetch = all.fetch_mut();
    assert_eq!(fetch.poll_next(Signal::Response { status: 200, has_body: true }), Progress::Pending);
    assert_eq!(fetch.poll_next(Signal::End), Progress::Ready(Event::EndOfBody));
    assert_eq!(all.fill(Event::EndOfBody), Progress::Ready(Ok(b"ab".to_vec())));
}

#[test]
fn anything_that_hands_out_events_can_be_drained() {
    let mut all = All::new(7u8);
    assert_eq!(all.fill(Event::Chunk(b"x".to_vec())), Progress::Pending);
    *all.fetch_mut() += 1;
    assert_eq!(*all.fetch_mut(), 8);
    assert_eq!(all.fill(Event::EndOfBody), Progress::Ready(Ok(b"x".to_vec())));
}
