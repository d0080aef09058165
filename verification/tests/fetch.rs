use fetchy::fetch::{Event, Progress, Signal, State};
use fetchy::{Error, Fetch};

fn fresh() -> Fetch<'static> {
    Fetch::builder("https://example.com/").fetch()
}

fn ok(has_body: bool) -> Signal {
    Signal::Response { status: 200, has_body }
}

#[test]
fn not_ready_while_initiating_is_pending() {
    let mut fetch = fresh();
    assert_eq!(fetch.poll_next(Signal::NotReady), Progress::Pending);
    assert_eq!(fetch.state(), State::Initiating);
}

#[test]
fn success_without_body_yields_one_end_of_body() {
    let mut fetch = fresh();
    assert_eq!(fetch.poll_next(Signal::NotReady), Progress::Pending);
    assert_eq!(fetch.poll_next(ok(false)), Progress::Ready(Event::EndOfBody));
    assert_eq!(fetch.state(), State::Done);
}

#[test]
fn success_with_chunks_yields_them_in_order_then_end() {
    let mut fetch = fresh();
    let mut events = Vec::new();
    let signals = vec![
        Signal::NotReady,
        ok(true),
        Signal::NotReady,
        Signal::Chunk(b"abc".to_vec()),
        Signal::Chunk(b"def".to_vec()),
        Signal::NotReady,
        Signal::Chunk(b"ghi".to_vec()),
        Signal::End,
    ];
    for signal in signals {
        if let Progress::Ready(event) = fetch.poll_next(signal) {
            events.push(event);
        }
    }
    assert_eq!(
        events,
        vec![
            Event::Chunk(b"abc".to_vec()),
            Event::Chunk(b"def".to_vec()),
            Event::Chunk(b"ghi".to_vec()),
            Event::EndOfBody,
        ]
    );
    assert_eq!(fetch.state(), State::Done);
}

#[test]
fn opening_the_body_is_pending_and_streaming() {
    let mut fetch = fresh();
    assert_eq!(fetch.poll_next(ok(true)), Progress::Pending);
    assert_eq!(fetch.state(), State::Streaming);
    assert_eq!(fetch.poll_next(Signal::NotReady), Progress::Pending);
    assert_eq!(fetch.state(), State::Streaming);
}

#[test]
fn an_empty_chunk_is_still_a_chunk() {
    let mut fetch = fresh();
    fetch.poll_next(ok(true));
    assert_eq!(fetch.poll_next(Signal::Chunk(Vec::new())), Progress::Ready(Event::Chunk(Vec::new())));
    assert_eq!(fetch.state(), State::Streaming);
}

#[test]
fn failure_status_yields_one_mapped_error_and_no_chunk() {
    for has_body in [false, true] {
        let mut fetch = fresh();
        assert_eq!(
            fetch.poll_next(Signal::Response { status: 404, has_body }),
            Progress::Ready(Event::Error(Error::Missing))
        );
        assert_eq!(fetch.state(), State::Failed(Error::Missing));
        assert_eq!(
            fetch.poll_next(Signal::Chunk(b"not found".to_vec())),
            Progress::Ready(Event::Error(Error::Missing))
        );
    }
}

#[test]
fn statuses_outside_2xx_fail() {
    let cases = [
        (100u16, Error::Unknown),
        (199, Error::Unknown),
        (300, Error::Unknown),
        (301, Error::Unknown),
        (400, Error::Request),
        (429, Error::Rate),
        (500, Error::Server),
        (503, Error::Unavailable),
        (511, Error::Net),
        (999, Error::Unknown),
    ];
    for (status, kind) in cases {
        let mut fetch = fresh();
        assert_eq!(
            fetch.poll_next(Signal::Response { status, has_body: true }),
            Progress::Ready(Event::Error(kind))
        );
        assert_eq!(fetch.state(), State::Failed(kind));
    }
}

#[test]
fn every_2xx_succeeds() {
    for status in 200u16..300 {
        let mut fetch = fresh();
        assert_eq!(
            fetch.poll_next(Signal::Response { status, has_body: false }),
            Progress::Ready(Event::EndOfBody)
        );
    }
}

#[test]
fn transport_failure_while_initiating_is_network() {
    let mut fetch = fresh();
    assert_eq!(fetch.poll_next(Signal::Broken), Progress::Ready(Event::Error(Error::Network)));
    assert_eq!(fetch.state(), State::Failed(Error::Network));
}

#[test]
fn read_failure_while_streaming_is_network() {
    let mut fetch = fresh();
    fetch.poll_next(ok(true));
    fetch.poll_next(Signal::Chunk(b"abc".to_vec()));
    assert_eq!(fetch.poll_next(Signal::Broken), Progress::Ready(Event::Error(Error::Network)));
    assert_eq!(fetch.state(), State::Failed(Error::Network));
}

#[test]
fn malformed_response_is_protocol() {
    let mut fetch = fresh();
    assert_eq!(fetch.poll_next(Signal::Malformed), Progress::Ready(Event::Error(Error::Protocol)));
    let mut fetch = fresh();
    fetch.poll_next(ok(true));
    assert_eq!(fetch.poll_next(Signal::Malformed), Progress::Ready(Event::Error(Error::Protocol)));
    assert_eq!(fetch.state(), State::Failed(Error::Protocol));
}

#[test]
fn a_signal_out_of_turn_is_protocol() {
    let mut fetch = fresh();
    assert_eq!(
        fetch.poll_next(Signal::Chunk(b"x".to_vec())),
        Progress::Ready(Event::Error(Error::Protocol))
    );
    let mut fetch = fresh();
    assert_eq!(fetch.poll_next(Signal::End), Progress::Ready(Event::Error(Error::Protocol)));
    let mut fetch = fresh();
    fetch.poll_next(ok(true));
    assert_eq!(fetch.poll_next(ok(true)), Progress::Ready(Event::Error(Error::Protocol)));
}

#[test]
fn failed_repeats_the_same_kind() {
    let mut fetch = fresh();
    fetch.poll_next(Signal::Response { status: 503, has_body: false });
    let signals = vec![
        Signal::NotReady,
        Signal::Broken,
        Signal::Malformed,
        ok(true),
        Signal::Chunk(b"x".to_vec()),
        Signal::End,
    ];
    for signal in signals {
        assert_eq!(fetch.poll_next(signal), Progress::Ready(Event::Error(Error::Unavailable)));
        assert_eq!(fetch.state(), State::Failed(Error::Unavailable));
    }
}

#[test]
fn done_repeats_end_of_body_and_never_a_chunk() {
    let mut fetch = fresh();
    fetch.poll_next(ok(true));
    fetch.poll_next(Signal::End);
    let signals = vec![
        Signal::NotReady,
        Signal::Broken,
        Signal::Malformed,
        ok(true),
        Signal::Chunk(b"x".to_vec()),
        Signal::End,
    ];
    for signal in signals {
        assert_eq!(fetch.poll_next(signal), Progress::Ready(Event::EndOfBody));
        assert_eq!(fetch.state(), State::Done);
    }
}

#[test]
fn polling_leaves_the_request_alone() {
    let mut fetch = Fetch::builder("https://example.com/x").body("abc").fetch();
    fetch.poll_next(ok(true));
    fetch.poll_next(Signal::Chunk(b"x".to_vec()));
    fetch.poll_next(Signal::End);
    assert_eq!(fetch.request().url, "https://example.com/x");
    assert_eq!(fetch.request().body, b"abc".to_vec());
}

#[test]
fn dropping_a_streaming_fetch_is_quiet() {
    let mut fetch = fresh();
    fetch.poll_next(ok(true));
    fetch.poll_next(Signal::Chunk(b"abc".to_vec()));
    assert_eq!(fetch.state(), State::Streaming);
    drop(fetch);
}
