use bytes::Bytes;
use http_ext::aggregate::Aggregate;
use http_ext::collect::AggregateError;
use http_ext::collect::Collector;
use http_ext::collect::Polled;
use http_ext::collect::Step;

/// Asks a scripted body until the collector stops or waits, as a future's
/// `poll` would. Returns the result, if there is one, and the number of
/// answers used.
fn pump(
    collector: &mut Collector,
    answers: Vec<Polled<&'static str>>,
) -> (Option<Result<Aggregate, AggregateError<&'static str>>>, usize) {
    let mut asked = 0;
    for answer in answers {
        asked += 1;
        match collector.on_poll(answer) {
            Step::Again => {}
            Step::Suspend => return (None, asked),
            Step::Done(result) => return (Some(result), asked),
        }
    }
    (None, asked)
}

fn drain(buf: &mut Aggregate) -> Vec<u8> {
    let mut out = Vec::new();
    loop {
        let seen = buf.chunk().to_vec();
        if seen.is_empty() {
            break;
        }
        buf.advance(seen.len());
        out.extend_from_slice(&seen);
    }
    out
}

#[test]
fn too_long_a_body_fails_at_the_offending_chunk() {
    let mut collector = Collector::new(10);
    let (result, asked) = pump(
        &mut collector,
        vec![
            Polled::Data(Bytes::from_static(b"abcdef")),
            Polled::Data(Bytes::from_static(b"ghijkl")),
            Polled::End,
        ],
    );
    assert_eq!(asked, 2);
    assert!(matches!(result, Some(Err(AggregateError::ContentLength))));
    assert!(collector.is_done());
}

#[test]
fn body_of_declared_length_is_collected() {
    let mut collector = Collector::new(10);
    let (result, asked) = pump(
        &mut collector,
        vec![
            Polled::Data(Bytes::from_static(b"abcd")),
            Polled::Data(Bytes::from_static(b"efghij")),
            Polled::End,
        ],
    );
    assert_eq!(asked, 3);
    assert!(collector.is_done());
    let mut buf = match result {
        Some(Ok(buf)) => buf,
        _ => panic!("the collection did not succeed"),
    };
    assert_eq!(buf.remaining(), 10);
    assert_eq!(buf.bufs_cnt(), 2);
    assert_eq!(drain(&mut buf), b"abcdefghij".to_vec());
}

#[test]
fn chunk_that_fills_the_length_exactly_is_kept() {
    let mut collector = Collector::new(6);
    assert!(matches!(
        collector.on_poll::<&'static str>(Polled::Data(Bytes::from_static(b"abcdef"))),
        Step::Again
    ));
    assert!(!collector.is_done());
    assert!(matches!(
        collector.on_poll::<&'static str>(Polled::Data(Bytes::from_static(b"g"))),
        Step::Done(Err(AggregateError::ContentLength))
    ));
}

#[test]
fn short_body_is_accepted() {
    let mut collector = Collector::new(10);
    let (result, _) = pump(
        &mut collector,
        vec![Polled::Data(Bytes::from_static(b"abc")), Polled::End],
    );
    let buf = match result {
        Some(Ok(buf)) => buf,
        _ => panic!("the collection did not succeed"),
    };
    assert_eq!(buf.remaining(), 3);
}

#[test]
fn empty_body_is_collected() {
    let mut collector = Collector::new(0);
    let (result, asked) = pump(&mut collector, vec![Polled::End]);
    assert_eq!(asked, 1);
    let buf = match result {
        Some(Ok(buf)) => buf,
        _ => panic!("the collection did not succeed"),
    };
    assert_eq!(buf.remaining(), 0);
    assert_eq!(buf.bufs_cnt(), 0);
}

#[test]
fn error_of_the_body_is_handed_on() {
    let mut collector = Collector::new(10);
    let (result, asked) = pump(
        &mut collector,
        vec![
            Polled::Data(Bytes::from_static(b"abc")),
            Polled::Failed("connection reset"),
            Polled::End,
        ],
    );
    assert_eq!(asked, 2);
    assert!(matches!(
        result,
        Some(Err(AggregateError::Body("connection reset")))
    ));
    assert!(collector.is_done());
}

#[test]
fn pending_body_suspends_and_keeps_the_state() {
    let mut collector = Collector::new(10);
    let (result, asked) = pump(
        &mut collector,
        vec![
            Polled::Data(Bytes::from_static(b"abcd")),
            Polled::Pending,
            Polled::End,
        ],
    );
    assert!(result.is_none());
    assert_eq!(asked, 2);
    assert!(!collector.is_done());
    let (result, _) = pump(
        &mut collector,
        vec![Polled::Data(Bytes::from_static(b"efghij")), Polled::End],
    );
    let mut buf = match result {
        Some(Ok(buf)) => buf,
        _ => panic!("the collection did not succeed"),
    };
    assert_eq!(drain(&mut buf), b"abcdefghij".to_vec());
}

#[test]
fn available_chunks_are_taken_without_waiting() {
    let mut collector = Collector::new(100);
    for _ in 0..20 {
        assert!(matches!(
            collector.on_poll::<&'static str>(Polled::Data(Bytes::from_static(b"abcde"))),
            Step::Again
        ));
    }
    assert!(matches!(
        collector.on_poll::<&'static str>(Polled::Data(Bytes::from_static(b"x"))),
        Step::Done(Err(AggregateError::ContentLength))
    ));
}
