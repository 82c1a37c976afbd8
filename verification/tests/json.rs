use bytes::Bytes;
use http_ext::aggregate::Aggregate;
use http_ext::collect::AggregateError;
use http_ext::json::decode;
use http_ext::json::JsonError;

fn read_all(mut bufs: Aggregate) -> Result<serde_json::Value, serde_json::Error> {
    let len = bufs.remaining();
    let bytes = bufs.copy_to_bytes(len);
    serde_json::from_slice(&bytes)
}

fn collected(chunks: &[&'static [u8]]) -> Result<Aggregate, AggregateError<&'static str>> {
    let mut bufs = Aggregate::new();
    for c in chunks {
        bufs.push(Bytes::from_static(c));
    }
    Ok(bufs)
}

#[test]
fn collected_body_is_decoded() {
    let out = decode(collected(&[b"{\"a\":", b" [1, 2", b", 3]}"]), read_all);
    let value = match out {
        Ok(value) => value,
        Err(_) => panic!("the body did not decode"),
    };
    assert_eq!(value["a"][2], 3);
}

#[test]
fn body_that_is_not_json_fails_to_deserialize() {
    let out = decode(collected(&[b"{\"a\":", b" [1, 2"]), read_all);
    assert!(matches!(out, Err(JsonError::Deserialize(_))));
}

#[test]
fn failed_collection_is_never_read() {
    let mut called = false;
    let out: Result<serde_json::Value, JsonError<&'static str>> = decode(
        Err(AggregateError::ContentLength),
        |bufs| {
            called = true;
            read_all(bufs)
        },
    );
    assert!(matches!(
        out,
        Err(JsonError::Aggregate(AggregateError::ContentLength))
    ));
    assert!(!called);
    let out: Result<serde_json::Value, JsonError<&'static str>> =
        decode(Err(AggregateError::Body("reset")), read_all);
    assert!(matches!(
        out,
        Err(JsonError::Aggregate(AggregateError::Body("reset")))
    ));
}
