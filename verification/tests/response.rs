use http::Response;
use http_body::Body;
use http_ext::response::built;
use http_ext::response::json;
use http_ext::response::JsonError;
use std::pin::Pin;
use std::task::Context;
use std::task::Poll;
use std::task::Waker;

fn body_bytes(mut body: hyper::Body) -> Vec<u8> {
    let mut cx = Context::from_waker(Waker::noop());
    let mut out = Vec::new();
    loop {
        match Pin::new(&mut body).poll_data(&mut cx) {
            Poll::Ready(Some(Ok(data))) => out.extend_from_slice(&data),
            Poll::Ready(None) => return out,
            _ => panic!("the body is not at hand"),
        }
    }
}

#[test]
fn json_response_carries_type_and_body() {
    let text = serde_json::to_string(&vec![1, 2, 3]);
    let response = json(Response::builder().status(201), text).unwrap();
    assert_eq!(response.status(), 201);
    assert_eq!(
        response.headers().get(http::header::CONTENT_TYPE).unwrap(),
        "application/json"
    );
    assert_eq!(body_bytes(response.into_body()), b"[1,2,3]".to_vec());
}

#[test]
fn serialization_error_comes_first() {
    let broken = Response::builder().header("bad name", "x");
    let failed = serde_json::from_str::<String>("not json").map(|s| s);
    let out = json(broken, failed);
    assert!(matches!(out, Err(JsonError::Serialize(_))));
}

#[test]
fn builder_error_is_reported_as_http() {
    let broken = Response::builder().header("bad name", "x");
    let out = json(broken, Ok(String::from("{}")));
    assert!(matches!(out, Err(JsonError::Http(_))));
}

#[test]
fn built_keeps_the_response() {
    let response = Response::builder().status(204).body(7u8);
    let out = built(response).unwrap();
    assert_eq!(out.status(), 204);
    assert_eq!(*out.body(), 7);
    let refused = Response::builder().header("bad name", "x").body(());
    assert!(matches!(built(refused), Err(JsonError::Http(_))));
}
