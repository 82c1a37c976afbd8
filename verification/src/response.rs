//! Building a response whose body is JSON text.

use http::response::Builder;
use http::Response;
use hyper::Body;
use vstd::prelude::*;

verus! {

/// `http::response::Builder`, carried through verified code as an opaque
/// value.
#[verifier::external_type_specification]
#[verifier::external_body]
pub struct ExBuilder(http::response::Builder);

/// `http::Response`, carried through verified code as an opaque value.
#[verifier::external_type_specification]
#[verifier::external_body]
#[verifier::reject_recursive_types(T)]
pub struct ExResponse<T>(http::Response<T>);

/// `http::Error`, carried through verified code as an opaque value.
#[verifier::external_type_specification]
#[verifier::external_body]
pub struct ExHttpError(http::Error);

/// `hyper::Body`, carried through verified code as an opaque value.
#[verifier::external_type_specification]
#[verifier::external_body]
pub struct ExBody(hyper::Body);

/// `Body::from` on a `String`: a body that yields the string's bytes.
/// Nothing is claimed of the body here, as it cannot be looked into.
#[verifier::external_body]
fn body_of(text: String) -> (body: Body) {
    Body::from(text)
}

/// `Builder::header` with name and value as strings: the builder with the
/// header appended, or with the error noted if either string is not valid.
/// Nothing is claimed of the builder here, as it cannot be looked into.
#[verifier::external_body]
fn with_header(builder: Builder, name: &'static str, value: &'static str) -> (out: Builder) {
    builder.header(name, value)
}

/// `Builder::body`: the response, or the first error that the builder ran
/// into. Which of the two cannot be told from outside the builder.
#[verifier::external_body]
fn finish(builder: Builder, body: Body) -> (out: Result<Response<Body>, http::Error>) {
    builder.body(body)
}

/// Why no JSON response could be built.
#[derive(Debug)]
pub enum JsonError {
    /// The value could not be written as JSON.
    Serialize(serde_json::Error),
    /// The builder refused the response.
    Http(http::Error),
}

/// What the caller is told once the builder has answered.
pub fn built<T>(outcome: Result<Response<T>, http::Error>) -> (out: Result<Response<T>, JsonError>)
    ensures
        out == match outcome {
            Ok(response) => Ok::<Response<T>, JsonError>(response),
            Err(error) => Err(JsonError::Http(error)),
        },
{
    match outcome {
        Ok(response) => Ok(response),
        Err(error) => Err(JsonError::Http(error)),
    }
}

/// Completes `builder` into a response that carries `serialized` as its body
/// and `application/json` as its content type.
///
/// A value that could not be serialized is reported first, and the builder
/// is dropped untouched. Otherwise the only failure left is the builder's
/// own.
pub fn json(builder: Builder, serialized: Result<String, serde_json::Error>) -> (out: Result<
    Response<Body>,
    JsonError,
>)
    ensures
        match serialized {
            Err(error) => out == Err::<Response<Body>, JsonError>(JsonError::Serialize(error)),
            Ok(_) => out is Ok || out matches Err(JsonError::Http(_)),
        },
{
    match serialized {
        Err(error) => Err(JsonError::Serialize(error)),
        Ok(text) => {
            let body = body_of(text);
            let builder = with_header(builder, "content-type", "application/json");
            built(finish(builder, body))
        },
    }
}

} // verus!
