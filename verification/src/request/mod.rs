//! Helpers on an incoming request.

pub mod auth;

use auth::is_authorization_of;
pub use auth::Authorization;
use http::Request;
use vstd::prelude::*;

verus! {

/// `http::Request`, carried through verified code as an opaque value.
#[verifier::external_type_specification]
#[verifier::external_body]
#[verifier::reject_recursive_types(T)]
pub struct ExRequest<T>(http::Request<T>);

/// Reading the credentials of a request.
pub trait RequestExt {
    /// `header` is what the `Authorization` header of this request holds,
    /// or nothing when the request has no such header.
    spec fn has_authorization(&self, header: Option<Seq<u8>>) -> bool;

    /// The request's `Authorization` header, ready to be read as a token.
    fn authorization(&self) -> (auth: Authorization<'_>)
        ensures
            self.has_authorization(auth.header()),
    ;
}

impl<B> RequestExt for Request<B> {
    open spec fn has_authorization(&self, header: Option<Seq<u8>>) -> bool {
        is_authorization_of(self, header)
    }

    fn authorization(&self) -> (auth: Authorization<'_>) {
        Authorization::new(self)
    }
}

} // verus!
