//! The `Authorization` header of a request, read as a token behind a scheme
//! prefix such as `Bearer `.

use http::HeaderMap;
use http::HeaderValue;
use http::Request;
use vstd::prelude::*;

verus! {

/// `http::HeaderValue`, carried through verified code as an opaque value.
#[verifier::external_type_specification]
#[verifier::external_body]
pub struct ExHeaderValue(http::HeaderValue);

/// `http::HeaderMap`, carried through verified code as an opaque value.
#[verifier::external_type_specification]
#[verifier::external_body]
#[verifier::reject_recursive_types(T)]
pub struct ExHeaderMap<T>(http::HeaderMap<T>);

/// The bytes of a header value, first to last.
pub uninterp spec fn header_value_seq(value: HeaderValue) -> Seq<u8>;

/// What a header map holds, as far as a lookup by name can tell: each header
/// name in it, in the lower case in which the map keeps names, with the
/// bytes of the first value under that name.
pub uninterp spec fn first_values(headers: HeaderMap<HeaderValue>) -> Map<Seq<char>, Seq<u8>>;

/// The name has no upper-case ASCII letter in it.
pub open spec fn is_lower_case(name: Seq<char>) -> bool {
    forall|i: int| 0 <= i < name.len() ==> !('A' <= #[trigger] name[i] <= 'Z')
}

/// The byte is a visible ASCII character, a space or a tab.
pub open spec fn is_visible_ascii(b: u8) -> bool {
    32 <= b < 127 || b == 9
}

/// Every byte is visible ASCII, so the bytes can be read as text.
pub open spec fn is_text(bytes: Seq<u8>) -> bool {
    forall|i: int| 0 <= i < bytes.len() ==> is_visible_ascii(#[trigger] bytes[i])
}

/// ASCII bytes as the characters they encode.
pub open spec fn as_text(bytes: Seq<u8>) -> Seq<char> {
    bytes.map_values(|b: u8| b as char)
}

/// `Request::headers`: the header map of the request. A request cannot be
/// looked into, so nothing is claimed of the map here; `is_headers_of` speaks
/// of what this call returned.
#[verifier::external_body]
fn request_headers<'r, B>(req: &'r Request<B>) -> (headers: &'r HeaderMap<HeaderValue>) {
    req.headers()
}

/// `HeaderMap::get` with the header's name as a string: the first value
/// under that name, if the map holds the name. The map matches names without
/// regard to case and keeps them in lower case, so the claim is made for
/// names that are in lower case already.
#[verifier::external_body]
fn headers_get<'h>(headers: &'h HeaderMap<HeaderValue>, name: &str) -> (found: Option<
    &'h HeaderValue,
>)
    requires
        is_lower_case(name@),
    ensures
        found is Some <==> first_values(*headers).contains_key(name@),
        found matches Some(value) ==> header_value_seq(*value) == first_values(*headers)[name@],
{
    headers.get(name)
}

/// `HeaderValue::to_str`: the value as text when every byte of it is visible
/// ASCII, each byte read as one character; nothing otherwise.
#[verifier::external_body]
fn header_text<'a>(value: &'a HeaderValue) -> (text: Option<&'a str>)
    ensures
        text is Some <==> is_text(header_value_seq(*value)),
        text matches Some(s) ==> s@ == as_text(header_value_seq(*value)),
{
    value.to_str().ok()
}

/// `str::strip_prefix` with a string as the pattern: the rest of `s` after
/// `prefix` when `s` starts with it, nothing otherwise.
#[verifier::external_body]
fn strip_prefix<'s>(s: &'s str, prefix: &str) -> (rest: Option<&'s str>)
    ensures
        rest is Some <==> prefix@.is_prefix_of(s@),
        rest matches Some(t) ==> s@ == prefix@ + t@,
{
    s.strip_prefix(prefix)
}

/// Why a header could not be read as text.
#[derive(Clone, Copy, Debug)]
pub enum ToStrError {
    /// The request has no such header.
    MissingHeader,
    /// The header holds bytes that are not visible ASCII.
    InvalidStr,
}

/// Why no token could be read.
#[derive(Clone, Copy, Debug)]
pub enum TokenError {
    /// The header is text but does not start with the expected prefix.
    Token,
    /// The header could not be read as text.
    ToStr(ToStrError),
}

/// What a header reads as: its text, or the reason it has none.
pub open spec fn text_of(header: Option<Seq<u8>>) -> Result<Seq<char>, ToStrError> {
    match header {
        None => Err(ToStrError::MissingHeader),
        Some(bytes) => if is_text(bytes) {
            Ok(as_text(bytes))
        } else {
            Err(ToStrError::InvalidStr)
        },
    }
}

/// The token that a header carries behind `prefix`, or the reason it
/// carries none.
pub open spec fn token_of(header: Option<Seq<u8>>, prefix: Seq<char>) -> Result<
    Seq<char>,
    TokenError,
> {
    match text_of(header) {
        Err(e) => Err(TokenError::ToStr(e)),
        Ok(text) => if prefix.is_prefix_of(text) {
            Ok(text.skip(prefix.len() as int))
        } else {
            Err(TokenError::Token)
        },
    }
}

/// What the `Authorization` header of a header map holds: the bytes of the
/// first value under that name, or nothing when the map has no such header.
pub open spec fn authorization_in(headers: HeaderMap<HeaderValue>) -> Option<Seq<u8>> {
    if first_values(headers).contains_key("authorization"@) {
        Some(first_values(headers)["authorization"@])
    } else {
        None
    }
}

/// `headers` is the header map that `req` hands out.
pub closed spec fn is_headers_of<B>(req: &Request<B>, headers: &HeaderMap<HeaderValue>) -> bool {
    call_ensures(request_headers::<B>, (req,), headers)
}

/// `header` is what the `Authorization` header of `req` holds: the bytes of
/// the first value under that name in the request's header map, or nothing
/// when the request has no such header.
pub open spec fn is_authorization_of<B>(req: &Request<B>, header: Option<Seq<u8>>) -> bool {
    exists|headers: &HeaderMap<HeaderValue>|
        #[trigger] is_headers_of(req, headers) && header == authorization_in(*headers)
}

/// The `Authorization` header of one request, which may be absent.
pub struct Authorization<'a> {
    header: Option<&'a HeaderValue>,
}

impl<'a> Authorization<'a> {
    /// The bytes of the header, if the request had one.
    pub closed spec fn header(&self) -> Option<Seq<u8>> {
        match self.header {
            Some(value) => Some(header_value_seq(*value)),
            None => None,
        }
    }

    /// Reads the `Authorization` header of `req`: the first value under
    /// that name among the request's headers, if there is one.
    pub fn new<'r, B>(req: &'r Request<B>) -> (auth: Self) where 'r: 'a
        ensures
            is_authorization_of(req, auth.header()),
    {
        // Called as a value, so that the contract can speak of what the
        // request handed out.
        let headers_of = request_headers::<B>;
        let headers = headers_of(req);
        assert(is_headers_of(req, headers));
        Authorization::from_headers(headers)
    }

    /// Reads the `Authorization` header out of a set of headers: the first
    /// value under that name, if there is one.
    pub fn from_headers(headers: &'a HeaderMap<HeaderValue>) -> (auth: Self)
        ensures
            auth.header() == authorization_in(*headers),
    {
        proof {
            reveal_strlit("authorization");
        }
        Authorization::from_header(headers_get(headers, "authorization"))
    }

    /// Takes a header that was looked up already.
    pub fn from_header(header: Option<&'a HeaderValue>) -> (auth: Self)
        ensures
            auth.header() == match header {
                Some(value) => Some(header_value_seq(*value)),
                None => None::<Seq<u8>>,
            },
    {
        Authorization { header }
    }

    /// The token behind the `Bearer ` prefix.
    pub fn bearer(&self) -> (token: Result<&str, TokenError>)
        ensures
            match token_of(self.header(), "Bearer "@) {
                Ok(t) => token matches Ok(s) && s@ == t,
                Err(e) => token == Err::<&str, TokenError>(e),
            },
    {
        self.token("Bearer ")
    }

    /// The token behind `prefix`. A header that is missing or is not text
    /// is reported as such; one that is text but does not start with
    /// `prefix` is reported as carrying no token.
    pub fn token(&self, prefix: &str) -> (token: Result<&str, TokenError>)
        ensures
            match token_of(self.header(), prefix@) {
                Ok(t) => token matches Ok(s) && s@ == t,
                Err(e) => token == Err::<&str, TokenError>(e),
            },
    {
        match self.to_str() {
            Err(error) => Err(TokenError::ToStr(error)),
            Ok(s) => match strip_prefix(s, prefix) {
                Some(rest) => {
                    assert(rest@ =~= s@.skip(prefix@.len() as int));
                    Ok(rest)
                },
                None => Err(TokenError::Token),
            },
        }
    }

    /// The header as text.
    pub fn to_str(&self) -> (text: Result<&str, ToStrError>)
        ensures
            match text_of(self.header()) {
                Ok(t) => text matches Ok(s) && s@ == t,
                Err(e) => text == Err::<&str, ToStrError>(e),
            },
    {
        match self.header {
            None => Err(ToStrError::MissingHeader),
            Some(value) => match header_text(value) {
                Some(s) => Ok(s),
                None => Err(ToStrError::InvalidStr),
            },
        }
    }
}

} // verus!
