//! Reading a collected body as JSON: which error a caller is told of.

use crate::aggregate::Aggregate;
use crate::collect::AggregateError;
use vstd::prelude::*;

verus! {

/// `serde_json::Error`, carried through verified code as an opaque value.
#[verifier::external_type_specification]
#[verifier::external_body]
pub struct ExJsonError(serde_json::Error);

/// Why a body could not be read as a value.
pub enum JsonError<E> {
    /// The body could not be collected.
    Aggregate(AggregateError<E>),
    /// The body was collected, but its bytes are not the value asked for.
    Deserialize(serde_json::Error),
}

/// What the caller is told after `read` has looked at the collected bytes.
pub open spec fn decoded<T, E>(read: Result<T, serde_json::Error>) -> Result<T, JsonError<E>> {
    match read {
        Ok(value) => Ok(value),
        Err(error) => Err(JsonError::Deserialize(error)),
    }
}

/// Hands a collected body to `read` and reports what came of it.
///
/// A collection that failed is reported as such and `read` is never called.
/// A body that was collected is read, and a failure to read it is reported
/// as a failure to deserialize.
pub fn decode<T, E, F>(collected: Result<Aggregate, AggregateError<E>>, read: F) -> (out: Result<
    T,
    JsonError<E>,
>) where F: FnOnce(Aggregate) -> Result<T, serde_json::Error>
    requires
        collected matches Ok(bufs) ==> call_requires(read, (bufs,)),
    ensures
        match collected {
            Err(error) => out == Err::<T, JsonError<E>>(JsonError::Aggregate(error)),
            Ok(bufs) => exists|r: Result<T, serde_json::Error>|
                #[trigger] call_ensures(read, (bufs,), r) && out == decoded::<T, E>(r),
        },
{
    match collected {
        Err(error) => Err(JsonError::Aggregate(error)),
        Ok(bufs) => match read(bufs) {
            Ok(value) => Ok(value),
            Err(error) => Err(JsonError::Deserialize(error)),
        },
    }
}

} // verus!
