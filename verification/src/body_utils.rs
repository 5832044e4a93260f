use vstd::prelude::*;
use vstd::slice::slice_to_vec;
use vstd::string::to_string_from_display_ensures;
use crate::error::BodyError;
use crate::response_body::{chunk_views, AsyncStream, ResponseBody};

verus! {

#[verifier::external_type_specification]
#[verifier::external_body]
pub struct ExSerdeJsonError(serde_json::Error);

/// Why a value could not be turned into a JSON payload.
#[derive(Debug)]
pub enum SerializeToJsonBodyError {
    SerdeJson(serde_json::Error),
}

impl From<serde_json::Error> for SerializeToJsonBodyError {
    fn from(e: serde_json::Error) -> (err: SerializeToJsonBodyError) {
        SerializeToJsonBodyError::SerdeJson(e)
    }
}

impl vstd::std_specs::convert::FromSpecImpl<serde_json::Error> for SerializeToJsonBodyError {
    open spec fn obeys_from_spec() -> bool {
        true
    }

    open spec fn from_spec(e: serde_json::Error) -> SerializeToJsonBodyError {
        SerializeToJsonBodyError::SerdeJson(e)
    }
}

/// The payload of a value that was serialised to JSON text, or the error of
/// the serialiser where it refused the value.
pub fn create_json_body<S>(serialized: Result<String, serde_json::Error>) -> (r: Result<
    ResponseBody<S>,
    SerializeToJsonBodyError,
>)
    ensures
        r == match serialized {
            Ok(text) => Ok::<ResponseBody<S>, SerializeToJsonBodyError>(
                ResponseBody::String(Some(text)),
            ),
            Err(e) => Err(SerializeToJsonBodyError::SerdeJson(e)),
        },
{
    match serialized {
        Ok(text) => Ok(ResponseBody::from(text)),
        Err(e) => Err(SerializeToJsonBodyError::from(e)),
    }
}

/// The payload that holds `text`.
pub fn create_static_str_body<S>(text: &'static str) -> (body: ResponseBody<S>)
    ensures
        body == ResponseBody::<S>::Str(Some(text)),
{
    ResponseBody::from(text)
}

/// The payload that holds the text that `text` turns into.
pub fn create_string_body<T: std::fmt::Display, S>(text: T) -> (body: ResponseBody<S>)
    ensures
        body matches ResponseBody::String(Some(s)) && to_string_from_display_ensures::<T>(
            &text,
            s,
        ),
{
    ResponseBody::from(text.to_string())
}

/// The payload that holds a copy of `bytes`.
pub fn create_bytes_body<S>(bytes: &[u8]) -> (body: ResponseBody<S>)
    ensures
        body matches ResponseBody::Bytes(Some(b)) && b@ == bytes@,
{
    ResponseBody::from(slice_to_vec(bytes))
}

/// The payload that reads from `stream`: nothing is read yet, and every
/// read of the payload is a read of `stream`.
pub fn create_stream_body<S: AsyncStream<Vec<u8>>>(stream: S) -> (body: ResponseBody<S>)
    ensures
        body == ResponseBody::AsyncBytesStream(stream),
        body.chunks() == chunk_views(stream.pending()),
        body.never_fails() == stream.infallible(),
        forall|r: Result<Option<Vec<u8>>, BodyError>| #[trigger] body.reads(r) == stream.yields(r),
{
    ResponseBody::from_stream(stream)
}

} // verus!
