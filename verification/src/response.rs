use vstd::prelude::*;
use vstd::pervasive::unreached;
use vstd::string::is_ascii_spec_bytes;
use vstd::string::to_string_from_display_ensures;
use vstd::string::StringExecFns;
use vstd::string::StringSliceAdditionalSpecFns;
use vstd::utf8::encode_utf8;
use crate::body_utils::{
    create_bytes_body, create_json_body, create_static_str_body, create_stream_body,
    create_string_body, SerializeToJsonBodyError,
};
use crate::content_type::ContentType;
use crate::headers::{
    is_header_name, is_header_value, normalized_name, without_name, HeaderValue,
    InvalidHeaderValue,
};
use crate::request_handler::{Response, StatusCode};
use crate::response_body::{AsyncStream, ResponseBody};

verus! {

/// The name of the header that tells the type of the payload, as stored.
pub open spec fn content_type_name() -> Seq<u8> {
    normalized_name("Content-Type".spec_bytes())
}

/// The name of the header that tells what to do with the payload, as stored.
pub open spec fn content_disposition_name() -> Seq<u8> {
    normalized_name("Content-Disposition".spec_bytes())
}

/// The text of the header that offers the payload for download as `filename`.
pub open spec fn attachment_text(filename: Seq<char>) -> Seq<char> {
    "attachment; filename="@ + filename
}

/// Whether `resp` has the status `status`, no headers and no payload.
pub open spec fn is_empty_response<S>(resp: Response<S>, status: StatusCode) -> bool {
    &&& resp.status == status
    &&& resp.headers@ == Seq::<(Seq<u8>, Seq<u8>)>::empty()
    &&& resp.body is Empty
}

/// Sets the content type of `resp`: a content type that it had is replaced.
fn set_content_type<S>(resp: &mut Response<S>, content_type: HeaderValue)
    ensures
        final(resp).status == old(resp).status,
        final(resp).body == old(resp).body,
        final(resp).headers@ == without_name(old(resp).headers@, content_type_name()).push(
            (content_type_name(), content_type@),
        ),
{
    proof {
        reveal_strlit("Content-Type");
        broadcast use is_ascii_spec_bytes;
        assert(vstd::string::is_ascii("Content-Type"));
        assert(is_header_name("Content-Type".spec_bytes()));
    }
    let _ = resp.headers.insert("Content-Type", content_type);
}

/// The response with status `status_code`, no headers and no payload.
pub fn create_empty_response<S>(status_code: StatusCode) -> (resp: Response<S>)
    ensures
        is_empty_response(resp, status_code),
{
    let mut response = Response::default();
    response.status = status_code;
    response
}

/// The response that carries JSON text: content type `application/json`, and
/// for payload the text that the serialiser gave. Where the serialiser
/// refused the value, its error.
pub fn create_json_response<S>(status: StatusCode, serialized: Result<String, serde_json::Error>) -> (r:
    Result<Response<S>, SerializeToJsonBodyError>)
    ensures
        match serialized {
            Ok(text) => r matches Ok(resp) && resp.status == status && resp.headers@ == seq![
                (content_type_name(), ContentType::ApplicationJson.text().spec_bytes()),
            ] && resp.body == ResponseBody::<S>::String(Some(text)),
            Err(e) => r matches Err(err) && err == SerializeToJsonBodyError::SerdeJson(e),
        },
{
    let mut resp = Response::default();
    resp.status = status;
    set_content_type(&mut resp, ContentType::ApplicationJson.header_value());
    match create_json_body(serialized) {
        Ok(body) => {
            resp.body = body;
            Ok(resp)
        },
        Err(e) => Err(e),
    }
}

/// The response with the payload `text` and the content type `content_type`.
pub fn create_static_str_response<S>(
    status: StatusCode,
    text: &'static str,
    content_type: HeaderValue,
) -> (resp: Response<S>)
    ensures
        resp.status == status,
        resp.headers@ == seq![(content_type_name(), content_type@)],
        resp.body == ResponseBody::<S>::Str(Some(text)),
{
    let mut resp = Response::default();
    resp.status = status;
    set_content_type(&mut resp, content_type);
    resp.body = create_static_str_body(text);
    resp
}

/// The response with the text of `text` for payload and the content type
/// `content_type`.
pub fn create_string_response<T: std::fmt::Display, S>(
    status: StatusCode,
    text: T,
    content_type: HeaderValue,
) -> (resp: Response<S>)
    ensures
        resp.status == status,
        resp.headers@ == seq![(content_type_name(), content_type@)],
        resp.body matches ResponseBody::String(Some(s)) && to_string_from_display_ensures::<T>(
            &text,
            s,
        ),
{
    let mut resp = Response::default();
    resp.status = status;
    set_content_type(&mut resp, content_type);
    resp.body = create_string_body(text);
    resp
}

/// The response with a copy of `bytes` for payload and the content type
/// `content_type`.
pub fn create_bytes_response<S>(status: StatusCode, bytes: &[u8], content_type: HeaderValue) -> (resp:
    Response<S>)
    ensures
        resp.status == status,
        resp.headers@ == seq![(content_type_name(), content_type@)],
        resp.body matches ResponseBody::Bytes(Some(b)) && b@ == bytes@,
{
    let mut resp = Response::default();
    resp.status = status;
    set_content_type(&mut resp, content_type);
    resp.body = create_bytes_body(bytes);
    resp
}

/// The response whose payload reads from `stream`, with the content type
/// `content_type`: nothing is read yet, and every read of the payload is a
/// read of `stream`.
pub fn create_stream_response<S: AsyncStream<Vec<u8>>>(
    status: StatusCode,
    stream: S,
    content_type: HeaderValue,
) -> (resp: Response<S>)
    ensures
        resp.status == status,
        resp.headers@ == seq![(content_type_name(), content_type@)],
        resp.body == ResponseBody::AsyncBytesStream(stream),
{
    let mut resp = Response::default();
    resp.status = status;
    set_content_type(&mut resp, content_type);
    resp.body = create_stream_body(stream);
    resp
}

/// The response that offers `body` for download under the name `filename`:
/// content type `content_type`, and the disposition `attachment` with the
/// file's name. A name that cannot stand in a header value is refused.
pub fn create_file_response<S>(
    status: StatusCode,
    body: ResponseBody<S>,
    content_type: HeaderValue,
    filename: &str,
) -> (r: Result<Response<S>, InvalidHeaderValue>)
    ensures
        r is Ok <==> is_header_value(encode_utf8(attachment_text(filename@))),
        r matches Ok(resp) ==> resp.status == status && resp.body == body && resp.headers@ == seq![
            (content_type_name(), content_type@),
            (content_disposition_name(), encode_utf8(attachment_text(filename@))),
        ],
{
    let mut resp = Response::default();
    resp.status = status;
    set_content_type(&mut resp, content_type);
    let text = String::from_str("attachment; filename=").concat(filename);
    match HeaderValue::from_str(text.as_str()) {
        Ok(disposition) => {
            proof {
                reveal_strlit("Content-Disposition");
                broadcast use is_ascii_spec_bytes;
                assert(vstd::string::is_ascii("Content-Disposition"));
                assert(is_header_name("Content-Disposition".spec_bytes()));
                reveal_strlit("Content-Type");
                assert(vstd::string::is_ascii("Content-Type"));
                assert(content_type_name() != content_disposition_name()) by {
                    assert(content_type_name().len() == 12);
                    assert(content_disposition_name().len() == 19);
                }
                let one = seq![(content_type_name(), content_type@)];
                assert(one.drop_last() =~= Seq::<(Seq<u8>, Seq<u8>)>::empty());
                assert(without_name(one.drop_last(), content_disposition_name()).len() == 0);
                assert(one.last() == (content_type_name(), content_type@));
                assert(without_name(one, content_disposition_name()) =~= one);
            }
            let _ = resp.headers.insert("Content-Disposition", disposition);
            resp.body = body;
            Ok(resp)
        },
        Err(e) => Err(e),
    }
}

} // verus!
