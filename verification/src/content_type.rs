use vstd::prelude::*;
use vstd::string::StringSliceAdditionalSpecFns;
use vstd::string::is_ascii_spec_bytes;
use vstd::pervasive::unreached;
use crate::headers::{is_header_value, is_value_byte, HeaderValue};

verus! {

/// The content types that the library itself names.
#[derive(Debug, Clone, Copy, PartialEq, Eq, Structural)]
pub enum ContentType {
    TextPlain,
    ApplicationJson,
    ApplicationOctetstream,
}

impl ContentType {
    /// The text of the content type, as it stands in a header.
    pub open spec fn text(&self) -> &'static str {
        match *self {
            ContentType::TextPlain => "text/plain",
            ContentType::ApplicationJson => "application/json",
            ContentType::ApplicationOctetstream => "application/octet-stream",
        }
    }

    /// The text of the content type, as it stands in a header.
    pub fn as_str(&self) -> (text: &'static str)
        ensures
            text == self.text(),
    {
        match self {
            ContentType::TextPlain => "text/plain",
            ContentType::ApplicationJson => "application/json",
            ContentType::ApplicationOctetstream => "application/octet-stream",
        }
    }

    /// The header value of the content type.
    pub fn header_value(&self) -> (value: HeaderValue)
        ensures
            value@ == self.text().spec_bytes(),
    {
        let text = self.as_str();
        proof {
            reveal_strlit("text/plain");
            reveal_strlit("application/json");
            reveal_strlit("application/octet-stream");
            broadcast use is_ascii_spec_bytes;
            assert(vstd::string::is_ascii(text));
            assert(is_header_value(text.spec_bytes()));
        }
        match HeaderValue::from_str(text) {
            Ok(value) => value,
            Err(_) => unreached(),
        }
    }
}

} // verus!
