use vstd::prelude::*;
use crate::response_body::Ended;

verus! {

/// The payload of a request or a response.
pub type Body<S = Ended> = crate::response_body::ResponseBody<S>;

} // verus!
