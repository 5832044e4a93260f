use vstd::prelude::*;
use std::sync::Arc;
use crate::headers::HeaderMap;
use crate::response_body::{Ended, ResponseBody};

verus! {

/// A status code of a response.
pub type StatusCode = u16;

pub const OK: StatusCode = 200;

pub const BAD_REQUEST: StatusCode = 400;

pub const NOT_FOUND: StatusCode = 404;

pub const INTERNAL_SERVER_ERROR: StatusCode = 500;

/// The method of a request: one of the standard ones, or an extension token.
#[derive(Debug, Clone, PartialEq, Eq)]
pub enum Method {
    Options,
    Get,
    Post,
    Put,
    Delete,
    Head,
    Trace,
    Connect,
    Patch,
    Extension(String),
}

impl Method {
    /// What tells one method from another: the kind of method, and the token
    /// of an extension method.
    pub open spec fn key(&self) -> (int, Seq<char>) {
        match *self {
            Method::Options => (0, Seq::empty()),
            Method::Get => (1, Seq::empty()),
            Method::Post => (2, Seq::empty()),
            Method::Put => (3, Seq::empty()),
            Method::Delete => (4, Seq::empty()),
            Method::Head => (5, Seq::empty()),
            Method::Trace => (6, Seq::empty()),
            Method::Connect => (7, Seq::empty()),
            Method::Patch => (8, Seq::empty()),
            Method::Extension(token) => (9, token@),
        }
    }

    /// The kind of method, as a number.
    pub fn kind(&self) -> (k: u8)
        ensures
            k == self.key().0,
    {
        match self {
            Method::Options => 0,
            Method::Get => 1,
            Method::Post => 2,
            Method::Put => 3,
            Method::Delete => 4,
            Method::Head => 5,
            Method::Trace => 6,
            Method::Connect => 7,
            Method::Patch => 8,
            Method::Extension(_) => 9,
        }
    }

    /// A copy of the method.
    pub fn duplicate(&self) -> (copy: Method)
        ensures
            copy == *self,
    {
        match self {
            Method::Options => Method::Options,
            Method::Get => Method::Get,
            Method::Post => Method::Post,
            Method::Put => Method::Put,
            Method::Delete => Method::Delete,
            Method::Head => Method::Head,
            Method::Trace => Method::Trace,
            Method::Connect => Method::Connect,
            Method::Patch => Method::Patch,
            Method::Extension(token) => Method::Extension(token.clone()),
        }
    }

    /// Whether `self` and `other` are the same method.
    pub fn same(&self, other: &Method) -> (b: bool)
        ensures
            b == (self.key() == other.key()),
    {
        if self.kind() != other.kind() {
            return false;
        }
        match self {
            Method::Extension(a) => {
                match other {
                    Method::Extension(b) => *a == *b,
                    _ => false,
                }
            },
            _ => true,
        }
    }
}

/// A request as the handlers see it.
pub struct Request<S = Ended> {
    pub method: Method,
    /// The path of the request's target, without the query.
    pub path: String,
    /// The query of the request's target, without the question mark.
    pub query: Option<String>,
    pub headers: HeaderMap,
    pub body: ResponseBody<S>,
}

impl<S> Request<S> {
    pub fn method(&self) -> (m: &Method)
        ensures
            *m == self.method,
    {
        &self.method
    }

    pub fn path(&self) -> (p: &str)
        ensures
            p@ == self.path@,
    {
        self.path.as_str()
    }

    pub fn query(&self) -> (q: Option<&str>)
        ensures
            match q {
                Some(text) => self.query matches Some(s) && text@ == s@,
                None => self.query is None,
            },
    {
        match &self.query {
            Some(text) => Some(text.as_str()),
            None => None,
        }
    }

    pub fn headers(&self) -> (h: &HeaderMap)
        ensures
            *h == self.headers,
    {
        &self.headers
    }
}

/// A response as the handlers make it.
pub struct Response<S = Ended> {
    pub status: StatusCode,
    pub headers: HeaderMap,
    pub body: ResponseBody<S>,
}

impl<S> Response<S> {
    /// The response with status 200, no headers, and `body`.
    pub fn new(body: ResponseBody<S>) -> (resp: Response<S>)
        ensures
            resp.status == OK,
            resp.headers@ == Seq::<(Seq<u8>, Seq<u8>)>::empty(),
            resp.body == body,
    {
        Response { status: OK, headers: HeaderMap::new(), body }
    }
}

impl<S> Default for Response<S> {
    fn default() -> (resp: Response<S>)
        ensures
            resp.status == OK,
            resp.headers@ == Seq::<(Seq<u8>, Seq<u8>)>::empty(),
            resp.body is Empty,
    {
        Response { status: OK, headers: HeaderMap::new(), body: ResponseBody::Empty }
    }
}

/// A response that stands for a failure. It is as complete as any response.
pub struct ErrorResponse<S = Ended>(pub Response<S>);

impl<S> From<Response<S>> for ErrorResponse<S> {
    fn from(e: Response<S>) -> (err: ErrorResponse<S>) {
        ErrorResponse(e)
    }
}

impl<S> vstd::std_specs::convert::FromSpecImpl<Response<S>> for ErrorResponse<S> {
    open spec fn obeys_from_spec() -> bool {
        true
    }

    open spec fn from_spec(e: Response<S>) -> ErrorResponse<S> {
        ErrorResponse(e)
    }
}

/// What handling a request ends in: a response, or a response that stands
/// for a failure.
pub type Outcome<S = Ended> = Result<Response<S>, ErrorResponse<S>>;

/// What a handler may return: anything that ends in an outcome.
pub trait RequestHandlerReturnTrait<S = Ended> {
    /// The outcome that this ends in. Of a value that does not say so,
    /// nothing is known.
    open spec fn outcome(&self) -> Outcome<S> {
        arbitrary::<spec_fn(&Self) -> Outcome<S>>()(self)
    }

    fn into_outcome(self) -> (out: Outcome<S>)
        ensures
            out == self.outcome(),
    ;
}

impl<S> RequestHandlerReturnTrait<S> for Result<Response<S>, ErrorResponse<S>> {
    open spec fn outcome(&self) -> Outcome<S> {
        *self
    }

    fn into_outcome(self) -> (out: Outcome<S>) {
        self
    }
}

/// A request handler: takes a request, the shared application context and
/// the context of this request, and always ends in an outcome.
///
/// `responds` is the handler's own account of which outcomes it may end in.
/// A handler that gives no account may end in any outcome.
pub trait RequestHandlerFn<ApplicationContextType, RequestContextType, S = Ended> {
    open spec fn responds(
        &self,
        req: Request<S>,
        app_context: Arc<ApplicationContextType>,
        request_context: RequestContextType,
        out: Outcome<S>,
    ) -> bool {
        true
    }

    fn handle(
        &self,
        req: Request<S>,
        app_context: Arc<ApplicationContextType>,
        request_context: RequestContextType,
    ) -> (out: Outcome<S>)
        ensures
            self.responds(req, app_context, request_context, out),
    ;
}

/// A handler behind a pointer is a handler: it ends in the outcomes that the
/// handler behind the pointer ends in. This is the handler type of tables and
/// chains that hold handlers of several types.
impl<'a, A, R, S> RequestHandlerFn<A, R, S> for Box<dyn RequestHandlerFn<A, R, S> + 'a> {
    open spec fn responds(
        &self,
        req: Request<S>,
        app_context: Arc<A>,
        request_context: R,
        out: Outcome<S>,
    ) -> bool {
        (**self).responds(req, app_context, request_context, out)
    }

    fn handle(&self, req: Request<S>, app_context: Arc<A>, request_context: R) -> (out: Outcome<S>) {
        (**self).handle(req, app_context, request_context)
    }
}

/// The response that goes out for `outcome`: a failure is a response too.
pub fn service_helper<S>(outcome: Outcome<S>) -> (resp: Response<S>)
    ensures
        resp == match outcome {
            Ok(r) => r,
            Err(e) => e.0,
        },
{
    match outcome {
        Ok(resp) => resp,
        Err(resp) => resp.0,
    }
}

/// `Arc::clone` of std: another pointer to the same value.
#[verifier::external_body]
pub(crate) fn share<T>(shared: &Arc<T>) -> (other: Arc<T>)
    ensures
        other == *shared,
{
    Arc::clone(shared)
}

} // verus!
