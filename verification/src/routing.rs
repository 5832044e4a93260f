use vstd::prelude::*;
use vstd::string::StringExecFns;
use std::sync::Arc;
use crate::application_context_trait::ApplicationContextTrait;
use crate::decorators::httponly_header_authorization::{
    AuthenticatorApplicationContext, AuthenticatorError,
};
use crate::request_context_trait::RequestContextTrait;
use crate::request_handler::{
    share, ErrorResponse, Method, Outcome, Request, RequestHandlerFn, NOT_FOUND,
};
use crate::response::{create_empty_response, is_empty_response};
use crate::response_body::Ended;

verus! {

#[verifier::external_type_specification]
#[verifier::external_body]
pub struct ExRegex(regex::Regex);

#[verifier::external_type_specification]
#[verifier::external_body]
pub struct ExRegexError(regex::Error);

/// Whether the regular-expression compiler takes `pattern`.
pub uninterp spec fn pattern_compiles(pattern: Seq<char>) -> bool;

/// The pattern that a compiled regular expression was made from.
pub uninterp spec fn pattern_of(compiled: regex::Regex) -> Seq<char>;

/// The first match of the compiled expression in `text`, as the text of
/// each of its capture groups: group 0 is the whole match, and a group that
/// took no part in the match has no text. Nothing where the expression does
/// not match.
pub uninterp spec fn captures_of(compiled: regex::Regex, text: Seq<char>) -> Option<
    Seq<Option<Seq<char>>>,
>;

/// `regex::Regex::new`: compiles `pattern`, or says why it cannot be
/// compiled. The compiled expression remembers its pattern.
#[verifier::external_body]
fn compile(pattern: &str) -> (r: Result<regex::Regex, regex::Error>)
    ensures
        r is Ok <==> pattern_compiles(pattern@),
        r matches Ok(compiled) ==> pattern_of(compiled) == pattern@,
{
    regex::Regex::new(pattern)
}

/// `regex::Regex::captures`: the capture groups of the first match of the
/// expression in `text`, each as its text.
#[verifier::external_body]
fn captures(compiled: &regex::Regex, text: &str) -> (r: Option<Captures>)
    ensures
        match r {
            Some(c) => captures_of(*compiled, text@) == Some(c@),
            None => captures_of(*compiled, text@) is None,
        },
{
    match compiled.captures(text) {
        Some(found) => Some(
            Captures {
                groups: found.iter().map(|group| group.map(|m| m.as_str().to_string())).collect(),
            },
        ),
        None => None,
    }
}

/// The capture groups of a path that matched a route's pattern.
#[derive(Debug)]
pub struct Captures {
    pub groups: Vec<Option<String>>,
}

impl View for Captures {
    type V = Seq<Option<Seq<char>>>;

    open spec fn view(&self) -> Seq<Option<Seq<char>>> {
        self.groups@.map_values(
            |g: Option<String>|
                match g {
                    Some(text) => Some(text@),
                    None => None,
                },
        )
    }
}

impl Captures {
    /// The number of groups, the whole match counted.
    pub fn len(&self) -> (n: usize)
        ensures
            n == self@.len(),
    {
        self.groups.len()
    }

    /// The text of group `index`, where there is such a group and it took
    /// part in the match.
    pub fn get(&self, index: usize) -> (r: Option<&str>)
        ensures
            match r {
                Some(text) => index < self@.len() && self@[index as int] == Some(text@),
                None => index >= self@.len() || self@[index as int] is None,
            },
    {
        if index < self.groups.len() {
            match &self.groups[index] {
                Some(text) => Some(text.as_str()),
                None => None,
            }
        } else {
            None
        }
    }
}

/// A handler that is bound to a route: it gets the capture groups of the
/// path beside what every handler gets.
///
/// `responds` is the handler's own account of which outcomes it may end in.
/// A handler that gives no account may end in any outcome.
pub trait RouteHandlerFn<ApplicationContextType, RequestContextType, S = Ended> {
    open spec fn responds(
        &self,
        req: Request<S>,
        app_context: Arc<ApplicationContextType>,
        request_context: RequestContextType,
        captures: Seq<Option<Seq<char>>>,
        out: Outcome<S>,
    ) -> bool {
        true
    }

    fn handle(
        &self,
        req: Request<S>,
        app_context: Arc<ApplicationContextType>,
        request_context: RequestContextType,
        captures: Captures,
    ) -> (out: Outcome<S>)
        ensures
            self.responds(req, app_context, request_context, captures@, out),
    ;
}

/// A route handler behind a pointer is a route handler: it ends in the
/// outcomes that the handler behind the pointer ends in.
impl<'a, A, R, S> RouteHandlerFn<A, R, S> for Box<dyn RouteHandlerFn<A, R, S> + 'a> {
    open spec fn responds(
        &self,
        req: Request<S>,
        app_context: Arc<A>,
        request_context: R,
        captures: Seq<Option<Seq<char>>>,
        out: Outcome<S>,
    ) -> bool {
        (**self).responds(req, app_context, request_context, captures, out)
    }

    fn handle(
        &self,
        req: Request<S>,
        app_context: Arc<A>,
        request_context: R,
        captures: Captures,
    ) -> (out: Outcome<S>) {
        (**self).handle(req, app_context, request_context, captures)
    }
}

/// The handler of a rule: a plain handler, or one that takes the capture
/// groups of the path.
pub enum RouteTarget<P, Q> {
    Plain(P),
    WithParams(Q),
}

impl<A, R, S, P: RequestHandlerFn<A, R, S>, Q: RouteHandlerFn<A, R, S>> RouteHandlerFn<
    A,
    R,
    S,
> for RouteTarget<P, Q> {
    open spec fn responds(
        &self,
        req: Request<S>,
        app_context: Arc<A>,
        request_context: R,
        captures: Seq<Option<Seq<char>>>,
        out: Outcome<S>,
    ) -> bool {
        match *self {
            RouteTarget::Plain(handler) => handler.responds(req, app_context, request_context, out),
            RouteTarget::WithParams(handler) => handler.responds(
                req,
                app_context,
                request_context,
                captures,
                out,
            ),
        }
    }

    fn handle(&self, req: Request<S>, app_context: Arc<A>, request_context: R, captures: Captures) -> (out:
        Outcome<S>) {
        match self {
            RouteTarget::Plain(handler) => handler.handle(req, app_context, request_context),
            RouteTarget::WithParams(handler) => handler.handle(
                req,
                app_context,
                request_context,
                captures,
            ),
        }
    }
}

/// One routing rule: the methods it takes, the compiled pattern of the path,
/// and the handler bound to it.
pub struct RoutingRecord<P, Q> {
    pub methods: Vec<Method>,
    pub path: regex::Regex,
    pub request_handler: RouteTarget<P, Q>,
}

/// Whether `method` is among `methods`.
pub open spec fn has_method(methods: Seq<Method>, method: Method) -> bool {
    exists|i: int| 0 <= i < methods.len() && (#[trigger] methods[i]).key() == method.key()
}

impl<P, Q> RoutingRecord<P, Q> {
    /// Whether this rule takes a request with the method `method` and the
    /// path `path`.
    pub open spec fn takes(&self, method: Method, path: Seq<char>) -> bool {
        has_method(self.methods@, method) && captures_of(self.path, path) is Some
    }
}

/// The pattern that a route's path is compiled from: the path as given, tied
/// to both ends of the text.
pub open spec fn anchored(path: Seq<char>) -> Seq<char> {
    "^"@ + path + "$"@
}

/// Whether `methods` holds `method`.
pub fn contains_method(methods: &Vec<Method>, method: &Method) -> (found: bool)
    ensures
        found == has_method(methods@, *method),
{
    let mut i: usize = 0;
    while i < methods.len()
        invariant
            i <= methods@.len(),
            forall|k: int| 0 <= k < i ==> (#[trigger] methods@[k]).key() != method.key(),
        decreases methods@.len() - i,
    {
        if methods[i].same(method) {
            return true;
        }
        i += 1;
    }
    false
}

/// A copy of `methods`.
pub fn copy_methods(methods: &[Method]) -> (copy: Vec<Method>)
    ensures
        copy@ == methods@,
{
    let mut copy: Vec<Method> = Vec::new();
    let mut i: usize = 0;
    while i < methods.len()
        invariant
            i <= methods@.len(),
            copy@ == methods@.take(i as int),
        decreases methods@.len() - i,
    {
        copy.push(methods[i].duplicate());
        assert(copy@ =~= methods@.take(i + 1));
        i += 1;
    }
    assert(methods@.take(methods@.len() as int) =~= methods@);
    copy
}

/// A routing table in the making. `P` is the type of the plain handlers, `Q`
/// that of the handlers that take capture groups.
pub struct RouterBuilder<P, Q> {
    pub routing_table: Vec<RoutingRecord<P, Q>>,
}

/// The routing table: rules in the order in which they were registered, and
/// the application context that the handlers share.
pub struct Router<A, P, Q> {
    pub app_context: Arc<A>,
    pub routing_table: Arc<Vec<RoutingRecord<P, Q>>>,
}

impl<P, Q> RouterBuilder<P, Q> {
    /// A table without rules.
    pub fn new() -> (builder: Self)
        ensures
            builder.routing_table@.len() == 0,
    {
        RouterBuilder { routing_table: Vec::new() }
    }

    /// Whether `after` is this table with one more rule at its end, for
    /// `methods`, the path pattern `path` and the handler `target`.
    pub open spec fn extended_by(
        &self,
        after: Self,
        methods: Seq<Method>,
        path: Seq<char>,
        target: RouteTarget<P, Q>,
    ) -> bool {
        &&& after.routing_table@.len() == self.routing_table@.len() + 1
        &&& after.routing_table@.take(self.routing_table@.len() as int) == self.routing_table@
        &&& after.routing_table@.last().methods@ == methods
        &&& pattern_of(after.routing_table@.last().path) == anchored(path)
        &&& after.routing_table@.last().request_handler == target
    }

    /// Registers a rule at the end of the table: requests with one of
    /// `methods` whose whole path matches `path` go to `target`. A pattern
    /// that does not compile is refused with the compiler's error.
    pub fn route(self, methods: &[Method], path: &str, target: RouteTarget<P, Q>) -> (r: Result<
        Self,
        regex::Error,
    >)
        ensures
            r is Ok <==> pattern_compiles(anchored(path@)),
            r matches Ok(builder) ==> self.extended_by(builder, methods@, path@, target),
    {
        let pattern = String::from_str("^").concat(path).concat("$");
        match compile(pattern.as_str()) {
            Ok(compiled) => {
                let accepted = copy_methods(methods);
                let mut table = self.routing_table;
                let ghost before = table@;
                table.push(
                    RoutingRecord { methods: accepted, path: compiled, request_handler: target },
                );
                assert(table@.take(before.len() as int) =~= before);
                Ok(RouterBuilder { routing_table: table })
            },
            Err(e) => Err(e),
        }
    }

    /// Registers a rule at the end of the table for a handler that takes no
    /// capture groups.
    pub fn path(self, methods: &[Method], path: &str, request_handler: P) -> (r: Result<
        Self,
        regex::Error,
    >)
        ensures
            r is Ok <==> pattern_compiles(anchored(path@)),
            r matches Ok(builder) ==> self.extended_by(
                builder,
                methods@,
                path@,
                RouteTarget::Plain(request_handler),
            ),
    {
        self.route(methods, path, RouteTarget::Plain(request_handler))
    }

    /// Registers a rule at the end of the table for a handler that takes the
    /// capture groups of the path.
    pub fn path_with_params(self, methods: &[Method], path: &str, request_handler: Q) -> (r: Result<
        Self,
        regex::Error,
    >)
        ensures
            r is Ok <==> pattern_compiles(anchored(path@)),
            r matches Ok(builder) ==> self.extended_by(
                builder,
                methods@,
                path@,
                RouteTarget::WithParams(request_handler),
            ),
    {
        self.route(methods, path, RouteTarget::WithParams(request_handler))
    }

    /// The router over the rules registered so far.
    pub fn build<A>(self, app_context: A) -> (router: Router<A, P, Q>)
        ensures
            *router.app_context == app_context,
            *router.routing_table == self.routing_table,
    {
        Router { app_context: Arc::new(app_context), routing_table: Arc::new(self.routing_table) }
    }
}

impl<P, Q> Default for RouterBuilder<P, Q> {
    fn default() -> (builder: Self)
        ensures
            builder.routing_table@.len() == 0,
    {
        RouterBuilder::new()
    }
}

impl<A, P, Q> Router<A, P, Q> {
    /// Whether rule `index` is the one that a request with the method
    /// `method` and the path `path` goes to: the first rule that takes it.
    pub open spec fn selects(&self, method: Method, path: Seq<char>, index: int) -> bool {
        &&& 0 <= index < self.routing_table@.len()
        &&& self.routing_table@[index].takes(method, path)
        &&& forall|j: int| 0 <= j < index ==> !(#[trigger] self.routing_table@[j]).takes(method, path)
    }

    /// Whether no rule takes a request with the method `method` and the path
    /// `path`.
    pub open spec fn misses(&self, method: Method, path: Seq<char>) -> bool {
        forall|j: int|
            0 <= j < self.routing_table@.len() ==> !(#[trigger] self.routing_table@[j]).takes(
                method,
                path,
            )
    }

    /// Which outcomes dispatching may end in: those of the handler of the
    /// rule that the request goes to, called with the capture groups of the
    /// path; and status 404 as a failure where no rule takes the request.
    pub open spec fn dispatches<R, S>(
        &self,
        req: Request<S>,
        app_context: Arc<A>,
        request_context: R,
        out: Outcome<S>,
    ) -> bool where P: RequestHandlerFn<A, R, S>, Q: RouteHandlerFn<A, R, S> {
        ||| exists|index: int| #[trigger]
            self.selects(req.method, req.path@, index) && self.routing_table@[index].request_handler.responds(
                req,
                app_context,
                request_context,
                captures_of(self.routing_table@[index].path, req.path@)->Some_0,
                out,
            )
        ||| (self.misses(req.method, req.path@) && (out matches Err(e) && is_empty_response(
            e.0,
            NOT_FOUND,
        )))
    }

    /// Hands `req` to the handler of the first rule, in the order of
    /// registration, that takes its method and whose pattern matches its
    /// whole path; answers 404 where there is none.
    pub fn dispatch<R, S>(&self, req: Request<S>, app_context: Arc<A>, request_context: R) -> (out:
        Outcome<S>) where P: RequestHandlerFn<A, R, S>, Q: RouteHandlerFn<A, R, S>
        ensures
            self.dispatches(req, app_context, request_context, out),
    {
        let n = self.routing_table.len();
        let mut i: usize = 0;
        while i < n
            invariant
                n == self.routing_table@.len(),
                i <= n,
                forall|j: int|
                    0 <= j < i ==> !(#[trigger] self.routing_table@[j]).takes(req.method, req.path@),
            decreases n - i,
        {
            let router_record = &self.routing_table[i];
            if contains_method(&router_record.methods, req.method()) {
                if let Some(found) = captures(&router_record.path, req.path()) {
                    assert(self.selects(req.method, req.path@, i as int));
                    return router_record.request_handler.handle(
                        req,
                        app_context,
                        request_context,
                        found,
                    );
                }
            }
            i += 1;
        }
        Err(ErrorResponse(create_empty_response(NOT_FOUND)))
    }

    /// The context of a request that came in for this router: one that the
    /// context's type makes from the application context that the router
    /// holds, not from the router.
    pub fn create_request_context<R: RequestContextTrait<A>>(&self) -> (created: R) where
        A: ApplicationContextTrait,

        ensures
            R::creates(self.app_context, created),
    {
        R::create(share(&self.app_context))
    }
}

impl<A, P, Q> ApplicationContextTrait for Router<A, P, Q> {

}

/// A router whose application context tells and renews access tokens does
/// so itself, by asking that context.
impl<A: AuthenticatorApplicationContext, P, Q> AuthenticatorApplicationContext for Router<A, P, Q> {
    open spec fn verifies(&self, access_token: Seq<char>, r: Result<(), AuthenticatorError>) -> bool {
        self.app_context.verifies(access_token, r)
    }

    open spec fn renews(&self, access_token: Seq<char>, r: Result<String, AuthenticatorError>) -> bool {
        self.app_context.renews(access_token, r)
    }

    fn update_access_token(&self, access_token: String) -> (r: Result<String, AuthenticatorError>) {
        self.app_context.update_access_token(access_token)
    }

    fn verify_access_token(&self, access_token: &str) -> (r: Result<(), AuthenticatorError>) {
        self.app_context.verify_access_token(access_token)
    }
}

/// Dispatches `req` through `router`, with the application context of the
/// router for the handlers.
pub fn router_fn<A, R, S, P: RequestHandlerFn<A, R, S>, Q: RouteHandlerFn<A, R, S>>(
    req: Request<S>,
    router: Arc<Router<A, P, Q>>,
    request_context: R,
) -> (out: Outcome<S>)
    ensures
        router.dispatches(req, router.app_context, request_context, out),
{
    let app_context = share(&router.app_context);
    router.dispatch(req, app_context, request_context)
}

/// The router as a handler: the terminal handler of a chain whose
/// application context is the router.
pub struct RouterFn;

impl<A, R, S, P: RequestHandlerFn<A, R, S>, Q: RouteHandlerFn<A, R, S>> RequestHandlerFn<
    Router<A, P, Q>,
    R,
    S,
> for RouterFn {
    open spec fn responds(
        &self,
        req: Request<S>,
        app_context: Arc<Router<A, P, Q>>,
        request_context: R,
        out: Outcome<S>,
    ) -> bool {
        app_context.dispatches(req, app_context.app_context, request_context, out)
    }

    fn handle(&self, req: Request<S>, app_context: Arc<Router<A, P, Q>>, request_context: R) -> (out:
        Outcome<S>) {
        router_fn(req, app_context, request_context)
    }
}

/// Of two rules that take the same request, the one registered later is
/// never the one that the request goes to.
pub proof fn lemma_first_match_wins<A, P, Q>(
    router: Router<A, P, Q>,
    method: Method,
    path: Seq<char>,
    first: int,
    second: int,
)
    requires
        0 <= first < second < router.routing_table@.len(),
        router.routing_table@[first].takes(method, path),
        router.routing_table@[second].takes(method, path),
    ensures
        !router.selects(method, path, second),
        !router.misses(method, path),
        forall|index: int| router.selects(method, path, index) ==> index <= first,
{
}

} // verus!
