use vstd::prelude::*;
use vstd::string::is_ascii_spec_bytes;
use vstd::string::StringExecFns;
use vstd::string::StringSliceAdditionalSpecFns;
use vstd::utf8::encode_utf8;
use std::sync::Arc;
use crate::chain::{relation_of, Decorator, Responds};
use crate::content_type::ContentType;
use crate::cookies::{cookie_items, cookies_iter, is_cookie_expired_at, unix_now_nanos, CookieItem};
use crate::headers::{
    is_header_name, is_header_value, normalized_name, without_name, HeaderValue,
    InvalidHeaderValue,
};
use crate::request_handler::{
    share, ErrorResponse, Outcome, Request, RequestHandlerFn, Response, StatusCode, BAD_REQUEST,
    INTERNAL_SERVER_ERROR,
};
use crate::response::{
    content_type_name, create_empty_response, create_static_str_response, is_empty_response,
};
use crate::response_body::ResponseBody;

verus! {

/// Why the authenticator gave up.
#[derive(Debug, Clone, Copy, PartialEq, Eq, Structural)]
pub enum AuthenticatorError {
    InvalidCredentials,
    InvalidAccessToken,
    InvalidHttpHeaderValue,
    InternalError,
}

impl AuthenticatorError {
    /// The status of the response that stands for this error.
    pub open spec fn status(&self) -> StatusCode {
        match *self {
            AuthenticatorError::InternalError => INTERNAL_SERVER_ERROR,
            _ => BAD_REQUEST,
        }
    }
}

impl<S> From<AuthenticatorError> for ErrorResponse<S> {
    fn from(e: AuthenticatorError) -> (err: ErrorResponse<S>)
        ensures
            is_empty_response(err.0, e.status()),
    {
        let status = match e {
            AuthenticatorError::InvalidCredentials => BAD_REQUEST,
            AuthenticatorError::InvalidAccessToken => BAD_REQUEST,
            AuthenticatorError::InvalidHttpHeaderValue => BAD_REQUEST,
            AuthenticatorError::InternalError => INTERNAL_SERVER_ERROR,
        };
        ErrorResponse(create_empty_response(status))
    }
}

impl<S> vstd::std_specs::convert::FromSpecImpl<AuthenticatorError> for ErrorResponse<S> {
    open spec fn obeys_from_spec() -> bool {
        false
    }

    open spec fn from_spec(e: AuthenticatorError) -> ErrorResponse<S> {
        arbitrary()
    }
}

impl From<InvalidHeaderValue> for AuthenticatorError {
    fn from(e: InvalidHeaderValue) -> (err: AuthenticatorError) {
        AuthenticatorError::InvalidHttpHeaderValue
    }
}

impl vstd::std_specs::convert::FromSpecImpl<InvalidHeaderValue> for AuthenticatorError {
    open spec fn obeys_from_spec() -> bool {
        true
    }

    open spec fn from_spec(e: InvalidHeaderValue) -> AuthenticatorError {
        AuthenticatorError::InvalidHttpHeaderValue
    }
}

/// What the authenticator needs of the application context: it tells valid
/// access tokens from others, and renews a token. A context that gives no
/// account of either may return anything.
pub trait AuthenticatorApplicationContext {
    /// Whether `r` is a possible result of verifying `access_token`.
    open spec fn verifies(&self, access_token: Seq<char>, r: Result<(), AuthenticatorError>) -> bool {
        true
    }

    /// Whether `r` is a possible result of renewing `access_token`.
    open spec fn renews(&self, access_token: Seq<char>, r: Result<String, AuthenticatorError>) -> bool {
        true
    }

    fn update_access_token(&self, access_token: String) -> (r: Result<String, AuthenticatorError>)
        ensures
            self.renews(access_token@, r),
    ;

    fn verify_access_token(&self, access_token: &str) -> (r: Result<(), AuthenticatorError>)
        ensures
            self.verifies(access_token@, r),
    ;
}

/// What the authenticator needs of the request context: a place for the
/// token that was verified.
pub trait AuthenticatorRequestContext: Sized {
    /// Whether `after` is this context with `access_token` noted as verified.
    /// A context that gives no account of it may be anything afterwards.
    open spec fn notes(&self, access_token: Seq<char>, after: Self) -> bool {
        true
    }

    fn set_verified_access_token(&mut self, access_token: &str)
        ensures
            old(self).notes(access_token@, *final(self)),
    ;
}

/// What to do about the access token of a response.
#[derive(Debug)]
pub enum AccessTokenAction {
    Add(String),
    Delete,
}

/// The name of the header that sets a cookie, as stored.
pub open spec fn set_cookie_name() -> Seq<u8> {
    normalized_name("Set-Cookie".spec_bytes())
}

/// The `Set-Cookie` text of the cookie `name` with the value `value` that
/// is out of reach of scripts and sent with requests from the same site
/// only.
pub open spec fn strict_http_only_cookie(name: Seq<char>, value: Seq<char>) -> Seq<char> {
    name + "="@ + value + "; HttpOnly; SameSite=Strict"@
}

/// The `Set-Cookie` text of such a cookie that expired at the start of 1970.
pub open spec fn expired_strict_http_only_cookie(name: Seq<char>, value: Seq<char>) -> Seq<char> {
    strict_http_only_cookie(name, value) + "; Expires=Thu, 01 Jan 1970 00:00:00 GMT"@
}

/// The text of the cookie that sets the access token to `value`.
pub open spec fn access_token_cookie(value: Seq<char>) -> Seq<char> {
    strict_http_only_cookie("access_token"@, value)
}

/// The text of the cookie that makes the client drop its access token: its
/// value is `delete` and it expired in 1970.
pub open spec fn access_token_removal() -> Seq<char> {
    expired_strict_http_only_cookie("access_token"@, "delete"@)
}

/// The text of the cookie that carries out `action`.
pub open spec fn action_cookie(action: AccessTokenAction) -> Seq<char> {
    match action {
        AccessTokenAction::Add(token) => access_token_cookie(token@),
        AccessTokenAction::Delete => access_token_removal(),
    }
}

/// `cookie::CookieBuilder`: the `Set-Cookie` text (`to_string`) of the cookie
/// `name` with the value `value`, HTTP-only and with the same-site rule
/// `Strict`. The crate writes name, `=`, value, then `; HttpOnly` and
/// `; SameSite=Strict`, and encodes nothing.
#[verifier::external_body]
fn strict_http_only_cookie_text(name: &str, value: &str) -> (text: String)
    ensures
        text@ == strict_http_only_cookie(name@, value@),
{
    cookie::CookieBuilder::new(name, value)
        .http_only(true)
        .same_site(cookie::SameSite::Strict)
        .build()
        .to_string()
}

/// `cookie::CookieBuilder`: the `Set-Cookie` text of the cookie `name` with
/// the value `value`, HTTP-only, same-site `Strict`, expiring at the start
/// of 1970. The crate writes the expiry last, as `; Expires=` and the date
/// in the form of RFC 1123.
#[verifier::external_body]
fn expired_strict_http_only_cookie_text(name: &str, value: &str) -> (text: String)
    ensures
        text@ == expired_strict_http_only_cookie(name@, value@),
{
    cookie::CookieBuilder::new(name, value)
        .http_only(true)
        .same_site(cookie::SameSite::Strict)
        .expires(cookie::time::OffsetDateTime::UNIX_EPOCH)
        .build()
        .to_string()
}

/// Whether `after` is `before` with its `Set-Cookie` header set to `text`.
pub open spec fn with_cookie<S>(before: Response<S>, after: Response<S>, text: Seq<char>) -> bool {
    &&& after.status == before.status
    &&& after.body == before.body
    &&& after.headers@ == without_name(before.headers@, set_cookie_name()).push(
        (set_cookie_name(), encode_utf8(text)),
    )
}

/// Sets the `Set-Cookie` header of `resp` to the cookie that carries out
/// `access_token_action`; a `Set-Cookie` header that it had is replaced. A
/// token that cannot stand in a header value is refused and `resp` stays as
/// it was.
pub fn add_access_token_to_resp<S>(access_token_action: AccessTokenAction, resp: &mut Response<S>) -> (r:
    Result<(), AuthenticatorError>)
    ensures
        r is Ok <==> is_header_value(encode_utf8(action_cookie(access_token_action))),
        r is Ok ==> with_cookie(*old(resp), *final(resp), action_cookie(access_token_action)),
        r is Err ==> r == Err::<(), AuthenticatorError>(
            AuthenticatorError::InvalidHttpHeaderValue,
        ) && *final(resp) == *old(resp),
{
    let text = match &access_token_action {
        AccessTokenAction::Add(access_token) => strict_http_only_cookie_text(
            "access_token",
            access_token.as_str(),
        ),
        AccessTokenAction::Delete => expired_strict_http_only_cookie_text("access_token", "delete"),
    };
    match HeaderValue::from_str(text.as_str()) {
        Ok(header_value) => {
            proof {
                reveal_strlit("Set-Cookie");
                broadcast use is_ascii_spec_bytes;
                assert(vstd::string::is_ascii("Set-Cookie"));
                assert(is_header_name("Set-Cookie".spec_bytes()));
            }
            let _ = resp.headers.insert("Set-Cookie", header_value);
            Ok(())
        },
        Err(e) => Err(AuthenticatorError::from(e)),
    }
}

/// Whether every item is a cookie.
pub open spec fn all_parsed(items: Seq<CookieItem>) -> bool {
    forall|i: int| 0 <= i < items.len() ==> #[trigger] items[i] is Parsed
}

/// Whether `item` is a cookie that may carry the access token: it is named
/// `access_token` and has not expired before `now`.
pub open spec fn is_candidate(item: CookieItem, now: int) -> bool {
    item matches CookieItem::Parsed((name, value, expires)) && name == "access_token"@ && !(
    expires matches Some(t) && t < now)
}

/// Whether `token` may be the access token taken from `items`: the value of
/// the last candidate among them that `app_context` verified, and nothing
/// where it verified none.
pub open spec fn selects_token<A: AuthenticatorApplicationContext>(
    app_context: &A,
    items: Seq<CookieItem>,
    now: int,
    token: Option<Seq<char>>,
) -> bool
    decreases items.len(),
{
    if items.len() == 0 {
        token is None
    } else if is_candidate(items.last(), now) {
        let value = items.last()->Parsed_0.1;
        ||| (app_context.verifies(value, Ok(())) && token == Some(value))
        ||| ((exists|e: AuthenticatorError| #[trigger]
            app_context.verifies(value, Err(e))) && selects_token(
            app_context,
            items.drop_last(),
            now,
            token,
        ))
    } else {
        selects_token(app_context, items.drop_last(), now, token)
    }
}

/// The text of a token that was selected, if any.
pub open spec fn token_text(token: Option<String>) -> Option<Seq<char>> {
    match token {
        Some(t) => Some(t@),
        None => None,
    }
}

/// Whether `out` is the failure that answers cookies that cannot be read:
/// status 400 with a line of plain text.
pub open spec fn is_cookie_failure<S>(out: Outcome<S>) -> bool {
    out matches Err(e) && e.0.status == BAD_REQUEST && e.0.headers@ == seq![
        (content_type_name(), ContentType::TextPlain.text().spec_bytes()),
    ] && e.0.body == ResponseBody::<S>::Str(Some("could not parse cookies"))
}

/// Whether `out` is what becomes of `ret`, the outcome of the continuation,
/// once the token `token` was renewed with the result `renewed`: the failure
/// of the renewal, or `ret` with the new token as its cookie and still a
/// success or a failure as it was, or status 400 where the new token cannot
/// stand in a header.
pub open spec fn finishes<S>(
    renewed: Result<String, AuthenticatorError>,
    ret: Outcome<S>,
    out: Outcome<S>,
) -> bool {
    match renewed {
        Err(e) => out matches Err(r) && is_empty_response(r.0, e.status()),
        Ok(new_token) => if is_header_value(encode_utf8(access_token_cookie(new_token@))) {
            match ret {
                Ok(resp) => out matches Ok(o) && with_cookie(
                    resp,
                    o,
                    access_token_cookie(new_token@),
                ),
                Err(resp) => out matches Err(o) && with_cookie(
                    resp.0,
                    o.0,
                    access_token_cookie(new_token@),
                ),
            }
        } else {
            out matches Err(r) && is_empty_response(r.0, BAD_REQUEST)
        },
    }
}

/// Which outcomes the access-token interceptor may end in at the time `now`,
/// given the behaviour `next` of its continuation.
///
/// Cookies that cannot be read end in status 400 and the continuation is not
/// called. Without a usable token the continuation's outcome is passed on.
/// With one, the continuation sees the request context with the token noted,
/// and its outcome is finished with the renewed token.
pub open spec fn access_token_outcome<
    A: AuthenticatorApplicationContext,
    R: AuthenticatorRequestContext,
    S,
>(
    next: Responds<A, R, S>,
    req: Request<S>,
    app_context: Arc<A>,
    request_context: R,
    now: int,
    out: Outcome<S>,
) -> bool {
    let items = cookie_items(req.headers@);
    if !all_parsed(items) {
        is_cookie_failure(out)
    } else {
        exists|selected: Option<Seq<char>>| #[trigger]
            selects_token(&*app_context, items, now, selected) && runs_with(
                next,
                req,
                app_context,
                request_context,
                selected,
                out,
            )
    }
}

/// Whether `out` comes about once `selected` was taken from the cookies:
/// without a token the continuation's outcome is passed on, with one the
/// continuation runs with the token noted and its outcome is finished.
pub open spec fn runs_with<
    A: AuthenticatorApplicationContext,
    R: AuthenticatorRequestContext,
    S,
>(
    next: Responds<A, R, S>,
    req: Request<S>,
    app_context: Arc<A>,
    request_context: R,
    selected: Option<Seq<char>>,
    out: Outcome<S>,
) -> bool {
    match selected {
        None => next(req, app_context, request_context, out),
        Some(token) => exists|noted: R, ret: Outcome<S>, renewed: Result<String, AuthenticatorError>|
            runs_with_token(
                next,
                req,
                app_context,
                request_context,
                token,
                noted,
                ret,
                renewed,
                out,
            ),
    }
}

/// Whether `out` comes about with the usable token `token`: the continuation
/// sees the request context `noted`, in which the token is noted, and ends in
/// `ret`; renewing the token gives `renewed`; and `out` is `ret` finished.
pub open spec fn runs_with_token<
    A: AuthenticatorApplicationContext,
    R: AuthenticatorRequestContext,
    S,
>(
    next: Responds<A, R, S>,
    req: Request<S>,
    app_context: Arc<A>,
    request_context: R,
    token: Seq<char>,
    noted: R,
    ret: Outcome<S>,
    renewed: Result<String, AuthenticatorError>,
    out: Outcome<S>,
) -> bool {
    &&& request_context.notes(token, noted)
    &&& next(req, app_context, noted, ret)
    &&& app_context.renews(token, renewed)
    &&& finishes(renewed, ret, out)
}

/// The access-token interceptor at the time `now`, in nanoseconds since
/// 1970-01-01T00:00:00Z: it takes the access token from the request's
/// cookies, has it verified, lets the continuation run, and hands the
/// renewed token back as a cookie of the response.
pub fn access_token_handler_at<
    A: AuthenticatorApplicationContext,
    R: AuthenticatorRequestContext,
    S,
    N: RequestHandlerFn<A, R, S>,
>(
    next: &N,
    req: Request<S>,
    app_context: Arc<A>,
    request_context: R,
    now: i128,
) -> (out: Outcome<S>)
    ensures
        access_token_outcome(relation_of(next), req, app_context, request_context, now as int, out),
{
    let mut request_context = request_context;
    let ghost given = request_context;
    let ghost items = cookie_items(req.headers@);
    let mut access_token: Option<String> = None;
    let mut iter = cookies_iter(req.headers());
    let ghost mut seen: int = 0;
    let wanted = String::from_str("access_token");
    loop
        invariant
            items == cookie_items(req.headers@),
            wanted@ == "access_token"@,
            0 <= seen <= items.len(),
            iter.remaining() == items.skip(seen),
            all_parsed(items.take(seen)),
            selects_token(&*app_context, items.take(seen), now as int, token_text(access_token)),
        ensures
            all_parsed(items),
            selects_token(&*app_context, items, now as int, token_text(access_token)),
        decreases iter.remaining().len(),
    {
        match iter.next() {
            None => {
                assert(items.take(seen) =~= items);
                break ;
            },
            Some(item) => {
                proof {
                    assert(items.skip(seen)[0] == items[seen]);
                    assert(items.skip(seen).drop_first() =~= items.skip(seen + 1));
                    assert(items.take(seen + 1).drop_last() =~= items.take(seen));
                    assert(items.take(seen + 1).last() == items[seen]);
                }
                match item {
                    Err(_) => {
                        assert(!(items[seen] is Parsed));
                        return Err(
                            ErrorResponse(
                                create_static_str_response(
                                    BAD_REQUEST,
                                    "could not parse cookies",
                                    ContentType::TextPlain.header_value(),
                                ),
                            ),
                        );
                    },
                    Ok(cookie) => {
                        assert forall|i: int| 0 <= i < seen + 1 implies #[trigger] items.take(
                            seen + 1,
                        )[i] is Parsed by {
                            if i < seen {
                                assert(items.take(seen)[i] is Parsed);
                            }
                        }
                        let ghost shorter = items.take(seen);
                        let ghost longer = items.take(seen + 1);
                        assert(longer.last() == CookieItem::Parsed(cookie.triple()));
                        assert(longer.drop_last() == shorter);
                        if cookie.name == wanted && !is_cookie_expired_at(&cookie, now) {
                            assert(is_candidate(longer.last(), now as int));
                            let at = cookie.value.clone();
                            let verdict = app_context.verify_access_token(at.as_str());
                            assert(app_context.verifies(cookie.value@, verdict));
                            match verdict {
                                Ok(u) => {
                                    assert(verdict == Ok::<(), AuthenticatorError>(()));
                                    access_token = Some(at);
                                },
                                Err(e) => {
                                    assert(verdict == Err::<(), AuthenticatorError>(e));
                                },
                            }
                        } else {
                            assert(!is_candidate(longer.last(), now as int));
                        }
                        assert(selects_token(
                            &*app_context,
                            longer,
                            now as int,
                            token_text(access_token),
                        ));
                    },
                }
                proof {
                    seen = seen + 1;
                }
            },
        }
    }
    match access_token {
        Some(access_token) => {
            request_context.set_verified_access_token(access_token.as_str());
            let ghost noted = request_context;
            let ghost token = access_token@;
            let ret = next.handle(req, share(&app_context), request_context);
            let renewed = app_context.update_access_token(access_token);
            let out = match renewed {
                Err(e) => Err(ErrorResponse::from(e)),
                Ok(new_token) => {
                    match ret {
                        Ok(mut resp) => {
                            match add_access_token_to_resp(
                                AccessTokenAction::Add(new_token),
                                &mut resp,
                            ) {
                                Ok(()) => Ok(resp),
                                Err(e) => Err(ErrorResponse::from(e)),
                            }
                        },
                        Err(mut resp) => {
                            match add_access_token_to_resp(
                                AccessTokenAction::Add(new_token),
                                &mut resp.0,
                            ) {
                                Ok(()) => Err(resp),
                                Err(e) => Err(ErrorResponse::from(e)),
                            }
                        },
                    }
                },
            };
            assert(finishes(renewed, ret, out));
            let ghost selected = Some(token);
            assert(runs_with(relation_of(next), req, app_context, given, selected, out)) by {
                assert(runs_with_token(
                    relation_of(next),
                    req,
                    app_context,
                    given,
                    selected->Some_0,
                    noted,
                    ret,
                    renewed,
                    out,
                ));
            }
            assert(selects_token(&*app_context, cookie_items(req.headers@), now as int, selected));
            out
        },
        None => {
            let out = next.handle(req, app_context, request_context);
            assert(selects_token(
                &*app_context,
                cookie_items(req.headers@),
                now as int,
                None::<Seq<char>>,
            ));
            assert(runs_with(relation_of(next), req, app_context, given, None::<Seq<char>>, out));
            out
        },
    }
}

/// The access-token interceptor, at the current time of the system clock.
pub fn access_token_handler<
    A: AuthenticatorApplicationContext,
    R: AuthenticatorRequestContext,
    S,
    N: RequestHandlerFn<A, R, S>,
>(
    next: N,
    req: Request<S>,
    app_context: Arc<A>,
    request_context: R,
) -> (out: Outcome<S>)
    ensures
        exists|now: int|
            access_token_outcome(relation_of(&next), req, app_context, request_context, now, out),
{
    let now = unix_now_nanos();
    let out = access_token_handler_at(&next, req, app_context, request_context, now);
    assert(access_token_outcome(
        relation_of(&next),
        req,
        app_context,
        request_context,
        now as int,
        out,
    ));
    out
}

/// The access-token interceptor as a link of a handler chain.
pub struct AccessTokenHandler;

impl<A: AuthenticatorApplicationContext, R: AuthenticatorRequestContext, S> Decorator<
    A,
    R,
    S,
> for AccessTokenHandler {
    open spec fn decorates(
        &self,
        next: Responds<A, R, S>,
        req: Request<S>,
        app_context: Arc<A>,
        request_context: R,
        out: Outcome<S>,
    ) -> bool {
        exists|now: int| access_token_outcome(next, req, app_context, request_context, now, out)
    }

    fn call<N: RequestHandlerFn<A, R, S>>(
        &self,
        next: &N,
        req: Request<S>,
        app_context: Arc<A>,
        request_context: R,
    ) -> (out: Outcome<S>) {
        let now = unix_now_nanos();
        let out = access_token_handler_at(next, req, app_context, request_context, now);
        assert(access_token_outcome(
            relation_of(next),
            req,
            app_context,
            request_context,
            now as int,
            out,
        ));
        out
    }
}

} // verus!
