use vstd::prelude::*;
use std::sync::Arc;
use crate::request_handler::{Outcome, Request, RequestHandlerFn};
use crate::response_body::Ended;

verus! {

/// The behaviour of a handler as a relation: which outcomes it may end in on
/// which requests.
pub type Responds<A, R, S> = spec_fn(Request<S>, Arc<A>, R, Outcome<S>) -> bool;

/// The relation of `handler`.
pub open spec fn relation_of<A, R, S, N: RequestHandlerFn<A, R, S>>(handler: &N) -> Responds<
    A,
    R,
    S,
> {
    |req: Request<S>, app: Arc<A>, ctx: R, out: Outcome<S>| handler.responds(req, app, ctx, out)
}

/// An interceptor: it is handed the rest of the chain as `next` and decides
/// whether to call it, with what, and what to make of what comes back.
///
/// `decorates` is the interceptor's own account of which outcomes it may end
/// in, given the behaviour of the continuation that it was handed. An
/// interceptor that gives no account may end in any outcome.
pub trait Decorator<ApplicationContextType, RequestContextType, S = Ended> {
    open spec fn decorates(
        &self,
        next: Responds<ApplicationContextType, RequestContextType, S>,
        req: Request<S>,
        app_context: Arc<ApplicationContextType>,
        request_context: RequestContextType,
        out: Outcome<S>,
    ) -> bool {
        true
    }

    fn call<N: RequestHandlerFn<ApplicationContextType, RequestContextType, S>>(
        &self,
        next: &N,
        req: Request<S>,
        app_context: Arc<ApplicationContextType>,
        request_context: RequestContextType,
    ) -> (out: Outcome<S>)
        ensures
            self.decorates(relation_of(next), req, app_context, request_context, out),
    ;
}

/// One interceptor in front of the rest of a chain. The rest is a handler: a
/// terminal handler, or a chain again.
pub struct HandlerChain<D, N> {
    pub decorator: D,
    pub next: N,
}

impl<A, R, S, D: Decorator<A, R, S>, N: RequestHandlerFn<A, R, S>> RequestHandlerFn<
    A,
    R,
    S,
> for HandlerChain<D, N> {
    /// The chain behaves as its first interceptor does with the rest of the
    /// chain for its continuation.
    open spec fn responds(
        &self,
        req: Request<S>,
        app_context: Arc<A>,
        request_context: R,
        out: Outcome<S>,
    ) -> bool {
        self.decorator.decorates(relation_of(&self.next), req, app_context, request_context, out)
    }

    fn handle(&self, req: Request<S>, app_context: Arc<A>, request_context: R) -> (out: Outcome<
        S,
    >) {
        self.decorator.call(&self.next, req, app_context, request_context)
    }
}

/// The handler that runs `decorator` around `next`. A chain of several
/// interceptors is made by handing a chain in as `next`.
pub fn create_request_handler_call_chain<D, N>(decorator: D, next: N) -> (chain: HandlerChain<D, N>)
    ensures
        chain.decorator == decorator,
        chain.next == next,
{
    HandlerChain { decorator, next }
}

/// An interceptor that never calls its continuation ends in the same
/// outcomes whatever stands behind it in the chain.
pub proof fn lemma_short_circuit<
    A,
    R,
    S,
    D: Decorator<A, R, S>,
    N1: RequestHandlerFn<A, R, S>,
    N2: RequestHandlerFn<A, R, S>,
>(
    decorator: D,
    rest: N1,
    other: N2,
    req: Request<S>,
    app_context: Arc<A>,
    request_context: R,
    out: Outcome<S>,
)
    requires
        forall|n1: Responds<A, R, S>, n2: Responds<A, R, S>|
            decorator.decorates(n1, req, app_context, request_context, out)
                == decorator.decorates(n2, req, app_context, request_context, out),
    ensures
        (HandlerChain { decorator, next: rest }).responds(req, app_context, request_context, out)
            == (HandlerChain { decorator, next: other }).responds(
            req,
            app_context,
            request_context,
            out,
        ),
{
}

/// A chain of two interceptors and a terminal handler is the first
/// interceptor around the second around the handler: the first sees what the
/// second returns, whether or not the second called the handler.
pub proof fn lemma_chain_nests<
    A,
    R,
    S,
    D1: Decorator<A, R, S>,
    D2: Decorator<A, R, S>,
    H: RequestHandlerFn<A, R, S>,
>(
    first: D1,
    second: D2,
    terminal: H,
    req: Request<S>,
    app_context: Arc<A>,
    request_context: R,
    out: Outcome<S>,
)
    ensures
        (HandlerChain {
            decorator: first,
            next: HandlerChain { decorator: second, next: terminal },
        }).responds(req, app_context, request_context, out) == first.decorates(
            |rq: Request<S>, ap: Arc<A>, cx: R, o: Outcome<S>|
                second.decorates(relation_of(&terminal), rq, ap, cx, o),
            req,
            app_context,
            request_context,
            out,
        ),
{
    let inner = HandlerChain { decorator: second, next: terminal };
    assert(relation_of(&inner) =~= (|rq: Request<S>, ap: Arc<A>, cx: R, o: Outcome<S>|
        second.decorates(relation_of(&terminal), rq, ap, cx, o)));
}

} // verus!
