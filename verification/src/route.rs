//! The Router and Service contracts, the typed route unit pairing them,
//! and the homogenization that erases the route's context type behind a
//! uniform callable.
//!
//! A `Route` is statically typed over whatever context its router
//! produces; homogenization converts it, in two stages, into a
//! `HomogeneousRoute` whose externally visible behaviour is exactly
//! `Request -> (matched outcome | handed-back Request)`, identical for
//! every route regardless of its original context type.

use vstd::prelude::*;

use std::sync::Arc;

use crate::error::Error;
use crate::request::Request;
use crate::response::Response;

verus! {

/// The uniform callable of one route, with its context type erased: one
/// dispatch attempt, `Request -> (matched outcome | handed-back Request)`.
pub type ErasedCallable = Box<dyn RouteFn>;

/// Relies on std's `Arc::clone`: the clone is another handle on the very
/// same shared value.
#[verifier::external_body]
fn clone_handle(handle: &Arc<ErasedCallable>) -> (r: Arc<ErasedCallable>)
    ensures
        r == *handle,
{
    handle.clone()
}

/// A matcher: inspects (and may mutate) a request and either commits to a
/// match by producing a typed context, or signals "no match, try the next
/// route". Implementations decide what matching means; the contract only
/// fixes that running is a function of the router and the request, so that
/// a dispatch chain behaves the same on equivalent fresh requests.
pub trait Router {
    type Context;

    /// What running this router does: the request as the router leaves it,
    /// and the context when it matches.
    spec fn spec_run(&self, request: Request) -> (Request, Option<Self::Context>);

    /// Runs the matcher. `None` is never an error: it is the designed
    /// try-next-route signal.
    fn run(&self, request: &mut Request) -> (r: Option<Self::Context>)
        ensures
            (*final(request), r) == self.spec_run(*old(request)),
    ;
}

/// A handler: given a request and the context its paired router committed,
/// produces a response or fails. The request is consumed; the service is
/// solely responsible for body consumption from that point on.
pub trait Service {
    type Context;

    /// What calling this service yields, as a function of the service, the
    /// request and the committed context.
    spec fn spec_call(&self, request: Request, context: Self::Context) -> Result<Response, Error>;

    /// Handles the request under the committed context.
    fn call(&self, request: Request, context: &Self::Context) -> (r: Result<Response, Error>)
        ensures
            r == self.spec_call(request, *context),
    ;
}

/// What one dispatch attempt of a route yields, as a function of its
/// router, its service and the request: on a match, the service's outcome
/// on the request as the router left it; otherwise the request as the
/// router left it, handed back for the next route.
pub open spec fn spec_route_outcome<R: Router, S: Service<Context = R::Context>>(
    router: R,
    service: S,
    request: Request,
) -> Result<Result<Response, Error>, Request> {
    let (after, matched) = router.spec_run(request);
    match matched {
        Some(context) => Ok(service.spec_call(after, context)),
        None => Err(after),
    }
}

/// The uniform callable contract of a homogenized route: one dispatch
/// attempt, `Request -> (matched outcome | handed-back Request)`. The
/// context type of the originating route no longer appears; each
/// implementation's behaviour is pinned by its own `spec_try`.
pub trait RouteFn {
    /// What one attempt yields, as a function of the callable and the
    /// request.
    spec fn spec_try(&self, request: Request) -> Result<Result<Response, Error>, Request>;

    /// Tries the route once: `Ok` is a committed match (the handler's
    /// success or failure), `Err` hands the request back so the caller can
    /// offer it to the next route.
    fn try_route(&self, request: Request) -> (r: Result<Result<Response, Error>, Request>)
        ensures
            r == self.spec_try(request),
    ;
}

/// A concrete (router, service) pair sharing one context type, checked at
/// compile time. Exists only as a builder value: homogenization consumes
/// it.
pub struct Route<R, S> {
    router: R,
    service: S,
}

impl<R, S> Route<R, S> {
    /// The router of the pair.
    pub closed spec fn router(&self) -> R {
        self.router
    }

    /// The service of the pair.
    pub closed spec fn service(&self) -> S {
        self.service
    }

    /// Pairs a router with the service that handles its matches.
    pub fn new(router: R, service: S) -> (r: Route<R, S>)
        ensures
            r.router() == router,
            r.service() == service,
    {
        Route { router, service }
    }
}

impl<R, S> Route<R, S> where
    R: Router + Send + Sync + 'static,
    S: Service<Context = R::Context> + Send + Sync + 'static,
    R::Context: Send + Sync + 'static,
 {
    /// Erases this route's context type: wraps router and service in
    /// shared handles, then hides both behind one uniform callable. The
    /// erasure is one-directional; afterwards no caller can observe the
    /// context type again, only the dispatch behaviour it pinned.
    pub fn homogeneous(self) -> (hr: HomogeneousRoute)
        ensures
            forall|request: Request|
                (#[trigger] hr.spec_try(request)) == spec_route_outcome(
                    self.router(),
                    self.service(),
                    request,
                ),
    {
        let intermediate = HomogeneousRouteIntermediate {
            router: Arc::new(self.router),
            service: Arc::new(self.service),
        };
        intermediate.make_fully_homogeneous()
    }
}

/// The first homogenization stage: router and service behind shared,
/// reference-counted handles, with the context type still visible in the
/// type.
pub struct HomogeneousRouteIntermediate<R, S> {
    pub router: Arc<R>,
    pub service: Arc<S>,
}

impl<R, S> RouteFn for HomogeneousRouteIntermediate<R, S> where
    R: Router,
    S: Service<Context = R::Context>,
 {
    open spec fn spec_try(&self, request: Request) -> Result<Result<Response, Error>, Request> {
        spec_route_outcome(*self.router, *self.service, request)
    }

    /// One dispatch attempt: run the router; on a match, hand the request
    /// and the committed context to the service and return its outcome; on
    /// no match, hand the request back without having lost it.
    fn try_route(&self, request: Request) -> (r: Result<Result<Response, Error>, Request>) {
        let mut req = request;
        match self.router.run(&mut req) {
            Some(context) => Ok(self.service.call(req, &context)),
            None => Err(req),
        }
    }
}

impl<R, S> HomogeneousRouteIntermediate<R, S> where
    R: Router + Send + Sync + 'static,
    S: Service<Context = R::Context> + Send + Sync + 'static,
    R::Context: Send + Sync + 'static,
 {
    /// The second homogenization stage, part one: this pair as the uniform
    /// callable, behind a shared, reference-counted handle. From here on
    /// the context type exists only inside the erased value.
    pub fn as_route_fn(self) -> (r: Arc<ErasedCallable>)
        ensures
            forall|request: Request|
                (#[trigger] (*r).spec_try(request)) == spec_route_outcome(
                    *self.router,
                    *self.service,
                    request,
                ),
    {
        let ghost this = self;
        let callable: Box<dyn RouteFn> = Box::new(self);
        proof {
            assert(forall|request: Request|
                (#[trigger] callable.spec_try(request)) == this.spec_try(request));
        }
        let shared = Arc::new(callable);
        proof {
            assert(forall|request: Request|
                (#[trigger] (*shared).spec_try(request)) == this.spec_try(request));
        }
        shared
    }

    /// The second homogenization stage, part two: the shared callable
    /// under the library's erased-route type, ready to stand in a list
    /// beside routes of unrelated context types.
    pub fn make_fully_homogeneous(self) -> (hr: HomogeneousRoute)
        ensures
            forall|request: Request|
                (#[trigger] hr.spec_try(request)) == spec_route_outcome(
                    *self.router,
                    *self.service,
                    request,
                ),
    {
        let ghost this = self;
        let callable = self.as_route_fn();
        let hr = HomogeneousRoute { inner: callable };
        proof {
            assert(forall|request: Request|
                (#[trigger] hr.spec_try(request)) == spec_route_outcome(
                    *this.router,
                    *this.service,
                    request,
                ));
        }
        hr
    }
}

/// A context-erased route: a shared, reference-counted uniform callable.
/// Cloning shares the same callable, so many concurrent requests may
/// invoke one route; the handle is read-only after construction.
pub struct HomogeneousRoute {
    inner: Arc<ErasedCallable>,
}

impl HomogeneousRoute {
    /// What one attempt of this route yields, as a function of the erased
    /// callable and the request.
    pub closed spec fn spec_try(&self, request: Request) -> Result<Result<Response, Error>, Request> {
        (*self.inner).spec_try(request)
    }

    /// Tries the route once: `Ok` is a committed match, `Err` hands the
    /// request back unconsumed for the next route.
    pub fn invoke(&self, request: Request) -> (r: Result<Result<Response, Error>, Request>)
        ensures
            r == self.spec_try(request),
    {
        self.inner.try_route(request)
    }
}

impl Clone for HomogeneousRoute {
    /// Another handle on the very same callable, for concurrent use; its
    /// behaviour is identical.
    fn clone(&self) -> (r: Self)
        ensures
            forall|request: Request| (#[trigger] r.spec_try(request)) == self.spec_try(request),
    {
        HomogeneousRoute { inner: clone_handle(&self.inner) }
    }
}

/// Law: a route whose router never matches (and, as matchers do by
/// default, leaves an unmatched request unmutated) hands every request
/// back unchanged through its homogenized callable -- ownership
/// round-trips.
pub proof fn lemma_never_matching_hands_request_back<R: Router, S: Service<Context = R::Context>>(
    router: R,
    service: S,
    hr: HomogeneousRoute,
    request: Request,
)
    requires
        forall|q: Request| (#[trigger] hr.spec_try(q)) == spec_route_outcome(router, service, q),
        forall|q: Request| (#[trigger] router.spec_run(q)) == (q, None::<R::Context>),
    ensures
        hr.spec_try(request) == Err::<Result<Response, Error>, Request>(request),
{
}

/// Law: a route whose router always matches with one context invokes its
/// paired service with exactly that context, on the request as the router
/// left it, and returns that service's outcome -- never the handed-back
/// request.
pub proof fn lemma_always_matching_invokes_service<R: Router, S: Service<Context = R::Context>>(
    router: R,
    service: S,
    hr: HomogeneousRoute,
    request: Request,
    context: R::Context,
)
    requires
        forall|q: Request| (#[trigger] hr.spec_try(q)) == spec_route_outcome(router, service, q),
        forall|q: Request| (#[trigger] router.spec_run(q)).1 == Some(context),
    ensures
        hr.spec_try(request) == Ok::<Result<Response, Error>, Request>(
            service.spec_call(router.spec_run(request).0, context),
        ),
{
}

} // verus!
