//! The dispatch chain: an ordered list of homogenized routes tried in
//! order until one matches.
//!
//! Ordering is significant and preserved exactly as configured; routes are
//! never reordered or tried speculatively. A request that no route matches
//! is handed back for an external not-found fallback.

use vstd::prelude::*;

use crate::error::Error;
use crate::request::Request;
use crate::response::Response;
use crate::route::HomogeneousRoute;

verus! {

/// What trying the routes in order yields: the first committed match's
/// outcome, or -- when every route hands the request back -- the request
/// as the chain leaves it, for the external not-found fallback.
pub open spec fn spec_dispatch(routes: Seq<HomogeneousRoute>, request: Request) -> Result<
    Result<Response, Error>,
    Request,
>
    decreases routes.len(),
{
    if routes.len() == 0 {
        Err(request)
    } else {
        match routes.first().spec_try(request) {
            Ok(outcome) => Ok(outcome),
            Err(handed_back) => spec_dispatch(routes.drop_first(), handed_back),
        }
    }
}

/// The position of the route whose match stops the chain, when one does.
pub open spec fn spec_matched_index(routes: Seq<HomogeneousRoute>, request: Request) -> Option<int>
    decreases routes.len(),
{
    if routes.len() == 0 {
        None
    } else {
        match routes.first().spec_try(request) {
            Ok(outcome) => Some(0),
            Err(handed_back) => match spec_matched_index(routes.drop_first(), handed_back) {
                Some(i) => Some(i + 1),
                None => None,
            },
        }
    }
}

/// Tries the routes strictly in the configured order and stops at the
/// first committed match, success or failure; a handed-back request is
/// offered to the next route. When the chain is exhausted, the request is
/// returned for the external not-found fallback.
pub fn dispatch(routes: &Vec<HomogeneousRoute>, request: Request) -> (r: Result<
    Result<Response, Error>,
    Request,
>)
    ensures
        r == spec_dispatch(routes@, request),
{
    let ghost original = request;
    let mut req = request;
    let mut i: usize = 0;
    proof {
        assert(routes@.skip(0) =~= routes@);
    }
    while i < routes.len()
        invariant
            0 <= i <= routes.len(),
            original == request,
            spec_dispatch(routes@.skip(i as int), req) == spec_dispatch(routes@, original),
        decreases routes.len() - i,
    {
        proof {
            assert(routes@.skip(i as int).first() == routes@[i as int]);
            assert(routes@.skip(i as int).drop_first() =~= routes@.skip(i + 1 as int));
        }
        let ghost req_before = req;
        match routes[i].invoke(req) {
            Ok(outcome) => {
                proof {
                    assert(routes@[i as int].spec_try(req_before) == Ok::<
                        Result<Response, Error>,
                        Request,
                    >(outcome));
                    assert(spec_dispatch(routes@.skip(i as int), req_before) == Ok::<
                        Result<Response, Error>,
                        Request,
                    >(outcome));
                }
                return Ok(outcome);
            },
            Err(handed_back) => {
                proof {
                    assert(spec_dispatch(routes@.skip(i as int), req_before) == spec_dispatch(
                        routes@.skip(i + 1 as int),
                        handed_back,
                    ));
                }
                req = handed_back;
            },
        }
        i = i + 1;
    }
    proof {
        assert(routes@.skip(routes@.len() as int) =~= Seq::<HomogeneousRoute>::empty());
    }
    Err(req)
}

/// Law: dispatch is a function of the configured routes and the request
/// alone. Repeated dispatch over equivalent fresh copies of a request
/// yields the same matched route and the same outcome every time.
pub proof fn lemma_dispatch_repeatable(
    routes: Seq<HomogeneousRoute>,
    first: Request,
    second: Request,
)
    requires
        first == second,
    ensures
        spec_dispatch(routes, first) == spec_dispatch(routes, second),
        spec_matched_index(routes, first) == spec_matched_index(routes, second),
{
}

/// Law: a route that matches stops the chain at once -- what the first
/// route commits to is what the whole chain yields, and no later route is
/// consulted.
pub proof fn lemma_first_match_wins(routes: Seq<HomogeneousRoute>, request: Request)
    requires
        routes.len() > 0,
        routes.first().spec_try(request) is Ok,
    ensures
        spec_dispatch(routes, request) == routes.first().spec_try(request),
        spec_matched_index(routes, request) == Some(0int),
{
}

/// Law: the chain is exhausted exactly when no route matches.
pub proof fn lemma_dispatch_exhausted_iff_no_match(routes: Seq<HomogeneousRoute>, request: Request)
    ensures
        (spec_dispatch(routes, request) is Err) <==> (spec_matched_index(routes, request) is None),
    decreases routes.len(),
{
    if routes.len() > 0 {
        match routes.first().spec_try(request) {
            Ok(outcome) => {},
            Err(handed_back) => {
                lemma_dispatch_exhausted_iff_no_match(routes.drop_first(), handed_back);
            },
        }
    }
}

} // verus!
