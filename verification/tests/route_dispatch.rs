use routecore::Body;
use routecore::Error;
use routecore::Header;
use routecore::HeaderMap;
use routecore::HomogeneousRoute;
use routecore::Request;
use routecore::Response;
use routecore::Route;
use routecore::Router;
use routecore::Service;
use routecore::dispatch;
use routecore::HomogeneousRouteIntermediate;
use std::sync::Arc;
use std::sync::atomic::AtomicUsize;
use std::sync::atomic::Ordering;

fn request_for(path: &str, chunks: &[&[u8]]) -> Request {
    Request {
        header: Header {
            url_path: path.to_string(),
            headers: HeaderMap::new(),
        },
        body: Body::from_chunks(chunks.iter().map(|c| c.to_vec()).collect()),
    }
}

/// Matches url paths that start with a fixed prefix; the context is the
/// rest of the path.
struct PrefixRouter {
    prefix: &'static str,
}

impl Router for PrefixRouter {
    type Context = String;

    fn spec_run(&self, request: Request) -> (Request, Option<String>) {
        let matched = if request.header.url_path.starts_with(self.prefix) {
            Some(request.header.url_path[self.prefix.len()..].to_string())
        } else {
            None
        };
        (request, matched)
    }

    fn run(&self, request: &mut Request) -> Option<String> {
        if request.header.url_path.starts_with(self.prefix) {
            Some(request.header.url_path[self.prefix.len()..].to_string())
        } else {
            None
        }
    }
}

/// Matches every request, counting how often it was tried; the context is
/// the whole path.
struct CountingRouter {
    tried: Arc<AtomicUsize>,
}

impl Router for CountingRouter {
    type Context = String;

    fn spec_run(&self, request: Request) -> (Request, Option<String>) {
        let path = request.header.url_path.clone();
        (request, Some(path))
    }

    fn run(&self, request: &mut Request) -> Option<String> {
        self.tried.fetch_add(1, Ordering::SeqCst);
        Some(request.header.url_path.clone())
    }
}

/// Matches every request; the context is the whole path.
struct AlwaysRouter {}

impl Router for AlwaysRouter {
    type Context = String;

    fn spec_run(&self, request: Request) -> (Request, Option<String>) {
        let path = request.header.url_path.clone();
        (request, Some(path))
    }

    fn run(&self, request: &mut Request) -> Option<String> {
        Some(request.header.url_path.clone())
    }
}

/// Never matches.
struct NeverRouter {}

impl Router for NeverRouter {
    type Context = String;

    fn spec_run(&self, request: Request) -> (Request, Option<String>) {
        (request, None)
    }

    fn run(&self, _request: &mut Request) -> Option<String> {
        None
    }
}

/// Strips a fixed prefix from the url path in place when it matches.
struct StripPrefixRouter {
    prefix: &'static str,
}

impl Router for StripPrefixRouter {
    type Context = ();

    fn spec_run(&self, mut request: Request) -> (Request, Option<()>) {
        if request.header.url_path.starts_with(self.prefix) {
            request.header.url_path = request.header.url_path[self.prefix.len()..].to_string();
            (request, Some(()))
        } else {
            (request, None)
        }
    }

    fn run(&self, request: &mut Request) -> Option<()> {
        if request.header.url_path.starts_with(self.prefix) {
            request.header.url_path = request.header.url_path[self.prefix.len()..].to_string();
            Some(())
        } else {
            None
        }
    }
}

/// Answers with the url path of the request it was handed.
struct PathEchoService {}

impl Service for PathEchoService {
    type Context = ();

    fn spec_call(&self, request: Request, _context: ()) -> Result<Response, Error> {
        Ok(Response::new(
            200,
            HeaderMap::new(),
            vec![request.header.url_path.as_bytes().to_vec()],
        ))
    }

    fn call(&self, request: Request, _context: &()) -> Result<Response, Error> {
        Ok(Response::new(
            200,
            HeaderMap::new(),
            vec![request.header.url_path.as_bytes().to_vec()],
        ))
    }
}

/// Always matches with one fixed number.
struct ConstRouter {
    context: usize,
}

impl Router for ConstRouter {
    type Context = usize;

    fn spec_run(&self, request: Request) -> (Request, Option<usize>) {
        let context = self.context;
        (request, Some(context))
    }

    fn run(&self, _request: &mut Request) -> Option<usize> {
        Some(self.context)
    }
}

/// Responds with a fixed status and the context as the only body frame.
struct TagService {
    status: usize,
}

impl Service for TagService {
    type Context = String;

    fn spec_call(&self, _request: Request, context: String) -> Result<Response, Error> {
        Ok(Response::new(
            self.status,
            HeaderMap::new(),
            vec![context.as_bytes().to_vec()],
        ))
    }

    fn call(&self, _request: Request, context: &String) -> Result<Response, Error> {
        Ok(Response::new(
            self.status,
            HeaderMap::new(),
            vec![context.as_bytes().to_vec()],
        ))
    }
}

/// Responds with the numeric context as the status.
struct StatusOfContextService {}

impl Service for StatusOfContextService {
    type Context = usize;

    fn spec_call(&self, _request: Request, context: usize) -> Result<Response, Error> {
        Ok(Response::new(context, HeaderMap::new(), Vec::new()))
    }

    fn call(&self, _request: Request, context: &usize) -> Result<Response, Error> {
        Ok(Response::new(*context, HeaderMap::new(), Vec::new()))
    }
}

/// Always fails: a committed match whose handler cannot complete.
struct FailingService {}

impl Service for FailingService {
    type Context = String;

    fn spec_call(&self, _request: Request, _context: String) -> Result<Response, Error> {
        Err(Error::Encoding)
    }

    fn call(&self, _request: Request, _context: &String) -> Result<Response, Error> {
        Err(Error::Encoding)
    }
}

fn api_route() -> HomogeneousRoute {
    Route::new(PrefixRouter { prefix: "/api/" }, TagService { status: 201 }).homogeneous()
}

fn catch_all_route() -> HomogeneousRoute {
    Route::new(AlwaysRouter {}, TagService { status: 202 }).homogeneous()
}

#[test]
fn unmatched_route_hands_the_request_back_unchanged() {
    let route = Route::new(NeverRouter {}, TagService { status: 200 }).homogeneous();
    let request = request_for("/anything", &[b"payload"]);
    match route.invoke(request) {
        Err(handed_back) => {
            assert_eq!(handed_back.header.url_path, "/anything");
            let bytes = handed_back.body.collect_bytes(None).unwrap();
            assert_eq!(bytes, b"payload".to_vec());
        }
        Ok(_) => panic!("a never-matching router must not match"),
    }
}

#[test]
fn matching_route_invokes_service_with_exact_context() {
    let route = Route::new(ConstRouter { context: 418 }, StatusOfContextService {}).homogeneous();
    let request = request_for("/", &[]);
    match route.invoke(request) {
        Ok(Ok(response)) => assert_eq!(response.status_code(), 418),
        _ => panic!("an always-matching router must commit"),
    }
}

#[test]
fn matched_failure_is_returned_not_handed_back() {
    let route = Route::new(AlwaysRouter {}, FailingService {}).homogeneous();
    let request = request_for("/x", &[]);
    match route.invoke(request) {
        Ok(Err(Error::Encoding)) => {}
        _ => panic!("a committed match must surface the handler's failure"),
    }
}

#[test]
fn dispatch_api_path_takes_first_route() {
    let routes = vec![api_route(), catch_all_route()];
    let outcome = dispatch(&routes, request_for("/api/x", &[]));
    match outcome {
        Ok(Ok(response)) => {
            assert_eq!(response.status_code(), 201);
            let (_, _, frames) = response.into_parts();
            assert_eq!(frames, vec![b"x".to_vec()]);
        }
        _ => panic!("the api route must match /api/x"),
    }
}

#[test]
fn dispatch_first_match_leaves_later_routes_untried() {
    let tried = Arc::new(AtomicUsize::new(0));
    let counting = Route::new(
        CountingRouter { tried: tried.clone() },
        TagService { status: 202 },
    )
    .homogeneous();
    let routes = vec![api_route(), counting];
    let outcome = dispatch(&routes, request_for("/api/x", &[]));
    match outcome {
        Ok(Ok(response)) => assert_eq!(response.status_code(), 201),
        _ => panic!("the api route must match /api/x"),
    }
    assert_eq!(tried.load(Ordering::SeqCst), 0);
}

#[test]
fn dispatch_other_path_falls_through_to_catch_all() {
    let routes = vec![api_route(), catch_all_route()];
    let outcome = dispatch(&routes, request_for("/other", &[]));
    match outcome {
        Ok(Ok(response)) => {
            assert_eq!(response.status_code(), 202);
            let (_, _, frames) = response.into_parts();
            assert_eq!(frames, vec![b"/other".to_vec()]);
        }
        _ => panic!("the catch-all route must match /other"),
    }
}

#[test]
fn dispatch_is_repeatable_on_fresh_equivalent_requests() {
    let routes = vec![api_route(), catch_all_route()];
    for _ in 0..3 {
        let outcome = dispatch(&routes, request_for("/api/x", &[]));
        match outcome {
            Ok(Ok(response)) => assert_eq!(response.status_code(), 201),
            _ => panic!("repeated dispatch must match the same route"),
        }
    }
}

#[test]
fn exhausted_chain_returns_the_request_for_the_fallback() {
    let routes = vec![
        Route::new(NeverRouter {}, TagService { status: 200 }).homogeneous(),
        Route::new(PrefixRouter { prefix: "/api/" }, TagService { status: 201 }).homogeneous(),
    ];
    let outcome = dispatch(&routes, request_for("/other", &[b"kept"]));
    match outcome {
        Err(request) => {
            assert_eq!(request.header.url_path, "/other");
            assert_eq!(request.body.collect_bytes(None).unwrap(), b"kept".to_vec());
        }
        Ok(_) => panic!("no route should match /other"),
    }
}

#[test]
fn empty_chain_is_immediately_exhausted() {
    let routes: Vec<HomogeneousRoute> = Vec::new();
    let outcome = dispatch(&routes, request_for("/", &[]));
    assert!(outcome.is_err());
}

#[test]
fn cloned_route_shares_the_same_behaviour() {
    let route = api_route();
    let copy = route.clone();
    match copy.invoke(request_for("/api/y", &[])) {
        Ok(Ok(response)) => assert_eq!(response.status_code(), 201),
        _ => panic!("the clone must behave as the original"),
    }
    match route.invoke(request_for("/api/y", &[])) {
        Ok(Ok(response)) => assert_eq!(response.status_code(), 201),
        _ => panic!("the original must still behave the same"),
    }
}

#[test]
fn service_sees_the_request_as_the_router_left_it() {
    let route = Route::new(StripPrefixRouter { prefix: "/api" }, PathEchoService {}).homogeneous();
    match route.invoke(request_for("/api/users", &[])) {
        Ok(Ok(response)) => {
            let (_, _, frames) = response.into_parts();
            assert_eq!(frames, vec![b"/users".to_vec()]);
        }
        _ => panic!("the stripping router must match /api/users"),
    }
}

#[test]
fn split_separates_header_and_body() {
    let request = request_for("/p", &[b"abc"]);
    let (header, body) = request.split();
    assert_eq!(header.url_path, "/p");
    assert_eq!(body.collect_bytes(None).unwrap(), b"abc".to_vec());
}

#[test]
fn two_stage_homogenization_matches_the_one_step_form() {
    let intermediate = HomogeneousRouteIntermediate {
        router: Arc::new(ConstRouter { context: 7 }),
        service: Arc::new(StatusOfContextService {}),
    };
    let route = intermediate.make_fully_homogeneous();
    match route.invoke(request_for("/", &[])) {
        Ok(Ok(response)) => assert_eq!(response.status_code(), 7),
        _ => panic!("the intermediate form must dispatch identically"),
    }
}

#[test]
fn response_exposes_what_it_was_built_from() {
    let mut headers = HeaderMap::new();
    headers.insert(b"content-type".to_vec(), b"text/plain".to_vec());
    let response = Response::new(204, headers, vec![b"a".to_vec(), b"b".to_vec()]);
    assert_eq!(response.status_code(), 204);
    let (status, headers, frames) = response.into_parts();
    assert_eq!(status, 204);
    assert_eq!(headers.get_first(b"Content-Type"), Some(&b"text/plain".to_vec()));
    assert_eq!(frames, vec![b"a".to_vec(), b"b".to_vec()]);
}
