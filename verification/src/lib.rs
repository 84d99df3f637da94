//! A request-routing and dispatch abstraction for an HTTP server.
//!
//! Independently typed route units -- each pairing a matcher (`Router`)
//! with a handler (`Service`) over a shared context type -- are converted
//! into uniformly typed, context-erased callables (`HomogeneousRoute`)
//! that a dispatch chain can try in order until one matches.

pub mod body;
pub mod dispatch;
pub mod error;
pub mod headers;
pub mod request;
pub mod response;
pub mod route;

pub use body::Body;
pub use body::spec_collect_bytes;
pub use body::spec_collect_str;
pub use body::utf8_decode;
pub use dispatch::dispatch;
pub use dispatch::spec_dispatch;
pub use dispatch::spec_matched_index;
pub use error::Error;
pub use headers::Header;
pub use headers::HeaderMap;
pub use request::Request;
pub use response::Response;
pub use route::ErasedCallable;
pub use route::HomogeneousRoute;
pub use route::HomogeneousRouteIntermediate;
pub use route::Route;
pub use route::RouteFn;
pub use route::Router;
pub use route::Service;
pub use route::spec_route_outcome;
