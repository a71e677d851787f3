//! The liveness endpoint: which route serves it and what it answers.

use vstd::prelude::*;
use vstd::string::StringExecFns;

verus! {

/// The version string reported by the liveness endpoint.
pub const API_VERSION: &'static str = "v0.0.1";

/// HTTP verbs used by the service's routes.
#[derive(Debug, Clone, Copy, PartialEq, Eq, Structural)]
pub enum Method {
    Get,
    Post,
    Put,
    Delete,
}

/// One entry of a route table: a verb and the path it is served on.
#[derive(Debug)]
pub struct Route {
    pub method: Method,
    pub path: String,
}

/// The answer of the liveness endpoint: a status code and the `version` header.
#[derive(Debug)]
pub struct HealthResponse {
    pub status: u16,
    pub version: String,
}

/// The path of the liveness endpoint.
pub open spec fn health_path() -> Seq<char> {
    "/health"@
}

/// Builds the liveness answer: `200` with the current API version.
pub fn health() -> (response: HealthResponse)
    ensures
        response.status == 200,
        response.version@ == API_VERSION@,
{
    HealthResponse { status: 200, version: String::from_str(API_VERSION) }
}

/// Registers the liveness route on a route table: `GET /health` is appended
/// and the routes already present are left as they were.
pub fn service(cfg: &mut Vec<Route>)
    ensures
        final(cfg)@.len() == old(cfg)@.len() + 1,
        final(cfg)@.drop_last() == old(cfg)@,
        final(cfg)@.last().method == Method::Get,
        final(cfg)@.last().path@ == health_path(),
{
    cfg.push(Route { method: Method::Get, path: String::from_str("/health") });
}

} // verus!
