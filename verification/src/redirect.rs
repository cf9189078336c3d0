//! Login-check middleware: the decision of whether a request may reach
//! the wrapped service or is answered with a redirect to the login page.
//! Driving the decision from a live request and writing the redirect
//! response belong to the HTTP layer.

use vstd::prelude::*;

verus! {

/// The login check; wraps a service into [`CheckLoginMiddleware`].
pub struct CheckLogin;

/// A service wrapped with the login check.
pub struct CheckLoginMiddleware<S> {
    /// The inner service requests are forwarded to.
    pub service: S,
}

impl CheckLogin {
    /// Wrap a service with the login check.
    pub fn new_transform<S>(&self, service: S) -> (m: CheckLoginMiddleware<S>)
        ensures
            m.service == service,
    {
        CheckLoginMiddleware { service }
    }
}

/// What the middleware does with one request.
#[derive(Debug, PartialEq, Eq)]
pub enum RouteDecision {
    /// Hand the request to the inner service.
    Forward,
    /// Answer with a redirect to the login page instead.
    RedirectToLogin,
}

/// The decision rule: an authenticated request always passes, and an
/// unauthenticated one is redirected to the login page — except when it
/// already asks for that page, which must stay reachable.
pub open spec fn route_decision(logged_in: bool, path: Seq<char>) -> RouteDecision {
    if logged_in || path == "/login"@ {
        RouteDecision::Forward
    } else {
        RouteDecision::RedirectToLogin
    }
}

/// Decide whether a request may pass or is redirected to the login page.
pub fn check_route(logged_in: bool, path: &str) -> (d: RouteDecision)
    ensures
        d == route_decision(logged_in, path@),
{
    if logged_in {
        RouteDecision::Forward
    } else {
        let p = String::from_str(path);
        let login = String::from_str("/login");
        if p.eq(&login) {
            RouteDecision::Forward
        } else {
            RouteDecision::RedirectToLogin
        }
    }
}

} // verus!
