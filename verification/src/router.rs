//! The route table, the request view, and dispatch.
//!
//! Routes are appended in registration order; dispatch walks the table and
//! the first route whose method and pattern match handles the request.

use vstd::prelude::*;
use crate::kv::{distinct_keys, kv_get, kv_map};
use crate::pattern::{extract_params, spec_extract, spec_matches, uri_matches_path};
use crate::response::{build_spec, Rendered, Response, ResponseError, not_found_rendering};
use crate::segments::segments_of;

verus! {

/// An HTTP request method.
#[derive(Clone, Copy, PartialEq, Eq, Structural, Debug)]
pub enum Method {
    Get,
    Post,
    Put,
    Delete,
    Patch,
    Options,
    Head,
}

/// A read-only view of an incoming request: its method, its URI path, and
/// the parameters extracted from the matched pattern.
pub struct Request {
    pub method: Method,
    pub uri: String,
    pub params: Vec<(String, String)>,
}

impl Request {
    /// Parameter keys are pairwise distinct.
    pub open spec fn wf(self) -> bool {
        distinct_keys(self.params@)
    }

    /// A fresh request view with no parameters.
    pub fn new(method: Method, uri: String) -> (r: Request)
        ensures
            r.wf(),
            r.method == method,
            r.uri == uri,
            r.params@ == Seq::<(String, String)>::empty(),
    {
        Request { method, uri, params: Vec::new() }
    }

    /// The request's method.
    pub fn method(&self) -> (r: &Method)
        ensures
            *r == self.method,
    {
        &self.method
    }

    /// The request's URI path.
    pub fn uri(&self) -> (r: &String)
        ensures
            *r == self.uri,
    {
        &self.uri
    }

    /// The value extracted for the named parameter, if any.
    pub fn param(&self, name: &str) -> (r: Option<&String>)
        requires
            self.wf(),
        ensures
            match r {
                Some(v) => kv_map(self.params@).contains_key(name@) && v@ == kv_map(
                    self.params@,
                )[name@],
                None => !kv_map(self.params@).contains_key(name@),
            },
    {
        kv_get(&self.params, name)
    }
}

/// A registered route: method, path pattern, handler.
pub struct Route<F> {
    pub method: Method,
    pub path: String,
    pub handler: F,
}

/// The router: an ordered, append-only table of routes.
pub struct Bobby<F> {
    pub routes: Vec<Route<F>>,
}

/// Whether a route answers `method` on `uri_path`.
pub open spec fn route_matches<F>(r: Route<F>, method: Method, uri_path: Seq<char>) -> bool {
    r.method == method && spec_matches(segments_of(uri_path), segments_of(r.path@))
}

/// Whether `i` is the first index of `routes` whose route answers.
pub open spec fn is_first_match<F>(
    routes: Seq<Route<F>>,
    method: Method,
    uri_path: Seq<char>,
    i: int,
) -> bool {
    &&& 0 <= i < routes.len()
    &&& route_matches(routes[i], method, uri_path)
    &&& forall|j: int| 0 <= j < i ==> !route_matches(#[trigger] routes[j], method, uri_path)
}

/// A usable handler: callable on every well-formed request, and yielding
/// only well-formed responses.
pub open spec fn handler_ok<F: Fn(Request) -> Response>(f: F) -> bool {
    &&& forall|req: Request| req.wf() ==> call_requires(f, (req,))
    &&& forall|req: Request, resp: Response| call_ensures(f, (req,), resp) ==> resp.wf()
}

/// The outcome of dispatching to handler `f`: a well-formed request carrying
/// the parameters extracted from `pattern` against `uri_path` was passed to
/// `f`, and a response `f` may return for it was rendered into `res`.
pub open spec fn dispatched<F: Fn(Request) -> Response>(
    f: F,
    method: Method,
    uri_path: Seq<char>,
    pattern: Seq<char>,
    res: Result<Rendered, ResponseError>,
) -> bool {
    exists|req: Request, resp: Response|
        {
            &&& req.method == method
            &&& req.uri@ == uri_path
            &&& req.wf()
            &&& kv_map(req.params@) == spec_extract(segments_of(uri_path), segments_of(pattern))
            &&& #[trigger] call_ensures(f, (req,), resp)
            &&& build_spec(resp, res)
        }
}

/// Law: dispatch precedence is registration order. A route matching a
/// request can be the dispatched one only if no earlier registered route
/// also matches it; in particular a later, more specific route never
/// overrides an earlier match.
pub proof fn lemma_dispatch_precedence<F>(
    routes: Seq<Route<F>>,
    method: Method,
    uri_path: Seq<char>,
    i: int,
    j: int,
)
    requires
        0 <= i < j < routes.len(),
        route_matches(routes[i], method, uri_path),
    ensures
        !is_first_match(routes, method, uri_path, j),
{
}

/// Law: the dispatched route is unique.
pub proof fn lemma_first_match_unique<F>(
    routes: Seq<Route<F>>,
    method: Method,
    uri_path: Seq<char>,
    i: int,
    j: int,
)
    requires
        is_first_match(routes, method, uri_path, i),
        is_first_match(routes, method, uri_path, j),
    ensures
        i == j,
{
}

impl<F: Fn(Request) -> Response> Bobby<F> {
    /// Every registered handler is usable.
    pub open spec fn wf(self) -> bool {
        forall|i: int|
            0 <= i < self.routes@.len() ==> handler_ok(#[trigger] self.routes@[i].handler)
    }

    /// An empty route table.
    pub fn new() -> (r: Bobby<F>)
        ensures
            r.wf(),
            r.routes@.len() == 0,
    {
        Bobby { routes: Vec::new() }
    }

    fn register(&mut self, method: Method, path: &str, handler: F)
        requires
            old(self).wf(),
            handler_ok(handler),
        ensures
            final(self).wf(),
            final(self).routes@.len() == old(self).routes@.len() + 1,
            final(self).routes@.last().method == method,
            final(self).routes@.last().path@ == path@,
            final(self).routes@.last().handler == handler,
            forall|j: int|
                0 <= j < old(self).routes@.len() ==> final(self).routes@[j] == old(
                    self,
                ).routes@[j],
    {
        self.routes.push(Route { method, path: path.to_owned(), handler });
    }

    /// Registers a handler for GET requests on `path`, appending the route.
    pub fn get(&mut self, path: &str, handler: F)
        requires
            old(self).wf(),
            handler_ok(handler),
        ensures
            final(self).wf(),
            final(self).routes@.len() == old(self).routes@.len() + 1,
            final(self).routes@.last().method == Method::Get,
            final(self).routes@.last().path@ == path@,
            final(self).routes@.last().handler == handler,
            forall|j: int|
                0 <= j < old(self).routes@.len() ==> final(self).routes@[j] == old(
                    self,
                ).routes@[j],
    {
        self.register(Method::Get, path, handler);
    }

    /// Registers a handler for POST requests on `path`, appending the route.
    pub fn post(&mut self, path: &str, handler: F)
        requires
            old(self).wf(),
            handler_ok(handler),
        ensures
            final(self).wf(),
            final(self).routes@.len() == old(self).routes@.len() + 1,
            final(self).routes@.last().method == Method::Post,
            final(self).routes@.last().path@ == path@,
            final(self).routes@.last().handler == handler,
            forall|j: int|
                0 <= j < old(self).routes@.len() ==> final(self).routes@[j] == old(
                    self,
                ).routes@[j],
    {
        self.register(Method::Post, path, handler);
    }

    /// Registers a handler for PUT requests on `path`, appending the route.
    pub fn put(&mut self, path: &str, handler: F)
        requires
            old(self).wf(),
            handler_ok(handler),
        ensures
            final(self).wf(),
            final(self).routes@.len() == old(self).routes@.len() + 1,
            final(self).routes@.last().method == Method::Put,
            final(self).routes@.last().path@ == path@,
            final(self).routes@.last().handler == handler,
            forall|j: int|
                0 <= j < old(self).routes@.len() ==> final(self).routes@[j] == old(
                    self,
                ).routes@[j],
    {
        self.register(Method::Put, path, handler);
    }

    /// Registers a handler for DELETE requests on `path`, appending the
    /// route.
    pub fn delete(&mut self, path: &str, handler: F)
        requires
            old(self).wf(),
            handler_ok(handler),
        ensures
            final(self).wf(),
            final(self).routes@.len() == old(self).routes@.len() + 1,
            final(self).routes@.last().method == Method::Delete,
            final(self).routes@.last().path@ == path@,
            final(self).routes@.last().handler == handler,
            forall|j: int|
                0 <= j < old(self).routes@.len() ==> final(self).routes@[j] == old(
                    self,
                ).routes@[j],
    {
        self.register(Method::Delete, path, handler);
    }

    /// Registers a handler for PATCH requests on `path`, appending the
    /// route.
    pub fn patch(&mut self, path: &str, handler: F)
        requires
            old(self).wf(),
            handler_ok(handler),
        ensures
            final(self).wf(),
            final(self).routes@.len() == old(self).routes@.len() + 1,
            final(self).routes@.last().method == Method::Patch,
            final(self).routes@.last().path@ == path@,
            final(self).routes@.last().handler == handler,
            forall|j: int|
                0 <= j < old(self).routes@.len() ==> final(self).routes@[j] == old(
                    self,
                ).routes@[j],
    {
        self.register(Method::Patch, path, handler);
    }

    /// Registers a handler for OPTIONS requests on `path`, appending the
    /// route.
    pub fn options(&mut self, path: &str, handler: F)
        requires
            old(self).wf(),
            handler_ok(handler),
        ensures
            final(self).wf(),
            final(self).routes@.len() == old(self).routes@.len() + 1,
            final(self).routes@.last().method == Method::Options,
            final(self).routes@.last().path@ == path@,
            final(self).routes@.last().handler == handler,
            forall|j: int|
                0 <= j < old(self).routes@.len() ==> final(self).routes@[j] == old(
                    self,
                ).routes@[j],
    {
        self.register(Method::Options, path, handler);
    }

    /// Registers a handler for HEAD requests on `path`, appending the route.
    pub fn head(&mut self, path: &str, handler: F)
        requires
            old(self).wf(),
            handler_ok(handler),
        ensures
            final(self).wf(),
            final(self).routes@.len() == old(self).routes@.len() + 1,
            final(self).routes@.last().method == Method::Head,
            final(self).routes@.last().path@ == path@,
            final(self).routes@.last().handler == handler,
            forall|j: int|
                0 <= j < old(self).routes@.len() ==> final(self).routes@[j] == old(
                    self,
                ).routes@[j],
    {
        self.register(Method::Head, path, handler);
    }

    /// The first route, in registration order, whose method and pattern
    /// match; `None` when no route matches.
    pub fn find_route(&self, method: Method, uri_path: &str) -> (r: Option<usize>)
        ensures
            match r {
                Some(i) => is_first_match(self.routes@, method, uri_path@, i as int),
                None => forall|j: int|
                    0 <= j < self.routes@.len() ==> !route_matches(
                        #[trigger] self.routes@[j],
                        method,
                        uri_path@,
                    ),
            },
    {
        let n = self.routes.len();
        let mut i: usize = 0;
        while i < n
            invariant
                0 <= i <= n,
                n == self.routes@.len(),
                forall|j: int|
                    0 <= j < i ==> !route_matches(#[trigger] self.routes@[j], method, uri_path@),
            decreases n - i,
        {
            if self.routes[i].method == method && uri_matches_path(
                uri_path,
                self.routes[i].path.as_str(),
            ) {
                return Some(i);
            }
            i += 1;
        }
        None
    }

    /// Dispatches a request: the first matching route's handler is invoked
    /// on a request view carrying the extracted parameters, and its response
    /// is rendered; when no route matches, the `404` `Not found.` fallback
    /// is rendered instead.
    pub fn route(&self, method: Method, uri_path: &str) -> (res: Result<Rendered, ResponseError>)
        requires
            self.wf(),
        ensures
            (forall|j: int|
                0 <= j < self.routes@.len() ==> !route_matches(
                    #[trigger] self.routes@[j],
                    method,
                    uri_path@,
                )) ==> not_found_rendering(res),
            forall|i: int|
                is_first_match(self.routes@, method, uri_path@, i) ==> dispatched(
                    self.routes@[i].handler,
                    method,
                    uri_path@,
                    self.routes@[i].path@,
                    res,
                ),
    {
        match self.find_route(method, uri_path) {
            Some(i) => {
                let params = extract_params(uri_path, self.routes[i].path.as_str());
                let req = Request { method, uri: uri_path.to_owned(), params };
                let ghost req0 = req;
                proof {
                    assert(handler_ok(self.routes@[i as int].handler));
                    assert(req.wf());
                }
                let resp = (self.routes[i].handler)(req);
                let res = resp.build();
                proof {
                    assert forall|k: int|
                        is_first_match(self.routes@, method, uri_path@, k) implies dispatched(
                        self.routes@[k].handler,
                        method,
                        uri_path@,
                        self.routes@[k].path@,
                        res,
                    ) by {
                        lemma_first_match_unique(self.routes@, method, uri_path@, k, i as int);
                        assert(call_ensures(self.routes@[k].handler, (req0,), resp));
                    }
                }
                res
            },
            None => {
                let nf = Response::html("Not found.").with_status(404);
                let res = nf.build();
                proof {
                    assert(build_spec(nf, res));
                    assert(not_found_rendering(res));
                }
                res
            },
        }
    }
}

} // verus!
