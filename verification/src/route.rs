//! The paths under which the service answers.

use vstd::prelude::*;

verus! {

/// The method of a request.
#[derive(Clone, Copy, Debug, PartialEq, Eq, Structural)]
pub enum Method {
    Get,
    Post,
}

/// One entry of a routing table: a method and a path below the place where
/// the table is mounted. A part of the path in angle brackets stands for any
/// one segment.
#[derive(Clone, Copy, Debug)]
pub struct Route {
    pub method: Method,
    pub path: &'static str,
}

impl View for Route {
    type V = (Method, Seq<char>);

    open spec fn view(&self) -> (Method, Seq<char>) {
        (self.method, self.path@)
    }
}

/// The views of a routing table.
pub open spec fn table(routes: Seq<Route>) -> Seq<(Method, Seq<char>)> {
    routes.map_values(|r: Route| r@)
}

/// The route that answers requests with `POST` to `path`.
pub fn post(path: &'static str) -> (r: Route)
    ensures
        r@ == (Method::Post, path@),
{
    Route { method: Method::Post, path }
}

/// The route that answers requests with `GET` to `path`.
pub fn get(path: &'static str) -> (r: Route)
    ensures
        r@ == (Method::Get, path@),
{
    Route { method: Method::Get, path }
}

/// The body that answers a request for which there is no route: the service
/// is an interface for programs, and says nothing.
pub fn not_found() -> (r: &'static str)
    ensures
        r@ == Seq::<char>::empty(),
{
    let body = "";
    proof {
        reveal_strlit("");
    }
    assert(body@ =~= Seq::<char>::empty());
    body
}

} // verus!
