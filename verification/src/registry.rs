//! Route registry snapshot: the routes the host router reports at startup
//! are gathered by a builder and then frozen into an immutable snapshot;
//! the request-handling path only ever reads the snapshot. The phase
//! change is enforced at the type level: producing the snapshot consumes
//! the builder.

use vstd::prelude::*;
use crate::model::Route;
use crate::model::RouteV;
use crate::model::Request;
use crate::builder::build;
use crate::builder::spec_build;
use crate::render::render;
use crate::render::spec_render;
use crate::render::RenderedDiff;

verus! {

pub open spec fn routes_view(s: Seq<Route>) -> Seq<RouteV> {
    s.map_values(|x: Route| x@)
}

proof fn lemma_routes_view_push(s: Seq<Route>, v: Route)
    ensures
        routes_view(s.push(v)) == routes_view(s).push(v@),
{
    assert(routes_view(s).len() == s.len());
    assert(routes_view(s.push(v)).len() == s.len() + 1);
    assert(routes_view(s.push(v))[s.len() as int] == v@);
    assert forall|ii: int| 0 <= ii < s.len() implies routes_view(s.push(v))[ii] == routes_view(
        s,
    )[ii] by {
        assert(s.push(v)[ii] == s[ii]);
    }
    assert(routes_view(s.push(v)) =~= routes_view(s).push(v@));
}

/// Accepts routes while the host is starting up.
pub struct RegistryBuilder {
    routes: Vec<Route>,
}

/// The frozen route collection the request path reads.
pub struct RegistrySnapshot {
    routes: Vec<Route>,
}

impl View for RegistryBuilder {
    type V = Seq<RouteV>;

    closed spec fn view(&self) -> Seq<RouteV> {
        routes_view(self.routes@)
    }
}

impl View for RegistrySnapshot {
    type V = Seq<RouteV>;

    closed spec fn view(&self) -> Seq<RouteV> {
        routes_view(self.routes@)
    }
}

impl RegistryBuilder {
    pub fn new() -> (b: Self)
        ensures
            b@ == Seq::<RouteV>::empty(),
    {
        let b = RegistryBuilder { routes: Vec::new() };
        proof {
            assert(b@ =~= Seq::<RouteV>::empty());
        }
        b
    }

    /// Registers one route during the startup phase.
    pub fn push(&mut self, route: Route)
        ensures
            final(self)@ == old(self)@.push(route@),
    {
        proof {
            lemma_routes_view_push(self.routes@, route);
        }
        self.routes.push(route);
    }

    /// Ends the startup phase: the builder is consumed and the routes are
    /// frozen.
    pub fn snapshot(self) -> (snap: RegistrySnapshot)
        ensures
            snap@ == self@,
    {
        RegistrySnapshot { routes: self.routes }
    }
}

impl RegistrySnapshot {
    pub fn len(&self) -> (n: usize)
        ensures
            n == self@.len(),
    {
        self.routes.len()
    }

    pub fn route(&self, i: usize) -> (r: &Route)
        requires
            i < self@.len(),
        ensures
            r@ == self@[i as int],
    {
        proof {
            assert(self@[i as int] == self.routes@[i as int]@);
        }
        &self.routes[i]
    }
}

/// Startup entry point: freezes the routes the host router reports.
pub fn on_startup(routes: Vec<Route>) -> (snap: RegistrySnapshot)
    ensures
        snap@ == routes_view(routes@),
{
    RegistrySnapshot { routes }
}

/// Request entry point: builds and renders the diff of every registered
/// route against one unmatched request, in registration order.
pub fn on_unmatched_request(snap: &RegistrySnapshot, request: &Request) -> (out: Vec<RenderedDiff>)
    requires
        forall|i: int| 0 <= i < snap@.len() ==> (#[trigger] snap@[i]).wf(),
        request@.wf(),
    ensures
        out@.len() == snap@.len(),
        forall|i: int|
            0 <= i < out@.len() ==> (#[trigger] out@[i])@ == spec_render(
                spec_build(snap@[i], request@),
            ),
{
    let mut out: Vec<RenderedDiff> = Vec::new();
    let mut i: usize = 0;
    while i < snap.len()
        invariant
            0 <= i <= snap@.len(),
            out@.len() == i,
            request@.wf(),
            forall|k: int| 0 <= k < snap@.len() ==> (#[trigger] snap@[k]).wf(),
            forall|k: int|
                0 <= k < i ==> (#[trigger] out@[k])@ == spec_render(
                    spec_build(snap@[k], request@),
                ),
        decreases snap@.len() - i,
    {
        let rec = build(snap.route(i), request);
        let rendered = render(&rec);
        out.push(rendered);
        i = i + 1;
    }
    out
}

} // verus!
