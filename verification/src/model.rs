//! Data model: routes as declared at registration time and requests as
//! received, reduced to plain values (method, path segments, query items,
//! media type), together with their spec-level views.

use vstd::prelude::*;
use crate::text_diff::TEXT_CAP;

verus! {

/// One HTTP verb.
#[derive(Clone, Copy, PartialEq, Eq, Structural, Debug)]
pub enum Method {
    Get,
    Put,
    Post,
    Delete,
    Options,
    Head,
    Trace,
    Connect,
    Patch,
}

impl Method {
    /// The verb's name as written in a request line.
    pub open spec fn spec_name(self) -> Seq<char> {
        match self {
            Method::Get => "GET"@,
            Method::Put => "PUT"@,
            Method::Post => "POST"@,
            Method::Delete => "DELETE"@,
            Method::Options => "OPTIONS"@,
            Method::Head => "HEAD"@,
            Method::Trace => "TRACE"@,
            Method::Connect => "CONNECT"@,
            Method::Patch => "PATCH"@,
        }
    }

    pub fn name(self) -> (r: &'static str)
        ensures
            r@ == self.spec_name(),
    {
        match self {
            Method::Get => "GET",
            Method::Put => "PUT",
            Method::Post => "POST",
            Method::Delete => "DELETE",
            Method::Options => "OPTIONS",
            Method::Head => "HEAD",
            Method::Trace => "TRACE",
            Method::Connect => "CONNECT",
            Method::Patch => "PATCH",
        }
    }
}

/// One declared segment of a route's path or query: an exact literal, a
/// single-value capture, or a greedy capture of everything that remains.
#[derive(Debug, PartialEq, Eq)]
pub enum RouteSeg {
    Static(String),
    Single(String),
    Multi(String),
}

/// Spec-level image of `RouteSeg`.
pub enum RouteSegV {
    Static(Seq<char>),
    Single(Seq<char>),
    Multi(Seq<char>),
}

impl View for RouteSeg {
    type V = RouteSegV;

    open spec fn view(&self) -> RouteSegV {
        match self {
            RouteSeg::Static(t) => RouteSegV::Static(t@),
            RouteSeg::Single(n) => RouteSegV::Single(n@),
            RouteSeg::Multi(n) => RouteSegV::Multi(n@),
        }
    }
}

/// The text a route segment is displayed as: the literal for `Static`, the
/// capture name otherwise.
pub open spec fn seg_text(s: RouteSegV) -> Seq<char> {
    match s {
        RouteSegV::Static(t) => t,
        RouteSegV::Single(n) => n,
        RouteSegV::Multi(n) => n,
    }
}

/// One raw query item of a request, as received: its key and its full
/// unparsed `key=value` text.
#[derive(Debug, PartialEq, Eq)]
pub struct QueryItem {
    pub key: String,
    pub raw: String,
}

/// Spec-level image of `QueryItem`.
pub struct QueryItemV {
    pub key: Seq<char>,
    pub raw: Seq<char>,
}

impl View for QueryItem {
    type V = QueryItemV;

    open spec fn view(&self) -> QueryItemV {
        QueryItemV { key: self.key@, raw: self.raw@ }
    }
}

impl Clone for QueryItem {
    fn clone(&self) -> (res: Self)
        ensures
            res@ == self@,
    {
        QueryItem { key: self.key.clone(), raw: self.raw.clone() }
    }
}

/// A media type as a (top, sub) pair; either part may be the wildcard `*`.
#[derive(Debug, PartialEq, Eq)]
pub struct MediaType {
    pub top: String,
    pub sub: String,
}

/// Spec-level image of `MediaType`.
pub struct MediaTypeV {
    pub top: Seq<char>,
    pub sub: Seq<char>,
}

impl View for MediaType {
    type V = MediaTypeV;

    open spec fn view(&self) -> MediaTypeV {
        MediaTypeV { top: self.top@, sub: self.sub@ }
    }
}

/// A route as registered with the host router.
#[derive(Debug, PartialEq, Eq)]
pub struct Route {
    pub method: Method,
    pub path: Vec<RouteSeg>,
    pub query: Option<Vec<RouteSeg>>,
    pub media: Option<MediaType>,
}

/// Spec-level image of `Route`.
pub struct RouteV {
    pub method: Method,
    pub path: Seq<RouteSegV>,
    pub query: Option<Seq<RouteSegV>>,
    pub media: Option<MediaTypeV>,
}

/// A request as received from the host, reduced to plain values.
#[derive(Debug, PartialEq, Eq)]
pub struct Request {
    pub method: Method,
    pub path: Vec<String>,
    pub query: Option<Vec<QueryItem>>,
    pub media: Option<MediaType>,
}

/// Spec-level image of `Request`.
pub struct RequestV {
    pub method: Method,
    pub path: Seq<Seq<char>>,
    pub query: Option<Seq<QueryItemV>>,
    pub media: Option<MediaTypeV>,
}

pub open spec fn segs_view(s: Seq<RouteSeg>) -> Seq<RouteSegV> {
    s.map_values(|x: RouteSeg| x@)
}

pub open spec fn strs_view(s: Seq<String>) -> Seq<Seq<char>> {
    s.map_values(|x: String| x@)
}

pub open spec fn items_view(s: Seq<QueryItem>) -> Seq<QueryItemV> {
    s.map_values(|x: QueryItem| x@)
}

/// Spec-level image of an optional list of route segments.
pub open spec fn opt_segs_view(q: Option<Vec<RouteSeg>>) -> Option<Seq<RouteSegV>> {
    match q {
        Option::Some(v) => Option::Some(segs_view(v@)),
        Option::None => Option::None,
    }
}

/// Spec-level image of an optional list of query items.
pub open spec fn opt_items_view(q: Option<Vec<QueryItem>>) -> Option<Seq<QueryItemV>> {
    match q {
        Option::Some(v) => Option::Some(items_view(v@)),
        Option::None => Option::None,
    }
}

/// Spec-level image of an optional media type.
pub open spec fn opt_mt_view(m: Option<MediaType>) -> Option<MediaTypeV> {
    match m {
        Option::Some(v) => Option::Some(v@),
        Option::None => Option::None,
    }
}

impl View for Route {
    type V = RouteV;

    open spec fn view(&self) -> RouteV {
        RouteV {
            method: self.method,
            path: segs_view(self.path@),
            query: opt_segs_view(self.query),
            media: opt_mt_view(self.media),
        }
    }
}

impl View for Request {
    type V = RequestV;

    open spec fn view(&self) -> RequestV {
        RequestV {
            method: self.method,
            path: strs_view(self.path@),
            query: opt_items_view(self.query),
            media: opt_mt_view(self.media),
        }
    }
}

/// Appending one string appends its view.
pub proof fn lemma_strs_view_push(s: Seq<String>, v: String)
    ensures
        strs_view(s.push(v)) == strs_view(s).push(v@),
{
    assert(strs_view(s).len() == s.len());
    assert(strs_view(s.push(v)).len() == s.len() + 1);
    assert(strs_view(s.push(v))[s.len() as int] == v@);
    assert forall|ii: int| 0 <= ii < s.len() implies strs_view(s.push(v))[ii] == strs_view(s)[ii] by {
        assert(s.push(v)[ii] == s[ii]);
    }
    assert(strs_view(s.push(v)) =~= strs_view(s).push(v@));
}

/// Appending one query item appends its view.
pub proof fn lemma_items_view_push(s: Seq<QueryItem>, v: QueryItem)
    ensures
        items_view(s.push(v)) == items_view(s).push(v@),
{
    assert(items_view(s).len() == s.len());
    assert(items_view(s.push(v)).len() == s.len() + 1);
    assert(items_view(s.push(v))[s.len() as int] == v@);
    assert forall|ii: int| 0 <= ii < s.len() implies items_view(s.push(v))[ii] == items_view(s)[ii]
        by {
        assert(s.push(v)[ii] == s[ii]);
    }
    assert(items_view(s.push(v)) =~= items_view(s).push(v@));
}

/// Short enough for the diff engine's index arithmetic.
pub open spec fn small(s: Seq<char>) -> bool {
    s.len() <= TEXT_CAP
}

impl RouteV {
    /// Machine-limit well-formedness: every text the route declares is
    /// short enough for the diff engine.
    pub open spec fn wf(self) -> bool {
        &&& forall|k: int| 0 <= k < self.path.len() ==> small(seg_text(#[trigger] self.path[k]))
        &&& match self.query {
            Option::Some(q) => forall|k: int| 0 <= k < q.len() ==> small(seg_text(#[trigger] q[k])),
            Option::None => true,
        }
        &&& match self.media {
            Option::Some(m) => small(m.top) && small(m.sub),
            Option::None => true,
        }
    }
}

impl RequestV {
    /// Machine-limit well-formedness: every text of the request is short
    /// enough for the diff engine, and a present query holds at least one
    /// item (a request with no query items carries no query at all).
    pub open spec fn wf(self) -> bool {
        &&& forall|k: int| 0 <= k < self.path.len() ==> small(#[trigger] self.path[k])
        &&& match self.query {
            Option::Some(q) => {
                &&& q.len() > 0
                &&& forall|k: int| 0 <= k < q.len() ==> small(#[trigger] q[k].raw)
                &&& forall|k: int| 0 <= k < q.len() ==> small(#[trigger] q[k].key)
            },
            Option::None => true,
        }
        &&& match self.media {
            Option::Some(m) => small(m.top) && small(m.sub),
            Option::None => true,
        }
    }
}

} // verus!
