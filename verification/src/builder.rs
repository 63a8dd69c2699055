//! Routing diff builder: assembles the aggregate diff record of one route
//! against one request — method, path, query and media type — as a pure
//! function of its two inputs.

use vstd::prelude::*;
use crate::model::Route;
use crate::model::RouteV;
use crate::model::Request;
use crate::model::RequestV;
use crate::diff_record::DiffRecord;
use crate::diff_record::RecordV;
use crate::diff_record::MethodDiff;
use crate::classify::path_diff;
use crate::classify::query_diff;
use crate::classify::spec_path_diff;
use crate::classify::spec_query_diff;
use crate::media::media_type_diff;
use crate::media::spec_media_diff;

verus! {

/// The diff record of a route against a request, as a function of the two
/// values alone.
pub open spec fn spec_build(r: RouteV, q: RequestV) -> RecordV {
    RecordV {
        method: if r.method == q.method {
            MethodDiff::Same(r.method)
        } else {
            MethodDiff::Changed(r.method, q.method)
        },
        path: spec_path_diff(r.path, q.path),
        query: spec_query_diff(r.query, q.query),
        media: spec_media_diff(r.media, q.media),
    }
}

/// Builds the diff record of `route` against `request`.
pub fn build(route: &Route, request: &Request) -> (rec: DiffRecord)
    requires
        route@.wf(),
        request@.wf(),
    ensures
        rec@ == spec_build(route@, request@),
{
    let method = if route.method == request.method {
        MethodDiff::Same(route.method)
    } else {
        MethodDiff::Changed(route.method, request.method)
    };
    let path = path_diff(&route.path, &request.path);
    let query = query_diff(&route.query, &request.query);
    let media = media_type_diff(&route.media, &request.media);
    DiffRecord { method, path, query, media }
}

/// Law: building a diff record is deterministic — two records built from
/// the same route and the same request are equal. Together with `build`'s
/// contract, repeated calls of `build` on one (route, request) pair yield
/// equal records.
pub proof fn lemma_build_deterministic(r: RouteV, q: RequestV, d1: RecordV, d2: RecordV)
    requires
        d1 == spec_build(r, q),
        d2 == spec_build(r, q),
    ensures
        d1 == d2,
{
}

} // verus!
