//! Segment classifier: walks a route's declared path and query segments
//! against the request's actual segments and produces one `SegmentDiff`
//! per declared segment, plus trailing entries for what only one side has.

use vstd::prelude::*;
use crate::model::RouteSeg;
use crate::model::RouteSegV;
use crate::model::QueryItem;
use crate::model::QueryItemV;
use crate::model::seg_text;
use crate::model::segs_view;
use crate::model::strs_view;
use crate::model::items_view;
use crate::model::small;
use crate::diff_record::SegmentDiff;
use crate::diff_record::SegDiffV;
use crate::diff_record::sdiffs_view;
use crate::text_diff::diff;
use crate::text_diff::spec_diff;
use crate::text_diff::spec_distance;
use crate::text_diff::edit_distance;
use crate::text_diff::TEXT_CAP;
use crate::model::lemma_strs_view_push;
use crate::model::opt_segs_view;
use crate::model::opt_items_view;
use crate::model::lemma_items_view_push;

verus! {

/// The path entries from route segment `k` and request segment `r` on: a
/// static segment matches its positional counterpart exactly or yields an
/// edit script; a single capture accepts any present value; a multi
/// capture absorbs every remaining value; segments past the end of the
/// request are missing, and request segments past the end of the route are
/// unexpected.
pub open spec fn spec_path_diff_from(
    route: Seq<RouteSegV>,
    req: Seq<Seq<char>>,
    k: int,
    r: int,
) -> Seq<SegDiffV>
    decreases route.len() - k, req.len() - r
        when 0 <= k <= route.len() && 0 <= r <= req.len()
{
    if k < route.len() {
        if r < req.len() {
            match route[k] {
                RouteSegV::Static(t) => seq![
                    if req[r] == t {
                        SegDiffV::StaticMatch(t)
                    } else {
                        SegDiffV::TextMismatch(spec_diff(req[r], t))
                    },
                ] + spec_path_diff_from(route, req, k + 1, r + 1),
                RouteSegV::Single(n) => seq![SegDiffV::SingleMatch(n, req[r])]
                    + spec_path_diff_from(route, req, k + 1, r + 1),
                RouteSegV::Multi(n) => seq![
                    SegDiffV::MultiMatch(n, req.subrange(r, req.len() as int)),
                ] + spec_path_diff_from(route, req, k + 1, req.len() as int),
            }
        } else {
            seq![SegDiffV::Missing(seg_text(route[k]))] + spec_path_diff_from(route, req, k + 1, r)
        }
    } else if r < req.len() {
        seq![SegDiffV::Unexpected(req[r])] + spec_path_diff_from(route, req, k, r + 1)
    } else {
        Seq::empty()
    }
}

/// The full path diff of a route against a request.
pub open spec fn spec_path_diff(route: Seq<RouteSegV>, req: Seq<Seq<char>>) -> Seq<SegDiffV> {
    spec_path_diff_from(route, req, 0, 0)
}

/// The display text of a route segment.
fn seg_text_exec(seg: &RouteSeg) -> (r: &String)
    ensures
        r@ == seg_text(seg@),
{
    match seg {
        RouteSeg::Static(t) => t,
        RouteSeg::Single(n) => n,
        RouteSeg::Multi(n) => n,
    }
}

/// Classifies the route's path segments against the request's.
pub fn path_diff(route: &Vec<RouteSeg>, req: &Vec<String>) -> (out: Vec<SegmentDiff>)
    requires
        forall|k: int| 0 <= k < route@.len() ==> small(seg_text(#[trigger] segs_view(route@)[k])),
        forall|k: int| 0 <= k < req@.len() ==> small(#[trigger] strs_view(req@)[k]),
    ensures
        sdiffs_view(out@) == spec_path_diff(segs_view(route@), strs_view(req@)),
{
    let ghost rv = segs_view(route@);
    let ghost qv = strs_view(req@);
    let mut out: Vec<SegmentDiff> = Vec::new();
    let mut k: usize = 0;
    let mut r: usize = 0;
    proof {
        assert(sdiffs_view(out@) =~= Seq::<SegDiffV>::empty());
    }
    while k < route.len()
        invariant
            0 <= k <= route@.len(),
            0 <= r <= req@.len(),
            rv == segs_view(route@),
            qv == strs_view(req@),
            forall|kk: int| 0 <= kk < route@.len() ==> small(seg_text(#[trigger] rv[kk])),
            forall|kk: int| 0 <= kk < req@.len() ==> small(#[trigger] qv[kk]),
            spec_path_diff(rv, qv) == sdiffs_view(out@) + spec_path_diff_from(
                rv,
                qv,
                k as int,
                r as int,
            ),
        decreases route@.len() - k,
    {
        let entry: SegmentDiff;
        let ghost r0 = r as int;
        if r < req.len() {
            match &route[k] {
                RouteSeg::Static(t) => {
                    if *t == req[r] {
                        entry = SegmentDiff::StaticMatch(t.clone());
                    } else {
                        entry = SegmentDiff::TextMismatch(diff(req[r].as_str(), t.as_str()));
                    }
                    r = r + 1;
                },
                RouteSeg::Single(n) => {
                    entry = SegmentDiff::SingleMatch(n.clone(), req[r].clone());
                    r = r + 1;
                },
                RouteSeg::Multi(n) => {
                    let mut vals: Vec<String> = Vec::new();
                    let mut rr: usize = r;
                    proof {
                        assert(strs_view(vals@) =~= qv.subrange(r as int, r as int));
                    }
                    while rr < req.len()
                        invariant
                            r <= rr <= req@.len(),
                            qv == strs_view(req@),
                            strs_view(vals@) == qv.subrange(r as int, rr as int),
                        decreases req@.len() - rr,
                    {
                        let v = req[rr].clone();
                        proof {
                            assert(strs_view(vals@).len() == vals@.len());
                            assert(v@ == qv[rr as int]);
                            assert(strs_view(vals@.push(v)).len() == vals@.len() + 1);
                            assert(strs_view(vals@.push(v))[vals@.len() as int] == v@);
                            assert forall|ii: int|
                                0 <= ii < vals@.len() implies strs_view(vals@.push(v))[ii]
                                == strs_view(vals@)[ii] by {
                                assert(vals@.push(v)[ii] == vals@[ii]);
                            }
                            assert(strs_view(vals@.push(v)) =~= qv.subrange(r as int, rr + 1));
                        }
                        vals.push(v);
                        rr = rr + 1;
                    }
                    proof {
                        assert(qv.subrange(r as int, rr as int) =~= qv.subrange(
                            r as int,
                            qv.len() as int,
                        ));
                    }
                    entry = SegmentDiff::MultiMatch(n.clone(), vals);
                    r = req.len();
                },
            }
        } else {
            entry = SegmentDiff::Missing(seg_text_exec(&route[k]).clone());
        }
        proof {
            assert(spec_path_diff_from(rv, qv, k as int, r0) == seq![entry@]
                + spec_path_diff_from(rv, qv, k as int + 1, r as int));
            assert(sdiffs_view(out@.push(entry)) =~= sdiffs_view(out@) + seq![entry@]);
            assert((sdiffs_view(out@) + seq![entry@]) + spec_path_diff_from(
                rv,
                qv,
                k as int + 1,
                r as int,
            ) =~= sdiffs_view(out@) + (seq![entry@] + spec_path_diff_from(
                rv,
                qv,
                k as int + 1,
                r as int,
            )));
        }
        out.push(entry);
        k = k + 1;
    }
    while r < req.len()
        invariant
            0 <= r <= req@.len(),
            k == route@.len(),
            rv == segs_view(route@),
            qv == strs_view(req@),
            spec_path_diff(rv, qv) == sdiffs_view(out@) + spec_path_diff_from(
                rv,
                qv,
                k as int,
                r as int,
            ),
        decreases req@.len() - r,
    {
        let entry = SegmentDiff::Unexpected(req[r].clone());
        proof {
            assert(spec_path_diff_from(rv, qv, k as int, r as int) == seq![entry@]
                + spec_path_diff_from(rv, qv, k as int, r as int + 1));
            assert(sdiffs_view(out@.push(entry)) =~= sdiffs_view(out@) + seq![entry@]);
            assert((sdiffs_view(out@) + seq![entry@]) + spec_path_diff_from(
                rv,
                qv,
                k as int,
                r as int + 1,
            ) =~= sdiffs_view(out@) + (seq![entry@] + spec_path_diff_from(
                rv,
                qv,
                k as int,
                r as int + 1,
            )));
        }
        out.push(entry);
        r = r + 1;
    }
    proof {
        assert(sdiffs_view(out@) + spec_path_diff_from(rv, qv, k as int, r as int) =~= sdiffs_view(
            out@,
        ));
    }
    out
}

/// Index of the first request item whose raw text equals `t`, or -1.
pub open spec fn find_raw(items: Seq<QueryItemV>, t: Seq<char>, from: int) -> int
    decreases items.len() - from
        when 0 <= from <= items.len()
{
    if from >= items.len() {
        -1
    } else if items[from].raw == t {
        from
    } else {
        find_raw(items, t, from + 1)
    }
}

/// Index of the first request item whose key equals `n`, or -1.
pub open spec fn find_key(items: Seq<QueryItemV>, n: Seq<char>, from: int) -> int
    decreases items.len() - from
        when 0 <= from <= items.len()
{
    if from >= items.len() {
        -1
    } else if items[from].key == n {
        from
    } else {
        find_key(items, n, from + 1)
    }
}

/// Index of the request item from `from` on whose raw text is closest to
/// `t` by edit distance; the earliest wins a tie.
pub open spec fn best_item(items: Seq<QueryItemV>, t: Seq<char>, from: int) -> int
    decreases items.len() - from
        when 0 <= from < items.len()
{
    if from == items.len() - 1 {
        from
    } else {
        let rest = best_item(items, t, from + 1);
        if spec_distance(items[from].raw, t) <= spec_distance(items[rest].raw, t) {
            from
        } else {
            rest
        }
    }
}

/// Whether `consumed` holds an item equal to `it`.
pub open spec fn consumed_contains(consumed: Seq<QueryItemV>, it: QueryItemV) -> bool {
    exists|k: int| 0 <= k < consumed.len() && consumed[k] == it
}

/// The raw texts of the request items from `from` on that no earlier route
/// segment consumed.
pub open spec fn spec_unconsumed(
    items: Seq<QueryItemV>,
    consumed: Seq<QueryItemV>,
    from: int,
) -> Seq<Seq<char>>
    decreases items.len() - from
        when 0 <= from <= items.len()
{
    if from >= items.len() {
        Seq::empty()
    } else {
        (if consumed_contains(consumed, items[from]) {
            Seq::<Seq<char>>::empty()
        } else {
            seq![items[from].raw]
        }) + spec_unconsumed(items, consumed, from + 1)
    }
}

/// The query entries from route segment `k` on. A static segment consumes
/// the first item with the same raw text, falling back to an edit script
/// against the item closest by edit distance; a single capture consumes
/// the first item with its key, or is reported missing (a hint only: the
/// parameter may be optional); a multi capture collects every item that no
/// other segment consumed. `consumed` holds the items matched so far.
pub open spec fn spec_query_entries(
    route: Seq<RouteSegV>,
    items: Seq<QueryItemV>,
    k: int,
    consumed: Seq<QueryItemV>,
) -> Seq<SegDiffV>
    decreases route.len() - k
        when 0 <= k <= route.len()
{
    if k >= route.len() {
        Seq::empty()
    } else {
        match route[k] {
            RouteSegV::Static(t) => {
                let f = find_raw(items, t, 0);
                if f >= 0 {
                    seq![SegDiffV::StaticMatch(items[f].raw)] + spec_query_entries(
                        route,
                        items,
                        k + 1,
                        consumed.push(items[f]),
                    )
                } else {
                    seq![
                        SegDiffV::TextMismatch(spec_diff(items[best_item(items, t, 0)].raw, t)),
                    ] + spec_query_entries(route, items, k + 1, consumed)
                }
            },
            RouteSegV::Single(n) => {
                let f = find_key(items, n, 0);
                if f >= 0 {
                    seq![SegDiffV::SingleMatch(n, items[f].raw)] + spec_query_entries(
                        route,
                        items,
                        k + 1,
                        consumed.push(items[f]),
                    )
                } else {
                    seq![SegDiffV::Missing(n)] + spec_query_entries(route, items, k + 1, consumed)
                }
            },
            RouteSegV::Multi(n) => seq![
                SegDiffV::MultiMatch(n, spec_unconsumed(items, consumed, 0)),
            ] + spec_query_entries(route, items, k + 1, consumed),
        }
    }
}

/// One missing entry per declared query segment, for a request without a
/// query.
pub open spec fn spec_all_missing(route: Seq<RouteSegV>, k: int) -> Seq<SegDiffV>
    decreases route.len() - k
        when 0 <= k <= route.len()
{
    if k >= route.len() {
        Seq::empty()
    } else {
        seq![SegDiffV::Missing(seg_text(route[k]))] + spec_all_missing(route, k + 1)
    }
}

/// One unexpected entry per request item, for a route that declares no
/// query.
pub open spec fn spec_all_unexpected(items: Seq<QueryItemV>, k: int) -> Seq<SegDiffV>
    decreases items.len() - k
        when 0 <= k <= items.len()
{
    if k >= items.len() {
        Seq::empty()
    } else {
        seq![SegDiffV::Unexpected(items[k].raw)] + spec_all_unexpected(items, k + 1)
    }
}

/// The full query diff of a route against a request.
pub open spec fn spec_query_diff(
    route: Option<Seq<RouteSegV>>,
    items: Option<Seq<QueryItemV>>,
) -> Seq<SegDiffV> {
    match (route, items) {
        (Option::Some(rq), Option::Some(its)) => spec_query_entries(rq, its, 0, Seq::empty()),
        (Option::Some(rq), Option::None) => spec_all_missing(rq, 0),
        (Option::None, Option::Some(its)) => spec_all_unexpected(its, 0),
        (Option::None, Option::None) => Seq::empty(),
    }
}

/// Finds the first request item whose raw text equals `t`.
fn find_raw_exec(items: &Vec<QueryItem>, t: &String) -> (res: Option<usize>)
    ensures
        match res {
            Option::Some(f) => f < items@.len() && find_raw(items_view(items@), t@, 0) == f as int,
            Option::None => find_raw(items_view(items@), t@, 0) == -1,
        },
{
    let ghost iv = items_view(items@);
    let mut i: usize = 0;
    while i < items.len()
        invariant
            0 <= i <= items@.len(),
            iv == items_view(items@),
            iv.len() == items@.len(),
            find_raw(iv, t@, 0) == find_raw(iv, t@, i as int),
        decreases items@.len() - i,
    {
        proof {
            assert(iv[i as int] == items@[i as int]@);
        }
        if items[i].raw == *t {
            return Option::Some(i);
        }
        i = i + 1;
    }
    Option::None
}

/// Finds the first request item whose key equals `n`.
fn find_key_exec(items: &Vec<QueryItem>, n: &String) -> (res: Option<usize>)
    ensures
        match res {
            Option::Some(f) => f < items@.len() && find_key(items_view(items@), n@, 0) == f as int,
            Option::None => find_key(items_view(items@), n@, 0) == -1,
        },
{
    let ghost iv = items_view(items@);
    let mut i: usize = 0;
    while i < items.len()
        invariant
            0 <= i <= items@.len(),
            iv == items_view(items@),
            iv.len() == items@.len(),
            find_key(iv, n@, 0) == find_key(iv, n@, i as int),
        decreases items@.len() - i,
    {
        proof {
            assert(iv[i as int] == items@[i as int]@);
        }
        if items[i].key == *n {
            return Option::Some(i);
        }
        i = i + 1;
    }
    Option::None
}

/// Finds the request item from `from` on closest to `t` by edit distance,
/// the earliest on ties.
fn best_item_exec(items: &Vec<QueryItem>, t: &String, from: usize) -> (b: usize)
    requires
        from < items@.len(),
        t@.len() <= TEXT_CAP,
        forall|k: int| 0 <= k < items@.len() ==> small(#[trigger] items_view(items@)[k].raw),
    ensures
        from <= b < items@.len(),
        b as int == best_item(items_view(items@), t@, from as int),
    decreases items@.len() - from,
{
    let ghost iv = items_view(items@);
    proof {
        assert(iv[from as int] == items@[from as int]@);
        assert(small(iv[from as int].raw));
    }
    if from == items.len() - 1 {
        from
    } else {
        let rest = best_item_exec(items, t, from + 1);
        proof {
            assert(iv[rest as int] == items@[rest as int]@);
            assert(small(iv[rest as int].raw));
        }
        let df = edit_distance(items[from].raw.as_str(), t.as_str());
        let dr = edit_distance(items[rest].raw.as_str(), t.as_str());
        if df <= dr {
            from
        } else {
            rest
        }
    }
}

/// Whether `consumed` holds an item equal to `it`.
fn contains_exec(consumed: &Vec<QueryItem>, it: &QueryItem) -> (res: bool)
    ensures
        res == consumed_contains(items_view(consumed@), it@),
{
    let ghost cv = items_view(consumed@);
    let mut i: usize = 0;
    while i < consumed.len()
        invariant
            0 <= i <= consumed@.len(),
            cv == items_view(consumed@),
            cv.len() == consumed@.len(),
            forall|k: int| 0 <= k < i ==> #[trigger] cv[k] != it@,
        decreases consumed@.len() - i,
    {
        proof {
            assert(cv[i as int] == consumed@[i as int]@);
        }
        if consumed[i].key == it.key && consumed[i].raw == it.raw {
            proof {
                assert(cv[i as int] == it@);
            }
            return true;
        }
        i = i + 1;
    }
    false
}

/// Collects the raw texts of the items that no route segment consumed.
fn unconsumed_exec(items: &Vec<QueryItem>, consumed: &Vec<QueryItem>) -> (vals: Vec<String>)
    ensures
        strs_view(vals@) == spec_unconsumed(items_view(items@), items_view(consumed@), 0),
{
    let ghost iv = items_view(items@);
    let ghost cv = items_view(consumed@);
    let mut vals: Vec<String> = Vec::new();
    let mut i: usize = 0;
    proof {
        assert(strs_view(vals@) =~= Seq::<Seq<char>>::empty());
    }
    while i < items.len()
        invariant
            0 <= i <= items@.len(),
            iv == items_view(items@),
            cv == items_view(consumed@),
            iv.len() == items@.len(),
            spec_unconsumed(iv, cv, 0) == strs_view(vals@) + spec_unconsumed(iv, cv, i as int),
        decreases items@.len() - i,
    {
        proof {
            assert(iv[i as int] == items@[i as int]@);
        }
        let hit = contains_exec(consumed, &items[i]);
        if !hit {
            let v = items[i].raw.clone();
            proof {
                lemma_strs_view_push(vals@, v);
                assert(spec_unconsumed(iv, cv, i as int) == seq![iv[i as int].raw]
                    + spec_unconsumed(iv, cv, i as int + 1));
                assert(strs_view(vals@).push(v@) =~= strs_view(vals@) + seq![iv[i as int].raw]);
                assert((strs_view(vals@) + seq![iv[i as int].raw]) + spec_unconsumed(
                    iv,
                    cv,
                    i as int + 1,
                ) =~= strs_view(vals@) + (seq![iv[i as int].raw] + spec_unconsumed(
                    iv,
                    cv,
                    i as int + 1,
                )));
            }
            vals.push(v);
        } else {
            proof {
                assert(spec_unconsumed(iv, cv, i as int) =~= spec_unconsumed(iv, cv, i as int + 1));
            }
        }
        i = i + 1;
    }
    proof {
        assert(strs_view(vals@) + spec_unconsumed(iv, cv, items@.len() as int) =~= strs_view(
            vals@,
        ));
    }
    vals
}

/// Classifies the route's declared query segments against the request's
/// raw query items.
pub fn query_diff(route_query: &Option<Vec<RouteSeg>>, req_query: &Option<Vec<QueryItem>>) -> (out:
    Vec<SegmentDiff>)
    requires
        match *route_query {
            Option::Some(rq) => forall|k: int|
                0 <= k < rq@.len() ==> small(seg_text(#[trigger] segs_view(rq@)[k])),
            Option::None => true,
        },
        match *req_query {
            Option::Some(its) => {
                &&& its@.len() > 0
                &&& forall|k: int| 0 <= k < its@.len() ==> small(#[trigger] items_view(its@)[k].raw)
                &&& forall|k: int| 0 <= k < its@.len() ==> small(#[trigger] items_view(its@)[k].key)
            },
            Option::None => true,
        },
    ensures
        sdiffs_view(out@) == spec_query_diff(opt_segs_view(*route_query), opt_items_view(*req_query)),
{
    match (route_query, req_query) {
        (Option::Some(rq), Option::Some(items)) => {
            let ghost rv = segs_view(rq@);
            let ghost iv = items_view(items@);
            let mut out: Vec<SegmentDiff> = Vec::new();
            let mut consumed: Vec<QueryItem> = Vec::new();
            let mut k: usize = 0;
            proof {
                assert(sdiffs_view(out@) =~= Seq::<SegDiffV>::empty());
                assert(items_view(consumed@) =~= Seq::<QueryItemV>::empty());
            }
            while k < rq.len()
                invariant
                    0 <= k <= rq@.len(),
                    rv == segs_view(rq@),
                    iv == items_view(items@),
                    rv.len() == rq@.len(),
                    iv.len() == items@.len(),
                    iv.len() > 0,
                    forall|kk: int| 0 <= kk < rv.len() ==> small(seg_text(#[trigger] rv[kk])),
                    forall|kk: int| 0 <= kk < iv.len() ==> small(#[trigger] iv[kk].raw),
                    forall|kk: int| 0 <= kk < iv.len() ==> small(#[trigger] iv[kk].key),
                    spec_query_entries(rv, iv, 0, Seq::empty()) == sdiffs_view(out@)
                        + spec_query_entries(rv, iv, k as int, items_view(consumed@)),
                decreases rq@.len() - k,
            {
                let ghost cv = items_view(consumed@);
                let entry: SegmentDiff;
                proof {
                    assert(rv[k as int] == rq@[k as int]@);
                }
                match &rq[k] {
                    RouteSeg::Static(t) => {
                        match find_raw_exec(items, t) {
                            Option::Some(f) => {
                                let item = items[f].clone();
                                proof {
                                    assert(iv[f as int] == items@[f as int]@);
                                    assert(item@ == iv[f as int]);
                                    lemma_items_view_push(consumed@, item);
                                }
                                entry = SegmentDiff::StaticMatch(items[f].raw.clone());
                                consumed.push(item);
                            },
                            Option::None => {
                                let b = best_item_exec(items, t, 0);
                                proof {
                                    assert(iv[b as int] == items@[b as int]@);
                                }
                                entry = SegmentDiff::TextMismatch(
                                    diff(items[b].raw.as_str(), t.as_str()),
                                );
                            },
                        }
                    },
                    RouteSeg::Single(n) => {
                        match find_key_exec(items, n) {
                            Option::Some(f) => {
                                let item = items[f].clone();
                                proof {
                                    assert(iv[f as int] == items@[f as int]@);
                                    assert(item@ == iv[f as int]);
                                    lemma_items_view_push(consumed@, item);
                                }
                                entry = SegmentDiff::SingleMatch(n.clone(), items[f].raw.clone());
                                consumed.push(item);
                            },
                            Option::None => {
                                entry = SegmentDiff::Missing(n.clone());
                            },
                        }
                    },
                    RouteSeg::Multi(n) => {
                        let vals = unconsumed_exec(items, &consumed);
                        entry = SegmentDiff::MultiMatch(n.clone(), vals);
                    },
                }
                proof {
                    assert(spec_query_entries(rv, iv, k as int, cv) == seq![entry@]
                        + spec_query_entries(rv, iv, k as int + 1, items_view(consumed@)));
                    assert(sdiffs_view(out@.push(entry)) =~= sdiffs_view(out@) + seq![entry@]);
                    assert((sdiffs_view(out@) + seq![entry@]) + spec_query_entries(
                        rv,
                        iv,
                        k as int + 1,
                        items_view(consumed@),
                    ) =~= sdiffs_view(out@) + (seq![entry@] + spec_query_entries(
                        rv,
                        iv,
                        k as int + 1,
                        items_view(consumed@),
                    )));
                }
                out.push(entry);
                k = k + 1;
            }
            proof {
                assert(sdiffs_view(out@) + spec_query_entries(
                    rv,
                    iv,
                    rq@.len() as int,
                    items_view(consumed@),
                ) =~= sdiffs_view(out@));
            }
            out
        },
        (Option::Some(rq), Option::None) => {
            let ghost rv = segs_view(rq@);
            let mut out: Vec<SegmentDiff> = Vec::new();
            let mut k: usize = 0;
            proof {
                assert(sdiffs_view(out@) =~= Seq::<SegDiffV>::empty());
            }
            while k < rq.len()
                invariant
                    0 <= k <= rq@.len(),
                    rv == segs_view(rq@),
                    rv.len() == rq@.len(),
                    spec_all_missing(rv, 0) == sdiffs_view(out@) + spec_all_missing(rv, k as int),
                decreases rq@.len() - k,
            {
                proof {
                    assert(rv[k as int] == rq@[k as int]@);
                }
                let entry = SegmentDiff::Missing(seg_text_exec(&rq[k]).clone());
                proof {
                    assert(spec_all_missing(rv, k as int) == seq![entry@] + spec_all_missing(
                        rv,
                        k as int + 1,
                    ));
                    assert(sdiffs_view(out@.push(entry)) =~= sdiffs_view(out@) + seq![entry@]);
                    assert((sdiffs_view(out@) + seq![entry@]) + spec_all_missing(rv, k as int + 1)
                        =~= sdiffs_view(out@) + (seq![entry@] + spec_all_missing(rv, k as int + 1)));
                }
                out.push(entry);
                k = k + 1;
            }
            proof {
                assert(sdiffs_view(out@) + spec_all_missing(rv, rq@.len() as int) =~= sdiffs_view(
                    out@,
                ));
            }
            out
        },
        (Option::None, Option::Some(items)) => {
            let ghost iv = items_view(items@);
            let mut out: Vec<SegmentDiff> = Vec::new();
            let mut i: usize = 0;
            proof {
                assert(sdiffs_view(out@) =~= Seq::<SegDiffV>::empty());
            }
            while i < items.len()
                invariant
                    0 <= i <= items@.len(),
                    iv == items_view(items@),
                    iv.len() == items@.len(),
                    spec_all_unexpected(iv, 0) == sdiffs_view(out@) + spec_all_unexpected(
                        iv,
                        i as int,
                    ),
                decreases items@.len() - i,
            {
                proof {
                    assert(iv[i as int] == items@[i as int]@);
                }
                let entry = SegmentDiff::Unexpected(items[i].raw.clone());
                proof {
                    assert(spec_all_unexpected(iv, i as int) == seq![entry@] + spec_all_unexpected(
                        iv,
                        i as int + 1,
                    ));
                    assert(sdiffs_view(out@.push(entry)) =~= sdiffs_view(out@) + seq![entry@]);
                    assert((sdiffs_view(out@) + seq![entry@]) + spec_all_unexpected(
                        iv,
                        i as int + 1,
                    ) =~= sdiffs_view(out@) + (seq![entry@] + spec_all_unexpected(iv, i as int + 1)));
                }
                out.push(entry);
                i = i + 1;
            }
            proof {
                assert(sdiffs_view(out@) + spec_all_unexpected(iv, items@.len() as int)
                    =~= sdiffs_view(out@));
            }
            out
        },
        (Option::None, Option::None) => {
            let out: Vec<SegmentDiff> = Vec::new();
            proof {
                assert(sdiffs_view(out@) =~= Seq::<SegDiffV>::empty());
            }
            out
        },
    }
}

} // verus!
