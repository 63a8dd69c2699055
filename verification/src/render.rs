//! Diff renderer: turns a diff record into two lines of highlighted
//! spans — the route's expected representation and the request's actual
//! one. Text the route expects but the request lacks is an `Addition`
//! span on the route line; text the request has but the route does not
//! expect is a `Removal` span on the request line; matched text is
//! `Plain`. The concrete coloring backend is layered outside this crate.

use vstd::prelude::*;
use vstd::string::*;
use crate::diff_record::DiffRecord;
use crate::diff_record::RecordV;
use crate::diff_record::SegmentDiff;
use crate::diff_record::SegDiffV;
use crate::diff_record::MediaTypeDiff;
use crate::diff_record::MediaDiffV;
use crate::diff_record::MediaPartMatch;
use crate::diff_record::MediaPartV;
use crate::diff_record::MethodDiff;
use crate::text_diff::EditOp;
use crate::text_diff::EditOpV;
use crate::text_diff::script_view;
use crate::model::strs_view;

verus! {

/// How a span of rendered text is marked.
#[derive(Clone, Copy, PartialEq, Eq, Structural, Debug)]
pub enum Highlight {
    Plain,
    Addition,
    Removal,
}

/// One span of rendered text with its highlight.
#[derive(Debug, PartialEq, Eq)]
pub struct Span {
    pub text: String,
    pub highlight: Highlight,
}

/// Spec-level image of `Span`.
pub struct SpanV {
    pub text: Seq<char>,
    pub highlight: Highlight,
}

impl View for Span {
    type V = SpanV;

    open spec fn view(&self) -> SpanV {
        SpanV { text: self.text@, highlight: self.highlight }
    }
}

pub open spec fn spans_view(s: Seq<Span>) -> Seq<SpanV> {
    s.map_values(|x: Span| x@)
}

/// Both rendered lines of one diff record.
#[derive(Debug, PartialEq, Eq)]
pub struct RenderedDiff {
    pub route_line: Vec<Span>,
    pub request_line: Vec<Span>,
}

/// Spec-level image of `RenderedDiff`.
pub struct RenderedV {
    pub route_line: Seq<SpanV>,
    pub request_line: Seq<SpanV>,
}

impl View for RenderedDiff {
    type V = RenderedV;

    open spec fn view(&self) -> RenderedV {
        RenderedV {
            route_line: spans_view(self.route_line@),
            request_line: spans_view(self.request_line@),
        }
    }
}

pub open spec fn pl(t: Seq<char>) -> SpanV {
    SpanV { text: t, highlight: Highlight::Plain }
}

pub open spec fn ad(t: Seq<char>) -> SpanV {
    SpanV { text: t, highlight: Highlight::Addition }
}

pub open spec fn rm(t: Seq<char>) -> SpanV {
    SpanV { text: t, highlight: Highlight::Removal }
}

/// An edit script on the route (expected) line: kept text plain, added
/// text highlighted, removed text omitted.
pub open spec fn ops_route_spans(ops: Seq<EditOpV>, k: int) -> Seq<SpanV>
    decreases ops.len() - k
        when 0 <= k <= ops.len()
{
    if k >= ops.len() {
        Seq::empty()
    } else {
        (match ops[k] {
            EditOpV::Same(t) => seq![pl(t)],
            EditOpV::Add(t) => seq![ad(t)],
            EditOpV::Remove(_) => Seq::<SpanV>::empty(),
        }) + ops_route_spans(ops, k + 1)
    }
}

/// An edit script on the request (actual) line: kept text plain, removed
/// text highlighted, added text omitted.
pub open spec fn ops_req_spans(ops: Seq<EditOpV>, k: int) -> Seq<SpanV>
    decreases ops.len() - k
        when 0 <= k <= ops.len()
{
    if k >= ops.len() {
        Seq::empty()
    } else {
        (match ops[k] {
            EditOpV::Same(t) => seq![pl(t)],
            EditOpV::Remove(t) => seq![rm(t)],
            EditOpV::Add(_) => Seq::<SpanV>::empty(),
        }) + ops_req_spans(ops, k + 1)
    }
}

/// One segment diff on the route line, preceded by its separator.
pub open spec fn seg_route_spans(seg: SegDiffV, sep: Seq<char>) -> Seq<SpanV> {
    match seg {
        SegDiffV::StaticMatch(t) => seq![pl(sep), pl(t)],
        SegDiffV::SingleMatch(n, _) => seq![pl(sep), pl(n)],
        SegDiffV::MultiMatch(n, _) => seq![pl(sep), pl(n)],
        SegDiffV::TextMismatch(ops) => seq![pl(sep)] + ops_route_spans(ops, 0),
        SegDiffV::Missing(t) => seq![pl(sep), ad(t)],
        SegDiffV::Unexpected(_) => Seq::empty(),
    }
}

/// The values a multi capture absorbed, each preceded by its separator.
pub open spec fn multi_req_spans(vs: Seq<Seq<char>>, sep: Seq<char>, k: int) -> Seq<SpanV>
    decreases vs.len() - k
        when 0 <= k <= vs.len()
{
    if k >= vs.len() {
        Seq::empty()
    } else {
        seq![pl(sep), pl(vs[k])] + multi_req_spans(vs, sep, k + 1)
    }
}

/// One segment diff on the request line, preceded by its separator.
pub open spec fn seg_req_spans(seg: SegDiffV, sep: Seq<char>) -> Seq<SpanV> {
    match seg {
        SegDiffV::StaticMatch(t) => seq![pl(sep), pl(t)],
        SegDiffV::SingleMatch(_, v) => seq![pl(sep), pl(v)],
        SegDiffV::MultiMatch(_, vs) => multi_req_spans(vs, sep, 0),
        SegDiffV::TextMismatch(ops) => seq![pl(sep)] + ops_req_spans(ops, 0),
        SegDiffV::Missing(_) => Seq::empty(),
        SegDiffV::Unexpected(t) => seq![pl(sep), rm(t)],
    }
}

pub open spec fn segs_route_spans(segs: Seq<SegDiffV>, sep: Seq<char>, k: int) -> Seq<SpanV>
    decreases segs.len() - k
        when 0 <= k <= segs.len()
{
    if k >= segs.len() {
        Seq::empty()
    } else {
        seg_route_spans(segs[k], sep) + segs_route_spans(segs, sep, k + 1)
    }
}

pub open spec fn segs_req_spans(segs: Seq<SegDiffV>, sep: Seq<char>, k: int) -> Seq<SpanV>
    decreases segs.len() - k
        when 0 <= k <= segs.len()
{
    if k >= segs.len() {
        Seq::empty()
    } else {
        seg_req_spans(segs[k], sep) + segs_req_spans(segs, sep, k + 1)
    }
}

/// An empty path renders as a single `/`.
pub open spec fn path_part(spans: Seq<SpanV>) -> Seq<SpanV> {
    if spans.len() == 0 {
        seq![pl("/"@)]
    } else {
        spans
    }
}

/// A non-empty query starts with `?` in place of its first `&` separator.
pub open spec fn query_part(spans: Seq<SpanV>) -> Seq<SpanV> {
    if spans.len() == 0 {
        spans
    } else {
        spans.update(0, pl("?"@))
    }
}

/// The route's media type on the route line: only the comparison of the
/// top part is shown when both sides declare one.
pub open spec fn media_route_spans(m: MediaDiffV) -> Seq<SpanV> {
    match m {
        MediaDiffV::BothMatch { top, sub } => match top {
            MediaPartV::TrueStatic(t) => seq![pl(t)],
            MediaPartV::TrueDynamic(r, _) => seq![pl(r)],
            MediaPartV::TextMismatch(ops) => ops_route_spans(ops, 0),
        },
        MediaDiffV::RouteExpectsButRequestLacks(t) => seq![ad(t)],
        MediaDiffV::RequestHasButRouteDoesNotExpect(_) => Seq::empty(),
        MediaDiffV::NeitherExpects => Seq::empty(),
    }
}

pub open spec fn method_route_span(md: MethodDiff) -> SpanV {
    match md {
        MethodDiff::Same(m) => pl(m.spec_name()),
        MethodDiff::Changed(rmeth, _) => ad(rmeth.spec_name()),
    }
}

pub open spec fn method_req_span(md: MethodDiff) -> SpanV {
    match md {
        MethodDiff::Same(m) => pl(m.spec_name()),
        MethodDiff::Changed(_, qmeth) => rm(qmeth.spec_name()),
    }
}

/// The route (expected) line of a record.
pub open spec fn spec_route_line(rec: RecordV) -> Seq<SpanV> {
    seq![method_route_span(rec.method), pl(": "@)] + path_part(
        segs_route_spans(rec.path, "/"@, 0),
    ) + query_part(segs_route_spans(rec.query, "&"@, 0)) + seq![pl("   "@)] + media_route_spans(
        rec.media,
    )
}

/// The request (actual) line of a record.
pub open spec fn spec_request_line(rec: RecordV) -> Seq<SpanV> {
    seq![method_req_span(rec.method), pl(": "@)] + path_part(segs_req_spans(rec.path, "/"@, 0))
        + query_part(segs_req_spans(rec.query, "&"@, 0))
}

/// Both lines of a record.
pub open spec fn spec_render(rec: RecordV) -> RenderedV {
    RenderedV { route_line: spec_route_line(rec), request_line: spec_request_line(rec) }
}

/// Concatenating span vectors concatenates their views.
proof fn lemma_spans_view_concat(a: Seq<Span>, b: Seq<Span>)
    ensures
        spans_view(a + b) == spans_view(a) + spans_view(b),
{
    assert(spans_view(a).len() == a.len());
    assert(spans_view(b).len() == b.len());
    assert(spans_view(a + b).len() == a.len() + b.len());
    assert forall|i: int|
        0 <= i < a.len() + b.len() implies spans_view(a + b)[i] == (spans_view(a) + spans_view(
        b,
    ))[i] by {
        if i < a.len() {
            assert((a + b)[i] == a[i]);
        } else {
            assert((a + b)[i] == b[i - a.len()]);
        }
    }
    assert(spans_view(a + b) =~= spans_view(a) + spans_view(b));
}

/// Appending one span appends its view.
proof fn lemma_spans_view_push(s: Seq<Span>, v: Span)
    ensures
        spans_view(s.push(v)) == spans_view(s).push(v@),
{
    assert(spans_view(s).len() == s.len());
    assert(spans_view(s.push(v)).len() == s.len() + 1);
    assert(spans_view(s.push(v))[s.len() as int] == v@);
    assert forall|ii: int| 0 <= ii < s.len() implies spans_view(s.push(v))[ii] == spans_view(
        s,
    )[ii] by {
        assert(s.push(v)[ii] == s[ii]);
    }
    assert(spans_view(s.push(v)) =~= spans_view(s).push(v@));
}

fn push_span(out: &mut Vec<Span>, text: String, highlight: Highlight)
    ensures
        spans_view(final(out)@) == spans_view(old(out)@).push(SpanV { text: text@, highlight }),
{
    proof {
        lemma_spans_view_push(out@, Span { text, highlight });
    }
    let span = Span { text, highlight };
    out.push(span);
}

/// Appends the route-line spans of one edit script.
fn append_ops_route(out: &mut Vec<Span>, ops: &Vec<EditOp>)
    ensures
        spans_view(final(out)@) == spans_view(old(out)@) + ops_route_spans(script_view(ops@), 0),
{
    let ghost ov = script_view(ops@);
    let mut k: usize = 0;
    proof {
        assert(spans_view(out@) =~= spans_view(out@) + Seq::<SpanV>::empty());
        assert(ops_route_spans(ov, ops@.len() as int) =~= Seq::<SpanV>::empty());
    }
    while k < ops.len()
        invariant
            0 <= k <= ops@.len(),
            ov == script_view(ops@),
            ov.len() == ops@.len(),
            spans_view(out@) + ops_route_spans(ov, k as int) == spans_view(old(out)@)
                + ops_route_spans(ov, 0),
        decreases ops@.len() - k,
    {
        proof {
            assert(ov[k as int] == ops@[k as int]@);
        }
        let ghost before = out@;
        match &ops[k] {
            EditOp::Same(t) => {
                push_span(out, t.clone(), Highlight::Plain);
            },
            EditOp::Add(t) => {
                push_span(out, t.clone(), Highlight::Addition);
            },
            EditOp::Remove(_) => {},
        }
        proof {
            assert(ops_route_spans(ov, k as int) == (match ov[k as int] {
                EditOpV::Same(t) => seq![pl(t)],
                EditOpV::Add(t) => seq![ad(t)],
                EditOpV::Remove(_) => Seq::<SpanV>::empty(),
            }) + ops_route_spans(ov, k as int + 1));
            assert(spans_view(out@) + ops_route_spans(ov, k as int + 1) =~= spans_view(before)
                + ops_route_spans(ov, k as int));
        }
        k = k + 1;
    }
}

/// Appends the request-line spans of one edit script.
fn append_ops_req(out: &mut Vec<Span>, ops: &Vec<EditOp>)
    ensures
        spans_view(final(out)@) == spans_view(old(out)@) + ops_req_spans(script_view(ops@), 0),
{
    let ghost ov = script_view(ops@);
    let mut k: usize = 0;
    proof {
        assert(spans_view(out@) =~= spans_view(out@) + Seq::<SpanV>::empty());
        assert(ops_req_spans(ov, ops@.len() as int) =~= Seq::<SpanV>::empty());
    }
    while k < ops.len()
        invariant
            0 <= k <= ops@.len(),
            ov == script_view(ops@),
            ov.len() == ops@.len(),
            spans_view(out@) + ops_req_spans(ov, k as int) == spans_view(old(out)@) + ops_req_spans(
                ov,
                0,
            ),
        decreases ops@.len() - k,
    {
        proof {
            assert(ov[k as int] == ops@[k as int]@);
        }
        let ghost before = out@;
        match &ops[k] {
            EditOp::Same(t) => {
                push_span(out, t.clone(), Highlight::Plain);
            },
            EditOp::Remove(t) => {
                push_span(out, t.clone(), Highlight::Removal);
            },
            EditOp::Add(_) => {},
        }
        proof {
            assert(ops_req_spans(ov, k as int) == (match ov[k as int] {
                EditOpV::Same(t) => seq![pl(t)],
                EditOpV::Remove(t) => seq![rm(t)],
                EditOpV::Add(_) => Seq::<SpanV>::empty(),
            }) + ops_req_spans(ov, k as int + 1));
            assert(spans_view(out@) + ops_req_spans(ov, k as int + 1) =~= spans_view(before)
                + ops_req_spans(ov, k as int));
        }
        k = k + 1;
    }
}

/// Appends the route-line spans of the segment diffs.
fn append_segs_route(out: &mut Vec<Span>, segs: &Vec<SegmentDiff>, sep: &str)
    ensures
        spans_view(final(out)@) == spans_view(old(out)@) + segs_route_spans(
            crate::diff_record::sdiffs_view(segs@),
            sep@,
            0,
        ),
{
    let ghost sv = crate::diff_record::sdiffs_view(segs@);
    let mut k: usize = 0;
    proof {
        assert(spans_view(out@) =~= spans_view(out@) + Seq::<SpanV>::empty());
        assert(segs_route_spans(sv, sep@, segs@.len() as int) =~= Seq::<SpanV>::empty());
    }
    while k < segs.len()
        invariant
            0 <= k <= segs@.len(),
            sv == crate::diff_record::sdiffs_view(segs@),
            sv.len() == segs@.len(),
            spans_view(out@) + segs_route_spans(sv, sep@, k as int) == spans_view(old(out)@)
                + segs_route_spans(sv, sep@, 0),
        decreases segs@.len() - k,
    {
        proof {
            assert(sv[k as int] == segs@[k as int]@);
        }
        let ghost before = out@;
        match &segs[k] {
            SegmentDiff::StaticMatch(t) => {
                push_span(out, String::from_str(sep), Highlight::Plain);
                push_span(out, t.clone(), Highlight::Plain);
            },
            SegmentDiff::SingleMatch(n, _) => {
                push_span(out, String::from_str(sep), Highlight::Plain);
                push_span(out, n.clone(), Highlight::Plain);
            },
            SegmentDiff::MultiMatch(n, _) => {
                push_span(out, String::from_str(sep), Highlight::Plain);
                push_span(out, n.clone(), Highlight::Plain);
            },
            SegmentDiff::TextMismatch(ops) => {
                push_span(out, String::from_str(sep), Highlight::Plain);
                append_ops_route(out, ops);
            },
            SegmentDiff::Missing(t) => {
                push_span(out, String::from_str(sep), Highlight::Plain);
                push_span(out, t.clone(), Highlight::Addition);
            },
            SegmentDiff::Unexpected(_) => {},
        }
        proof {
            assert(segs_route_spans(sv, sep@, k as int) == seg_route_spans(sv[k as int], sep@)
                + segs_route_spans(sv, sep@, k as int + 1));
            assert(spans_view(out@) =~= spans_view(before) + seg_route_spans(sv[k as int], sep@));
            assert(spans_view(out@) + segs_route_spans(sv, sep@, k as int + 1) =~= spans_view(
                before,
            ) + segs_route_spans(sv, sep@, k as int));
        }
        k = k + 1;
    }
}

/// Appends the request-line spans of the segment diffs.
fn append_segs_req(out: &mut Vec<Span>, segs: &Vec<SegmentDiff>, sep: &str)
    ensures
        spans_view(final(out)@) == spans_view(old(out)@) + segs_req_spans(
            crate::diff_record::sdiffs_view(segs@),
            sep@,
            0,
        ),
{
    let ghost sv = crate::diff_record::sdiffs_view(segs@);
    let mut k: usize = 0;
    proof {
        assert(spans_view(out@) =~= spans_view(out@) + Seq::<SpanV>::empty());
        assert(segs_req_spans(sv, sep@, segs@.len() as int) =~= Seq::<SpanV>::empty());
    }
    while k < segs.len()
        invariant
            0 <= k <= segs@.len(),
            sv == crate::diff_record::sdiffs_view(segs@),
            sv.len() == segs@.len(),
            spans_view(out@) + segs_req_spans(sv, sep@, k as int) == spans_view(old(out)@)
                + segs_req_spans(sv, sep@, 0),
        decreases segs@.len() - k,
    {
        proof {
            assert(sv[k as int] == segs@[k as int]@);
        }
        let ghost before = out@;
        match &segs[k] {
            SegmentDiff::StaticMatch(t) => {
                push_span(out, String::from_str(sep), Highlight::Plain);
                push_span(out, t.clone(), Highlight::Plain);
            },
            SegmentDiff::SingleMatch(_, v) => {
                push_span(out, String::from_str(sep), Highlight::Plain);
                push_span(out, v.clone(), Highlight::Plain);
            },
            SegmentDiff::MultiMatch(_, vs) => {
                let ghost vsv = strs_view(vs@);
                let mut j: usize = 0;
                proof {
                    assert(spans_view(out@) =~= spans_view(out@) + Seq::<SpanV>::empty());
                    assert(multi_req_spans(vsv, sep@, vs@.len() as int) =~= Seq::<SpanV>::empty());
                }
                while j < vs.len()
                    invariant
                        0 <= j <= vs@.len(),
                        vsv == strs_view(vs@),
                        vsv.len() == vs@.len(),
                        spans_view(out@) + multi_req_spans(vsv, sep@, j as int) == spans_view(
                            before,
                        ) + multi_req_spans(vsv, sep@, 0),
                    decreases vs@.len() - j,
                {
                    proof {
                        assert(vsv[j as int] == vs@[j as int]@);
                    }
                    let ghost mid = out@;
                    push_span(out, String::from_str(sep), Highlight::Plain);
                    push_span(out, vs[j].clone(), Highlight::Plain);
                    proof {
                        assert(multi_req_spans(vsv, sep@, j as int) == seq![
                            pl(sep@),
                            pl(vsv[j as int]),
                        ] + multi_req_spans(vsv, sep@, j as int + 1));
                        assert(spans_view(out@) + multi_req_spans(vsv, sep@, j as int + 1)
                            =~= spans_view(mid) + multi_req_spans(vsv, sep@, j as int));
                    }
                    j = j + 1;
                }
            },
            SegmentDiff::TextMismatch(ops) => {
                push_span(out, String::from_str(sep), Highlight::Plain);
                append_ops_req(out, ops);
            },
            SegmentDiff::Missing(_) => {},
            SegmentDiff::Unexpected(t) => {
                push_span(out, String::from_str(sep), Highlight::Plain);
                push_span(out, t.clone(), Highlight::Removal);
            },
        }
        proof {
            assert(segs_req_spans(sv, sep@, k as int) == seg_req_spans(sv[k as int], sep@)
                + segs_req_spans(sv, sep@, k as int + 1));
            assert(spans_view(out@) =~= spans_view(before) + seg_req_spans(sv[k as int], sep@));
            assert(spans_view(out@) + segs_req_spans(sv, sep@, k as int + 1) =~= spans_view(before)
                + segs_req_spans(sv, sep@, k as int));
        }
        k = k + 1;
    }
}

/// Renders one diff record into its two lines of spans.
#[verifier::rlimit(100)]
pub fn render(rec: &DiffRecord) -> (out: RenderedDiff)
    ensures
        out@ == spec_render(rec@),
{
    // the route (expected) line
    let mut route_line: Vec<Span> = Vec::new();
    match &rec.method {
        MethodDiff::Same(m) => {
            push_span(&mut route_line, String::from_str(m.name()), Highlight::Plain);
        },
        MethodDiff::Changed(rmeth, _) => {
            push_span(&mut route_line, String::from_str(rmeth.name()), Highlight::Addition);
        },
    }
    push_span(&mut route_line, String::from_str(": "), Highlight::Plain);
    let ghost head = spans_view(route_line@);
    proof {
        assert(head =~= seq![method_route_span(rec@.method), pl(": "@)]);
    }
    let mut path_spans: Vec<Span> = Vec::new();
    append_segs_route(&mut path_spans, &rec.path, "/");
    if path_spans.len() == 0 {
        push_span(&mut path_spans, String::from_str("/"), Highlight::Plain);
        proof {
            assert(spans_view(path_spans@) =~= path_part(segs_route_spans(rec@.path, "/"@, 0)));
        }
    }
    let ghost pp = spans_view(path_spans@);
    proof {
        assert(pp == path_part(segs_route_spans(rec@.path, "/"@, 0)));
    }
    let ghost rl1 = route_line@;
    let ghost ps1 = path_spans@;
    route_line.append(&mut path_spans);
    proof {
        lemma_spans_view_concat(rl1, ps1);
    }
    let mut query_spans: Vec<Span> = Vec::new();
    append_segs_route(&mut query_spans, &rec.query, "&");
    if query_spans.len() > 0 {
        let ghost qs0 = spans_view(query_spans@);
        query_spans[0] = Span { text: String::from_str("?"), highlight: Highlight::Plain };
        proof {
            assert(spans_view(query_spans@) =~= qs0.update(0, pl("?"@)));
        }
    }
    let ghost qp = spans_view(query_spans@);
    proof {
        assert(qp == query_part(segs_route_spans(rec@.query, "&"@, 0)));
    }
    let ghost rl2 = route_line@;
    let ghost qs1 = query_spans@;
    route_line.append(&mut query_spans);
    proof {
        lemma_spans_view_concat(rl2, qs1);
    }
    push_span(&mut route_line, String::from_str("   "), Highlight::Plain);
    let mut media_spans: Vec<Span> = Vec::new();
    match &rec.media {
        MediaTypeDiff::BothMatch { top, sub: _ } => {
            match top {
                MediaPartMatch::TrueStatic(t) => {
                    push_span(&mut media_spans, t.clone(), Highlight::Plain);
                },
                MediaPartMatch::TrueDynamic(r, _) => {
                    push_span(&mut media_spans, r.clone(), Highlight::Plain);
                },
                MediaPartMatch::TextMismatch(ops) => {
                    append_ops_route(&mut media_spans, ops);
                },
            }
        },
        MediaTypeDiff::RouteExpectsButRequestLacks(t) => {
            push_span(&mut media_spans, t.clone(), Highlight::Addition);
        },
        MediaTypeDiff::RequestHasButRouteDoesNotExpect(_) => {},
        MediaTypeDiff::NeitherExpects => {},
    }
    proof {
        assert(spans_view(media_spans@) =~= media_route_spans(rec@.media));
    }
    let ghost rl3 = route_line@;
    let ghost ms1 = media_spans@;
    route_line.append(&mut media_spans);
    proof {
        lemma_spans_view_concat(rl3, ms1);
        assert(spans_view(route_line@) =~= spec_route_line(rec@));
    }

    // the request (actual) line
    let mut request_line: Vec<Span> = Vec::new();
    match &rec.method {
        MethodDiff::Same(m) => {
            push_span(&mut request_line, String::from_str(m.name()), Highlight::Plain);
        },
        MethodDiff::Changed(_, qmeth) => {
            push_span(&mut request_line, String::from_str(qmeth.name()), Highlight::Removal);
        },
    }
    push_span(&mut request_line, String::from_str(": "), Highlight::Plain);
    proof {
        assert(spans_view(request_line@) =~= seq![method_req_span(rec@.method), pl(": "@)]);
    }
    let mut rpath_spans: Vec<Span> = Vec::new();
    append_segs_req(&mut rpath_spans, &rec.path, "/");
    if rpath_spans.len() == 0 {
        push_span(&mut rpath_spans, String::from_str("/"), Highlight::Plain);
        proof {
            assert(spans_view(rpath_spans@) =~= path_part(segs_req_spans(rec@.path, "/"@, 0)));
        }
    }
    proof {
        assert(spans_view(rpath_spans@) == path_part(segs_req_spans(rec@.path, "/"@, 0)));
    }
    let ghost ql1 = request_line@;
    let ghost rps1 = rpath_spans@;
    request_line.append(&mut rpath_spans);
    proof {
        lemma_spans_view_concat(ql1, rps1);
    }
    let mut rquery_spans: Vec<Span> = Vec::new();
    append_segs_req(&mut rquery_spans, &rec.query, "&");
    if rquery_spans.len() > 0 {
        let ghost rqs0 = spans_view(rquery_spans@);
        rquery_spans[0] = Span { text: String::from_str("?"), highlight: Highlight::Plain };
        proof {
            assert(spans_view(rquery_spans@) =~= rqs0.update(0, pl("?"@)));
        }
    }
    proof {
        assert(spans_view(rquery_spans@) == query_part(segs_req_spans(rec@.query, "&"@, 0)));
    }
    let ghost ql2 = request_line@;
    let ghost rqs1 = rquery_spans@;
    request_line.append(&mut rquery_spans);
    proof {
        lemma_spans_view_concat(ql2, rqs1);
        assert(spans_view(request_line@) =~= spec_request_line(rec@));
    }
    RenderedDiff { route_line, request_line }
}

/// A segment diff that reports a match.
pub open spec fn seg_is_match(d: SegDiffV) -> bool {
    d is StaticMatch || d is SingleMatch || d is MultiMatch
}

/// A media part comparison that reports a match.
pub open spec fn part_is_true(p: MediaPartV) -> bool {
    p is TrueStatic || p is TrueDynamic
}

/// A media diff with no mismatch in it: both parts match, or neither side
/// declares a media type.
pub open spec fn media_matches(m: MediaDiffV) -> bool {
    match m {
        MediaDiffV::BothMatch { top, sub } => part_is_true(top) && part_is_true(sub),
        MediaDiffV::NeitherExpects => true,
        _ => false,
    }
}

/// No span of the sequence is highlighted.
pub open spec fn all_plain(s: Seq<SpanV>) -> bool {
    forall|i: int| 0 <= i < s.len() ==> s[i].highlight == Highlight::Plain
}

proof fn lemma_all_plain_concat(a: Seq<SpanV>, b: Seq<SpanV>)
    requires
        all_plain(a),
        all_plain(b),
    ensures
        all_plain(a + b),
{
    assert forall|i: int|
        0 <= i < (a + b).len() implies (a + b)[i].highlight == Highlight::Plain by {
        if i < a.len() {
            assert((a + b)[i] == a[i]);
        } else {
            assert((a + b)[i] == b[i - a.len()]);
        }
    }
}

proof fn lemma_multi_req_plain(vs: Seq<Seq<char>>, sep: Seq<char>, k: int)
    requires
        0 <= k <= vs.len(),
    ensures
        all_plain(multi_req_spans(vs, sep, k)),
    decreases vs.len() - k,
{
    if k < vs.len() {
        lemma_multi_req_plain(vs, sep, k + 1);
        lemma_all_plain_concat(seq![pl(sep), pl(vs[k])], multi_req_spans(vs, sep, k + 1));
    }
}

proof fn lemma_segs_route_plain(segs: Seq<SegDiffV>, sep: Seq<char>, k: int)
    requires
        0 <= k <= segs.len(),
        forall|i: int| 0 <= i < segs.len() ==> seg_is_match(#[trigger] segs[i]),
    ensures
        all_plain(segs_route_spans(segs, sep, k)),
    decreases segs.len() - k,
{
    if k < segs.len() {
        lemma_segs_route_plain(segs, sep, k + 1);
        assert(seg_is_match(segs[k]));
        assert(all_plain(seg_route_spans(segs[k], sep)));
        lemma_all_plain_concat(seg_route_spans(segs[k], sep), segs_route_spans(segs, sep, k + 1));
    }
}

proof fn lemma_segs_req_plain(segs: Seq<SegDiffV>, sep: Seq<char>, k: int)
    requires
        0 <= k <= segs.len(),
        forall|i: int| 0 <= i < segs.len() ==> seg_is_match(#[trigger] segs[i]),
    ensures
        all_plain(segs_req_spans(segs, sep, k)),
    decreases segs.len() - k,
{
    if k < segs.len() {
        lemma_segs_req_plain(segs, sep, k + 1);
        assert(seg_is_match(segs[k]));
        match segs[k] {
            SegDiffV::MultiMatch(_, vs) => {
                lemma_multi_req_plain(vs, sep, 0);
            },
            _ => {},
        }
        assert(all_plain(seg_req_spans(segs[k], sep)));
        lemma_all_plain_concat(seg_req_spans(segs[k], sep), segs_req_spans(segs, sep, k + 1));
    }
}

proof fn lemma_path_part_plain(spans: Seq<SpanV>)
    requires
        all_plain(spans),
    ensures
        all_plain(path_part(spans)),
{
}

proof fn lemma_query_part_plain(spans: Seq<SpanV>)
    requires
        all_plain(spans),
    ensures
        all_plain(query_part(spans)),
{
    if spans.len() > 0 {
        assert forall|i: int|
            0 <= i < query_part(spans).len() implies query_part(spans)[i].highlight
            == Highlight::Plain by {
            if i != 0 {
                assert(query_part(spans)[i] == spans[i]);
            }
        }
    }
}

/// Law: rendering a fully matching diff record — same method, every path
/// and query entry a match, and a media diff without mismatch — yields two
/// lines with no highlighted (added or removed) span.
pub proof fn lemma_full_match_renders_plain(rec: RecordV)
    requires
        rec.method is Same,
        forall|i: int| 0 <= i < rec.path.len() ==> seg_is_match(#[trigger] rec.path[i]),
        forall|i: int| 0 <= i < rec.query.len() ==> seg_is_match(#[trigger] rec.query[i]),
        media_matches(rec.media),
    ensures
        all_plain(spec_route_line(rec)),
        all_plain(spec_request_line(rec)),
{
    let head_route = seq![method_route_span(rec.method), pl(": "@)];
    let head_req = seq![method_req_span(rec.method), pl(": "@)];
    assert(all_plain(head_route));
    assert(all_plain(head_req));
    lemma_segs_route_plain(rec.path, "/"@, 0);
    lemma_segs_route_plain(rec.query, "&"@, 0);
    lemma_segs_req_plain(rec.path, "/"@, 0);
    lemma_segs_req_plain(rec.query, "&"@, 0);
    lemma_path_part_plain(segs_route_spans(rec.path, "/"@, 0));
    lemma_query_part_plain(segs_route_spans(rec.query, "&"@, 0));
    lemma_path_part_plain(segs_req_spans(rec.path, "/"@, 0));
    lemma_query_part_plain(segs_req_spans(rec.query, "&"@, 0));
    assert(all_plain(media_route_spans(rec.media)));
    lemma_all_plain_concat(head_route, path_part(segs_route_spans(rec.path, "/"@, 0)));
    lemma_all_plain_concat(
        head_route + path_part(segs_route_spans(rec.path, "/"@, 0)),
        query_part(segs_route_spans(rec.query, "&"@, 0)),
    );
    lemma_all_plain_concat(
        head_route + path_part(segs_route_spans(rec.path, "/"@, 0)) + query_part(
            segs_route_spans(rec.query, "&"@, 0),
        ),
        seq![pl("   "@)],
    );
    lemma_all_plain_concat(
        head_route + path_part(segs_route_spans(rec.path, "/"@, 0)) + query_part(
            segs_route_spans(rec.query, "&"@, 0),
        ) + seq![pl("   "@)],
        media_route_spans(rec.media),
    );
    lemma_all_plain_concat(head_req, path_part(segs_req_spans(rec.path, "/"@, 0)));
    lemma_all_plain_concat(
        head_req + path_part(segs_req_spans(rec.path, "/"@, 0)),
        query_part(segs_req_spans(rec.query, "&"@, 0)),
    );
}

} // verus!
