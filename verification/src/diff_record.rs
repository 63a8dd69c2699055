//! The structured diff of one route against one request: per-segment
//! records for path and query, a method comparison, and a media-type
//! comparison, together with their spec-level views.

use vstd::prelude::*;
use crate::model::Method;
use crate::model::strs_view;
use crate::text_diff::EditOp;
use crate::text_diff::EditOpV;
use crate::text_diff::script_view;

verus! {

/// How one declared segment relates to the request.
#[derive(Debug, PartialEq, Eq)]
pub enum SegmentDiff {
    /// A static segment matched exactly; carries the matched text.
    StaticMatch(String),
    /// A single-value capture matched; carries the capture name and the
    /// actual value.
    SingleMatch(String, String),
    /// A greedy capture absorbed the remaining values; carries the capture
    /// name and those values.
    MultiMatch(String, Vec<String>),
    /// A static segment did not match; carries the edit script from the
    /// actual text to the expected text.
    TextMismatch(Vec<EditOp>),
    /// The route expects this text but the request has nothing for it.
    Missing(String),
    /// The request carries this text but the route expects nothing for it.
    Unexpected(String),
}

/// Spec-level image of `SegmentDiff`.
pub enum SegDiffV {
    StaticMatch(Seq<char>),
    SingleMatch(Seq<char>, Seq<char>),
    MultiMatch(Seq<char>, Seq<Seq<char>>),
    TextMismatch(Seq<EditOpV>),
    Missing(Seq<char>),
    Unexpected(Seq<char>),
}

impl View for SegmentDiff {
    type V = SegDiffV;

    open spec fn view(&self) -> SegDiffV {
        match self {
            SegmentDiff::StaticMatch(t) => SegDiffV::StaticMatch(t@),
            SegmentDiff::SingleMatch(n, v) => SegDiffV::SingleMatch(n@, v@),
            SegmentDiff::MultiMatch(n, vs) => SegDiffV::MultiMatch(n@, strs_view(vs@)),
            SegmentDiff::TextMismatch(ops) => SegDiffV::TextMismatch(script_view(ops@)),
            SegmentDiff::Missing(t) => SegDiffV::Missing(t@),
            SegmentDiff::Unexpected(t) => SegDiffV::Unexpected(t@),
        }
    }
}

pub open spec fn sdiffs_view(s: Seq<SegmentDiff>) -> Seq<SegDiffV> {
    s.map_values(|x: SegmentDiff| x@)
}

/// Appending one segment diff appends its view.
pub proof fn lemma_sdiffs_view_push(s: Seq<SegmentDiff>, v: SegmentDiff)
    ensures
        sdiffs_view(s.push(v)) == sdiffs_view(s).push(v@),
{
    assert(sdiffs_view(s).len() == s.len());
    assert(sdiffs_view(s.push(v)).len() == s.len() + 1);
    assert(sdiffs_view(s.push(v))[s.len() as int] == v@);
    assert forall|ii: int| 0 <= ii < s.len() implies sdiffs_view(s.push(v))[ii] == sdiffs_view(
        s,
    )[ii] by {
        assert(s.push(v)[ii] == s[ii]);
    }
    assert(sdiffs_view(s.push(v)) =~= sdiffs_view(s).push(v@));
}

/// How one part (top or sub) of the two media types relates.
#[derive(Debug, PartialEq, Eq)]
pub enum MediaPartMatch {
    /// Equal, ignoring ASCII case; carries the route's text.
    TrueStatic(String),
    /// Either side is the wildcard `*`; carries both texts.
    TrueDynamic(String, String),
    /// Different; carries the edit script from the request's text to the
    /// route's text.
    TextMismatch(Vec<EditOp>),
}

/// Spec-level image of `MediaPartMatch`.
pub enum MediaPartV {
    TrueStatic(Seq<char>),
    TrueDynamic(Seq<char>, Seq<char>),
    TextMismatch(Seq<EditOpV>),
}

impl View for MediaPartMatch {
    type V = MediaPartV;

    open spec fn view(&self) -> MediaPartV {
        match self {
            MediaPartMatch::TrueStatic(t) => MediaPartV::TrueStatic(t@),
            MediaPartMatch::TrueDynamic(r, q) => MediaPartV::TrueDynamic(r@, q@),
            MediaPartMatch::TextMismatch(ops) => MediaPartV::TextMismatch(script_view(ops@)),
        }
    }
}

/// How the route's declared media type relates to the request's.
#[derive(Debug, PartialEq, Eq)]
pub enum MediaTypeDiff {
    /// Both sides declare one; carries the comparison of each part.
    BothMatch { top: MediaPartMatch, sub: MediaPartMatch },
    /// The route declares one but the request has none; carries the
    /// route's `top/sub` text.
    RouteExpectsButRequestLacks(String),
    /// The request has one but the route declares none; carries the
    /// request's `top/sub` text.
    RequestHasButRouteDoesNotExpect(String),
    /// Neither side declares one.
    NeitherExpects,
}

/// Spec-level image of `MediaTypeDiff`.
pub enum MediaDiffV {
    BothMatch { top: MediaPartV, sub: MediaPartV },
    RouteExpectsButRequestLacks(Seq<char>),
    RequestHasButRouteDoesNotExpect(Seq<char>),
    NeitherExpects,
}

impl View for MediaTypeDiff {
    type V = MediaDiffV;

    open spec fn view(&self) -> MediaDiffV {
        match self {
            MediaTypeDiff::BothMatch { top, sub } => MediaDiffV::BothMatch {
                top: top@,
                sub: sub@,
            },
            MediaTypeDiff::RouteExpectsButRequestLacks(t) => MediaDiffV::RouteExpectsButRequestLacks(
                t@,
            ),
            MediaTypeDiff::RequestHasButRouteDoesNotExpect(t) => MediaDiffV::RequestHasButRouteDoesNotExpect(
                t@,
            ),
            MediaTypeDiff::NeitherExpects => MediaDiffV::NeitherExpects,
        }
    }
}

/// How the two methods relate.
#[derive(Clone, Copy, PartialEq, Eq, Structural, Debug)]
pub enum MethodDiff {
    Same(Method),
    Changed(Method, Method),
}

/// The aggregate diff of one route against one request.
#[derive(Debug, PartialEq, Eq)]
pub struct DiffRecord {
    pub method: MethodDiff,
    pub path: Vec<SegmentDiff>,
    pub query: Vec<SegmentDiff>,
    pub media: MediaTypeDiff,
}

/// Spec-level image of `DiffRecord`.
pub struct RecordV {
    pub method: MethodDiff,
    pub path: Seq<SegDiffV>,
    pub query: Seq<SegDiffV>,
    pub media: MediaDiffV,
}

impl View for DiffRecord {
    type V = RecordV;

    open spec fn view(&self) -> RecordV {
        RecordV {
            method: self.method,
            path: sdiffs_view(self.path@),
            query: sdiffs_view(self.query@),
            media: self.media@,
        }
    }
}

} // verus!
