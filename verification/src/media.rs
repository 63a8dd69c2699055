//! Media type comparator: compares a route's declared (top, sub) pair
//! against the request's negotiated media type. Parts compare equal
//! ignoring ASCII case; a `*` on either side is a loose (dynamic) match;
//! anything else yields an edit script.

use vstd::prelude::*;
use vstd::string::*;
use crate::model::MediaType;
use crate::model::MediaTypeV;
use crate::model::opt_mt_view;
use crate::model::small;
use crate::diff_record::MediaPartMatch;
use crate::diff_record::MediaPartV;
use crate::diff_record::MediaTypeDiff;
use crate::diff_record::MediaDiffV;
use crate::text_diff::diff;
use crate::text_diff::spec_diff;

verus! {

/// A character's code point, with ASCII upper-case letters folded to
/// lower case.
pub open spec fn fold_char(c: char) -> int {
    if 65 <= c as u32 && c as u32 <= 90 {
        c as u32 + 32
    } else {
        c as u32 as int
    }
}

/// Equality of two texts ignoring ASCII case.
pub open spec fn uncased_eq(a: Seq<char>, b: Seq<char>) -> bool {
    a.len() == b.len() && forall|i: int| 0 <= i < a.len() ==> fold_char(a[i]) == fold_char(b[i])
}

fn fold_char_exec(c: char) -> (r: u32)
    ensures
        r == fold_char(c),
{
    let u = c as u32;
    if 65 <= u && u <= 90 {
        u + 32
    } else {
        u
    }
}

fn uncased_eq_exec(a: &str, b: &str) -> (r: bool)
    ensures
        r == uncased_eq(a@, b@),
{
    let la = a.unicode_len();
    let lb = b.unicode_len();
    if la != lb {
        return false;
    }
    let mut i: usize = 0;
    while i < la
        invariant
            0 <= i <= la,
            la == a@.len(),
            la == b@.len(),
            forall|j: int| 0 <= j < i ==> fold_char(a@[j]) == fold_char(b@[j]),
        decreases la - i,
    {
        let ca = a.get_char(i);
        let cb = b.get_char(i);
        if fold_char_exec(ca) != fold_char_exec(cb) {
            return false;
        }
        i = i + 1;
    }
    true
}

/// Whether a media type part is the wildcard token.
fn is_wildcard(s: &str) -> (r: bool)
    ensures
        r == (s@ == "*"@),
{
    proof {
        reveal_strlit("*");
    }
    if s.unicode_len() == 1 {
        let c = s.get_char(0);
        let r = c == '*';
        proof {
            if r {
                assert(s@ =~= "*"@);
            }
        }
        r
    } else {
        false
    }
}

/// How one part of the route's media type relates to the request's: equal
/// ignoring case, matched through a wildcard, or different.
pub open spec fn spec_part_match(route_part: Seq<char>, req_part: Seq<char>) -> MediaPartV {
    if uncased_eq(route_part, req_part) {
        MediaPartV::TrueStatic(route_part)
    } else if route_part == "*"@ || req_part == "*"@ {
        MediaPartV::TrueDynamic(route_part, req_part)
    } else {
        MediaPartV::TextMismatch(spec_diff(req_part, route_part))
    }
}

/// The `top/sub` display text of a media type.
pub open spec fn mt_text(m: MediaTypeV) -> Seq<char> {
    m.top + "/"@ + m.sub
}

/// The media diff of a route against a request: present on both sides the
/// parts are compared; otherwise the diff records which side declared one.
pub open spec fn spec_media_diff(route: Option<MediaTypeV>, req: Option<MediaTypeV>) -> MediaDiffV {
    match (route, req) {
        (Option::Some(rm), Option::Some(qm)) => MediaDiffV::BothMatch {
            top: spec_part_match(rm.top, qm.top),
            sub: spec_part_match(rm.sub, qm.sub),
        },
        (Option::Some(rm), Option::None) => MediaDiffV::RouteExpectsButRequestLacks(mt_text(rm)),
        (Option::None, Option::Some(qm)) => MediaDiffV::RequestHasButRouteDoesNotExpect(
            mt_text(qm),
        ),
        (Option::None, Option::None) => MediaDiffV::NeitherExpects,
    }
}

fn part_match(route_part: &String, req_part: &String) -> (r: MediaPartMatch)
    requires
        small(route_part@),
        small(req_part@),
    ensures
        r@ == spec_part_match(route_part@, req_part@),
{
    if uncased_eq_exec(route_part.as_str(), req_part.as_str()) {
        MediaPartMatch::TrueStatic(route_part.clone())
    } else if is_wildcard(route_part.as_str()) || is_wildcard(req_part.as_str()) {
        MediaPartMatch::TrueDynamic(route_part.clone(), req_part.clone())
    } else {
        MediaPartMatch::TextMismatch(diff(req_part.as_str(), route_part.as_str()))
    }
}

fn mt_text_exec(m: &MediaType) -> (r: String)
    ensures
        r@ == mt_text(m@),
{
    let s = m.top.clone().concat("/").concat(m.sub.as_str());
    proof {
        assert(s@ =~= mt_text(m@));
    }
    s
}

/// Compares the route's declared media type against the request's.
pub fn media_type_diff(route: &Option<MediaType>, req: &Option<MediaType>) -> (r: MediaTypeDiff)
    requires
        match *route {
            Option::Some(m) => small(m.top@) && small(m.sub@),
            Option::None => true,
        },
        match *req {
            Option::Some(m) => small(m.top@) && small(m.sub@),
            Option::None => true,
        },
    ensures
        r@ == spec_media_diff(opt_mt_view(*route), opt_mt_view(*req)),
{
    match (route, req) {
        (Option::Some(rm), Option::Some(qm)) => MediaTypeDiff::BothMatch {
            top: part_match(&rm.top, &qm.top),
            sub: part_match(&rm.sub, &qm.sub),
        },
        (Option::Some(rm), Option::None) => MediaTypeDiff::RouteExpectsButRequestLacks(
            mt_text_exec(rm),
        ),
        (Option::None, Option::Some(qm)) => MediaTypeDiff::RequestHasButRouteDoesNotExpect(
            mt_text_exec(qm),
        ),
        (Option::None, Option::None) => MediaTypeDiff::NeitherExpects,
    }
}

} // verus!
