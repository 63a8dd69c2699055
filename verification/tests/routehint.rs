use routehint::EditOp;
use routehint::Highlight;
use routehint::MediaPartMatch;
use routehint::MediaType;
use routehint::MediaTypeDiff;
use routehint::Method;
use routehint::MethodDiff;
use routehint::QueryItem;
use routehint::RegistryBuilder;
use routehint::Request;
use routehint::Route;
use routehint::RouteSeg;
use routehint::SegmentDiff;
use routehint::Span;
use routehint::build;
use routehint::diff;
use routehint::edit_distance;
use routehint::media_type_diff;
use routehint::on_startup;
use routehint::on_unmatched_request;
use routehint::path_diff;
use routehint::query_diff;
use routehint::render;

fn s(t: &str) -> String {
    t.to_string()
}

fn item(key: &str, raw: &str) -> QueryItem {
    QueryItem { key: s(key), raw: s(raw) }
}

fn mt(top: &str, sub: &str) -> MediaType {
    MediaType { top: s(top), sub: s(sub) }
}

/// Concatenation of the `Same` and `Remove` texts of a script: the actual string.
fn kept(script: &[EditOp]) -> String {
    let mut out = String::new();
    for op in script {
        match op {
            EditOp::Same(t) => out.push_str(t),
            EditOp::Remove(t) => out.push_str(t),
            EditOp::Add(_) => {}
        }
    }
    out
}

/// Concatenation of the `Same` and `Add` texts of a script: the expected string.
fn made(script: &[EditOp]) -> String {
    let mut out = String::new();
    for op in script {
        match op {
            EditOp::Same(t) => out.push_str(t),
            EditOp::Add(t) => out.push_str(t),
            EditOp::Remove(_) => {}
        }
    }
    out
}

fn line_text(line: &[Span]) -> String {
    let mut out = String::new();
    for span in line {
        out.push_str(&span.text);
    }
    out
}

fn has_highlight(line: &[Span], h: Highlight) -> bool {
    line.iter().any(|span| span.highlight == h)
}

#[test]
fn diff_of_equal_strings_is_one_same_op() {
    let script = diff("abc", "abc");
    assert_eq!(script, vec![EditOp::Same(s("abc"))]);
}

#[test]
fn diff_of_empty_strings_is_empty() {
    let script = diff("", "");
    assert!(script.is_empty());
}

#[test]
fn diff_reconstructs_both_sides() {
    let cases = [
        ("kitten", "sitting"),
        ("hallo", "hello"),
        ("", "abc"),
        ("abc", ""),
        ("flag=23", "lalelu=1"),
        ("same", "same"),
    ];
    for (a, b) in cases {
        let script = diff(a, b);
        assert_eq!(kept(&script), a, "kept side for {a:?} vs {b:?}");
        assert_eq!(made(&script), b, "made side for {a:?} vs {b:?}");
    }
}

#[test]
fn diff_marks_additions_and_removals() {
    let script = diff("hallo", "hello");
    assert_eq!(
        script,
        vec![
            EditOp::Same(s("h")),
            EditOp::Remove(s("a")),
            EditOp::Add(s("e")),
            EditOp::Same(s("llo")),
        ]
    );
}

#[test]
fn edit_distance_counts_unshared_characters() {
    assert_eq!(edit_distance("abc", "abc"), 0);
    assert_eq!(edit_distance("", "abc"), 3);
    assert_eq!(edit_distance("abc", ""), 3);
    assert_eq!(edit_distance("kitten", "sitting"), 5);
    assert_eq!(edit_distance("hallo", "hello"), 2);
}

#[test]
fn path_with_two_captures_fully_matches() {
    let route = vec![
        RouteSeg::Static(s("hello")),
        RouteSeg::Single(s("name")),
        RouteSeg::Static(s("mood")),
        RouteSeg::Single(s("mood")),
    ];
    let req = vec![s("hello"), s("world"), s("mood"), s("happy")];
    let out = path_diff(&route, &req);
    assert_eq!(
        out,
        vec![
            SegmentDiff::StaticMatch(s("hello")),
            SegmentDiff::SingleMatch(s("name"), s("world")),
            SegmentDiff::StaticMatch(s("mood")),
            SegmentDiff::SingleMatch(s("mood"), s("happy")),
        ]
    );
}

#[test]
fn trailing_multi_absorbs_remaining_segments() {
    let route = vec![RouteSeg::Static(s("guide")), RouteSeg::Multi(s("_topic"))];
    let req = vec![s("guide"), s("a"), s("b"), s("c")];
    let out = path_diff(&route, &req);
    assert_eq!(
        out,
        vec![
            SegmentDiff::StaticMatch(s("guide")),
            SegmentDiff::MultiMatch(s("_topic"), vec![s("a"), s("b"), s("c")]),
        ]
    );
}

#[test]
fn extra_request_segments_are_unexpected() {
    let route = vec![RouteSeg::Static(s("a"))];
    let req = vec![s("a"), s("b"), s("c")];
    let out = path_diff(&route, &req);
    assert_eq!(
        out,
        vec![
            SegmentDiff::StaticMatch(s("a")),
            SegmentDiff::Unexpected(s("b")),
            SegmentDiff::Unexpected(s("c")),
        ]
    );
}

#[test]
fn missing_path_segments_are_reported() {
    let route = vec![RouteSeg::Static(s("a")), RouteSeg::Single(s("id"))];
    let req = vec![s("a")];
    let out = path_diff(&route, &req);
    assert_eq!(
        out,
        vec![SegmentDiff::StaticMatch(s("a")), SegmentDiff::Missing(s("id"))]
    );
}

#[test]
fn static_path_mismatch_yields_edit_script() {
    let route = vec![RouteSeg::Static(s("hello"))];
    let req = vec![s("hallo")];
    let out = path_diff(&route, &req);
    assert_eq!(out.len(), 1);
    match &out[0] {
        SegmentDiff::TextMismatch(script) => {
            assert_eq!(kept(script), "hallo");
            assert_eq!(made(script), "hello");
        }
        other => panic!("expected a text mismatch, got {other:?}"),
    }
}

#[test]
fn query_static_present_matches_and_absent_falls_back_to_closest() {
    let route = Some(vec![
        RouteSeg::Static(s("flag=23")),
        RouteSeg::Static(s("lalelu=1")),
    ]);
    let req = Some(vec![item("flag", "flag=23")]);
    let out = query_diff(&route, &req);
    assert_eq!(out.len(), 2);
    assert_eq!(out[0], SegmentDiff::StaticMatch(s("flag=23")));
    match &out[1] {
        SegmentDiff::TextMismatch(script) => {
            assert_eq!(kept(script), "flag=23");
            assert_eq!(made(script), "lalelu=1");
        }
        other => panic!("expected a text mismatch against the closest item, got {other:?}"),
    }
}

#[test]
fn query_static_fallback_picks_closest_item_by_distance() {
    let route = Some(vec![RouteSeg::Static(s("flag=23"))]);
    let req = Some(vec![item("other", "other=1"), item("flag", "flag=24")]);
    let out = query_diff(&route, &req);
    assert_eq!(out.len(), 1);
    match &out[0] {
        SegmentDiff::TextMismatch(script) => {
            // the closest item is `flag=24`, one character away
            assert_eq!(kept(script), "flag=24");
            assert_eq!(made(script), "flag=23");
        }
        other => panic!("expected a text mismatch, got {other:?}"),
    }
}

#[test]
fn query_single_matches_by_key_or_is_a_missing_hint() {
    let route = Some(vec![RouteSeg::Single(s("user")), RouteSeg::Single(s("page"))]);
    let req = Some(vec![item("user", "user=jo")]);
    let out = query_diff(&route, &req);
    assert_eq!(
        out,
        vec![
            SegmentDiff::SingleMatch(s("user"), s("user=jo")),
            SegmentDiff::Missing(s("page")),
        ]
    );
}

#[test]
fn query_multi_collects_unconsumed_items() {
    let route = Some(vec![RouteSeg::Static(s("flag=23")), RouteSeg::Multi(s("rest"))]);
    let req = Some(vec![item("flag", "flag=23"), item("x", "x=1"), item("y", "y=2")]);
    let out = query_diff(&route, &req);
    assert_eq!(
        out,
        vec![
            SegmentDiff::StaticMatch(s("flag=23")),
            SegmentDiff::MultiMatch(s("rest"), vec![s("x=1"), s("y=2")]),
        ]
    );
}

#[test]
fn query_items_without_declared_query_are_unexpected() {
    let out = query_diff(&None, &Some(vec![item("a", "a=1"), item("b", "b=2")]));
    assert_eq!(
        out,
        vec![SegmentDiff::Unexpected(s("a=1")), SegmentDiff::Unexpected(s("b=2"))]
    );
}

#[test]
fn declared_query_without_items_is_all_missing() {
    let route = Some(vec![RouteSeg::Static(s("flag=23")), RouteSeg::Single(s("user"))]);
    let out = query_diff(&route, &None);
    assert_eq!(
        out,
        vec![SegmentDiff::Missing(s("flag=23")), SegmentDiff::Missing(s("user"))]
    );
}

#[test]
fn media_declared_only_by_route_is_lacking_on_request() {
    let out = media_type_diff(&Some(mt("text", "plain")), &None);
    assert_eq!(out, MediaTypeDiff::RouteExpectsButRequestLacks(s("text/plain")));
}

#[test]
fn media_declared_only_by_request_is_unexpected() {
    let out = media_type_diff(&None, &Some(mt("application", "json")));
    assert_eq!(
        out,
        MediaTypeDiff::RequestHasButRouteDoesNotExpect(s("application/json"))
    );
}

#[test]
fn media_absent_on_both_sides_is_neither() {
    assert_eq!(media_type_diff(&None, &None), MediaTypeDiff::NeitherExpects);
}

#[test]
fn media_parts_compare_case_insensitively() {
    let out = media_type_diff(&Some(mt("TEXT", "Plain")), &Some(mt("text", "plain")));
    assert_eq!(
        out,
        MediaTypeDiff::BothMatch {
            top: MediaPartMatch::TrueStatic(s("TEXT")),
            sub: MediaPartMatch::TrueStatic(s("Plain")),
        }
    );
}

#[test]
fn media_wildcard_is_a_dynamic_match() {
    let out = media_type_diff(&Some(mt("*", "*")), &Some(mt("text", "html")));
    assert_eq!(
        out,
        MediaTypeDiff::BothMatch {
            top: MediaPartMatch::TrueDynamic(s("*"), s("text")),
            sub: MediaPartMatch::TrueDynamic(s("*"), s("html")),
        }
    );
}

#[test]
fn media_subtype_mismatch_yields_edit_script() {
    let out = media_type_diff(&Some(mt("text", "plain")), &Some(mt("text", "html")));
    match out {
        MediaTypeDiff::BothMatch { top, sub } => {
            assert_eq!(top, MediaPartMatch::TrueStatic(s("text")));
            match sub {
                MediaPartMatch::TextMismatch(script) => {
                    assert_eq!(kept(&script), "html");
                    assert_eq!(made(&script), "plain");
                }
                other => panic!("expected a text mismatch, got {other:?}"),
            }
        }
        other => panic!("expected a part comparison, got {other:?}"),
    }
}

fn hello_route() -> Route {
    Route {
        method: Method::Get,
        path: vec![RouteSeg::Static(s("hello")), RouteSeg::Single(s("name"))],
        query: None,
        media: None,
    }
}

fn hello_request() -> Request {
    Request {
        method: Method::Get,
        path: vec![s("hello"), s("world")],
        query: None,
        media: None,
    }
}

#[test]
fn build_is_deterministic_on_identical_inputs() {
    let route = hello_route();
    let request = hello_request();
    let first = build(&route, &request);
    let second = build(&route, &request);
    assert_eq!(first, second);
}

#[test]
fn build_compares_methods_directly() {
    let mut route = hello_route();
    route.method = Method::Post;
    let request = hello_request();
    let rec = build(&route, &request);
    assert_eq!(rec.method, MethodDiff::Changed(Method::Post, Method::Get));
    let same = build(&hello_route(), &request);
    assert_eq!(same.method, MethodDiff::Same(Method::Get));
}

#[test]
fn fully_matching_pair_renders_without_highlights() {
    let route = hello_route();
    let request = hello_request();
    let rec = build(&route, &request);
    let rendered = render(&rec);
    assert!(!has_highlight(&rendered.route_line, Highlight::Addition));
    assert!(!has_highlight(&rendered.route_line, Highlight::Removal));
    assert!(!has_highlight(&rendered.request_line, Highlight::Addition));
    assert!(!has_highlight(&rendered.request_line, Highlight::Removal));
    assert_eq!(line_text(&rendered.route_line), "GET: /hello/name   ");
    assert_eq!(line_text(&rendered.request_line), "GET: /hello/world");
}

#[test]
fn mismatching_pair_renders_highlighted_spans() {
    let route = Route {
        method: Method::Get,
        path: vec![RouteSeg::Static(s("hello"))],
        query: None,
        media: None,
    };
    let request = Request {
        method: Method::Get,
        path: vec![s("hallo")],
        query: None,
        media: None,
    };
    let rendered = render(&build(&route, &request));
    assert_eq!(line_text(&rendered.route_line), "GET: /hello   ");
    assert_eq!(line_text(&rendered.request_line), "GET: /hallo");
    assert!(has_highlight(&rendered.route_line, Highlight::Addition));
    assert!(has_highlight(&rendered.request_line, Highlight::Removal));
    let added: Vec<&Span> = rendered
        .route_line
        .iter()
        .filter(|span| span.highlight == Highlight::Addition)
        .collect();
    assert_eq!(added.len(), 1);
    assert_eq!(added[0].text, "e");
}

#[test]
fn empty_path_renders_as_slash() {
    let route = Route { method: Method::Get, path: vec![], query: None, media: None };
    let request = Request { method: Method::Get, path: vec![], query: None, media: None };
    let rendered = render(&build(&route, &request));
    assert_eq!(line_text(&rendered.route_line), "GET: /   ");
    assert_eq!(line_text(&rendered.request_line), "GET: /");
}

#[test]
fn query_renders_with_question_mark() {
    let route = Route {
        method: Method::Get,
        path: vec![RouteSeg::Static(s("p"))],
        query: Some(vec![RouteSeg::Static(s("flag=23"))]),
        media: None,
    };
    let request = Request {
        method: Method::Get,
        path: vec![s("p")],
        query: Some(vec![item("flag", "flag=23")]),
        media: None,
    };
    let rendered = render(&build(&route, &request));
    assert_eq!(line_text(&rendered.route_line), "GET: /p?flag=23   ");
    assert_eq!(line_text(&rendered.request_line), "GET: /p?flag=23");
}

#[test]
fn registry_snapshot_reports_each_route() {
    let mut builder = RegistryBuilder::new();
    builder.push(hello_route());
    builder.push(Route {
        method: Method::Post,
        path: vec![RouteSeg::Static(s("submit"))],
        query: None,
        media: None,
    });
    let snap = builder.snapshot();
    assert_eq!(snap.len(), 2);
    let out = on_unmatched_request(&snap, &hello_request());
    assert_eq!(out.len(), 2);
    assert_eq!(line_text(&out[0].route_line), "GET: /hello/name   ");
    assert_eq!(line_text(&out[1].route_line), "POST: /submit   ");
    assert_eq!(line_text(&out[1].request_line), "GET: /hello/world");
}

#[test]
fn on_startup_freezes_the_given_routes() {
    let snap = on_startup(vec![hello_route()]);
    assert_eq!(snap.len(), 1);
    let out = on_unmatched_request(&snap, &hello_request());
    assert_eq!(out.len(), 1);
}

#[test]
fn query_static_fallback_breaks_ties_by_first_occurrence() {
    // both items are two edits away from the expected literal
    let route = Some(vec![RouteSeg::Static(s("ab"))]);
    let req = Some(vec![item("k1", "aX"), item("k2", "Xb")]);
    let out = query_diff(&route, &req);
    assert_eq!(out.len(), 1);
    match &out[0] {
        SegmentDiff::TextMismatch(script) => {
            assert_eq!(kept(script), "aX");
            assert_eq!(made(script), "ab");
        }
        other => panic!("expected a text mismatch, got {other:?}"),
    }
}

#[test]
fn diff_is_deterministic_for_identical_inputs() {
    let first = diff("kitten", "sitting");
    let second = diff("kitten", "sitting");
    assert_eq!(first, second);
}

#[test]
fn changed_method_renders_on_both_lines() {
    let route = Route {
        method: Method::Put,
        path: vec![RouteSeg::Static(s("x"))],
        query: None,
        media: None,
    };
    let request = Request {
        method: Method::Delete,
        path: vec![s("x")],
        query: None,
        media: None,
    };
    let rendered = render(&build(&route, &request));
    assert_eq!(line_text(&rendered.route_line), "PUT: /x   ");
    assert_eq!(line_text(&rendered.request_line), "DELETE: /x");
    assert_eq!(rendered.route_line[0].highlight, Highlight::Addition);
    assert_eq!(rendered.request_line[0].highlight, Highlight::Removal);
}

#[test]
fn declared_media_type_renders_its_top_part() {
    let route = Route {
        method: Method::Get,
        path: vec![RouteSeg::Static(s("x"))],
        query: None,
        media: Some(mt("text", "plain")),
    };
    let request = Request {
        method: Method::Get,
        path: vec![s("x")],
        query: None,
        media: Some(mt("text", "plain")),
    };
    let rendered = render(&build(&route, &request));
    assert_eq!(line_text(&rendered.route_line), "GET: /x   text");
    assert_eq!(line_text(&rendered.request_line), "GET: /x");
}
