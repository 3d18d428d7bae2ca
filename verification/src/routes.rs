//! Routes of the service layer: a path pattern with `{name}` parameters and
//! the regular expression it compiles to.
//!
//! Each parameter contributes the literal text from where the scan stood to
//! the end of the pattern, then the parameter. Text after the last parameter
//! is matched to the end of the path; a trailing `*` matches any rest.
use crate::pattern::{
    lemma_first_parameter, lemma_no_parameters, lemma_piece_regex_starts, piece_prefix,
    escaped, has_tail, pairs_view, pattern_pieces, pattern_well_formed, piece_pairs, piece_regex,
    push_escaped, regex_capture, regex_compiles, regex_is_match, regex_start,
    assemble_pieces, scan_pattern, CompiledPattern,
};
use crate::router::routes::SegmentView;
use crate::text::{chars_of, ends_with_char, push_char, string_of_range};
use vstd::prelude::*;

verus! {

/// A parameter of a route, by name.
pub struct PathVariable {
    pub name: String,
}

/// A named value taken from a request path.
pub struct PathData {
    pub name: String,
}

/// A piece of a route: literal text or a parameter.
pub enum PathSegment {
    Static(String),
    Variable(PathVariable),
}

impl PathSegment {
    pub open spec fn view(&self) -> SegmentView {
        match self {
            PathSegment::Static(s) => SegmentView::Static(s@),
            PathSegment::Variable(v) => SegmentView::Variable(v.name@),
        }
    }
}

pub open spec fn segments_view(segments: Seq<PathSegment>) -> Seq<SegmentView> {
    segments.map_values(|s: PathSegment| s.view())
}

/// Each literal text and name, as a literal segment followed by a parameter.
pub open spec fn pair_segments(pairs: Seq<(Seq<char>, Seq<char>)>) -> Seq<SegmentView>
    decreases pairs.len(),
{
    if pairs.len() == 0 {
        Seq::empty()
    } else {
        pair_segments(pairs.drop_last()) + seq![
            SegmentView::Static(pairs.last().0),
            SegmentView::Variable(pairs.last().1),
        ]
    }
}

/// The text after the last parameter.
pub open spec fn rest_of(s: Seq<char>) -> Seq<char> {
    s.subrange((pattern_pieces(s)->0).1, s.len() as int)
}

/// The segments of a well-formed pattern.
pub open spec fn route_segments(s: Seq<char>) -> Seq<SegmentView> {
    let ps = (pattern_pieces(s)->0).0;
    let rest = rest_of(s);
    pair_segments(piece_pairs(s, ps, true)) + if !ends_with_char(rest, '*') && !has_tail(ps)
        && rest.len() > 0 {
        seq![SegmentView::Static(rest)]
    } else {
        Seq::empty()
    }
}

/// The regular expression of a well-formed pattern.
pub open spec fn route_regex_source(s: Seq<char>) -> Seq<char> {
    let ps = (pattern_pieces(s)->0).0;
    let rest = rest_of(s);
    regex_start() + piece_regex(s, ps) + if ends_with_char(rest, '*') {
        escaped(rest.drop_last()) + seq!['.', '*']
    } else if !has_tail(ps) && rest.len() > 0 {
        escaped(rest) + seq!['$']
    } else {
        Seq::empty()
    }
}

/// A route: the whole pattern where it has no segments, else its segments.
pub enum RouteView {
    Static(Seq<char>),
    Segmented(Seq<SegmentView>),
}

/// The route that a well-formed pattern gives.
pub open spec fn route_view_of(s: Seq<char>) -> RouteView {
    if route_segments(s).len() == 0 {
        RouteView::Static(s)
    } else {
        RouteView::Segmented(route_segments(s))
    }
}

/// A route: plain text, or pieces with parameters; with the expression
/// that matches request paths.
pub enum Route {
    Static(String, CompiledPattern),
    Segmented(Vec<PathSegment>, CompiledPattern),
}

/// Turns literal texts and names into segments.
pub fn segments_of_pairs(pairs: Vec<(String, String)>) -> (segments: Vec<PathSegment>)
    ensures
        segments_view(segments@) == pair_segments(pairs_view(pairs@)),
{
    let ghost all = pairs_view(pairs@);
    let mut segments: Vec<PathSegment> = Vec::new();
    let mut i: usize = 0;
    while i < pairs.len()
        invariant
            all == pairs_view(pairs@),
            i <= pairs@.len(),
            segments_view(segments@) == pair_segments(all.take(i as int)),
        decreases pairs.len() - i,
    {
        let ghost before = segments@;
        let literal = pairs[i].0.clone();
        let name = pairs[i].1.clone();
        assert((literal@, name@) == all[i as int]);
        segments.push(PathSegment::Static(literal));
        segments.push(PathSegment::Variable(PathVariable { name }));
        proof {
            assert(all.take(i + 1).drop_last() =~= all.take(i as int));
            assert(segments_view(segments@) =~= segments_view(before) + seq![
                SegmentView::Static(all[i as int].0),
                SegmentView::Variable(all[i as int].1),
            ]);
        }
        i = i + 1;
    }
    assert(all.take(all.len() as int) =~= all);
    segments
}

impl Route {
    pub open spec fn view(&self) -> RouteView {
        match self {
            Route::Static(s, _) => RouteView::Static(s@),
            Route::Segmented(segs, _) => RouteView::Segmented(segments_view(segs@)),
        }
    }

    /// The regular expression that the route matches paths with.
    pub open spec fn regex_source(&self) -> Seq<char> {
        match self {
            Route::Static(_, p) => p.source_view(),
            Route::Segmented(_, p) => p.source_view(),
        }
    }

    /// Builds the route of `input`. The pattern must be well formed and its
    /// expression must compile; `try_new` checks both.
    pub fn new(input: String) -> (route: Route)
        requires
            pattern_well_formed(input@),
            regex_compiles(route_regex_source(input@)),
        ensures
            route.view() == route_view_of(input@),
            route.regex_source() == route_regex_source(input@),
    {
        match Self::try_new(input) {
            Some(route) => route,
            None => {
                unreached()
            },
        }
    }

    /// Builds the route of `input`; `None` where a `{` has no `}` after it or
    /// where the expression does not compile.
    pub fn try_new(input: String) -> (route: Option<Route>)
        ensures
            route is Some == (pattern_well_formed(input@) && regex_compiles(route_regex_source(input@))),
            route matches Some(r) ==> r.view() == route_view_of(input@) && r.regex_source()
                == route_regex_source(input@),
    {
        let chars = chars_of(input.as_str());
        let (pieces, end) = match scan_pattern(&chars) {
            Some(found) => found,
            None => {
                return None;
            },
        };
        let ghost s = input@;
        proof {
            crate::pattern::lemma_pieces_shape(s, 0);
        }
        let (pairs, mut re, tail_seen) = assemble_pieces(&chars, &pieces, end, true);
        let mut segments = segments_of_pairs(pairs);
        let rest = string_of_range(&chars, end, chars.len());
        let rest_chars = chars_of(rest.as_str());
        let n = rest_chars.len();
        if n > 0 && rest_chars[n - 1] == '*' {
            let head = string_of_range(&rest_chars, 0, n - 1);
            assert(rest_chars@.subrange(0, n - 1) =~= rest@.drop_last());
            push_escaped(&mut re, head.as_str());
            push_char(&mut re, '.');
            push_char(&mut re, '*');
        } else if !tail_seen && n > 0 {
            push_escaped(&mut re, rest.as_str());
            push_char(&mut re, '$');
            segments.push(PathSegment::Static(rest));
        }
        assert(re@ =~= route_regex_source(s));
        assert(segments_view(segments@) =~= route_segments(s));
        let compiled = match CompiledPattern::compile(re) {
            Some(c) => c,
            None => {
                return None;
            },
        };
        if segments.len() == 0 {
            Some(Route::Static(input, compiled))
        } else {
            Some(Route::Segmented(segments, compiled))
        }
    }

    /// Whether the route's expression matches `path`.
    pub fn matches(&self, path: &str) -> (found: bool)
        ensures
            found == regex_is_match(self.regex_source(), path@),
    {
        match self {
            Route::Static(_, r) => r.is_match(path),
            Route::Segmented(_, r) => r.is_match(path),
        }
    }

    /// The value of the parameter `name` in `path`; `None` for a route
    /// without parameters or where the path does not give it a value.
    pub fn extract(&self, path: &str, name: &str) -> (value: Option<String>)
        ensures
            match self.view() {
                RouteView::Static(_) => value is None,
                RouteView::Segmented(_) => match regex_capture(self.regex_source(), path@, name@) {
                    Some(raw) => value matches Some(v) && v@ == raw,
                    None => value is None,
                },
            },
    {
        match self {
            Route::Static(_, _) => None,
            Route::Segmented(_, r) => r.capture(path, name),
        }
    }
}

/// A route whose pattern has no parameter is matched by an expression made
/// of its whole text, anchored at both ends: it matches exactly the path
/// that equals its text; with a trailing `*`, any path that starts with the
/// text before the `*`; the empty pattern matches every path.
pub proof fn law_plain_route_regex(s: Seq<char>)
    requires
        forall|j: int| 0 <= j < s.len() ==> s[j] != '{',
    ensures
        route_regex_source(s) == seq!['(', '?', 's', '-', 'm', ')', '^'] + if s.len() > 0 && s.last() == '*' {
            escaped(s.drop_last()) + seq!['.', '*']
        } else if s.len() > 0 {
            escaped(s) + seq!['$']
        } else {
            Seq::empty()
        },
{
    lemma_no_parameters(s);
    let ps = (pattern_pieces(s)->0).0;
    assert(ps.len() == 0);
    assert(piece_regex(s, ps) == Seq::<char>::empty());
    assert(!has_tail(ps));
    assert(rest_of(s) =~= s);
    assert(route_regex_source(s) =~= seq!['(', '?', 's', '-', 'm', ')', '^'] + if s.len() > 0 && s.last() == '*' {
            escaped(s.drop_last()) + seq!['.', '*']
        } else if s.len() > 0 {
            escaped(s) + seq!['$']
        } else {
            Seq::empty()
        });
}

/// The expression of every route is anchored at the start of the path: it
/// begins with the flags `(?s-m)` and `^`, then the text before the first
/// parameter, escaped; so a route only matches paths that start with that
/// text.
pub proof fn law_route_regex_anchored(s: Seq<char>, k: int)
    requires
        pattern_well_formed(s),
        0 <= k < s.len(),
        s[k] == '{',
        forall|j: int| 0 <= j < k ==> s[j] != '{',
    ensures
        ({
            let front = seq!['(', '?', 's', '-', 'm', ')', '^'] + escaped(s.take(k));
            &&& route_regex_source(s).len() >= front.len()
            &&& route_regex_source(s).take(front.len() as int) == front
        }),
{
    lemma_first_parameter(s, k);
    let ps = (pattern_pieces(s)->0).0;
    lemma_piece_regex_starts(s, ps);
    assert(piece_prefix(s, ps[0]) =~= s.take(k));
    let e = escaped(s.take(k));
    let front = seq!['(', '?', 's', '-', 'm', ')', '^'] + e;
    let whole = route_regex_source(s);
    let pr = piece_regex(s, ps);
    assert(whole.take(front.len() as int) =~= regex_start() + pr.take(e.len() as int));
}

} // verus!
