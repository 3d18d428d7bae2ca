//! Routes: a path pattern with `{name}` parameters, compiled to a regular
//! expression that paths are matched against.
//!
//! A pattern such as `/users/{id}/role` becomes the segments `/users/`,
//! `{id}`, `/role` and the expression `(?s-m)^/users/(?P<id>[^/]+)/role$`.
//! A parameter followed by `*` at the very end (`/files/{path}*`) takes the
//! rest of the path; a pattern ending in `*` otherwise matches any path that
//! starts with the text before the `*`.
use crate::pattern::{
    lemma_first_parameter, lemma_no_parameters, lemma_piece_regex_starts,
    escaped, has_tail, lemma_pieces_shape, pattern_pieces, pattern_well_formed,
    piece_name, piece_prefix, piece_regex, pieces_from, pieces_view, percent_decoded, push_escaped, push_group,
    push_regex_start, regex_capture, regex_compiles, regex_is_match, regex_start, scan_pattern,
    url_decode, CompiledPattern, PieceView,
};
use crate::text::{chars_of, ends_with_char, lemma_find_from, find_from, push_char, push_str, string_of_range};
use vstd::prelude::*;

verus! {

/// A parameter of a route, by name.
pub struct PathVariable {
    pub name: String,
}

/// A named value taken from a request path.
pub struct PathData {
    pub name: String,
}

/// A piece of a route: literal text or a parameter.
pub enum PathSegment {
    Static(String),
    Variable(PathVariable),
}

/// A segment as text: literal text, or the name of a parameter.
pub enum SegmentView {
    Static(Seq<char>),
    Variable(Seq<char>),
}

impl PathSegment {
    pub open spec fn view(&self) -> SegmentView {
        match self {
            PathSegment::Static(s) => SegmentView::Static(s@),
            PathSegment::Variable(v) => SegmentView::Variable(v.name@),
        }
    }
}

pub open spec fn segments_view(segments: Seq<PathSegment>) -> Seq<SegmentView> {
    segments.map_values(|s: PathSegment| s.view())
}

/// A route as text: the whole pattern where it has no segments, else its segments.
pub enum RouteView {
    Static(Seq<char>),
    Segmented(Seq<SegmentView>),
}

/// A route: plain text, or pieces with parameters; with the expression
/// that matches request paths.
pub enum Route {
    Static(String, CompiledPattern),
    Segmented(Vec<PathSegment>, CompiledPattern),
}

/// The segments of the parameters: the text before each, then the parameter.
pub open spec fn piece_segments(s: Seq<char>, ps: Seq<PieceView>) -> Seq<SegmentView>
    decreases ps.len(),
{
    if ps.len() == 0 {
        Seq::empty()
    } else {
        piece_segments(s, ps.drop_last()) + seq![
            SegmentView::Static(piece_prefix(s, ps.last())),
            SegmentView::Variable(piece_name(s, ps.last())),
        ]
    }
}

/// The text after the last parameter.
pub open spec fn rest_of(s: Seq<char>) -> Seq<char> {
    s.subrange((pattern_pieces(s)->0).1, s.len() as int)
}

/// The segments of a well-formed pattern.
pub open spec fn route_segments(s: Seq<char>) -> Seq<SegmentView> {
    let ps = (pattern_pieces(s)->0).0;
    let rest = rest_of(s);
    piece_segments(s, ps) + if !ends_with_char(rest, '*') && !has_tail(ps) && rest.len() > 0 {
        seq![SegmentView::Static(rest)]
    } else {
        Seq::empty()
    }
}

/// The regular expression of a well-formed pattern.
pub open spec fn route_regex_source(s: Seq<char>) -> Seq<char> {
    let ps = (pattern_pieces(s)->0).0;
    let rest = rest_of(s);
    regex_start() + piece_regex(s, ps) + if ends_with_char(rest, '*') {
        escaped(rest.drop_last()) + seq!['.', '*']
    } else if !has_tail(ps) && rest.len() > 0 {
        escaped(rest) + seq!['$']
    } else {
        seq!['$']
    }
}

/// The route that a well-formed pattern gives.
pub open spec fn route_view_of(s: Seq<char>) -> RouteView {
    if route_segments(s).len() == 0 {
        RouteView::Static(s)
    } else {
        RouteView::Segmented(route_segments(s))
    }
}

/// The text of one segment: literal text as it is, a parameter in braces.
pub open spec fn segment_text(seg: SegmentView) -> Seq<char> {
    match seg {
        SegmentView::Static(t) => t,
        SegmentView::Variable(n) => seq!['{'] + n + seq!['}'],
    }
}

/// The text of segments, one after another.
pub open spec fn segments_text(segs: Seq<SegmentView>) -> Seq<char>
    decreases segs.len(),
{
    if segs.len() == 0 {
        Seq::empty()
    } else {
        segments_text(segs.drop_last()) + segment_text(segs.last())
    }
}

/// The text of a route.
pub open spec fn route_text(r: RouteView) -> Seq<char> {
    match r {
        RouteView::Static(s) => s,
        RouteView::Segmented(segs) => segments_text(segs),
    }
}

/// What `extract` gives for a captured value: its percent-decoding, or the
/// value itself where that is not UTF-8.
pub open spec fn decoded_or_raw(raw: Seq<char>) -> Seq<char> {
    match percent_decoded(raw) {
        Some(d) => d,
        None => raw,
    }
}

impl Route {
    pub open spec fn view(&self) -> RouteView {
        match self {
            Route::Static(s, _) => RouteView::Static(s@),
            Route::Segmented(segs, _) => RouteView::Segmented(segments_view(segs@)),
        }
    }

    /// The regular expression that the route matches paths with.
    pub open spec fn regex_source(&self) -> Seq<char> {
        match self {
            Route::Static(_, p) => p.source_view(),
            Route::Segmented(_, p) => p.source_view(),
        }
    }

    /// Builds the route of `input`. The pattern must be well formed and its
    /// expression must compile; `try_new` checks both.
    pub fn new(input: String) -> (route: Route)
        requires
            pattern_well_formed(input@),
            regex_compiles(route_regex_source(input@)),
        ensures
            route.view() == route_view_of(input@),
            route.regex_source() == route_regex_source(input@),
    {
        match Self::try_new(input) {
            Some(route) => route,
            None => {
                unreached()
            },
        }
    }

    /// Builds the route of `input`; `None` where a `{` has no `}` after it or
    /// where the expression does not compile.
    pub fn try_new(input: String) -> (route: Option<Route>)
        ensures
            route is Some == (pattern_well_formed(input@) && regex_compiles(route_regex_source(input@))),
            route matches Some(r) ==> r.view() == route_view_of(input@) && r.regex_source()
                == route_regex_source(input@),
    {
        let chars = chars_of(input.as_str());
        let scanned = scan_pattern(&chars);
        let (pieces, end) = match scanned {
            Some(found) => found,
            None => {
                return None;
            },
        };
        let ghost s = input@;
        let ghost ps = pieces_view(pieces@);
        proof {
            lemma_pieces_shape(s, 0);
        }
        let mut re = String::new();
        push_regex_start(&mut re);
        let mut segments: Vec<PathSegment> = Vec::new();
        let mut tail_seen = false;
        let mut i: usize = 0;
        while i < pieces.len()
            invariant
                chars@ == s,
                ps == pieces_view(pieces@),
                pattern_pieces(s) == Some((ps, end as int)),
                forall|k: int|
                    0 <= k < ps.len() ==> {
                        let p = #[trigger] ps[k];
                        &&& 0 <= p.0 <= p.1 < p.2 < s.len()
                    },
                i <= pieces@.len(),
                segments_view(segments@) == piece_segments(s, ps.take(i as int)),
                re@ == regex_start() + piece_regex(s, ps.take(i as int)),
                tail_seen == has_tail(ps.take(i as int)),
            decreases pieces.len() - i,
        {
            let piece = &pieces[i];
            let ghost pv = ps[i as int];
            assert(piece.view() == pv);
            assert(ps.take(i + 1).drop_last() =~= ps.take(i as int));
            assert(ps.take(i + 1).last() == pv);
            let prefix = string_of_range(&chars, piece.start, piece.open);
            push_escaped(&mut re, prefix.as_str());
            let name = string_of_range(&chars, piece.open + 1, piece.close);
            push_group(&mut re, name.as_str(), piece.tail);
            let ghost seg_before = segments@;
            segments.push(PathSegment::Static(prefix));
            segments.push(PathSegment::Variable(PathVariable { name }));
            proof {
                assert(segments_view(segments@) =~= segments_view(seg_before) + seq![
                    SegmentView::Static(piece_prefix(s, pv)),
                    SegmentView::Variable(piece_name(s, pv)),
                ]);
            }
            if piece.tail {
                tail_seen = true;
            }
            proof {
                if tail_seen {
                    if !pv.3 {
                        let k = choose|k: int| 0 <= k < i && #[trigger] ps.take(i as int)[k].3;
                        assert(ps.take(i + 1)[k].3);
                    } else {
                        assert(ps.take(i + 1)[i as int].3);
                    }
                } else {
                    assert forall|k: int| 0 <= k < i + 1 implies !#[trigger] ps.take(i + 1)[k].3 by {
                        if k < i {
                            assert(ps.take(i + 1)[k] == ps.take(i as int)[k]);
                        }
                    }
                }
            }
            i = i + 1;
        }
        assert(ps.take(ps.len() as int) =~= ps);
        let rest = string_of_range(&chars, end, chars.len());
        let rest_chars = chars_of(rest.as_str());
        let n = rest_chars.len();
        if n > 0 && rest_chars[n - 1] == '*' {
            let head = string_of_range(&rest_chars, 0, n - 1);
            assert(rest_chars@.subrange(0, n - 1) =~= rest@.drop_last());
            push_escaped(&mut re, head.as_str());
            push_char(&mut re, '.');
            push_char(&mut re, '*');
        } else if !tail_seen && n > 0 {
            push_escaped(&mut re, rest.as_str());
            push_char(&mut re, '$');
            segments.push(PathSegment::Static(rest));
        } else {
            push_char(&mut re, '$');
        }
        assert(re@ =~= route_regex_source(s));
        assert(segments_view(segments@) =~= route_segments(s));
        let compiled = match CompiledPattern::compile(re) {
            Some(c) => c,
            None => {
                return None;
            },
        };
        if segments.len() == 0 {
            Some(Route::Static(input, compiled))
        } else {
            Some(Route::Segmented(segments, compiled))
        }
    }

    /// Whether the route's expression matches `path`.
    pub fn matches(&self, path: &str) -> (found: bool)
        ensures
            found == regex_is_match(self.regex_source(), path@),
    {
        match self {
            Route::Static(_, r) => r.is_match(path),
            Route::Segmented(_, r) => r.is_match(path),
        }
    }

    /// The value of the parameter `name` in `path`, percent-decoded where that
    /// gives UTF-8; `None` for a route without parameters or where the path
    /// does not give the parameter a value.
    pub fn extract(&self, path: &str, name: &str) -> (value: Option<String>)
        ensures
            match self.view() {
                RouteView::Static(_) => value is None,
                RouteView::Segmented(_) => match regex_capture(self.regex_source(), path@, name@) {
                    Some(raw) => value matches Some(v) && v@ == decoded_or_raw(raw),
                    None => value is None,
                },
            },
            value is Some ==> regex_is_match(self.regex_source(), path@),
            self.view() is Segmented && regex_capture(self.regex_source(), path@, name@) is Some && !regex_capture(
                self.regex_source(),
                path@,
                name@,
            )->0.contains('%') ==> value is Some && value->0@ == regex_capture(self.regex_source(), path@, name@)->0,
    {
        match self {
            Route::Static(_, _) => None,
            Route::Segmented(_, r) => match r.capture(path, name) {
                Some(raw) => match url_decode(raw.as_str()) {
                    Some(decoded) => Some(decoded),
                    None => Some(raw),
                },
                None => None,
            },
        }
    }

    /// The route as text: the pattern of a static route, else its segments
    /// with each parameter in braces.
    pub fn to_string(&self) -> (text: String)
        ensures
            text@ == route_text(self.view()),
    {
        match self {
            Route::Static(s, _) => s.clone(),
            Route::Segmented(segments, _) => {
                let mut text = String::new();
                let mut i: usize = 0;
                while i < segments.len()
                    invariant
                        i <= segments@.len(),
                        text@ == segments_text(segments_view(segments@).take(i as int)),
                    decreases segments.len() - i,
                {
                    assert(segments_view(segments@).take(i + 1).drop_last() =~= segments_view(
                        segments@,
                    ).take(i as int));
                    match &segments[i] {
                        PathSegment::Static(t) => push_str(&mut text, t.as_str()),
                        PathSegment::Variable(v) => {
                            push_char(&mut text, '{');
                            push_str(&mut text, v.name.as_str());
                            push_char(&mut text, '}');
                        },
                    }
                    assert(text@ =~= segments_text(segments_view(segments@).take(i + 1)));
                    i = i + 1;
                }
                assert(segments_view(segments@).take(segments@.len() as int) =~= segments_view(
                    segments@,
                ));
                text
            },
        }
    }

    /// The names of the route's parameters, in order.
    pub fn variable_names(&self) -> (names: Vec<String>)
        ensures
            names@.map_values(|n: String| n@) == match self.view() {
                RouteView::Static(_) => Seq::<Seq<char>>::empty(),
                RouteView::Segmented(segs) => variables_of(segs),
            },
    {
        let mut names: Vec<String> = Vec::new();
        match self {
            Route::Static(_, _) => {
                assert(names@.map_values(|n: String| n@) =~= Seq::<Seq<char>>::empty());
            },
            Route::Segmented(segments, _) => {
                let mut i: usize = 0;
                while i < segments.len()
                    invariant
                        i <= segments@.len(),
                        names@.map_values(|n: String| n@) == variables_of(segments_view(segments@).take(i as int)),
                    decreases segments.len() - i,
                {
                    assert(segments_view(segments@).take(i + 1).drop_last() =~= segments_view(
                        segments@,
                    ).take(i as int));
                    let ghost before = names@;
                    match &segments[i] {
                        PathSegment::Static(_) => {},
                        PathSegment::Variable(v) => {
                            names.push(v.name.clone());
                            assert(names@.map_values(|n: String| n@) =~= before.map_values(|n: String| n@).push(v.name@));
                        },
                    }
                    i = i + 1;
                }
                assert(segments_view(segments@).take(segments@.len() as int) =~= segments_view(
                    segments@,
                ));
            },
        }
        names
    }
}

/// The names of the parameters among `segs`, in order.
pub open spec fn variables_of(segs: Seq<SegmentView>) -> Seq<Seq<char>>
    decreases segs.len(),
{
    if segs.len() == 0 {
        Seq::empty()
    } else {
        variables_of(segs.drop_last()) + match segs.last() {
            SegmentView::Variable(n) => seq![n],
            SegmentView::Static(_) => Seq::empty(),
        }
    }
}

proof fn lemma_segments_text_append(a: Seq<SegmentView>, b: Seq<SegmentView>)
    ensures
        segments_text(a + b) == segments_text(a) + segments_text(b),
    decreases b.len(),
{
    if b.len() == 0 {
        assert(a + b =~= a);
    } else {
        lemma_segments_text_append(a, b.drop_last());
        assert((a + b).drop_last() =~= a + b.drop_last());
        assert((a + b).last() == b.last());
    }
}

proof fn lemma_piece_segments_prepend(s: Seq<char>, p: PieceView, ps: Seq<PieceView>)
    ensures
        piece_segments(s, seq![p] + ps) == seq![
            SegmentView::Static(piece_prefix(s, p)),
            SegmentView::Variable(piece_name(s, p)),
        ] + piece_segments(s, ps),
    decreases ps.len(),
{
    if ps.len() == 0 {
        assert(seq![p] + ps =~= seq![p]);
        assert(seq![p].drop_last() =~= Seq::<PieceView>::empty());
        assert(piece_segments(s, Seq::<PieceView>::empty()) == Seq::<SegmentView>::empty());
        assert(piece_segments(s, ps) == Seq::<SegmentView>::empty());
        assert(piece_segments(s, seq![p]) =~= seq![
            SegmentView::Static(piece_prefix(s, p)),
            SegmentView::Variable(piece_name(s, p)),
        ]);
    } else {
        lemma_piece_segments_prepend(s, p, ps.drop_last());
        assert((seq![p] + ps).drop_last() =~= seq![p] + ps.drop_last());
        assert((seq![p] + ps).last() == ps.last());
    }
}

proof fn lemma_pieces_text(s: Seq<char>, pos: int)
    requires
        pieces_from(s, pos) is Some,
        !ends_with_char(s, '*'),
    ensures
        !has_tail((pieces_from(s, pos)->0).0),
        segments_text(piece_segments(s, (pieces_from(s, pos)->0).0)) + s.subrange(
            (pieces_from(s, pos)->0).1,
            s.len() as int,
        ) == s.subrange(pos, s.len() as int),
    decreases s.len() - pos,
{
    lemma_find_from(s, '{', pos);
    match find_from(s, '{', pos) {
        None => {
            assert(segments_text(piece_segments(s, Seq::<PieceView>::empty())) =~= Seq::<char>::empty());
            assert(Seq::<char>::empty() + s.subrange(pos, s.len() as int) =~= s.subrange(pos, s.len() as int));
        },
        Some(open) => {
            lemma_find_from(s, '}', open);
            let close = find_from(s, '}', open)->0;
            let tail = close + 2 == s.len() && s[close + 1] == '*';
            assert(!tail);
            let next = close + 1;
            lemma_pieces_text(s, next);
            let (rest, end) = pieces_from(s, next)->0;
            let p = (pos, open, close, false);
            let ps = (pieces_from(s, pos)->0).0;
            assert(ps == seq![p] + rest);
            assert(!has_tail(ps)) by {
                if has_tail(ps) {
                    let k = choose|k: int| 0 <= k < ps.len() && #[trigger] ps[k].3;
                    if k > 0 {
                        assert(ps[k] == rest[k - 1]);
                    }
                }
            }
            lemma_piece_segments_prepend(s, p, rest);
            let head = seq![SegmentView::Static(piece_prefix(s, p)), SegmentView::Variable(piece_name(s, p))];
            lemma_segments_text_append(head, piece_segments(s, rest));
            assert(segments_text(head) =~= piece_prefix(s, p) + (seq!['{'] + piece_name(s, p) + seq!['}'])) by {
                let one = seq![SegmentView::Static(piece_prefix(s, p))];
                assert(head.drop_last() =~= one);
                assert(one.drop_last() =~= Seq::<SegmentView>::empty());
                assert(segments_text(Seq::<SegmentView>::empty()) == Seq::<char>::empty());
                assert(segments_text(one) =~= piece_prefix(s, p));
            }
            assert(s.subrange(pos, s.len() as int) =~= piece_prefix(s, p) + (seq!['{'] + piece_name(s, p)
                + seq!['}']) + s.subrange(next, s.len() as int));
        },
    }
}

/// A well-formed pattern that does not end in `*` reads back from its route
/// unchanged: `Route::new(p).to_string() == p`.
pub proof fn law_route_text_round_trip(s: Seq<char>)
    requires
        pattern_well_formed(s),
        !ends_with_char(s, '*'),
    ensures
        route_text(route_view_of(s)) == s,
{
    lemma_pieces_text(s, 0);
    lemma_pieces_shape(s, 0);
    let (ps, end) = pattern_pieces(s)->0;
    let rest = rest_of(s);
    assert(s.subrange(0, s.len() as int) =~= s);
    if rest.len() > 0 {
        assert(rest.last() == s.last());
        lemma_segments_text_append(piece_segments(s, ps), seq![SegmentView::Static(rest)]);
        assert(segments_text(seq![SegmentView::Static(rest)]) =~= rest) by {
            assert(seq![SegmentView::Static(rest)].drop_last() =~= Seq::<SegmentView>::empty());
            assert(segments_text(Seq::<SegmentView>::empty()) == Seq::<char>::empty());
        }
        assert(route_segments(s) == piece_segments(s, ps) + seq![SegmentView::Static(rest)]);
    } else {
        assert(route_segments(s) =~= piece_segments(s, ps));
        assert(segments_text(piece_segments(s, ps)) + rest =~= segments_text(piece_segments(s, ps)));
    }
}

/// A route whose pattern has no parameter is matched by an expression made
/// of its whole text, anchored at both ends: it matches exactly the path
/// that equals its text; with a trailing `*`, any path that starts with the
/// text before the `*`; the empty pattern matches only the empty path.
pub proof fn law_plain_route_regex(s: Seq<char>)
    requires
        forall|j: int| 0 <= j < s.len() ==> s[j] != '{',
    ensures
        route_regex_source(s) == seq!['(', '?', 's', '-', 'm', ')', '^'] + if s.len() > 0 && s.last() == '*' {
            escaped(s.drop_last()) + seq!['.', '*']
        } else if s.len() > 0 {
            escaped(s) + seq!['$']
        } else {
            seq!['$']
        },
{
    lemma_no_parameters(s);
    let ps = (pattern_pieces(s)->0).0;
    assert(ps.len() == 0);
    assert(piece_regex(s, ps) == Seq::<char>::empty());
    assert(!has_tail(ps));
    assert(rest_of(s) =~= s);
    assert(route_regex_source(s) =~= seq!['(', '?', 's', '-', 'm', ')', '^'] + if s.len() > 0 && s.last() == '*' {
            escaped(s.drop_last()) + seq!['.', '*']
        } else if s.len() > 0 {
            escaped(s) + seq!['$']
        } else {
            seq!['$']
        });
}

/// The expression of every route is anchored at the start of the path: it
/// begins with the flags `(?s-m)` and `^`, then the text before the first
/// parameter, escaped; so a route only matches paths that start with that
/// text.
pub proof fn law_route_regex_anchored(s: Seq<char>, k: int)
    requires
        pattern_well_formed(s),
        0 <= k < s.len(),
        s[k] == '{',
        forall|j: int| 0 <= j < k ==> s[j] != '{',
    ensures
        ({
            let front = seq!['(', '?', 's', '-', 'm', ')', '^'] + escaped(s.take(k));
            &&& route_regex_source(s).len() >= front.len()
            &&& route_regex_source(s).take(front.len() as int) == front
        }),
{
    lemma_first_parameter(s, k);
    let ps = (pattern_pieces(s)->0).0;
    lemma_piece_regex_starts(s, ps);
    assert(piece_prefix(s, ps[0]) =~= s.take(k));
    let e = escaped(s.take(k));
    let front = seq!['(', '?', 's', '-', 'm', ')', '^'] + e;
    let whole = route_regex_source(s);
    let pr = piece_regex(s, ps);
    assert(whole.take(front.len() as int) =~= regex_start() + pr.take(e.len() as int));
}

/// The names of a route's parameters are those of its parameter segments,
/// in order, and nothing else.
pub proof fn law_variables_are_the_parameters(segs: Seq<SegmentView>)
    ensures
        variables_of(segs) == segs.filter_map(
            |seg: SegmentView|
                match seg {
                    SegmentView::Variable(n) => Some(n),
                    SegmentView::Static(_) => None,
                },
        ),
    decreases segs.len(),
{
    if segs.len() > 0 {
        law_variables_are_the_parameters(segs.drop_last());
        match segs.last() {
            SegmentView::Variable(n) => {},
            SegmentView::Static(_) => {
                assert(variables_of(segs.drop_last()) + Seq::<Seq<char>>::empty() =~= variables_of(segs.drop_last()));
            },
        }
    }
}

} // verus!
