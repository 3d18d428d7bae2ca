//! Paths: a path pattern with `{name}` parameters and the regular
//! expression it compiles to.
//!
//! Each parameter contributes the literal text from where the scan stood to
//! the end of the pattern, then the parameter. Text after the last parameter
//! must follow in the path; a pattern ending in `*` adds nothing after its
//! last parameter.
use crate::pattern::{
    lemma_first_parameter, lemma_no_parameters, lemma_piece_regex_starts, piece_prefix,
    escaped, has_tail, pairs_view, pattern_pieces, pattern_well_formed, piece_pairs, piece_regex,
    push_escaped, regex_capture, regex_compiles, regex_is_match, regex_start, assemble_pieces,
    scan_pattern, CompiledPattern,
};
use crate::router::routes::SegmentView;
use crate::text::{chars_of, ends_with_char, string_of_range};
use vstd::prelude::*;

verus! {

/// A parameter of a path: its name and the value it was given.
pub struct PathVariable {
    pub name: String,
    pub data: String,
}

/// A piece of a path pattern: literal text or a parameter.
pub enum PathSegment {
    Static(String),
    Variable(PathVariable),
}

impl PathSegment {
    pub open spec fn view(&self) -> SegmentView {
        match self {
            PathSegment::Static(s) => SegmentView::Static(s@),
            PathSegment::Variable(v) => SegmentView::Variable(v.name@),
        }
    }
}

pub open spec fn segments_view(segments: Seq<PathSegment>) -> Seq<SegmentView> {
    segments.map_values(|s: PathSegment| s.view())
}

/// Each literal text and name, as a literal segment followed by a parameter.
pub open spec fn pair_segments(pairs: Seq<(Seq<char>, Seq<char>)>) -> Seq<SegmentView>
    decreases pairs.len(),
{
    if pairs.len() == 0 {
        Seq::empty()
    } else {
        pair_segments(pairs.drop_last()) + seq![
            SegmentView::Static(pairs.last().0),
            SegmentView::Variable(pairs.last().1),
        ]
    }
}

/// The text after the last parameter.
pub open spec fn rest_of(s: Seq<char>) -> Seq<char> {
    s.subrange((pattern_pieces(s)->0).1, s.len() as int)
}

/// The segments of a well-formed pattern.
pub open spec fn route_segments(s: Seq<char>) -> Seq<SegmentView> {
    let ps = (pattern_pieces(s)->0).0;
    let rest = rest_of(s);
    pair_segments(piece_pairs(s, ps, true)) + if !ends_with_char(rest, '*') && !has_tail(ps)
        && rest.len() > 0 {
        seq![SegmentView::Static(rest)]
    } else {
        Seq::empty()
    }
}

/// The regular expression of a well-formed pattern.
pub open spec fn route_regex_source(s: Seq<char>) -> Seq<char> {
    let ps = (pattern_pieces(s)->0).0;
    let rest = rest_of(s);
    regex_start() + piece_regex(s, ps) + if !ends_with_char(rest, '*') && !has_tail(ps) && rest.len()
        > 0 {
        escaped(rest)
    } else {
        Seq::empty()
    }
}

/// A path: the whole pattern where it has no segments, else its segments.
pub enum PathView {
    Static(Seq<char>),
    Segmented(Seq<SegmentView>),
}

/// The path that a well-formed pattern gives.
pub open spec fn path_view_of(s: Seq<char>) -> PathView {
    if route_segments(s).len() == 0 {
        PathView::Static(s)
    } else {
        PathView::Segmented(route_segments(s))
    }
}

/// A path pattern: plain text, or pieces with parameters; with the
/// expression that matches request paths.
pub enum Path {
    Static(String, CompiledPattern),
    Segmented(Vec<PathSegment>, CompiledPattern),
}

/// Turns literal texts and names into segments.
pub fn segments_of_pairs(pairs: Vec<(String, String)>) -> (segments: Vec<PathSegment>)
    ensures
        segments_view(segments@) == pair_segments(pairs_view(pairs@)),
        forall|k: int|
            0 <= k < segments@.len() ==> (#[trigger] segments@[k] matches PathSegment::Variable(v)
                ==> v.data@ == Seq::<char>::empty()),
{
    let ghost all = pairs_view(pairs@);
    let mut segments: Vec<PathSegment> = Vec::new();
    let mut i: usize = 0;
    while i < pairs.len()
        invariant
            all == pairs_view(pairs@),
            i <= pairs@.len(),
            segments_view(segments@) == pair_segments(all.take(i as int)),
            forall|k: int|
                0 <= k < segments@.len() ==> (#[trigger] segments@[k] matches PathSegment::Variable(v)
                    ==> v.data@ == Seq::<char>::empty()),
        decreases pairs.len() - i,
    {
        let ghost before = segments@;
        let literal = pairs[i].0.clone();
        let name = pairs[i].1.clone();
        assert((literal@, name@) == all[i as int]);
        segments.push(PathSegment::Static(literal));
        segments.push(PathSegment::Variable(PathVariable { name, data: String::new() }));
        proof {
            assert forall|k: int|
                0 <= k < segments@.len() implies (#[trigger] segments@[k] matches PathSegment::Variable(v)
                    ==> v.data@ == Seq::<char>::empty()) by {
                if k < before.len() {
                    assert(segments@[k] == before[k]);
                }
            }
            assert(all.take(i + 1).drop_last() =~= all.take(i as int));
            assert(segments_view(segments@) =~= segments_view(before) + seq![
                SegmentView::Static(all[i as int].0),
                SegmentView::Variable(all[i as int].1),
            ]);
        }
        i = i + 1;
    }
    assert(all.take(all.len() as int) =~= all);
    segments
}

impl Path {
    pub open spec fn view(&self) -> PathView {
        match self {
            Path::Static(s, _) => PathView::Static(s@),
            Path::Segmented(segs, _) => PathView::Segmented(segments_view(segs@)),
        }
    }

    /// The regular expression that the path matches with.
    pub open spec fn regex_source(&self) -> Seq<char> {
        match self {
            Path::Static(_, p) => p.source_view(),
            Path::Segmented(_, p) => p.source_view(),
        }
    }

    /// Whether the path's expression matches `path`.
    pub fn matches(&self, path: &str) -> (found: bool)
        ensures
            found == regex_is_match(self.regex_source(), path@),
    {
        match self {
            Path::Static(_, r) => r.is_match(path),
            Path::Segmented(_, r) => r.is_match(path),
        }
    }

    /// The value of the parameter `name` in `path`; empty for a path without
    /// parameters or where `path` does not give it a value.
    pub fn extract(&self, path: &str, name: &str) -> (value: String)
        ensures
            match self.view() {
                PathView::Static(_) => value@ == Seq::<char>::empty(),
                PathView::Segmented(_) => match regex_capture(self.regex_source(), path@, name@) {
                    Some(raw) => value@ == raw,
                    None => value@ == Seq::<char>::empty(),
                },
            },
    {
        match self {
            Path::Static(_, _) => String::new(),
            Path::Segmented(_, r) => match r.capture(path, name) {
                Some(v) => v,
                None => String::new(),
            },
        }
    }

    /// Builds the path of `input`. The pattern must be well formed and its
    /// expression must compile; `try_parse` checks both.
    pub fn parse(input: String) -> (parsed: Path)
        requires
            pattern_well_formed(input@),
            regex_compiles(route_regex_source(input@)),
        ensures
            parsed.view() == path_view_of(input@),
            parsed.regex_source() == route_regex_source(input@),
            forall|k: int|
                0 <= k < segments_of(parsed).len() ==> (#[trigger] segments_of(parsed)[k] matches PathSegment::Variable(v) ==> v.data@ == Seq::<char>::empty()),
    {
        match Self::try_parse(input) {
            Some(parsed) => parsed,
            None => {
                unreached()
            },
        }
    }

    /// Builds the path of `input`; `None` where a `{` has no `}` after it or
    /// where the expression does not compile.
    pub fn try_parse(input: String) -> (parsed: Option<Path>)
        ensures
            parsed is Some == (pattern_well_formed(input@) && regex_compiles(route_regex_source(input@))),
            parsed matches Some(r) ==> r.view() == path_view_of(input@) && r.regex_source()
                == route_regex_source(input@),
            parsed matches Some(r) ==> forall|k: int|
                0 <= k < segments_of(r).len() ==> (#[trigger] segments_of(r)[k] matches PathSegment::Variable(v) ==> v.data@ == Seq::<char>::empty()),
    {
        let chars = chars_of(input.as_str());
        let (pieces, end) = match scan_pattern(&chars) {
            Some(found) => found,
            None => {
                return None;
            },
        };
        let ghost s = input@;
        proof {
            crate::pattern::lemma_pieces_shape(s, 0);
        }
        let (pairs, mut re, tail_seen) = assemble_pieces(&chars, &pieces, end, true);
        let mut segments = segments_of_pairs(pairs);
        let rest = string_of_range(&chars, end, chars.len());
        let rest_chars = chars_of(rest.as_str());
        let n = rest_chars.len();
        if n > 0 && rest_chars[n - 1] == '*' {
        } else if !tail_seen && n > 0 {
            push_escaped(&mut re, rest.as_str());
            segments.push(PathSegment::Static(rest));
        }
        assert(re@ =~= route_regex_source(s));
        assert(segments_view(segments@) =~= route_segments(s));
        let compiled = match CompiledPattern::compile(re) {
            Some(c) => c,
            None => {
                return None;
            },
        };
        if segments.len() == 0 {
            Some(Path::Static(input, compiled))
        } else {
            Some(Path::Segmented(segments, compiled))
        }
    }
}

/// The segments of a path; none for a static path.
pub open spec fn segments_of(p: Path) -> Seq<PathSegment> {
    match p {
        Path::Static(_, _) => Seq::empty(),
        Path::Segmented(segs, _) => segs@,
    }
}

/// A path whose pattern has no parameter is matched by an expression made
/// of its whole text, anchored at the start: it matches the paths that
/// start with its text; a pattern ending in `*`, or the empty pattern,
/// matches every path.
pub proof fn law_plain_path_regex(s: Seq<char>)
    requires
        forall|j: int| 0 <= j < s.len() ==> s[j] != '{',
    ensures
        route_regex_source(s) == seq!['(', '?', 's', '-', 'm', ')', '^'] + if s.len() > 0 && s.last() != '*' {
            escaped(s)
        } else {
            Seq::empty()
        },
{
    lemma_no_parameters(s);
    let ps = (pattern_pieces(s)->0).0;
    assert(ps.len() == 0);
    assert(piece_regex(s, ps) == Seq::<char>::empty());
    assert(!has_tail(ps));
    assert(rest_of(s) =~= s);
    assert(route_regex_source(s) =~= seq!['(', '?', 's', '-', 'm', ')', '^'] + if s.len() > 0 && s.last() != '*' {
            escaped(s)
        } else {
            Seq::empty()
        });
}

/// The expression of every path is anchored at the start of the path: it
/// begins with the flags `(?s-m)` and `^`, then the text before the first
/// parameter, escaped; so a path only matches paths that start with that
/// text.
pub proof fn law_path_regex_anchored(s: Seq<char>, k: int)
    requires
        pattern_well_formed(s),
        0 <= k < s.len(),
        s[k] == '{',
        forall|j: int| 0 <= j < k ==> s[j] != '{',
    ensures
        ({
            let front = seq!['(', '?', 's', '-', 'm', ')', '^'] + escaped(s.take(k));
            &&& route_regex_source(s).len() >= front.len()
            &&& route_regex_source(s).take(front.len() as int) == front
        }),
{
    lemma_first_parameter(s, k);
    let ps = (pattern_pieces(s)->0).0;
    lemma_piece_regex_starts(s, ps);
    assert(piece_prefix(s, ps[0]) =~= s.take(k));
    let e = escaped(s.take(k));
    let front = seq!['(', '?', 's', '-', 'm', ')', '^'] + e;
    let whole = route_regex_source(s);
    let pr = piece_regex(s, ps);
    assert(whole.take(front.len() as int) =~= regex_start() + pr.take(e.len() as int));
}

} // verus!
