//! Route patterns: scanning `{name}` parameters out of a pattern, and the
//! compiled regular expressions that routes match paths with.
use crate::text::{find_char, find_from, lemma_find_from, push_char, push_str, string_of_range};
use regex::Regex;
use vstd::prelude::*;

verus! {

#[verifier::external_type_specification]
#[verifier::external_body]
pub struct ExRegex(regex::Regex);

/// Whether `regex::Regex::new` accepts `pattern`.
pub uninterp spec fn regex_compiles(pattern: Seq<char>) -> bool;

/// Whether the regular expression `pattern` matches somewhere in `haystack`.
pub uninterp spec fn regex_is_match(pattern: Seq<char>, haystack: Seq<char>) -> bool;

/// The text that the named group `name` of `pattern` captures in the first
/// match in `haystack`, if there is a match and the group took part in it.
pub uninterp spec fn regex_capture(pattern: Seq<char>, haystack: Seq<char>, name: Seq<char>) -> Option<
    Seq<char>,
>;

/// What `urlencoding::decode` gives for `text`: `None` where the decoded bytes
/// are not UTF-8.
pub uninterp spec fn percent_decoded(text: Seq<char>) -> Option<Seq<char>>;

/// The characters that `regex::escape` puts a backslash in front of.
pub open spec fn is_meta_character(c: char) -> bool {
    c == '\\' || c == '.' || c == '+' || c == '*' || c == '?' || c == '(' || c == ')' || c == '|'
        || c == '[' || c == ']' || c == '{' || c == '}' || c == '^' || c == '$' || c == '#' || c
        == '&' || c == '-' || c == '~'
}

/// `text` with every meta character preceded by a backslash.
pub open spec fn escaped(text: Seq<char>) -> Seq<char>
    decreases text.len(),
{
    if text.len() == 0 {
        Seq::empty()
    } else {
        let c = text.last();
        escaped(text.drop_last()) + if is_meta_character(c) {
            seq!['\\', c]
        } else {
            seq![c]
        }
    }
}

/// `regex::escape`: every meta character of `text` gets a backslash before it.
#[verifier::external_body]
pub(crate) fn regex_escape(text: &str) -> (quoted: String)
    ensures
        quoted@ == escaped(text@),
{
    regex::escape(text)
}

/// `urlencoding::decode`: percent-decodes `text`; `None` where the result is
/// not UTF-8. Text without a `%` comes back unchanged.
#[verifier::external_body]
pub(crate) fn url_decode(text: &str) -> (decoded: Option<String>)
    ensures
        decoded is Some == percent_decoded(text@) is Some,
        decoded matches Some(d) ==> percent_decoded(text@) == Some(d@),
        !text@.contains('%') ==> decoded is Some && decoded->0@ == text@,
{
    match urlencoding::decode(text) {
        Ok(d) => Some(d.into_owned()),
        Err(_) => None,
    }
}

/// A regular expression together with the text it was compiled from.
pub struct CompiledPattern {
    source: String,
    regex: Regex,
}

impl CompiledPattern {
    /// The text the expression was compiled from.
    pub closed spec fn source_view(&self) -> Seq<char> {
        self.source@
    }

    /// `regex::Regex::new`: compiles `source`; `None` where it is not a valid expression.
    #[verifier::external_body]
    pub(crate) fn compile(source: String) -> (compiled: Option<CompiledPattern>)
        ensures
            compiled is Some == regex_compiles(source@),
            compiled matches Some(p) ==> p.source_view() == source@,
    {
        match Regex::new(&source) {
            Ok(regex) => Some(CompiledPattern { source, regex }),
            Err(_) => None,
        }
    }

    /// The text the expression was compiled from.
    pub fn source(&self) -> (s: &str)
        ensures
            s@ == self.source_view(),
    {
        self.source.as_str()
    }

    /// `regex::Regex::is_match` on the compiled expression.
    #[verifier::external_body]
    pub(crate) fn is_match(&self, haystack: &str) -> (found: bool)
        ensures
            found == regex_is_match(self.source_view(), haystack@),
    {
        self.regex.is_match(haystack)
    }

    /// `regex::Regex::captures`, then the group `name`, as text.
    #[verifier::external_body]
    pub(crate) fn capture(&self, haystack: &str, name: &str) -> (captured: Option<String>)
        ensures
            captured is Some == regex_capture(self.source_view(), haystack@, name@) is Some,
            captured matches Some(c) ==> regex_capture(self.source_view(), haystack@, name@) == Some(c@),
            captured is Some ==> regex_is_match(self.source_view(), haystack@),
    {
        match self.regex.captures(haystack) {
            Some(caps) => match caps.name(name) {
                Some(m) => Some(m.as_str().to_string()),
                None => None,
            },
            None => None,
        }
    }
}

/// One `{name}` parameter of a pattern, as positions: where the text before it
/// starts, where its `{` and its `}` stand, and whether it takes the rest of
/// the path (the pattern ends right after it with `*`).
pub type PieceView = (int, int, int, bool);

/// The parameters of `s` from position `pos` on, and where the text after the
/// last one starts; `None` where a `{` has no `}` after it.
pub open spec fn pieces_from(s: Seq<char>, pos: int) -> Option<(Seq<PieceView>, int)>
    decreases s.len() - pos,
{
    if pos < 0 || pos > s.len() {
        None
    } else {
        match find_from(s, '{', pos) {
            None => Some((Seq::empty(), pos)),
            Some(open) => match find_from(s, '}', open) {
                None => None,
                Some(close) => {
                    let tail = close + 2 == s.len() && s[close + 1] == '*';
                    let next = if tail {
                        s.len() as int
                    } else {
                        close + 1
                    };
                    proof {
                        lemma_find_from(s, '{', pos);
                        lemma_find_from(s, '}', open);
                    }
                    match pieces_from(s, next) {
                        None => None,
                        Some((rest, end)) => Some((seq![(pos, open, close, tail)] + rest, end)),
                    }
                },
            },
        }
    }
}

/// The parameters of the whole pattern.
pub open spec fn pattern_pieces(s: Seq<char>) -> Option<(Seq<PieceView>, int)> {
    pieces_from(s, 0)
}

/// Every `{` of the pattern has a `}` after it.
pub open spec fn pattern_well_formed(s: Seq<char>) -> bool {
    pattern_pieces(s) is Some
}

/// Whether some parameter takes the rest of the path.
pub open spec fn has_tail(pieces: Seq<PieceView>) -> bool {
    exists|k: int| 0 <= k < pieces.len() && #[trigger] pieces[k].3
}

/// A scanned parameter, as positions into the pattern's characters.
pub struct Piece {
    pub start: usize,
    pub open: usize,
    pub close: usize,
    pub tail: bool,
}

impl Piece {
    pub open spec fn view(&self) -> PieceView {
        (self.start as int, self.open as int, self.close as int, self.tail)
    }
}

pub open spec fn pieces_view(pieces: Seq<Piece>) -> Seq<PieceView> {
    pieces.map_values(|p: Piece| p.view())
}

pub proof fn lemma_pieces_shape(s: Seq<char>, pos: int)
    requires
        pieces_from(s, pos) is Some,
    ensures
        ({
            let (ps, end) = pieces_from(s, pos)->0;
            &&& pos <= end <= s.len()
            &&& forall|k: int|
                0 <= k < ps.len() ==> {
                    let p = #[trigger] ps[k];
                    &&& pos <= p.0 <= p.1 < p.2 < s.len()
                    &&& s[p.1] == '{'
                    &&& s[p.2] == '}'
                    &&& (p.3 ==> p.2 + 2 == s.len() && s[p.2 + 1] == '*' && end == s.len())
                }
        }),
    decreases s.len() - pos,
{
    lemma_find_from(s, '{', pos);
    match find_from(s, '{', pos) {
        None => {},
        Some(open) => {
            lemma_find_from(s, '}', open);
            match find_from(s, '}', open) {
                None => {},
                Some(close) => {
                    let tail = close + 2 == s.len() && s[close + 1] == '*';
                    let next = if tail {
                        s.len() as int
                    } else {
                        close + 1
                    };
                    lemma_pieces_shape(s, next);
                    let (rest, end) = pieces_from(s, next)->0;
                    let ps = (pieces_from(s, pos)->0).0;
                    assert(ps == seq![(pos, open, close, tail)] + rest);
                    if tail {
                        assert(find_from(s, '{', next) is None);
                        assert(rest.len() == 0);
                    }
                    assert forall|k: int| 0 <= k < ps.len() implies {
                        let p = #[trigger] ps[k];
                        &&& pos <= p.0 <= p.1 < p.2 < s.len()
                        &&& s[p.1] == '{'
                        &&& s[p.2] == '}'
                        &&& (p.3 ==> p.2 + 2 == s.len() && s[p.2 + 1] == '*' && end == s.len())
                    } by {
                        if k > 0 {
                            assert(ps[k] == rest[k - 1]);
                        }
                    }
                },
            }
        },
    }
}

/// Scans the parameters of `chars`; `None` where a `{` has no `}` after it.
pub fn scan_pattern(chars: &Vec<char>) -> (scanned: Option<(Vec<Piece>, usize)>)
    ensures
        match scanned {
            Some((ps, end)) => pattern_pieces(chars@) == Some((pieces_view(ps@), end as int)),
            None => pattern_pieces(chars@) is None,
        },
{
    let ghost s = chars@;
    let mut pieces: Vec<Piece> = Vec::new();
    let mut pos: usize = 0;
    while pos <= chars.len()
        invariant
            s == chars@,
            pos <= chars@.len(),
            pieces_from(s, 0) is Some <==> pieces_from(s, pos as int) is Some,
            pieces_from(s, pos as int) is Some ==> pieces_from(s, 0) == Some(
                (
                    pieces_view(pieces@) + (pieces_from(s, pos as int)->0).0,
                    (pieces_from(s, pos as int)->0).1,
                ),
            ),
        decreases chars.len() + 1 - pos,
    {
        proof {
            lemma_find_from(s, '{', pos as int);
        }
        match find_char(chars, '{', pos) {
            None => {
                proof {
                    assert(pieces_from(s, pos as int) == Some((Seq::<PieceView>::empty(), pos as int)));
                    assert(pieces_view(pieces@) + Seq::<PieceView>::empty() =~= pieces_view(pieces@));
                }
                return Some((pieces, pos));
            },
            Some(open) => {
                proof {
                    lemma_find_from(s, '}', open as int);
                }
                match find_char(chars, '}', open) {
                    None => {
                        return None;
                    },
                    Some(close) => {
                        let tail = chars.len() - close == 2 && chars[close + 1] == '*';
                        let next = if tail {
                            chars.len()
                        } else {
                            close + 1
                        };
                        let piece = Piece { start: pos, open, close, tail };
                        proof {
                            let ghost old_view = pieces_view(pieces@);
                            if pieces_from(s, next as int) is Some {
                                let rest = (pieces_from(s, next as int)->0).0;
                                assert((pieces_from(s, pos as int)->0).0 == seq![piece.view()] + rest);
                                assert(pieces_view(pieces@.push(piece)) =~= old_view.push(piece.view()));
                                assert(old_view + (seq![piece.view()] + rest) =~= old_view.push(
                                    piece.view(),
                                ) + rest);
                            }
                        }
                        pieces.push(piece);
                        pos = next;
                    },
                }
            },
        }
    }
    None
}

/// The text before a parameter.
pub open spec fn piece_prefix(s: Seq<char>, p: PieceView) -> Seq<char> {
    s.subrange(p.0, p.1)
}

/// The name of a parameter: the text between its braces.
pub open spec fn piece_name(s: Seq<char>, p: PieceView) -> Seq<char> {
    s.subrange(p.1 + 1, p.2)
}

/// The expression parts of the parameters: each one's preceding text, escaped,
/// then its named group.
pub open spec fn piece_regex(s: Seq<char>, ps: Seq<PieceView>) -> Seq<char>
    decreases ps.len(),
{
    if ps.len() == 0 {
        Seq::empty()
    } else {
        piece_regex(s, ps.drop_last()) + escaped(piece_prefix(s, ps.last())) + group_regex(
            piece_name(s, ps.last()),
            ps.last().3,
        )
    }
}

/// A pattern without `{` has no parameters, and its text after the last
/// parameter is all of it.
pub proof fn lemma_no_parameters(s: Seq<char>)
    requires
        forall|j: int| 0 <= j < s.len() ==> s[j] != '{',
    ensures
        pattern_pieces(s) == Some((Seq::<PieceView>::empty(), 0int)),
{
    lemma_find_from(s, '{', 0);
    if find_from(s, '{', 0) is Some {
        let i = find_from(s, '{', 0)->0;
        assert(s[i] == '{');
    }
}

/// The first parameter of a well-formed pattern starts at its first `{`,
/// with all the text before it.
pub proof fn lemma_first_parameter(s: Seq<char>, k: int)
    requires
        pattern_well_formed(s),
        0 <= k < s.len(),
        s[k] == '{',
        forall|j: int| 0 <= j < k ==> s[j] != '{',
    ensures
        (pattern_pieces(s)->0).0.len() > 0,
        (pattern_pieces(s)->0).0[0].0 == 0,
        (pattern_pieces(s)->0).0[0].1 == k,
{
    lemma_find_from(s, '{', 0);
    let open = find_from(s, '{', 0)->0;
    if open < k {
        assert(s[open] == '{');
    } else if open > k {
        assert(s[k] != '{');
    }
    lemma_find_from(s, '}', open);
    let close = find_from(s, '}', open)->0;
    let tail = close + 2 == s.len() && s[close + 1] == '*';
    let next = if tail {
        s.len() as int
    } else {
        close + 1
    };
    let rest = (pieces_from(s, next)->0).0;
    assert((pattern_pieces(s)->0).0 == seq![(0int, open, close, tail)] + rest);
}

/// The expression of a pattern's parameters starts with the escaped text
/// before the first parameter.
pub proof fn lemma_piece_regex_starts(s: Seq<char>, ps: Seq<PieceView>)
    requires
        ps.len() > 0,
    ensures
        piece_regex(s, ps).len() >= escaped(piece_prefix(s, ps[0])).len(),
        piece_regex(s, ps).take(escaped(piece_prefix(s, ps[0])).len() as int) == escaped(piece_prefix(s, ps[0])),
    decreases ps.len(),
{
    let e = escaped(piece_prefix(s, ps[0]));
    if ps.len() == 1 {
        assert(ps.drop_last().len() == 0);
        assert(piece_regex(s, ps.drop_last()) == Seq::<char>::empty());
        assert(ps.last() == ps[0]);
        let whole = piece_regex(s, ps);
        assert(whole == Seq::<char>::empty() + e + group_regex(piece_name(s, ps[0]), ps[0].3));
        assert(whole.take(e.len() as int) =~= e);
    } else {
        let front = ps.drop_last();
        assert(front[0] == ps[0]);
        lemma_piece_regex_starts(s, front);
        let a = piece_regex(s, front);
        let whole = piece_regex(s, ps);
        assert(whole == a + escaped(piece_prefix(s, ps.last())) + group_regex(piece_name(s, ps.last()), ps.last().3));
        assert(whole.take(e.len() as int) =~= a.take(e.len() as int));
    }
}

/// The flags that every route expression starts with, and the anchor at the start.
pub open spec fn regex_start() -> Seq<char> {
    seq!['(', '?', 's', '-', 'm', ')', '^']
}

/// The named group that matches a parameter: one path segment, or the rest
/// of the path for a tail parameter.
pub open spec fn group_regex(name: Seq<char>, tail: bool) -> Seq<char> {
    seq!['(', '?', 'P', '<'] + name + seq!['>'] + (if tail {
        seq!['.', '*']
    } else {
        seq!['[', '^', '/', ']', '+']
    }) + seq![')']
}

/// Appends the flags and the start anchor.
pub fn push_regex_start(re: &mut String)
    ensures
        final(re)@ == old(re)@ + regex_start(),
{
    push_char(re, '(');
    push_char(re, '?');
    push_char(re, 's');
    push_char(re, '-');
    push_char(re, 'm');
    push_char(re, ')');
    push_char(re, '^');
    assert(re@ =~= old(re)@ + regex_start());
}

/// Appends the named group of a parameter.
pub fn push_group(re: &mut String, name: &str, tail: bool)
    ensures
        final(re)@ == old(re)@ + group_regex(name@, tail),
{
    push_char(re, '(');
    push_char(re, '?');
    push_char(re, 'P');
    push_char(re, '<');
    push_str(re, name);
    push_char(re, '>');
    if tail {
        push_char(re, '.');
        push_char(re, '*');
    } else {
        push_char(re, '[');
        push_char(re, '^');
        push_char(re, '/');
        push_char(re, ']');
        push_char(re, '+');
    }
    push_char(re, ')');
    assert(re@ =~= old(re)@ + group_regex(name@, tail));
}

/// Appends `text` with its meta characters escaped.
pub fn push_escaped(re: &mut String, text: &str)
    ensures
        final(re)@ == old(re)@ + escaped(text@),
{
    let quoted = regex_escape(text);
    push_str(re, quoted.as_str());
}

/// The literal text before each parameter and the parameter's name. The
/// literal text runs to the parameter's `{`, or, with `whole_rest`, to the
/// end of the pattern.
pub open spec fn piece_pairs(s: Seq<char>, ps: Seq<PieceView>, whole_rest: bool) -> Seq<(Seq<char>, Seq<char>)>
    decreases ps.len(),
{
    if ps.len() == 0 {
        Seq::empty()
    } else {
        let p = ps.last();
        piece_pairs(s, ps.drop_last(), whole_rest).push(
            (if whole_rest { s.subrange(p.0, s.len() as int) } else { piece_prefix(s, p) }, piece_name(s, p)),
        )
    }
}

pub open spec fn pairs_view(pairs: Seq<(String, String)>) -> Seq<(Seq<char>, Seq<char>)> {
    pairs.map_values(|p: (String, String)| (p.0@, p.1@))
}

/// Walks the scanned parameters of `chars`: the literal text and name of
/// each, the expression so far (flags, anchor, then each parameter's escaped
/// text and group), and whether a parameter takes the rest of the path.
pub fn assemble_pieces(chars: &Vec<char>, pieces: &Vec<Piece>, end: usize, whole_rest: bool) -> (assembled: (
    Vec<(String, String)>,
    String,
    bool,
))
    requires
        pattern_pieces(chars@) == Some((pieces_view(pieces@), end as int)),
    ensures
        pairs_view(assembled.0@) == piece_pairs(chars@, pieces_view(pieces@), whole_rest),
        assembled.1@ == regex_start() + piece_regex(chars@, pieces_view(pieces@)),
        assembled.2 == has_tail(pieces_view(pieces@)),
{
    let ghost s = chars@;
    let ghost ps = pieces_view(pieces@);
    proof {
        lemma_pieces_shape(s, 0);
        assert((pieces_from(s, 0)->0).0 == ps);
        assert forall|k: int| 0 <= k < ps.len() implies {
            let p = #[trigger] ps[k];
            &&& 0 <= p.0 <= p.1 < p.2 < s.len()
        } by {
            assert(ps[k] == (pieces_from(s, 0)->0).0[k]);
        }
    }
    let mut re = String::new();
    push_regex_start(&mut re);
    let mut pairs: Vec<(String, String)> = Vec::new();
    let mut tail_seen = false;
    let mut i: usize = 0;
    while i < pieces.len()
        invariant
            chars@ == s,
            ps == pieces_view(pieces@),
            forall|k: int|
                0 <= k < ps.len() ==> {
                    let p = #[trigger] ps[k];
                    &&& 0 <= p.0 <= p.1 < p.2 < s.len()
                },
            i <= pieces@.len(),
            pairs_view(pairs@) == piece_pairs(s, ps.take(i as int), whole_rest),
            re@ == regex_start() + piece_regex(s, ps.take(i as int)),
            tail_seen == has_tail(ps.take(i as int)),
        decreases pieces.len() - i,
    {
        let piece = &pieces[i];
        let ghost pv = ps[i as int];
        assert(piece.view() == pv);
        assert(ps.take(i + 1).drop_last() =~= ps.take(i as int));
        assert(ps.take(i + 1).last() == pv);
        let prefix = string_of_range(chars, piece.start, piece.open);
        push_escaped(&mut re, prefix.as_str());
        let name = string_of_range(chars, piece.open + 1, piece.close);
        push_group(&mut re, name.as_str(), piece.tail);
        let literal = if whole_rest {
            string_of_range(chars, piece.start, chars.len())
        } else {
            prefix
        };
        pairs.push((literal, name));
        assert(pairs_view(pairs@) =~= piece_pairs(s, ps.take(i + 1), whole_rest));
        if piece.tail {
            tail_seen = true;
        }
        proof {
            if tail_seen {
                if !pv.3 {
                    let k = choose|k: int| 0 <= k < i && #[trigger] ps.take(i as int)[k].3;
                    assert(ps.take(i + 1)[k].3);
                } else {
                    assert(ps.take(i + 1)[i as int].3);
                }
            } else {
                assert forall|k: int| 0 <= k < i + 1 implies !#[trigger] ps.take(i + 1)[k].3 by {
                    if k < i {
                        assert(ps.take(i + 1)[k] == ps.take(i as int)[k]);
                    }
                }
            }
        }
        i = i + 1;
    }
    assert(ps.take(ps.len() as int) =~= ps);
    (pairs, re, tail_seen)
}

} // verus!
