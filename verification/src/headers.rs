//! Reading request headers: comma-separated header values, connection
//! upgrades, and the WebSocket handshake.
use crate::text::{chars_eq_ignore_ascii_case, chars_of, eq_ignore_ascii_case, lemma_split_after_separator, lemma_split_nonempty, lemma_split_without_separator, split_on};
use vstd::prelude::*;

verus! {

/// `char::is_whitespace`: the characters with the Unicode `White_Space` property.
pub open spec fn is_whitespace(c: char) -> bool {
    ('\u{9}' <= c <= '\u{d}') || c == ' ' || c == '\u{85}' || c == '\u{a0}' || c == '\u{1680}' || (
    '\u{2000}' <= c <= '\u{200a}') || c == '\u{2028}' || c == '\u{2029}' || c == '\u{202f}' || c
        == '\u{205f}' || c == '\u{3000}'
}

/// `s` without its leading whitespace.
pub open spec fn trim_start(s: Seq<char>) -> Seq<char>
    decreases s.len(),
{
    if s.len() > 0 && is_whitespace(s[0]) {
        trim_start(s.drop_first())
    } else {
        s
    }
}

/// `s` without its trailing whitespace.
pub open spec fn trim_end(s: Seq<char>) -> Seq<char>
    decreases s.len(),
{
    if s.len() > 0 && is_whitespace(s.last()) {
        trim_end(s.drop_last())
    } else {
        s
    }
}

/// `str::trim`: `s` without leading and trailing whitespace.
pub open spec fn trim(s: Seq<char>) -> Seq<char> {
    trim_end(trim_start(s))
}

/// Whether one of the comma-separated parts of `header`, trimmed, equals
/// `value` ignoring ASCII case.
pub open spec fn value_lists(header: Seq<char>, value: Seq<char>) -> bool {
    exists|k: int|
        0 <= k < split_on(header, ',').len() && eq_ignore_ascii_case(
            trim(#[trigger] split_on(header, ',')[k]),
            value,
        )
}

/// Whether one of the header values lists `value`.
pub open spec fn values_list(headers: Seq<Seq<char>>, value: Seq<char>) -> bool {
    exists|i: int| 0 <= i < headers.len() && value_lists(#[trigger] headers[i], value)
}

/// The trimmed characters of `part`.
pub fn trim_chars(part: &Vec<char>) -> (trimmed: Vec<char>)
    ensures
        trimmed@ == trim(part@),
{
    let mut start: usize = 0;
    assert(part@.subrange(0, part@.len() as int) =~= part@);
    while start < part.len() && is_whitespace_char(part[start])
        invariant
            start <= part@.len(),
            trim_start(part@) == trim_start(part@.subrange(start as int, part@.len() as int)),
        decreases part.len() - start,
    {
        assert(part@.subrange(start as int, part@.len() as int).drop_first() =~= part@.subrange(
            start + 1,
            part@.len() as int,
        ));
        start = start + 1;
    }
    let mut end: usize = part.len();
    proof {
        let rest = part@.subrange(start as int, part@.len() as int);
        assert(trim_start(rest) == rest);
        assert(rest.subrange(0, rest.len() as int) =~= rest);
    }
    while end > start && is_whitespace_char(part[end - 1])
        invariant
            start <= end <= part@.len(),
            trim(part@) == trim_end(part@.subrange(start as int, end as int)),
        decreases end - start,
    {
        assert(part@.subrange(start as int, end as int).drop_last() =~= part@.subrange(
            start as int,
            end - 1,
        ));
        end = end - 1;
    }
    let mut trimmed: Vec<char> = Vec::new();
    let mut i = start;
    while i < end
        invariant
            start <= i <= end <= part@.len(),
            trimmed@ == part@.subrange(start as int, i as int),
        decreases end - i,
    {
        trimmed.push(part[i]);
        assert(trimmed@ =~= part@.subrange(start as int, i + 1));
        i = i + 1;
    }
    trimmed
}

/// `char::is_whitespace`.
pub fn is_whitespace_char(c: char) -> (ws: bool)
    ensures
        ws == is_whitespace(c),
{
    ('\u{9}' <= c && c <= '\u{d}') || c == ' ' || c == '\u{85}' || c == '\u{a0}' || c == '\u{1680}'
        || ('\u{2000}' <= c && c <= '\u{200a}') || c == '\u{2028}' || c == '\u{2029}' || c
        == '\u{202f}' || c == '\u{205f}' || c == '\u{3000}'
}

/// Whether one of the comma-separated parts of `header`, trimmed, equals
/// `value` ignoring ASCII case.
pub fn header_value_lists(header: &str, value: &str) -> (found: bool)
    ensures
        found == value_lists(header@, value@),
{
    let chars = chars_of(header);
    let wanted = chars_of(value);
    let ghost s = header@;
    let mut current: Vec<char> = Vec::new();
    let mut i: usize = 0;
    proof {
        lemma_split_nonempty(s.take(0), ',');
        assert(s.take(0) =~= Seq::<char>::empty());
    }
    while i < chars.len()
        invariant
            chars@ == s,
            s == header@,
            wanted@ == value@,
            i <= s.len(),
            split_on(s.take(i as int), ',').len() >= 1,
            current@ == split_on(s.take(i as int), ',').last(),
            forall|k: int|
                0 <= k < split_on(s.take(i as int), ',').len() - 1 ==> !eq_ignore_ascii_case(
                    trim(#[trigger] split_on(s.take(i as int), ',')[k]),
                    value@,
                ),
        decreases chars.len() - i,
    {
        let c = chars[i];
        let ghost before = split_on(s.take(i as int), ',');
        proof {
            assert(s.take(i + 1).drop_last() =~= s.take(i as int));
            assert(s.take(i + 1).last() == c);
        }
        if c == ',' {
            let trimmed = trim_chars(&current);
            if chars_eq_ignore_ascii_case(&trimmed, &wanted) {
                proof {
                    let parts = split_on(s, ',');
                    lemma_split_prefix(s, i as int);
                    lemma_split_nonempty(s.take(i as int), ',');
                    assert(parts[before.len() - 1] == before.last());
                    assert(eq_ignore_ascii_case(trim(parts[before.len() - 1]), value@));
                    assert(before.len() - 1 < parts.len());
                    assert(eq_ignore_ascii_case(trim(split_on(header@, ',')[before.len() - 1]), value@));
                }
                return true;
            }
            current = Vec::new();
            proof {
                let after = split_on(s.take(i + 1), ',');
                assert(after == before.push(Seq::empty()));
                assert forall|k: int| 0 <= k < after.len() - 1 implies !eq_ignore_ascii_case(
                    trim(#[trigger] after[k]),
                    value@,
                ) by {
                    assert(after[k] == before[k]);
                }
            }
        } else {
            current.push(c);
            proof {
                let after = split_on(s.take(i + 1), ',');
                assert(after == before.update(before.len() - 1, before.last().push(c)));
                assert forall|k: int| 0 <= k < after.len() - 1 implies !eq_ignore_ascii_case(
                    trim(#[trigger] after[k]),
                    value@,
                ) by {
                    assert(after[k] == before[k]);
                }
            }
        }
        i = i + 1;
    }
    assert(s.take(s.len() as int) =~= s);
    let trimmed = trim_chars(&current);
    let last_matches = chars_eq_ignore_ascii_case(&trimmed, &wanted);
    proof {
        let parts = split_on(s, ',');
        if last_matches {
            assert(eq_ignore_ascii_case(trim(parts[parts.len() - 1]), value@));
        } else {
            assert forall|k: int| 0 <= k < parts.len() implies !eq_ignore_ascii_case(
                trim(#[trigger] parts[k]),
                value@,
            ) by {
                if k < parts.len() - 1 {
                } else {
                    assert(k == parts.len() - 1);
                }
            }
        }
    }
    last_matches
}

/// The parts of a prefix of `s` are the parts of `s` as far as they go: every
/// completed part of the prefix is a part of `s` at the same place.
proof fn lemma_split_prefix(s: Seq<char>, n: int)
    requires
        0 <= n <= s.len(),
    ensures
        split_on(s.take(n), ',').len() <= split_on(s, ',').len(),
        forall|k: int|
            0 <= k < split_on(s.take(n), ',').len() - 1 ==> #[trigger] split_on(s.take(n), ',')[k]
                == split_on(s, ',')[k],
        n < s.len() ==> split_on(s.take(n), ',').len() - 1 < split_on(s, ',').len(),
        (n == s.len() || s[n] == ',') ==> split_on(s.take(n), ',').last() == split_on(s, ',')[split_on(
            s.take(n),
            ',',
        ).len() - 1],
    decreases s.len() - n,
{
    lemma_split_nonempty(s.take(n), ',');
    if n == s.len() {
        assert(s.take(n) =~= s);
    } else {
        lemma_split_prefix(s, n + 1);
        lemma_split_nonempty(s.take(n + 1), ',');
        assert(s.take(n + 1).drop_last() =~= s.take(n));
        assert(s.take(n + 1).last() == s[n]);
        let a = split_on(s.take(n), ',');
        let b = split_on(s.take(n + 1), ',');
        if s[n] == ',' {
            assert(b == a.push(Seq::empty()));
            assert(b[a.len() - 1] == a.last());
        } else {
            assert(b == a.update(a.len() - 1, a.last().push(s[n])));
        }
        assert forall|k: int| 0 <= k < a.len() - 1 implies #[trigger] a[k] == split_on(s, ',')[k] by {
            assert(a[k] == b[k]);
        }
    }
}

/// Whether one of the header values lists `value`, as the server checks
/// `Connection` and `Upgrade` headers.
pub fn header_contains_value(headers: &Vec<String>, value: &str) -> (found: bool)
    ensures
        found == values_list(headers@.map_values(|h: String| h@), value@),
{
    let ghost views = headers@.map_values(|h: String| h@);
    let mut i: usize = 0;
    while i < headers.len()
        invariant
            views == headers@.map_values(|h: String| h@),
            i <= headers@.len(),
            forall|j: int| 0 <= j < i ==> !value_lists(#[trigger] views[j], value@),
        decreases headers.len() - i,
    {
        if header_value_lists(headers[i].as_str(), value) {
            assert(value_lists(views[i as int], value@));
            return true;
        }
        i = i + 1;
    }
    false
}

/// Whether a request asks to be upgraded to a WebSocket: one of its
/// `Connection` values lists `Upgrade` and one of its `Upgrade` values lists
/// `websocket`, ignoring case.
pub fn is_upgrade_request(connection: &Vec<String>, upgrade: &Vec<String>) -> (asks: bool)
    ensures
        asks == (values_list(connection@.map_values(|h: String| h@), seq!['U', 'p', 'g', 'r', 'a', 'd', 'e'])
            && values_list(upgrade@.map_values(|h: String| h@), seq!['w', 'e', 'b', 's', 'o', 'c', 'k', 'e', 't'])),
{
    let upgrade_word = "Upgrade";
    let websocket_word = "websocket";
    proof {
        reveal_strlit("Upgrade");
        reveal_strlit("websocket");
        assert(upgrade_word@ =~= seq!['U', 'p', 'g', 'r', 'a', 'd', 'e']);
        assert(websocket_word@ =~= seq!['w', 'e', 'b', 's', 'o', 'c', 'k', 'e', 't']);
    }
    header_contains_value(connection, upgrade_word) && header_contains_value(upgrade, websocket_word)
}

/// The value of the `Sec-WebSocket-Accept` header answering the key `key`
/// (SHA-1 of the key and the protocol's GUID, in Base64).
pub uninterp spec fn websocket_accept_key(key: Seq<u8>) -> Seq<char>;

/// `tungstenite::handshake::derive_accept_key`.
#[verifier::external_body]
fn derive_accept_key(key: &[u8]) -> (accept: String)
    ensures
        accept@ == websocket_accept_key(key@),
{
    tokio_tungstenite::tungstenite::handshake::derive_accept_key(key)
}

/// Why a request cannot be upgraded to a WebSocket.
#[derive(Clone, Copy, PartialEq, Eq, Structural, Debug)]
pub enum UpgradeError {
    MissingSecWebSocketKey,
    MissingSecWebSocketVersionHeader,
    InvalidCloseSequence,
}

/// The `Sec-WebSocket-Accept` value for an upgrade, given the request's
/// `Sec-WebSocket-Key` and `Sec-WebSocket-Version` headers: the key must be
/// there, the version must be `13`, and the request must still hold its head.
pub fn websocket_accept(key: Option<&[u8]>, version: Option<&[u8]>, request_has_head: bool) -> (accept:
    Result<String, UpgradeError>)
    ensures
        match key {
            None => accept == Err::<String, UpgradeError>(UpgradeError::MissingSecWebSocketKey),
            Some(k) => if !(version matches Some(v) && v@ == seq![49u8, 51u8]) {
                accept == Err::<String, UpgradeError>(UpgradeError::MissingSecWebSocketVersionHeader)
            } else if !request_has_head {
                accept == Err::<String, UpgradeError>(UpgradeError::InvalidCloseSequence)
            } else {
                accept matches Ok(a) && a@ == websocket_accept_key(k@)
            },
        },
{
    let key = match key {
        Some(k) => k,
        None => {
            return Err(UpgradeError::MissingSecWebSocketKey);
        },
    };
    let version_ok = match version {
        Some(v) => v.len() == 2 && v[0] == 49u8 && v[1] == 51u8,
        None => false,
    };
    proof {
        if let Some(v) = version {
            if v@.len() == 2 && v@[0] == 49u8 && v@[1] == 51u8 {
                assert(v@ =~= seq![49u8, 51u8]);
            }
        }
    }
    if !version_ok {
        return Err(UpgradeError::MissingSecWebSocketVersionHeader);
    }
    let accept = derive_accept_key(key);
    if !request_has_head {
        return Err(UpgradeError::InvalidCloseSequence);
    }
    Ok(accept)
}

/// A header lists a value given as its last comma-separated part, and a
/// header that is the value alone lists it; the comparison ignores ASCII
/// case and the whitespace around each part.
pub proof fn law_header_lists_its_parts(header: Seq<char>, value: Seq<char>)
    requires
        forall|j: int| 0 <= j < value.len() ==> value[j] != ',',
        value.len() > 0 ==> !is_whitespace(value[0]) && !is_whitespace(value.last()),
    ensures
        value_lists(header + seq![','] + value, value),
        value_lists(value, value),
        value_lists(header + seq![','] + seq![' '] + value, value),
{
    assert(trim_start(value) == value);
    assert(trim_end(value) == value);
    lemma_split_after_separator(header, value, ',');
    let parts = split_on(header + seq![','] + value, ',');
    assert(parts[parts.len() - 1] == value);
    assert(eq_ignore_ascii_case(trim(parts[parts.len() - 1]), value));
    lemma_split_without_separator(value, ',');
    assert(split_on(value, ',')[0] == value);
    let spaced = seq![' '] + value;
    assert forall|j: int| 0 <= j < spaced.len() implies spaced[j] != ',' by {
        if j > 0 {
            assert(spaced[j] == value[j - 1]);
        }
    }
    assert(header + seq![','] + seq![' '] + value =~= header + seq![','] + spaced);
    lemma_split_after_separator(header, spaced, ',');
    assert(spaced.drop_first() =~= value);
    assert(trim_start(spaced) == trim_start(value));
    let p2 = split_on(header + seq![','] + spaced, ',');
    assert(p2[p2.len() - 1] == spaced);
    assert(trim(p2[p2.len() - 1]) == value);
}

} // verus!
