//! Decisions the service attributes make while generating code: the route a
//! file mount serves, the content type of a static file, and the identifier
//! a path becomes.
use crate::text::{ascii_lower_seq, chars_end_with, chars_of, lower_char, push_char, push_str, string_of};
use vstd::prelude::*;

verus! {

/// Whether `s` ends with `suffix`.
pub open spec fn has_suffix(s: Seq<char>, suffix: Seq<char>) -> bool {
    suffix.len() <= s.len() && s.subrange(s.len() - suffix.len(), s.len() as int) == suffix
}

/// The content type served for a file, by the extension of its path in any
/// case; `application/octet-stream` when the extension is not known.
pub open spec fn content_type_of(path: Seq<char>) -> Seq<char> {
    let lower = ascii_lower_seq(path);
    if has_suffix(lower, ".html"@) {
        "text/html; charset=utf-8"@
    } else if has_suffix(lower, ".css"@) {
        "text/css; charset=utf-8"@
    } else if has_suffix(lower, ".js"@) || has_suffix(lower, ".mjs"@) {
        "application/javascript; charset=utf-8"@
    } else if has_suffix(lower, ".json"@) {
        "application/json"@
    } else if has_suffix(lower, ".txt"@) {
        "text/plain; charset=utf-8"@
    } else if has_suffix(lower, ".xml"@) {
        "application/xml"@
    } else if has_suffix(lower, ".svg"@) {
        "image/svg+xml"@
    } else if has_suffix(lower, ".png"@) {
        "image/png"@
    } else if has_suffix(lower, ".jpg"@) || has_suffix(lower, ".jpeg"@) {
        "image/jpeg"@
    } else if has_suffix(lower, ".gif"@) {
        "image/gif"@
    } else if has_suffix(lower, ".webp"@) {
        "image/webp"@
    } else if has_suffix(lower, ".ico"@) {
        "image/x-icon"@
    } else if has_suffix(lower, ".wasm"@) {
        "application/wasm"@
    } else if has_suffix(lower, ".pdf"@) {
        "application/pdf"@
    } else {
        "application/octet-stream"@
    }
}

/// The characters of `s` in ASCII lower case.
pub fn lower_chars(s: &str) -> (lower: Vec<char>)
    ensures
        lower@ == ascii_lower_seq(s@),
{
    let chars = chars_of(s);
    let mut lower: Vec<char> = Vec::new();
    let mut i: usize = 0;
    while i < chars.len()
        invariant
            chars@ == s@,
            i <= chars@.len(),
            lower@ == ascii_lower_seq(chars@.take(i as int)),
        decreases chars.len() - i,
    {
        lower.push(lower_char(chars[i]));
        assert(lower@ =~= ascii_lower_seq(chars@.take(i + 1 as int)));
        i = i + 1;
    }
    assert(chars@.take(chars@.len() as int) =~= chars@);
    lower
}

/// Whether the characters end with those of `suffix`.
fn ends_with(chars: &Vec<char>, suffix: &str) -> (b: bool)
    ensures
        b == has_suffix(chars@, suffix@),
{
    let suffix_chars = chars_of(suffix);
    chars_end_with(chars, &suffix_chars)
}

/// The content type served for a file: see `content_type_of`.
pub fn guess_content_type(path: &str) -> (content_type: &'static str)
    ensures
        content_type@ == content_type_of(path@),
{
    let lower = lower_chars(path);
    if ends_with(&lower, ".html") {
        "text/html; charset=utf-8"
    } else if ends_with(&lower, ".css") {
        "text/css; charset=utf-8"
    } else if ends_with(&lower, ".js") || ends_with(&lower, ".mjs") {
        "application/javascript; charset=utf-8"
    } else if ends_with(&lower, ".json") {
        "application/json"
    } else if ends_with(&lower, ".txt") {
        "text/plain; charset=utf-8"
    } else if ends_with(&lower, ".xml") {
        "application/xml"
    } else if ends_with(&lower, ".svg") {
        "image/svg+xml"
    } else if ends_with(&lower, ".png") {
        "image/png"
    } else if ends_with(&lower, ".jpg") || ends_with(&lower, ".jpeg") {
        "image/jpeg"
    } else if ends_with(&lower, ".gif") {
        "image/gif"
    } else if ends_with(&lower, ".webp") {
        "image/webp"
    } else if ends_with(&lower, ".ico") {
        "image/x-icon"
    } else if ends_with(&lower, ".wasm") {
        "application/wasm"
    } else if ends_with(&lower, ".pdf") {
        "application/pdf"
    } else {
        "application/octet-stream"
    }
}

/// `s` without its trailing `/` characters.
pub open spec fn trim_trailing_slashes(s: Seq<char>) -> Seq<char>
    decreases s.len(),
{
    if s.len() > 0 && s.last() == '/' {
        trim_trailing_slashes(s.drop_last())
    } else {
        s
    }
}

/// The route a file mount serves: every file path under the mount point,
/// which is taken without trailing slashes and made absolute.
pub open spec fn mount_route_of(mount: Seq<char>) -> Seq<char> {
    let m = trim_trailing_slashes(mount);
    if m.len() == 0 || m == "/"@ {
        "/{file_path}*"@
    } else if m[0] == '/' {
        m + "/{file_path}*"@
    } else {
        "/"@ + m + "/{file_path}*"@
    }
}

/// The route a file mount serves: see `mount_route_of`.
pub fn mount_route(mount: &str) -> (route: String)
    ensures
        route@ == mount_route_of(mount@),
{
    let mut chars = chars_of(mount);
    while chars.len() > 0 && chars[chars.len() - 1] == '/'
        invariant
            trim_trailing_slashes(chars@) == trim_trailing_slashes(mount@),
        decreases chars.len(),
    {
        let ghost before = chars@;
        chars.pop();
        assert(chars@ =~= before.drop_last());
    }
    let trimmed = string_of(&chars);
    proof {
        reveal_strlit("/{file_path}*");
        reveal_strlit("/");
    }
    if chars.len() == 0 || (chars.len() == 1 && chars[0] == '/') {
        assert(chars.len() == 1 ==> chars@ =~= "/"@);
        String::from_str("/{file_path}*")
    } else if chars[0] == '/' {
        assert(chars@ != "/"@);
        let mut route = trimmed;
        push_str(&mut route, "/{file_path}*");
        route
    } else {
        assert(chars@ != "/"@);
        let mut route = String::from_str("/");
        push_str(&mut route, trimmed.as_str());
        push_str(&mut route, "/{file_path}*");
        route
    }
}

/// Whether a character is one that an identifier cannot hold and that
/// becomes `_`.
pub open spec fn is_separator(c: char) -> bool {
    c == '/' || c == '\\' || c == '.' || c == ')' || c == '(' || c == '-' || c == ' ' || c == '+'
}

/// Each separator of `s` replaced by `_`, and each `@` by `_at_`.
pub open spec fn spell_out(s: Seq<char>) -> Seq<char>
    decreases s.len(),
{
    if s.len() == 0 {
        s
    } else {
        let c = s.last();
        spell_out(s.drop_last()) + if is_separator(c) {
            seq!['_']
        } else if c == '@' {
            "_at_"@
        } else {
            seq![c]
        }
    }
}

/// `str::replace("__", "_")`: every `__` found scanning from the left, the
/// scan going on after it, becomes `_`.
pub open spec fn collapse_pairs(s: Seq<char>) -> Seq<char>
    decreases s.len(),
{
    if s.len() >= 2 && s[0] == '_' && s[1] == '_' {
        seq!['_'] + collapse_pairs(s.skip(2))
    } else if s.len() == 0 {
        s
    } else {
        seq![s[0]] + collapse_pairs(s.drop_first())
    }
}

/// The identifier a path becomes: see `spell_out` and `collapse_pairs`.
pub open spec fn sanitized(s: Seq<char>) -> Seq<char> {
    collapse_pairs(spell_out(s))
}

/// The identifier a path becomes: see `sanitized`.
pub fn sanitize(value: &str) -> (name: String)
    ensures
        name@ == sanitized(value@),
{
    let chars = chars_of(value);
    let mut spelled: Vec<char> = Vec::new();
    let mut i: usize = 0;
    proof {
        reveal_strlit("_at_");
    }
    while i < chars.len()
        invariant
            chars@ == value@,
            i <= chars@.len(),
            spelled@ == spell_out(chars@.take(i as int)),
        decreases chars.len() - i,
    {
        let c = chars[i];
        let ghost before = spelled@;
        assert(chars@.take(i + 1 as int).drop_last() =~= chars@.take(i as int));
        if c == '/' || c == '\\' || c == '.' || c == ')' || c == '(' || c == '-' || c == ' ' || c == '+' {
            spelled.push('_');
            assert(spelled@ =~= before + seq!['_']);
        } else if c == '@' {
            spelled.push('_');
            spelled.push('a');
            spelled.push('t');
            spelled.push('_');
            proof {
                reveal_strlit("_at_");
            }
            assert(spelled@ =~= before + "_at_"@);
        } else {
            spelled.push(c);
            assert(spelled@ =~= before + seq![c]);
        }
        i = i + 1;
    }
    assert(chars@.take(chars@.len() as int) =~= chars@);
    let ghost s = spelled@;
    let mut name = String::new();
    let mut j: usize = 0;
    assert(s.skip(0) =~= s);
    while j < spelled.len()
        invariant
            s == spelled@,
            j <= s.len(),
            name@ + collapse_pairs(s.skip(j as int)) == collapse_pairs(s),
        decreases spelled.len() - j,
    {
        let ghost rest = s.skip(j as int);
        if spelled[j] == '_' && j + 1 < spelled.len() && spelled[j + 1] == '_' {
            assert(rest.skip(2) =~= s.skip(j + 2 as int));
            assert(collapse_pairs(rest) == seq!['_'] + collapse_pairs(rest.skip(2)));
            let ghost old_name = name@;
            push_char(&mut name, '_');
            assert(name@ + collapse_pairs(s.skip(j + 2 as int)) =~= old_name + collapse_pairs(rest));
            j = j + 2;
        } else {
            assert(rest.drop_first() =~= s.skip(j + 1 as int));
            assert(collapse_pairs(rest) == seq![rest[0]] + collapse_pairs(rest.drop_first()));
            let ghost old_name = name@;
            push_char(&mut name, spelled[j]);
            assert(name@ + collapse_pairs(s.skip(j + 1 as int)) =~= old_name + collapse_pairs(rest));
            j = j + 1;
        }
    }
    assert(s.skip(j as int).len() == 0);
    assert(name@ + collapse_pairs(s.skip(j as int)) =~= name@);
    name
}

/// The shape of a Rust type, as far as the endpoint attribute looks at it.
pub enum TypeShape {
    /// A path such as `a::b::C<T>`: its segments in order.
    Path(Vec<TypeSegment>),
    /// `&T`.
    Reference(Box<TypeShape>),
    /// `[T]`.
    Slice(Box<TypeShape>),
    /// `(A, B, ..)`.
    Tuple(Vec<TypeShape>),
    /// Any other type.
    Other,
}

/// A segment of a type path: its name and, if written in angle brackets,
/// its generic arguments.
pub struct TypeSegment {
    pub ident: String,
    pub args: Option<Vec<GenericArg>>,
}

/// A generic argument: a type, or something else (a lifetime, a constant).
pub enum GenericArg {
    Type(TypeShape),
    Other,
}

/// How a handler's `Ok` value becomes a response.
#[derive(Clone, Copy, PartialEq, Eq, Structural, Debug)]
pub enum ResponseConversion {
    /// With `Into`.
    Into,
    /// Serialized as JSON.
    Json,
}

/// The name of the last segment of a path.
pub open spec fn last_ident(segs: Seq<TypeSegment>) -> Option<Seq<char>> {
    if segs.len() > 0 {
        Some(segs.last().ident@)
    } else {
        None
    }
}

/// The first type among generic arguments.
pub open spec fn first_type_arg(args: Seq<GenericArg>) -> Option<TypeShape>
    decreases args.len(),
{
    if args.len() == 0 {
        None
    } else {
        match args[0] {
            GenericArg::Type(t) => Some(t),
            GenericArg::Other => first_type_arg(args.drop_first()),
        }
    }
}

/// Whether a type is `u8` (by the last segment of its path).
pub open spec fn is_u8_shape(t: TypeShape) -> bool {
    match t {
        TypeShape::Path(segs) => last_ident(segs@) == Some("u8"@),
        _ => false,
    }
}

/// The first type argument of a segment written with angle brackets.
pub open spec fn segment_type_arg(seg: TypeSegment) -> Option<TypeShape> {
    match seg.args {
        Some(args) => first_type_arg(args@),
        None => None,
    }
}

/// Whether a path names a type that already converts into a response:
/// `Response`, `Json`, `JsonResponse`, `String`, `Bytes`, or `Vec<u8>`.
pub open spec fn is_known_response(segs: Seq<TypeSegment>) -> bool {
    segs.len() > 0 && {
        let name = segs.last().ident@;
        ||| name == "Response"@
        ||| name == "Json"@
        ||| name == "JsonResponse"@
        ||| name == "String"@
        ||| name == "Bytes"@
        ||| (name == "Vec"@ && (segment_type_arg(segs.last()) matches Some(inner) && is_u8_shape(inner)))
    }
}

/// Whether a referenced type is text or bytes: `str` or `[u8]`.
pub open spec fn is_text_or_bytes(t: TypeShape) -> bool {
    match t {
        TypeShape::Path(segs) => last_ident(segs@) == Some("str"@),
        TypeShape::Slice(elem) => is_u8_shape(*elem),
        _ => false,
    }
}

/// Whether an `Ok` value of type `t` is sent as JSON: everything but `()`,
/// references to text or bytes, and the known response types.
pub open spec fn json_fallback(t: TypeShape) -> bool {
    match t {
        TypeShape::Tuple(elems) => elems@.len() != 0,
        TypeShape::Reference(elem) => !is_text_or_bytes(*elem),
        TypeShape::Path(segs) => !is_known_response(segs@),
        TypeShape::Other => true,
        TypeShape::Slice(_) => true,
    }
}

/// The `Ok` type of a handler that returns `Result<T, ..>` (by the last
/// segment of its path).
pub open spec fn ok_type_of(output: Option<TypeShape>) -> Option<TypeShape> {
    match output {
        Some(TypeShape::Path(segs)) => if last_ident(segs@) == Some("Result"@) {
            segment_type_arg(segs@.last())
        } else {
            None
        },
        _ => None,
    }
}

/// How the `Ok` value of a handler with return type `output` is answered.
pub open spec fn conversion_of(output: Option<TypeShape>) -> ResponseConversion {
    match ok_type_of(output) {
        Some(t) => if json_fallback(t) {
            ResponseConversion::Json
        } else {
            ResponseConversion::Into
        },
        None => ResponseConversion::Into,
    }
}

fn ident_is(seg: &TypeSegment, name: &str) -> (b: bool)
    ensures
        b == (seg.ident@ == name@),
{
    let wanted = String::from_str(name);
    seg.ident == wanted
}

/// The first type among generic arguments.
pub fn first_type(args: &Vec<GenericArg>) -> (found: Option<&TypeShape>)
    ensures
        match found {
            Some(t) => first_type_arg(args@) == Some(*t),
            None => first_type_arg(args@) is None,
        },
{
    let mut i: usize = 0;
    assert(args@.skip(0) =~= args@);
    while i < args.len()
        invariant
            i <= args@.len(),
            first_type_arg(args@) == first_type_arg(args@.skip(i as int)),
        decreases args.len() - i,
    {
        assert(args@.skip(i as int).drop_first() =~= args@.skip(i + 1 as int));
        match &args[i] {
            GenericArg::Type(t) => {
                return Some(t);
            },
            GenericArg::Other => {},
        }
        i = i + 1;
    }
    None
}

/// Whether a type is `u8`.
pub fn is_u8_type(t: &TypeShape) -> (b: bool)
    ensures
        b == is_u8_shape(*t),
{
    match t {
        TypeShape::Path(segs) => segs.len() > 0 && ident_is(&segs[segs.len() - 1], "u8"),
        _ => false,
    }
}

/// The first type argument of a segment written with angle brackets.
pub fn vec_inner_type(seg: &TypeSegment) -> (inner: Option<&TypeShape>)
    ensures
        match inner {
            Some(t) => segment_type_arg(*seg) == Some(*t),
            None => segment_type_arg(*seg) is None,
        },
{
    match &seg.args {
        Some(args) => first_type(args),
        None => None,
    }
}

/// Whether a path names a type that already converts into a response.
pub fn is_known_response_type(segs: &Vec<TypeSegment>) -> (known: bool)
    ensures
        known == is_known_response(segs@),
{
    if segs.len() == 0 {
        return false;
    }
    let last = &segs[segs.len() - 1];
    if ident_is(last, "Response") || ident_is(last, "Json") || ident_is(last, "JsonResponse") || ident_is(
        last,
        "String",
    ) || ident_is(last, "Bytes") {
        return true;
    }
    if ident_is(last, "Vec") {
        return match vec_inner_type(last) {
            Some(inner) => is_u8_type(inner),
            None => false,
        };
    }
    false
}

/// Whether a referenced type is text or bytes.
pub fn is_text_or_bytes_reference(t: &TypeShape) -> (b: bool)
    ensures
        b == is_text_or_bytes(*t),
{
    match t {
        TypeShape::Path(segs) => segs.len() > 0 && ident_is(&segs[segs.len() - 1], "str"),
        TypeShape::Slice(elem) => is_u8_type(elem),
        _ => false,
    }
}

/// Whether an `Ok` value of this type is sent as JSON.
pub fn uses_json_response_fallback(t: &TypeShape) -> (json: bool)
    ensures
        json == json_fallback(*t),
{
    match t {
        TypeShape::Tuple(elems) => elems.len() != 0,
        TypeShape::Reference(elem) => !is_text_or_bytes_reference(elem),
        TypeShape::Path(segs) => !is_known_response_type(segs),
        _ => true,
    }
}

/// The `Ok` type of a handler that returns a `Result`.
pub fn result_ok_type(output: &Option<TypeShape>) -> (ok: Option<&TypeShape>)
    ensures
        match ok {
            Some(t) => ok_type_of(*output) == Some(*t),
            None => ok_type_of(*output) is None,
        },
{
    match output {
        Some(TypeShape::Path(segs)) => if segs.len() > 0 && ident_is(&segs[segs.len() - 1], "Result") {
            vec_inner_type(&segs[segs.len() - 1])
        } else {
            None
        },
        _ => None,
    }
}

/// How the `Ok` value of a handler is answered: as JSON where
/// `uses_json_response_fallback` says so, else with `Into`.
pub fn ok_response_conversion(output: &Option<TypeShape>) -> (conversion: ResponseConversion)
    ensures
        conversion == conversion_of(*output),
{
    match result_ok_type(output) {
        Some(t) => if uses_json_response_fallback(t) {
            ResponseConversion::Json
        } else {
            ResponseConversion::Into
        },
        None => ResponseConversion::Into,
    }
}

/// Why an attribute option was refused.
#[derive(Clone, Copy, PartialEq, Eq, Structural, Debug)]
pub enum OptionError {
    /// The option was given more than once.
    SpecifiedTwice,
}

/// Sets an option that may be given once: refused, with the option left as
/// it was, when it is already set.
pub fn set_once<T>(target: &mut Option<T>, value: T) -> (set: Result<(), OptionError>)
    ensures
        *old(target) is Some ==> set == Err::<(), OptionError>(OptionError::SpecifiedTwice) && *final(target) == *old(target),
        *old(target) is None ==> set is Ok && *final(target) == Some(value),
{
    if target.is_some() {
        return Err(OptionError::SpecifiedTwice);
    }
    *target = Some(value);
    Ok(())
}

/// `s` with every backslash turned into a slash.
pub open spec fn forward_slashes(s: Seq<char>) -> Seq<char> {
    s.map_values(|c: char| if c == '\\' {
        '/'
    } else {
        c
    })
}

/// `s` with every backslash turned into a slash.
pub fn with_forward_slashes(s: &str) -> (t: String)
    ensures
        t@ == forward_slashes(s@),
{
    let chars = chars_of(s);
    let mut t = String::new();
    let mut i: usize = 0;
    while i < chars.len()
        invariant
            chars@ == s@,
            i <= chars@.len(),
            t@ == forward_slashes(chars@.take(i as int)),
        decreases chars.len() - i,
    {
        let c = chars[i];
        push_char(&mut t, if c == '\\' {
            '/'
        } else {
            c
        });
        assert(t@ =~= forward_slashes(chars@.take(i + 1 as int)));
        i = i + 1;
    }
    assert(chars@.take(chars@.len() as int) =~= chars@);
    t
}

/// The route a static file is served under: `/` and its path relative to
/// the root of the static files, with slashes.
pub fn file_route(relative: &str) -> (route: String)
    ensures
        route@ == seq!['/'] + forward_slashes(relative@),
{
    let mut route = String::new();
    push_char(&mut route, '/');
    let rest = with_forward_slashes(relative);
    push_str(&mut route, rest.as_str());
    route
}

/// The second route an `index.html` is served under: the route without
/// `index.html` and without trailing slashes, then `/` (so `/` for the root
/// index); none for any other file.
pub open spec fn index_alias_of(route: Seq<char>) -> Option<Seq<char>> {
    if has_suffix(route, "index.html"@) {
        let trimmed = trim_trailing_slashes(route.take(route.len() - 10));
        Some(
            if trimmed.len() == 0 {
                "/"@
            } else {
                trimmed + "/"@
            },
        )
    } else {
        None
    }
}

/// The second route a static file is served under: see `index_alias_of`.
pub fn index_alias(route: &str) -> (alias: Option<String>)
    ensures
        match alias {
            Some(a) => index_alias_of(route@) == Some(a@),
            None => index_alias_of(route@) is None,
        },
{
    let chars = chars_of(route);
    let suffix = chars_of("index.html");
    proof {
        reveal_strlit("index.html");
        reveal_strlit("/");
    }
    if !chars_end_with(&chars, &suffix) {
        return None;
    }
    let mut prefix: Vec<char> = Vec::new();
    let mut i: usize = 0;
    let end: usize = chars.len() - 10;
    while i < end
        invariant
            end == chars@.len() - 10,
            i <= end,
            prefix@ == chars@.take(i as int),
        decreases end - i,
    {
        prefix.push(chars[i]);
        assert(prefix@ =~= chars@.take(i + 1 as int));
        i = i + 1;
    }
    while prefix.len() > 0 && prefix[prefix.len() - 1] == '/'
        invariant
            trim_trailing_slashes(prefix@) == trim_trailing_slashes(chars@.take(chars@.len() - 10)),
        decreases prefix.len(),
    {
        let ghost before = prefix@;
        prefix.pop();
        assert(prefix@ =~= before.drop_last());
    }
    if prefix.len() == 0 {
        Some(String::from_str("/"))
    } else {
        let mut alias = string_of(&prefix);
        push_char(&mut alias, '/');
        assert(alias@ =~= prefix@ + "/"@);
        Some(alias)
    }
}

/// Whether `s` ends with the characters `e`, one by one.
proof fn lemma_suffix_chars(s: Seq<char>, e: Seq<char>)
    requires
        has_suffix(s, e),
    ensures
        forall|j: int| 0 <= j < e.len() ==> #[trigger] s[s.len() - e.len() + j] == e[j],
{
    assert forall|j: int| 0 <= j < e.len() implies #[trigger] s[s.len() - e.len() + j] == e[j] by {
        assert(s.subrange(s.len() - e.len(), s.len() as int)[j] == e[j]);
    }
}

/// The last three characters of a string that ends with `e`.
proof fn lemma_suffix_tail(s: Seq<char>, e: Seq<char>)
    requires
        has_suffix(s, e),
        e.len() >= 3,
    ensures
        s[s.len() - 1] == e[e.len() - 1],
        s[s.len() - 2] == e[e.len() - 2],
        s[s.len() - 3] == e[e.len() - 3],
{
    lemma_suffix_chars(s, e);
    assert(s[s.len() - e.len() + (e.len() - 1)] == e[e.len() - 1]);
    assert(s[s.len() - e.len() + (e.len() - 2)] == e[e.len() - 2]);
    assert(s[s.len() - e.len() + (e.len() - 3)] == e[e.len() - 3]);
}

/// Each known extension, in any case, gives its own content type: no
/// extension of the list ends another, so the first that fits is the only
/// one.
pub proof fn law_content_types_by_extension(path: Seq<char>)
    ensures
        has_suffix(ascii_lower_seq(path), ".html"@) ==> content_type_of(path) == "text/html; charset=utf-8"@,
        has_suffix(ascii_lower_seq(path), ".css"@) ==> content_type_of(path) == "text/css; charset=utf-8"@,
        has_suffix(ascii_lower_seq(path), ".js"@) ==> content_type_of(path) == "application/javascript; charset=utf-8"@,
        has_suffix(ascii_lower_seq(path), ".mjs"@) ==> content_type_of(path) == "application/javascript; charset=utf-8"@,
        has_suffix(ascii_lower_seq(path), ".json"@) ==> content_type_of(path) == "application/json"@,
        has_suffix(ascii_lower_seq(path), ".txt"@) ==> content_type_of(path) == "text/plain; charset=utf-8"@,
        has_suffix(ascii_lower_seq(path), ".xml"@) ==> content_type_of(path) == "application/xml"@,
        has_suffix(ascii_lower_seq(path), ".svg"@) ==> content_type_of(path) == "image/svg+xml"@,
        has_suffix(ascii_lower_seq(path), ".png"@) ==> content_type_of(path) == "image/png"@,
        has_suffix(ascii_lower_seq(path), ".jpg"@) ==> content_type_of(path) == "image/jpeg"@,
        has_suffix(ascii_lower_seq(path), ".jpeg"@) ==> content_type_of(path) == "image/jpeg"@,
        has_suffix(ascii_lower_seq(path), ".gif"@) ==> content_type_of(path) == "image/gif"@,
        has_suffix(ascii_lower_seq(path), ".webp"@) ==> content_type_of(path) == "image/webp"@,
        has_suffix(ascii_lower_seq(path), ".ico"@) ==> content_type_of(path) == "image/x-icon"@,
        has_suffix(ascii_lower_seq(path), ".wasm"@) ==> content_type_of(path) == "application/wasm"@,
        has_suffix(ascii_lower_seq(path), ".pdf"@) ==> content_type_of(path) == "application/pdf"@,
{
    reveal_strlit(".html");
    reveal_strlit(".css");
    reveal_strlit(".js");
    reveal_strlit(".mjs");
    reveal_strlit(".json");
    reveal_strlit(".txt");
    reveal_strlit(".xml");
    reveal_strlit(".svg");
    reveal_strlit(".png");
    reveal_strlit(".jpg");
    reveal_strlit(".jpeg");
    reveal_strlit(".gif");
    reveal_strlit(".webp");
    reveal_strlit(".ico");
    reveal_strlit(".wasm");
    reveal_strlit(".pdf");
    let lower = ascii_lower_seq(path);
    if has_suffix(lower, ".html"@) {
        lemma_suffix_tail(lower, ".html"@);
    }
    if has_suffix(lower, ".css"@) {
        lemma_suffix_tail(lower, ".css"@);
    }
    if has_suffix(lower, ".js"@) {
        lemma_suffix_tail(lower, ".js"@);
    }
    if has_suffix(lower, ".mjs"@) {
        lemma_suffix_tail(lower, ".mjs"@);
    }
    if has_suffix(lower, ".json"@) {
        lemma_suffix_tail(lower, ".json"@);
    }
    if has_suffix(lower, ".txt"@) {
        lemma_suffix_tail(lower, ".txt"@);
    }
    if has_suffix(lower, ".xml"@) {
        lemma_suffix_tail(lower, ".xml"@);
    }
    if has_suffix(lower, ".svg"@) {
        lemma_suffix_tail(lower, ".svg"@);
    }
    if has_suffix(lower, ".png"@) {
        lemma_suffix_tail(lower, ".png"@);
    }
    if has_suffix(lower, ".jpg"@) {
        lemma_suffix_tail(lower, ".jpg"@);
    }
    if has_suffix(lower, ".jpeg"@) {
        lemma_suffix_tail(lower, ".jpeg"@);
    }
    if has_suffix(lower, ".gif"@) {
        lemma_suffix_tail(lower, ".gif"@);
    }
    if has_suffix(lower, ".webp"@) {
        lemma_suffix_tail(lower, ".webp"@);
    }
    if has_suffix(lower, ".ico"@) {
        lemma_suffix_tail(lower, ".ico"@);
    }
    if has_suffix(lower, ".wasm"@) {
        lemma_suffix_tail(lower, ".wasm"@);
    }
    if has_suffix(lower, ".pdf"@) {
        lemma_suffix_tail(lower, ".pdf"@);
    }
}

/// How a handler's `Ok` value is answered, for a handler that returns
/// `Result<T, ..>` (`segs` the path of its return type, ending in `Result`,
/// with `T` its first generic argument): with `Into` where `T` is a
/// `Response`, `Json`, `JsonResponse`, `String` or `Bytes`, `()`, or a
/// reference to `str`; serialized as JSON where `T` is any other named type
/// but `Vec`, a non-empty tuple, or another kind of type. A handler that
/// returns no `Result` is answered with `Into`.
pub proof fn law_response_conversion(segs: Vec<TypeSegment>, args: Vec<GenericArg>, t: TypeShape)
    requires
        segs@.len() > 0,
        segs@.last().args == Some(args),
        args@.len() > 0,
        args@[0] == GenericArg::Type(t),
    ensures
        ({
            let output = Some(TypeShape::Path(segs));
            &&& segs@.last().ident@ != "Result"@ ==> conversion_of(output) == ResponseConversion::Into
            &&& segs@.last().ident@ == "Result"@ ==> {
                &&& (t matches TypeShape::Path(ps) && ps@.len() > 0 && {
                    let n = ps@.last().ident@;
                    n == "Response"@ || n == "Json"@ || n == "JsonResponse"@ || n == "String"@ || n == "Bytes"@
                }) ==> conversion_of(output) == ResponseConversion::Into
                &&& (t matches TypeShape::Path(ps) && ps@.len() > 0 && {
                    let n = ps@.last().ident@;
                    n != "Response"@ && n != "Json"@ && n != "JsonResponse"@ && n != "String"@ && n != "Bytes"@ && n
                        != "Vec"@
                }) ==> conversion_of(output) == ResponseConversion::Json
                &&& (t matches TypeShape::Tuple(es) && es@.len() == 0) ==> conversion_of(output) == ResponseConversion::Into
                &&& (t matches TypeShape::Tuple(es) && es@.len() > 0) ==> conversion_of(output) == ResponseConversion::Json
                &&& (t matches TypeShape::Reference(inner) && (*inner matches TypeShape::Path(ps) && ps@.len() > 0
                    && ps@.last().ident@ == "str"@)) ==> conversion_of(output) == ResponseConversion::Into
                &&& t is Other ==> conversion_of(output) == ResponseConversion::Json
            }
        }),
{
    reveal_strlit("Result");
    assert(last_ident(segs@) == Some(segs@.last().ident@));
    assert(first_type_arg(args@) == Some(t));
}

/// Whether `c` is one of the characters an identifier made from a path
/// never holds: `/`, `\`, `.`, `)`, `(`, `-`, space, `+` and `@`.
pub open spec fn is_path_punctuation(c: char) -> bool {
    c == '/' || c == '\\' || c == '.' || c == ')' || c == '(' || c == '-' || c == ' ' || c == '+' || c == '@'
}

proof fn lemma_spell_out(s: Seq<char>)
    ensures
        forall|i: int| 0 <= i < spell_out(s).len() ==> !is_path_punctuation(#[trigger] spell_out(s)[i]),
        (forall|i: int| 0 <= i < s.len() ==> !is_path_punctuation(#[trigger] s[i])) ==> spell_out(s) == s,
    decreases s.len(),
{
    reveal_strlit("_at_");
    if s.len() > 0 {
        lemma_spell_out(s.drop_last());
        let front = spell_out(s.drop_last());
        let c = s.last();
        let piece = if is_separator(c) {
            seq!['_']
        } else if c == '@' {
            "_at_"@
        } else {
            seq![c]
        };
        assert(spell_out(s) == front + piece);
        assert forall|i: int| 0 <= i < spell_out(s).len() implies !is_path_punctuation(#[trigger] spell_out(s)[i]) by {
            if i >= front.len() {
                assert(spell_out(s)[i] == piece[i - front.len()]);
            } else {
                assert(spell_out(s)[i] == front[i]);
            }
        }
        if forall|i: int| 0 <= i < s.len() ==> !is_path_punctuation(#[trigger] s[i]) {
            assert forall|i: int| 0 <= i < s.drop_last().len() implies !is_path_punctuation(#[trigger] s.drop_last()[i]) by {
                assert(s.drop_last()[i] == s[i]);
            }
            assert(!is_path_punctuation(s[s.len() - 1]));
            assert(s.drop_last() + seq![c] =~= s);
        }
    }
}

proof fn lemma_collapse_pairs(s: Seq<char>)
    ensures
        forall|i: int| 0 <= i < collapse_pairs(s).len() ==> #[trigger] collapse_pairs(s)[i] == '_' || s.contains(
            collapse_pairs(s)[i],
        ),
        (forall|i: int| 0 <= i < s.len() ==> #[trigger] s[i] != '_') ==> collapse_pairs(s) == s,
    decreases s.len(),
{
    if s.len() >= 2 && s[0] == '_' && s[1] == '_' {
        lemma_collapse_pairs(s.skip(2));
        let rest = collapse_pairs(s.skip(2));
        assert forall|i: int| 0 <= i < collapse_pairs(s).len() implies #[trigger] collapse_pairs(s)[i] == '_'
            || s.contains(collapse_pairs(s)[i]) by {
            if i > 0 {
                assert(collapse_pairs(s)[i] == rest[i - 1]);
                if rest[i - 1] != '_' {
                    let k = choose|k: int| 0 <= k < s.skip(2).len() && s.skip(2)[k] == rest[i - 1];
                    assert(s[k + 2] == rest[i - 1]);
                }
            }
        }
    } else if s.len() > 0 {
        lemma_collapse_pairs(s.drop_first());
        let rest = collapse_pairs(s.drop_first());
        assert forall|i: int| 0 <= i < collapse_pairs(s).len() implies #[trigger] collapse_pairs(s)[i] == '_'
            || s.contains(collapse_pairs(s)[i]) by {
            if i > 0 {
                assert(collapse_pairs(s)[i] == rest[i - 1]);
                if rest[i - 1] != '_' {
                    let k = choose|k: int| 0 <= k < s.drop_first().len() && s.drop_first()[k] == rest[i - 1];
                    assert(s[k + 1] == rest[i - 1]);
                }
            } else {
                assert(collapse_pairs(s)[0] == s[0]);
            }
        }
        if forall|i: int| 0 <= i < s.len() ==> #[trigger] s[i] != '_' {
            assert forall|i: int| 0 <= i < s.drop_first().len() implies #[trigger] s.drop_first()[i] != '_' by {
                assert(s.drop_first()[i] == s[i + 1]);
            }
            assert(seq![s[0]] + s.drop_first() =~= s);
        }
    }
}

/// The identifier a path becomes holds none of `/`, `\`, `.`, `)`, `(`,
/// `-`, space, `+` or `@`; a path without them and without `_` becomes
/// itself.
pub proof fn law_sanitized_identifiers(s: Seq<char>)
    ensures
        forall|i: int| 0 <= i < sanitized(s).len() ==> !is_path_punctuation(#[trigger] sanitized(s)[i]),
        (forall|i: int| 0 <= i < s.len() ==> !is_path_punctuation(#[trigger] s[i]) && s[i] != '_') ==> sanitized(s)
            == s,
{
    lemma_spell_out(s);
    let t = spell_out(s);
    lemma_collapse_pairs(t);
    assert forall|i: int| 0 <= i < sanitized(s).len() implies !is_path_punctuation(#[trigger] sanitized(s)[i]) by {
        let c = sanitized(s)[i];
        if c != '_' {
            let k = choose|k: int| 0 <= k < t.len() && t[k] == c;
            assert(!is_path_punctuation(t[k]));
        }
    }
    if forall|i: int| 0 <= i < s.len() ==> !is_path_punctuation(#[trigger] s[i]) && s[i] != '_' {
        assert forall|i: int| 0 <= i < s.len() implies !is_path_punctuation(#[trigger] s[i]) by {}
        assert(t == s);
        assert forall|i: int| 0 <= i < t.len() implies #[trigger] t[i] != '_' by {
            assert(t[i] == s[i]);
        }
    }
}

/// The route a file mount serves always starts with `/` and ends with
/// `/{file_path}*`; a mount written absolute and without a trailing `/`
/// comes first as it is.
pub proof fn law_mount_routes(mount: Seq<char>)
    ensures
        mount_route_of(mount).len() >= 13,
        mount_route_of(mount)[0] == '/',
        mount_route_of(mount).subrange(mount_route_of(mount).len() - 13, mount_route_of(mount).len() as int)
            == "/{file_path}*"@,
        mount.len() > 1 && mount[0] == '/' && mount.last() != '/' ==> mount_route_of(mount) == mount
            + "/{file_path}*"@,
{
    reveal_strlit("/{file_path}*");
    reveal_strlit("/");
    let m = trim_trailing_slashes(mount);
    let r = mount_route_of(mount);
    if m.len() == 0 || m == "/"@ {
        assert(r == "/{file_path}*"@);
        assert(r.subrange(0, 13) =~= r);
    } else if m[0] == '/' {
        assert(r.subrange(r.len() - 13, r.len() as int) =~= "/{file_path}*"@);
    } else {
        assert(r.subrange(r.len() - 13, r.len() as int) =~= "/{file_path}*"@);
    }
    if mount.len() > 1 && mount[0] == '/' && mount.last() != '/' {
        assert(m == mount);
        if m == "/"@ {
            assert(m.len() == 1);
        }
    }
}

/// A file is served under a second route exactly when its route ends with
/// `index.html`; that route is the folder: it ends with `/`, and where the
/// text before `index.html` is not empty and does not end with `/`, it is
/// that text and `/`.
pub proof fn law_index_alias(route: Seq<char>)
    ensures
        index_alias_of(route) is Some <==> (route.len() >= 10 && route.subrange(route.len() - 10, route.len() as int)
            == "index.html"@),
        index_alias_of(route) matches Some(a) ==> a.len() > 0 && a.last() == '/',
        route.len() > 10 && route.subrange(route.len() - 10, route.len() as int) == "index.html"@ && route[route.len()
            - 11] != '/' ==> index_alias_of(route) == Some(route.take(route.len() - 10) + seq!['/']),
{
    reveal_strlit("index.html");
    reveal_strlit("/");
    if has_suffix(route, "index.html"@) {
        let prefix = route.take(route.len() - 10);
        let t = trim_trailing_slashes(prefix);
        if t.len() > 0 {
            assert((t + "/"@).last() == '/');
        }
        if route.len() > 10 && route[route.len() - 11] != '/' {
            assert(prefix.last() == route[route.len() - 11]);
            assert(t == prefix);
            assert(prefix + "/"@ =~= prefix + seq!['/']);
        }
    }
}

} // verus!
