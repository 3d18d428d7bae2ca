//! The options of the service attributes (`#[get("/path", name = "..")]`,
//! `#[websocket("/path", ..)]`), read in order: which keys each attribute
//! takes, which must be literal strings, which may be given once, and the
//! HTTP methods an endpoint answers, each at most once.
use crate::codegen::{last_ident, set_once, OptionError, TypeSegment, TypeShape};
use vstd::prelude::*;

verus! {

/// The value of an option: a literal string, or another expression,
/// known by a number that the caller gives it.
#[derive(Debug, PartialEq, Eq)]
pub enum OptionValue {
    Str(String),
    Expr(u64),
}

/// Whether `syn` parses `text` as a Rust expression, in its full grammar.
pub uninterp spec fn parses_as_expression(text: Seq<char>) -> bool;

/// `syn::parse_str::<syn::Expr>`: whether `text` parses as a Rust
/// expression. What it accepts is the grammar of Rust, named by
/// `parses_as_expression`.
#[verifier::external_body]
fn expression_parses(text: &str) -> (parses: bool)
    ensures
        parses == parses_as_expression(text@),
{
    syn::parse_str::<syn::Expr>(text).is_ok()
}

/// Whether a `filter` or `wrap` value stands for an expression: any
/// expression does, and a literal string does where its text parses as one.
pub open spec fn value_parses(value: OptionValue) -> bool {
    match value {
        OptionValue::Str(s) => parses_as_expression(s@),
        OptionValue::Expr(_) => true,
    }
}

/// Whether a `filter` or `wrap` value stands for an expression: see
/// `value_parses`.
pub fn expression_ok(value: &OptionValue) -> (ok: bool)
    ensures
        ok == value_parses(*value),
{
    match value {
        OptionValue::Str(s) => expression_parses(s.as_str()),
        OptionValue::Expr(_) => true,
    }
}

/// An HTTP method an endpoint answers.
#[derive(Clone, Copy, PartialEq, Eq, Structural, Debug)]
pub enum Method {
    Get,
    Post,
    Put,
    Delete,
    Head,
    Options,
    Connect,
    Patch,
    Trace,
}

/// The method named by `s`, written in upper case.
pub open spec fn method_named(s: Seq<char>) -> Option<Method> {
    if s == "GET"@ {
        Some(Method::Get)
    } else if s == "POST"@ {
        Some(Method::Post)
    } else if s == "PUT"@ {
        Some(Method::Put)
    } else if s == "DELETE"@ {
        Some(Method::Delete)
    } else if s == "HEAD"@ {
        Some(Method::Head)
    } else if s == "OPTIONS"@ {
        Some(Method::Options)
    } else if s == "CONNECT"@ {
        Some(Method::Connect)
    } else if s == "PATCH"@ {
        Some(Method::Patch)
    } else if s == "TRACE"@ {
        Some(Method::Trace)
    } else {
        None
    }
}

/// The method named by `s`: see `method_named`.
pub fn parse_method(s: &str) -> (m: Option<Method>)
    ensures
        m == method_named(s@),
{
    let c = String::from_str(s);
    if key_is(&c, "GET") {
        Some(Method::Get)
    } else if key_is(&c, "POST") {
        Some(Method::Post)
    } else if key_is(&c, "PUT") {
        Some(Method::Put)
    } else if key_is(&c, "DELETE") {
        Some(Method::Delete)
    } else if key_is(&c, "HEAD") {
        Some(Method::Head)
    } else if key_is(&c, "OPTIONS") {
        Some(Method::Options)
    } else if key_is(&c, "CONNECT") {
        Some(Method::Connect)
    } else if key_is(&c, "PATCH") {
        Some(Method::Patch)
    } else if key_is(&c, "TRACE") {
        Some(Method::Trace)
    } else {
        None
    }
}

/// Why the options of an attribute are refused; each error gives the
/// position of the option at fault.
#[derive(Clone, Copy, PartialEq, Eq, Structural, Debug)]
pub enum AttributeError {
    /// The option takes a literal string.
    ExpectsString(usize),
    /// The option's literal string is not a Rust expression.
    InvalidExpression(usize),
    /// The attribute takes no option of that key.
    UnknownKey(usize),
    /// The method option names no HTTP method.
    UnknownMethod(usize),
    /// The method is already among the endpoint's methods.
    DuplicateMethod(usize),
    /// The option may be given once and was given before.
    SpecifiedTwice(usize),
}

/// `ms` with `m` added unless it is there.
pub open spec fn add_method(ms: Seq<Method>, m: Method) -> Seq<Method> {
    if ms.contains(m) {
        ms
    } else {
        ms.push(m)
    }
}

/// The methods of `ms`, each once, in the order they first come.
pub open spec fn distinct_methods(ms: Seq<Method>) -> Seq<Method>
    decreases ms.len(),
{
    if ms.len() == 0 {
        Seq::empty()
    } else {
        add_method(distinct_methods(ms.drop_last()), ms.last())
    }
}

/// The options of an endpoint attribute.
pub struct EndpointOptions {
    pub resource_name: Option<String>,
    pub scope: Option<String>,
    pub domains: Vec<String>,
    pub filters: Vec<OptionValue>,
    pub wrappers: Vec<OptionValue>,
    pub client_trust: Option<String>,
    /// The methods answered, each once.
    pub methods: Vec<Method>,
}

/// The options of an endpoint attribute, as values.
pub struct EndpointOptionsView {
    pub resource_name: Option<String>,
    pub scope: Option<String>,
    pub domains: Seq<String>,
    pub filters: Seq<OptionValue>,
    pub wrappers: Seq<OptionValue>,
    pub client_trust: Option<String>,
    pub methods: Seq<Method>,
}

impl EndpointOptions {
    pub open spec fn view(&self) -> EndpointOptionsView {
        EndpointOptionsView {
            resource_name: self.resource_name,
            scope: self.scope,
            domains: self.domains@,
            filters: self.filters@,
            wrappers: self.wrappers@,
            client_trust: self.client_trust,
            methods: self.methods@,
        }
    }
}

/// The endpoint options before any option is read: the methods the
/// attribute itself stands for, each once.
pub open spec fn initial_endpoint(methods: Seq<Method>) -> EndpointOptionsView {
    EndpointOptionsView {
        resource_name: None,
        scope: None,
        domains: Seq::empty(),
        filters: Seq::empty(),
        wrappers: Seq::empty(),
        client_trust: None,
        methods: distinct_methods(methods),
    }
}

/// Reading the option at position `i`, of key `key` and value `value`:
/// `name`, `scope` and `client_trust` take a literal string (`client_trust`
/// only once), `domain` adds a literal string, `filter` and `wrap` add a
/// value that stands for an expression (see `value_parses`), and `method` adds the method a literal string names, which must
/// not be there yet; any other key is refused.
pub open spec fn endpoint_step(acc: EndpointOptionsView, i: nat, key: Seq<char>, value: OptionValue) -> Result<
    EndpointOptionsView,
    AttributeError,
> {
    if key == "name"@ {
        match value {
            OptionValue::Str(s) => Ok(EndpointOptionsView { resource_name: Some(s), ..acc }),
            OptionValue::Expr(_) => Err(AttributeError::ExpectsString(i as usize)),
        }
    } else if key == "scope"@ {
        match value {
            OptionValue::Str(s) => Ok(EndpointOptionsView { scope: Some(s), ..acc }),
            OptionValue::Expr(_) => Err(AttributeError::ExpectsString(i as usize)),
        }
    } else if key == "domain"@ {
        match value {
            OptionValue::Str(s) => Ok(EndpointOptionsView { domains: acc.domains.push(s), ..acc }),
            OptionValue::Expr(_) => Err(AttributeError::ExpectsString(i as usize)),
        }
    } else if key == "filter"@ {
        if value_parses(value) {
            Ok(EndpointOptionsView { filters: acc.filters.push(value), ..acc })
        } else {
            Err(AttributeError::InvalidExpression(i as usize))
        }
    } else if key == "wrap"@ {
        if value_parses(value) {
            Ok(EndpointOptionsView { wrappers: acc.wrappers.push(value), ..acc })
        } else {
            Err(AttributeError::InvalidExpression(i as usize))
        }
    } else if key == "method"@ {
        match value {
            OptionValue::Str(s) => match method_named(s@) {
                Some(m) => if acc.methods.contains(m) {
                    Err(AttributeError::DuplicateMethod(i as usize))
                } else {
                    Ok(EndpointOptionsView { methods: acc.methods.push(m), ..acc })
                },
                None => Err(AttributeError::UnknownMethod(i as usize)),
            },
            OptionValue::Expr(_) => Err(AttributeError::ExpectsString(i as usize)),
        }
    } else if key == "client_trust"@ {
        if acc.client_trust is Some {
            Err(AttributeError::SpecifiedTwice(i as usize))
        } else {
            match value {
                OptionValue::Str(s) => Ok(EndpointOptionsView { client_trust: Some(s), ..acc }),
                OptionValue::Expr(_) => Err(AttributeError::ExpectsString(i as usize)),
            }
        }
    } else {
        Err(AttributeError::UnknownKey(i as usize))
    }
}

/// Reading the first `n` options, in order; the first refusal stands.
pub open spec fn endpoint_options_upto(options: Seq<(String, OptionValue)>, methods: Seq<Method>, n: nat) -> Result<
    EndpointOptionsView,
    AttributeError,
>
    decreases n,
{
    if n == 0 {
        Ok(initial_endpoint(methods))
    } else {
        match endpoint_options_upto(options, methods, (n - 1) as nat) {
            Ok(acc) => endpoint_step(acc, (n - 1) as nat, options[n - 1].0@, options[n - 1].1),
            Err(e) => Err(e),
        }
    }
}

/// The endpoint options that `options` give, for an attribute standing for
/// `methods`.
pub open spec fn endpoint_options_of(options: Seq<(String, OptionValue)>, methods: Seq<Method>) -> Result<
    EndpointOptionsView,
    AttributeError,
> {
    endpoint_options_upto(options, methods, options.len())
}

proof fn lemma_endpoint_err_stays(options: Seq<(String, OptionValue)>, methods: Seq<Method>, n: nat, m: nat, e: AttributeError)
    requires
        n <= m,
        endpoint_options_upto(options, methods, n) == Err::<EndpointOptionsView, AttributeError>(e),
    ensures
        endpoint_options_upto(options, methods, m) == Err::<EndpointOptionsView, AttributeError>(e),
    decreases m - n,
{
    if n < m {
        lemma_endpoint_err_stays(options, methods, n, (m - 1) as nat, e);
    }
}

/// A copy of an option value.
pub fn copy_value(v: &OptionValue) -> (c: OptionValue)
    ensures
        c == *v,
{
    match v {
        OptionValue::Str(s) => OptionValue::Str(s.clone()),
        OptionValue::Expr(e) => OptionValue::Expr(*e),
    }
}

fn key_is(key: &String, name: &str) -> (b: bool)
    ensures
        b == (key@ == name@),
{
    let wanted = String::from_str(name);
    *key == wanted
}

fn has_method(ms: &Vec<Method>, m: Method) -> (b: bool)
    ensures
        b == ms@.contains(m),
{
    let mut i: usize = 0;
    while i < ms.len()
        invariant
            i <= ms@.len(),
            forall|j: int| 0 <= j < i ==> ms@[j] != m,
        decreases ms.len() - i,
    {
        if ms[i] == m {
            assert(ms@[i as int] == m);
            return true;
        }
        i = i + 1;
    }
    false
}

/// Reads the option at position `i` into `acc`: see `endpoint_step`.
fn endpoint_apply(acc: &mut EndpointOptions, i: usize, key: &String, value: &OptionValue) -> (r: Result<(), AttributeError>)
    ensures
        match r {
            Ok(_) => endpoint_step(old(acc).view(), i as nat, key@, *value) == Ok::<EndpointOptionsView, AttributeError>(final(acc).view()),
            Err(e) => endpoint_step(old(acc).view(), i as nat, key@, *value) == Err::<EndpointOptionsView, AttributeError>(e),
        },
{
    if key_is(key, "name") {
        match value {
            OptionValue::Str(s) => {
                acc.resource_name = Some(s.clone());
                Ok(())
            },
            OptionValue::Expr(_) => Err(AttributeError::ExpectsString(i)),
        }
    } else if key_is(key, "scope") {
        match value {
            OptionValue::Str(s) => {
                acc.scope = Some(s.clone());
                Ok(())
            },
            OptionValue::Expr(_) => Err(AttributeError::ExpectsString(i)),
        }
    } else if key_is(key, "domain") {
        match value {
            OptionValue::Str(s) => {
                acc.domains.push(s.clone());
                Ok(())
            },
            OptionValue::Expr(_) => Err(AttributeError::ExpectsString(i)),
        }
    } else if key_is(key, "filter") {
        if expression_ok(value) {
            acc.filters.push(copy_value(value));
            Ok(())
        } else {
            Err(AttributeError::InvalidExpression(i))
        }
    } else if key_is(key, "wrap") {
        if expression_ok(value) {
            acc.wrappers.push(copy_value(value));
            Ok(())
        } else {
            Err(AttributeError::InvalidExpression(i))
        }
    } else if key_is(key, "method") {
        match value {
            OptionValue::Str(s) => match parse_method(s.as_str()) {
                Some(m) => if has_method(&acc.methods, m) {
                    Err(AttributeError::DuplicateMethod(i))
                } else {
                    acc.methods.push(m);
                    Ok(())
                },
                None => Err(AttributeError::UnknownMethod(i)),
            },
            OptionValue::Expr(_) => Err(AttributeError::ExpectsString(i)),
        }
    } else if key_is(key, "client_trust") {
        if acc.client_trust.is_some() {
            Err(AttributeError::SpecifiedTwice(i))
        } else {
            match value {
                OptionValue::Str(s) => {
                    acc.client_trust = Some(s.clone());
                    Ok(())
                },
                OptionValue::Expr(_) => Err(AttributeError::ExpectsString(i)),
            }
        }
    } else {
        Err(AttributeError::UnknownKey(i))
    }
}

/// The methods of `ms`, each once, in the order they first come.
pub fn distinct(ms: &Vec<Method>) -> (d: Vec<Method>)
    ensures
        d@ == distinct_methods(ms@),
{
    let mut d: Vec<Method> = Vec::new();
    let mut i: usize = 0;
    while i < ms.len()
        invariant
            i <= ms@.len(),
            d@ == distinct_methods(ms@.take(i as int)),
        decreases ms.len() - i,
    {
        assert(ms@.take(i + 1 as int).drop_last() =~= ms@.take(i as int));
        if !has_method(&d, ms[i]) {
            d.push(ms[i]);
        }
        i = i + 1;
    }
    assert(ms@.take(ms@.len() as int) =~= ms@);
    d
}

/// Reads the options of an endpoint attribute, in order, for an attribute
/// standing for `methods`: see `endpoint_step`. The first refused option
/// decides the error.
pub fn endpoint_options(options: Vec<(String, OptionValue)>, methods: Vec<Method>) -> (r: Result<
    EndpointOptions,
    AttributeError,
>)
    ensures
        match r {
            Ok(o) => endpoint_options_of(options@, methods@) == Ok::<EndpointOptionsView, AttributeError>(o.view()),
            Err(e) => endpoint_options_of(options@, methods@) == Err::<EndpointOptionsView, AttributeError>(e),
        },
{
    let mut acc = EndpointOptions {
        resource_name: None,
        scope: None,
        domains: Vec::new(),
        filters: Vec::new(),
        wrappers: Vec::new(),
        client_trust: None,
        methods: distinct(&methods),
    };
    assert(acc.view() == initial_endpoint(methods@));
    let mut i: usize = 0;
    while i < options.len()
        invariant
            i <= options@.len(),
            endpoint_options_upto(options@, methods@, i as nat) == Ok::<EndpointOptionsView, AttributeError>(acc.view()),
        decreases options.len() - i,
    {
        let (key, value) = &options[i];
        match endpoint_apply(&mut acc, i, key, value) {
            Ok(_) => {},
            Err(e) => {
                proof {
                    lemma_endpoint_err_stays(options@, methods@, (i + 1) as nat, options@.len(), e);
                }
                return Err(e);
            },
        }
        i = i + 1;
    }
    Ok(acc)
}

/// The options of a WebSocket attribute.
pub struct WebSocketOptions {
    pub resource_name: Option<String>,
    pub scope: Option<String>,
    pub domains: Vec<String>,
    pub filters: Vec<OptionValue>,
    pub wrappers: Vec<OptionValue>,
    pub client_trust: Option<String>,
    pub max_message_size: Option<OptionValue>,
    pub max_frame_size: Option<OptionValue>,
    pub upgrade_timeout_ms: Option<OptionValue>,
}

/// The options of a WebSocket attribute, as values.
pub struct WebSocketOptionsView {
    pub resource_name: Option<String>,
    pub scope: Option<String>,
    pub domains: Seq<String>,
    pub filters: Seq<OptionValue>,
    pub wrappers: Seq<OptionValue>,
    pub client_trust: Option<String>,
    pub max_message_size: Option<OptionValue>,
    pub max_frame_size: Option<OptionValue>,
    pub upgrade_timeout_ms: Option<OptionValue>,
}

impl WebSocketOptions {
    pub open spec fn view(&self) -> WebSocketOptionsView {
        WebSocketOptionsView {
            resource_name: self.resource_name,
            scope: self.scope,
            domains: self.domains@,
            filters: self.filters@,
            wrappers: self.wrappers@,
            client_trust: self.client_trust,
            max_message_size: self.max_message_size,
            max_frame_size: self.max_frame_size,
            upgrade_timeout_ms: self.upgrade_timeout_ms,
        }
    }
}

/// The WebSocket options before any option is read.
pub open spec fn initial_websocket() -> WebSocketOptionsView {
    WebSocketOptionsView {
        resource_name: None,
        scope: None,
        domains: Seq::empty(),
        filters: Seq::empty(),
        wrappers: Seq::empty(),
        client_trust: None,
        max_message_size: None,
        max_frame_size: None,
        upgrade_timeout_ms: None,
    }
}

/// Reading the option at position `i` of a WebSocket attribute: `name`,
/// `scope`, `domain`, `filter`, `wrap` and `client_trust` as for an
/// endpoint; `max_message_size`, `max_frame_size` and `upgrade_timeout_ms`
/// take any value, each once; any other key, `method` among them, is refused.
pub open spec fn websocket_step(acc: WebSocketOptionsView, i: nat, key: Seq<char>, value: OptionValue) -> Result<
    WebSocketOptionsView,
    AttributeError,
> {
    if key == "name"@ {
        match value {
            OptionValue::Str(s) => Ok(WebSocketOptionsView { resource_name: Some(s), ..acc }),
            OptionValue::Expr(_) => Err(AttributeError::ExpectsString(i as usize)),
        }
    } else if key == "scope"@ {
        match value {
            OptionValue::Str(s) => Ok(WebSocketOptionsView { scope: Some(s), ..acc }),
            OptionValue::Expr(_) => Err(AttributeError::ExpectsString(i as usize)),
        }
    } else if key == "domain"@ {
        match value {
            OptionValue::Str(s) => Ok(WebSocketOptionsView { domains: acc.domains.push(s), ..acc }),
            OptionValue::Expr(_) => Err(AttributeError::ExpectsString(i as usize)),
        }
    } else if key == "filter"@ {
        if value_parses(value) {
            Ok(WebSocketOptionsView { filters: acc.filters.push(value), ..acc })
        } else {
            Err(AttributeError::InvalidExpression(i as usize))
        }
    } else if key == "wrap"@ {
        if value_parses(value) {
            Ok(WebSocketOptionsView { wrappers: acc.wrappers.push(value), ..acc })
        } else {
            Err(AttributeError::InvalidExpression(i as usize))
        }
    } else if key == "client_trust"@ {
        if acc.client_trust is Some {
            Err(AttributeError::SpecifiedTwice(i as usize))
        } else {
            match value {
                OptionValue::Str(s) => Ok(WebSocketOptionsView { client_trust: Some(s), ..acc }),
                OptionValue::Expr(_) => Err(AttributeError::ExpectsString(i as usize)),
            }
        }
    } else if key == "max_message_size"@ {
        if acc.max_message_size is Some {
            Err(AttributeError::SpecifiedTwice(i as usize))
        } else {
            Ok(WebSocketOptionsView { max_message_size: Some(value), ..acc })
        }
    } else if key == "max_frame_size"@ {
        if acc.max_frame_size is Some {
            Err(AttributeError::SpecifiedTwice(i as usize))
        } else {
            Ok(WebSocketOptionsView { max_frame_size: Some(value), ..acc })
        }
    } else if key == "upgrade_timeout_ms"@ {
        if acc.upgrade_timeout_ms is Some {
            Err(AttributeError::SpecifiedTwice(i as usize))
        } else {
            Ok(WebSocketOptionsView { upgrade_timeout_ms: Some(value), ..acc })
        }
    } else {
        Err(AttributeError::UnknownKey(i as usize))
    }
}

/// Reading the first `n` options of a WebSocket attribute, in order; the
/// first refusal stands.
pub open spec fn websocket_options_upto(options: Seq<(String, OptionValue)>, n: nat) -> Result<
    WebSocketOptionsView,
    AttributeError,
>
    decreases n,
{
    if n == 0 {
        Ok(initial_websocket())
    } else {
        match websocket_options_upto(options, (n - 1) as nat) {
            Ok(acc) => websocket_step(acc, (n - 1) as nat, options[n - 1].0@, options[n - 1].1),
            Err(e) => Err(e),
        }
    }
}

/// The WebSocket options that `options` give.
pub open spec fn websocket_options_of(options: Seq<(String, OptionValue)>) -> Result<WebSocketOptionsView, AttributeError> {
    websocket_options_upto(options, options.len())
}

proof fn lemma_websocket_err_stays(options: Seq<(String, OptionValue)>, n: nat, m: nat, e: AttributeError)
    requires
        n <= m,
        websocket_options_upto(options, n) == Err::<WebSocketOptionsView, AttributeError>(e),
    ensures
        websocket_options_upto(options, m) == Err::<WebSocketOptionsView, AttributeError>(e),
    decreases m - n,
{
    if n < m {
        lemma_websocket_err_stays(options, n, (m - 1) as nat, e);
    }
}

/// Sets a once-only option, naming the position of a second one.
fn set_option_once(target: &mut Option<OptionValue>, value: &OptionValue, i: usize) -> (r: Result<(), AttributeError>)
    ensures
        *old(target) is Some ==> r == Err::<(), AttributeError>(AttributeError::SpecifiedTwice(i)) && *final(target)
            == *old(target),
        *old(target) is None ==> r is Ok && *final(target) == Some(*value),
{
    match set_once(target, copy_value(value)) {
        Ok(()) => Ok(()),
        Err(OptionError::SpecifiedTwice) => Err(AttributeError::SpecifiedTwice(i)),
    }
}

/// Reads the option at position `i` into `acc`: see `websocket_step`.
fn websocket_apply(acc: &mut WebSocketOptions, i: usize, key: &String, value: &OptionValue) -> (r: Result<(), AttributeError>)
    ensures
        match r {
            Ok(_) => websocket_step(old(acc).view(), i as nat, key@, *value) == Ok::<WebSocketOptionsView, AttributeError>(final(acc).view()),
            Err(e) => websocket_step(old(acc).view(), i as nat, key@, *value) == Err::<WebSocketOptionsView, AttributeError>(e),
        },
{
    if key_is(key, "name") {
        match value {
            OptionValue::Str(s) => {
                acc.resource_name = Some(s.clone());
                Ok(())
            },
            OptionValue::Expr(_) => Err(AttributeError::ExpectsString(i)),
        }
    } else if key_is(key, "scope") {
        match value {
            OptionValue::Str(s) => {
                acc.scope = Some(s.clone());
                Ok(())
            },
            OptionValue::Expr(_) => Err(AttributeError::ExpectsString(i)),
        }
    } else if key_is(key, "domain") {
        match value {
            OptionValue::Str(s) => {
                acc.domains.push(s.clone());
                Ok(())
            },
            OptionValue::Expr(_) => Err(AttributeError::ExpectsString(i)),
        }
    } else if key_is(key, "filter") {
        if expression_ok(value) {
            acc.filters.push(copy_value(value));
            Ok(())
        } else {
            Err(AttributeError::InvalidExpression(i))
        }
    } else if key_is(key, "wrap") {
        if expression_ok(value) {
            acc.wrappers.push(copy_value(value));
            Ok(())
        } else {
            Err(AttributeError::InvalidExpression(i))
        }
    } else if key_is(key, "client_trust") {
        if acc.client_trust.is_some() {
            Err(AttributeError::SpecifiedTwice(i))
        } else {
            match value {
                OptionValue::Str(s) => {
                    acc.client_trust = Some(s.clone());
                    Ok(())
                },
                OptionValue::Expr(_) => Err(AttributeError::ExpectsString(i)),
            }
        }
    } else if key_is(key, "max_message_size") {
        set_option_once(&mut acc.max_message_size, value, i)
    } else if key_is(key, "max_frame_size") {
        set_option_once(&mut acc.max_frame_size, value, i)
    } else if key_is(key, "upgrade_timeout_ms") {
        set_option_once(&mut acc.upgrade_timeout_ms, value, i)
    } else {
        Err(AttributeError::UnknownKey(i))
    }
}

/// Reads the options of a WebSocket attribute, in order: see
/// `websocket_step`. The first refused option decides the error.
pub fn websocket_options(options: Vec<(String, OptionValue)>) -> (r: Result<WebSocketOptions, AttributeError>)
    ensures
        match r {
            Ok(o) => websocket_options_of(options@) == Ok::<WebSocketOptionsView, AttributeError>(o.view()),
            Err(e) => websocket_options_of(options@) == Err::<WebSocketOptionsView, AttributeError>(e),
        },
{
    let mut acc = WebSocketOptions {
        resource_name: None,
        scope: None,
        domains: Vec::new(),
        filters: Vec::new(),
        wrappers: Vec::new(),
        client_trust: None,
        max_message_size: None,
        max_frame_size: None,
        upgrade_timeout_ms: None,
    };
    assert(acc.view() == initial_websocket());
    let mut i: usize = 0;
    while i < options.len()
        invariant
            i <= options@.len(),
            websocket_options_upto(options@, i as nat) == Ok::<WebSocketOptionsView, AttributeError>(acc.view()),
        decreases options.len() - i,
    {
        let (key, value) = &options[i];
        match websocket_apply(&mut acc, i, key, value) {
            Ok(_) => {},
            Err(e) => {
                proof {
                    lemma_websocket_err_stays(options@, (i + 1) as nat, options@.len(), e);
                }
                return Err(e);
            },
        }
        i = i + 1;
    }
    Ok(acc)
}

/// An argument of a handler function, as far as the attributes look at it.
pub enum ArgShape {
    /// `self`, in any form.
    Receiver,
    /// A plain binding `name: ty`.
    Ident(String, TypeShape),
    /// Any other pattern, such as a tuple or a struct pattern.
    Pattern,
}

/// The signature of a handler function, as far as the attributes look at it.
pub struct FnShape {
    /// How many generic parameters (lifetimes, types, constants) it declares.
    pub generic_params: usize,
    /// Whether it declares a return type.
    pub has_return: bool,
    pub args: Vec<ArgShape>,
}

/// Why a handler function cannot stand behind its attribute; each error
/// about an argument gives the argument's position.
#[derive(Clone, Copy, PartialEq, Eq, Structural, Debug)]
pub enum ShapeError {
    /// The endpoint answers no method.
    MissingMethod,
    /// The function declares no return type.
    NoReturnType,
    /// A WebSocket handler declares generic parameters.
    GenericFunction,
    /// An endpoint handler declares generic parameters: it cannot be
    /// registered by itself, only as a concrete type by hand.
    GenericEndpoint,
    /// An argument is bound by a pattern other than a plain name.
    UnsupportedPattern(usize),
    /// A WebSocket handler takes the request headers by reference; it
    /// receives them owned.
    BorrowedRequestHeaders(usize),
    /// A WebSocket handler asks for the response headers.
    ResponseHeaders(usize),
    /// A WebSocket handler takes another argument by reference; its
    /// arguments must be owned, as the upgrade runs in a task of its own.
    BorrowedParameter(usize),
}

/// The first argument from position `i` on that is bound by a pattern.
pub open spec fn first_pattern_from(args: Seq<ArgShape>, i: nat) -> Option<ShapeError>
    decreases args.len() - i,
{
    if i >= args.len() {
        None
    } else if args[i as int] is Pattern {
        Some(ShapeError::UnsupportedPattern(i as usize))
    } else {
        first_pattern_from(args, i + 1)
    }
}

/// What refuses an endpoint handler answering `method_count` methods: no
/// method, then no return type, then the first argument bound by a pattern,
/// then generic parameters.
pub open spec fn endpoint_shape_error_of(method_count: nat, f: FnShape) -> Option<ShapeError> {
    if method_count == 0 {
        Some(ShapeError::MissingMethod)
    } else if !f.has_return {
        Some(ShapeError::NoReturnType)
    } else if first_pattern_from(f.args@, 0) is Some {
        first_pattern_from(f.args@, 0)
    } else if f.generic_params > 0 {
        Some(ShapeError::GenericEndpoint)
    } else {
        None
    }
}

/// Whether `name` is among the path variables.
pub open spec fn is_path_var(path_vars: Seq<String>, name: Seq<char>) -> bool {
    exists|j: int| 0 <= j < path_vars.len() && path_vars[j]@ == name
}

/// What refuses a WebSocket handler's argument of type `ty` at position `i`
/// that is no path variable: a reference to a path whose last segment is
/// `RequestHeaders` or `ResponseHeaders`, or any other reference.
pub open spec fn borrowed_error(ty: TypeShape, i: nat) -> Option<ShapeError> {
    match ty {
        TypeShape::Reference(inner) => match *inner {
            TypeShape::Path(segs) => if last_ident(segs@) == Some("RequestHeaders"@) {
                Some(ShapeError::BorrowedRequestHeaders(i as usize))
            } else if last_ident(segs@) == Some("ResponseHeaders"@) {
                Some(ShapeError::ResponseHeaders(i as usize))
            } else {
                Some(ShapeError::BorrowedParameter(i as usize))
            },
            _ => Some(ShapeError::BorrowedParameter(i as usize)),
        },
        _ => None,
    }
}

/// What refuses the WebSocket handler argument `a` at position `i`.
pub open spec fn websocket_arg_error(a: ArgShape, i: nat, path_vars: Seq<String>) -> Option<ShapeError> {
    match a {
        ArgShape::Receiver => None,
        ArgShape::Pattern => Some(ShapeError::UnsupportedPattern(i as usize)),
        ArgShape::Ident(name, ty) => if is_path_var(path_vars, name@) {
            None
        } else {
            borrowed_error(ty, i)
        },
    }
}

/// The first refused WebSocket handler argument from position `i` on.
pub open spec fn websocket_args_error_from(args: Seq<ArgShape>, path_vars: Seq<String>, i: nat) -> Option<ShapeError>
    decreases args.len() - i,
{
    if i >= args.len() {
        None
    } else {
        match websocket_arg_error(args[i as int], i, path_vars) {
            Some(e) => Some(e),
            None => websocket_args_error_from(args, path_vars, i + 1),
        }
    }
}

/// What refuses a WebSocket handler on a route with variables `path_vars`:
/// generic parameters, then no return type, then the first refused argument.
pub open spec fn websocket_shape_error_of(f: FnShape, path_vars: Seq<String>) -> Option<ShapeError> {
    if f.generic_params > 0 {
        Some(ShapeError::GenericFunction)
    } else if !f.has_return {
        Some(ShapeError::NoReturnType)
    } else {
        websocket_args_error_from(f.args@, path_vars, 0)
    }
}

/// Checks an endpoint handler answering `methods` (those of its options):
/// see
/// `endpoint_shape_error_of`.
pub fn endpoint_shape_error(f: &FnShape, methods: &Vec<Method>) -> (e: Option<ShapeError>)
    ensures
        e == endpoint_shape_error_of(methods@.len(), *f),
{
    if methods.len() == 0 {
        return Some(ShapeError::MissingMethod);
    }
    if !f.has_return {
        return Some(ShapeError::NoReturnType);
    }
    let mut i: usize = 0;
    while i < f.args.len()
        invariant
            i <= f.args@.len(),
            methods@.len() > 0,
            f.has_return,
            first_pattern_from(f.args@, 0) == first_pattern_from(f.args@, i as nat),
        decreases f.args.len() - i,
    {
        match &f.args[i] {
            ArgShape::Pattern => {
                assert(f.args@[i as int] is Pattern);
                return Some(ShapeError::UnsupportedPattern(i));
            },
            _ => {},
        }
        i = i + 1;
    }
    if f.generic_params > 0 {
        return Some(ShapeError::GenericEndpoint);
    }
    None
}

fn path_var(path_vars: &Vec<String>, name: &String) -> (b: bool)
    ensures
        b == is_path_var(path_vars@, name@),
{
    let mut j: usize = 0;
    while j < path_vars.len()
        invariant
            j <= path_vars@.len(),
            forall|k: int| 0 <= k < j ==> path_vars@[k]@ != name@,
        decreases path_vars.len() - j,
    {
        if path_vars[j] == *name {
            return true;
        }
        j = j + 1;
    }
    false
}

fn last_ident_is(segs: &Vec<TypeSegment>, name: &str) -> (b: bool)
    ensures
        b == (last_ident(segs@) == Some(name@)),
{
    if segs.len() == 0 {
        return false;
    }
    key_is(&segs[segs.len() - 1].ident, name)
}

fn borrowed_arg_error(ty: &TypeShape, i: usize) -> (e: Option<ShapeError>)
    ensures
        e == borrowed_error(*ty, i as nat),
{
    match ty {
        TypeShape::Reference(inner) => match &**inner {
            TypeShape::Path(segs) => if last_ident_is(segs, "RequestHeaders") {
                Some(ShapeError::BorrowedRequestHeaders(i))
            } else if last_ident_is(segs, "ResponseHeaders") {
                Some(ShapeError::ResponseHeaders(i))
            } else {
                Some(ShapeError::BorrowedParameter(i))
            },
            _ => Some(ShapeError::BorrowedParameter(i)),
        },
        _ => None,
    }
}

/// Checks a WebSocket handler on a route with variables `path_vars`: see
/// `websocket_shape_error_of`.
pub fn websocket_shape_error(f: &FnShape, path_vars: &Vec<String>) -> (e: Option<ShapeError>)
    ensures
        e == websocket_shape_error_of(*f, path_vars@),
{
    if f.generic_params > 0 {
        return Some(ShapeError::GenericFunction);
    }
    if !f.has_return {
        return Some(ShapeError::NoReturnType);
    }
    let mut i: usize = 0;
    while i < f.args.len()
        invariant
            i <= f.args@.len(),
            f.generic_params == 0,
            f.has_return,
            websocket_args_error_from(f.args@, path_vars@, 0) == websocket_args_error_from(f.args@, path_vars@, i as nat),
        decreases f.args.len() - i,
    {
        let err = match &f.args[i] {
            ArgShape::Receiver => None,
            ArgShape::Pattern => Some(ShapeError::UnsupportedPattern(i)),
            ArgShape::Ident(name, ty) => if path_var(path_vars, name) {
                None
            } else {
                borrowed_arg_error(ty, i)
            },
        };
        assert(err == websocket_arg_error(f.args@[i as int], i as nat, path_vars@));
        if err.is_some() {
            assert(websocket_args_error_from(f.args@, path_vars@, i as nat) == err);
            return err;
        }
        i = i + 1;
    }
    None
}

/// Where a WebSocket handler's argument comes from.
#[derive(Debug, PartialEq, Eq)]
pub enum ArgSource {
    /// The route variable of this name.
    PathVariable(String),
    /// A copy of the request's headers.
    RequestHeaders,
    /// The connection's WebSocket.
    WebSocket,
    /// The peers connected to the route.
    Peers,
    /// Extracted from the request, by the argument type's own rule.
    FromRequest,
}

/// Where the WebSocket handler argument `a` comes from: a route variable by
/// its name; else, by the last segment of its type's path, a copy of the
/// request headers, the WebSocket or the peers; else extracted from the
/// request. A receiver, or an argument the handler's check refuses, takes
/// no place.
pub open spec fn websocket_source(a: ArgShape, path_vars: Seq<String>) -> Option<ArgSource> {
    match a {
        ArgShape::Ident(name, ty) => if is_path_var(path_vars, name@) {
            Some(ArgSource::PathVariable(name))
        } else {
            match ty {
                TypeShape::Path(segs) => if last_ident(segs@) == Some("RequestHeaders"@) {
                    Some(ArgSource::RequestHeaders)
                } else if last_ident(segs@) == Some("WebSocket"@) {
                    Some(ArgSource::WebSocket)
                } else if last_ident(segs@) == Some("Peers"@) {
                    Some(ArgSource::Peers)
                } else {
                    Some(ArgSource::FromRequest)
                },
                TypeShape::Reference(_) => None,
                _ => Some(ArgSource::FromRequest),
            }
        },
        _ => None,
    }
}

/// The sources of the first `n` arguments, in order, receivers left out.
pub open spec fn websocket_plan_upto(args: Seq<ArgShape>, path_vars: Seq<String>, n: nat) -> Seq<ArgSource>
    decreases n,
{
    if n == 0 || n > args.len() {
        Seq::empty()
    } else {
        let before = websocket_plan_upto(args, path_vars, (n - 1) as nat);
        match websocket_source(args[n - 1], path_vars) {
            Some(src) => before.push(src),
            None => before,
        }
    }
}

/// Where each argument of a WebSocket handler comes from, in order.
pub open spec fn websocket_plan_of(args: Seq<ArgShape>, path_vars: Seq<String>) -> Seq<ArgSource> {
    websocket_plan_upto(args, path_vars, args.len())
}

fn source_of(a: &ArgShape, path_vars: &Vec<String>) -> (src: Option<ArgSource>)
    ensures
        src == websocket_source(*a, path_vars@),
{
    match a {
        ArgShape::Ident(name, ty) => if path_var(path_vars, name) {
            Some(ArgSource::PathVariable(name.clone()))
        } else {
            match ty {
                TypeShape::Path(segs) => if last_ident_is(segs, "RequestHeaders") {
                    Some(ArgSource::RequestHeaders)
                } else if last_ident_is(segs, "WebSocket") {
                    Some(ArgSource::WebSocket)
                } else if last_ident_is(segs, "Peers") {
                    Some(ArgSource::Peers)
                } else {
                    Some(ArgSource::FromRequest)
                },
                TypeShape::Reference(_) => None,
                _ => Some(ArgSource::FromRequest),
            }
        },
        _ => None,
    }
}

/// Where each argument of a WebSocket handler on a route with variables
/// `path_vars` comes from: see `websocket_source`.
pub fn websocket_plan(f: &FnShape, path_vars: &Vec<String>) -> (plan: Vec<ArgSource>)
    ensures
        plan@ == websocket_plan_of(f.args@, path_vars@),
{
    let mut plan: Vec<ArgSource> = Vec::new();
    let mut i: usize = 0;
    while i < f.args.len()
        invariant
            i <= f.args@.len(),
            plan@ == websocket_plan_upto(f.args@, path_vars@, i as nat),
        decreases f.args.len() - i,
    {
        match source_of(&f.args[i], path_vars) {
            Some(src) => plan.push(src),
            None => {},
        }
        i = i + 1;
    }
    plan
}

/// Why an attributed handler is refused: by its options, or by its
/// signature.
#[derive(Clone, Copy, PartialEq, Eq, Structural, Debug)]
pub enum HandlerError {
    Attribute(AttributeError),
    Shape(ShapeError),
}

/// An endpoint handler with signature `f` under an attribute standing for
/// `methods` with `options`: the options are read first, then the
/// signature is checked against the methods they give.
pub open spec fn endpoint_of(options: Seq<(String, OptionValue)>, methods: Seq<Method>, f: FnShape) -> Result<
    EndpointOptionsView,
    HandlerError,
> {
    match endpoint_options_of(options, methods) {
        Ok(o) => match endpoint_shape_error_of(o.methods.len(), f) {
            Some(e) => Err(HandlerError::Shape(e)),
            None => Ok(o),
        },
        Err(e) => Err(HandlerError::Attribute(e)),
    }
}

/// A WebSocket handler with signature `f` on a route with variables
/// `path_vars`, under an attribute with `options`: the options are read
/// first, then the signature is checked.
pub open spec fn websocket_route_of(options: Seq<(String, OptionValue)>, path_vars: Seq<String>, f: FnShape) -> Result<
    WebSocketOptionsView,
    HandlerError,
> {
    match websocket_options_of(options) {
        Ok(o) => match websocket_shape_error_of(f, path_vars) {
            Some(e) => Err(HandlerError::Shape(e)),
            None => Ok(o),
        },
        Err(e) => Err(HandlerError::Attribute(e)),
    }
}

/// Reads an endpoint attribute and checks its handler: see `endpoint_of`.
pub fn endpoint(options: Vec<(String, OptionValue)>, methods: Vec<Method>, f: &FnShape) -> (r: Result<
    EndpointOptions,
    HandlerError,
>)
    ensures
        match r {
            Ok(o) => endpoint_of(options@, methods@, *f) == Ok::<EndpointOptionsView, HandlerError>(o.view()),
            Err(e) => endpoint_of(options@, methods@, *f) == Err::<EndpointOptionsView, HandlerError>(e),
        },
{
    match endpoint_options(options, methods) {
        Ok(o) => match endpoint_shape_error(f, &o.methods) {
            Some(e) => Err(HandlerError::Shape(e)),
            None => Ok(o),
        },
        Err(e) => Err(HandlerError::Attribute(e)),
    }
}

/// Reads a WebSocket attribute and checks its handler: see
/// `websocket_route_of`.
pub fn websocket_route(options: Vec<(String, OptionValue)>, path_vars: &Vec<String>, f: &FnShape) -> (r: Result<
    WebSocketOptions,
    HandlerError,
>)
    ensures
        match r {
            Ok(o) => websocket_route_of(options@, path_vars@, *f) == Ok::<WebSocketOptionsView, HandlerError>(o.view()),
            Err(e) => websocket_route_of(options@, path_vars@, *f) == Err::<WebSocketOptionsView, HandlerError>(e),
        },
{
    match websocket_options(options) {
        Ok(o) => match websocket_shape_error(f, path_vars) {
            Some(e) => Err(HandlerError::Shape(e)),
            None => Ok(o),
        },
        Err(e) => Err(HandlerError::Attribute(e)),
    }
}

/// Reading one more option after options that were accepted: `name`,
/// `scope` and `client_trust` (the first time) set their field to the
/// string given, `domain` appends it, `filter` and `wrap` append a value
/// that stands for an expression, and `method` appends the method a string
/// names where it is not there yet; a string key takes no other value, a
/// repeated method or `client_trust` is refused, a method name that names
/// no method is refused, a `filter` or `wrap` string that is no expression
/// is refused, any other key is refused; each refusal names the position of
/// the new option. Once an option is refused, no later one changes that.
pub proof fn law_endpoint_option_keys(
    options: Seq<(String, OptionValue)>,
    methods: Seq<Method>,
    key: String,
    value: OptionValue,
)
    ensures
        ({
            let next = endpoint_options_of(options.push((key, value)), methods);
            let i = options.len() as usize;
            match endpoint_options_of(options, methods) {
                Err(e) => next == Err::<EndpointOptionsView, AttributeError>(e),
                Ok(acc) => {
                    &&& (key@ == "name"@ || key@ == "scope"@ || key@ == "domain"@ || key@ == "method"@)
                        && value is Expr ==> next == Err::<EndpointOptionsView, AttributeError>(
                        AttributeError::ExpectsString(i),
                    )
                    &&& key@ == "name"@ && value is Str ==> next == Ok::<EndpointOptionsView, AttributeError>(
                        EndpointOptionsView { resource_name: Some(value->Str_0), ..acc },
                    )
                    &&& key@ == "scope"@ && value is Str ==> next == Ok::<EndpointOptionsView, AttributeError>(
                        EndpointOptionsView { scope: Some(value->Str_0), ..acc },
                    )
                    &&& key@ == "domain"@ && value is Str ==> next == Ok::<EndpointOptionsView, AttributeError>(
                        EndpointOptionsView { domains: acc.domains.push(value->Str_0), ..acc },
                    )
                    &&& key@ == "client_trust"@ && acc.client_trust is Some ==> next == Err::<
                        EndpointOptionsView,
                        AttributeError,
                    >(AttributeError::SpecifiedTwice(i))
                    &&& key@ == "client_trust"@ && acc.client_trust is None && value is Str ==> next == Ok::<
                        EndpointOptionsView,
                        AttributeError,
                    >(EndpointOptionsView { client_trust: Some(value->Str_0), ..acc })
                    &&& key@ == "client_trust"@ && acc.client_trust is None && value is Expr ==> next == Err::<
                        EndpointOptionsView,
                        AttributeError,
                    >(AttributeError::ExpectsString(i))
                    &&& key@ == "filter"@ && value_parses(value) ==> next == Ok::<EndpointOptionsView, AttributeError>(
                        EndpointOptionsView { filters: acc.filters.push(value), ..acc },
                    )
                    &&& key@ == "wrap"@ && value_parses(value) ==> next == Ok::<EndpointOptionsView, AttributeError>(
                        EndpointOptionsView { wrappers: acc.wrappers.push(value), ..acc },
                    )
                    &&& (key@ == "filter"@ || key@ == "wrap"@) && !value_parses(value) ==> next == Err::<
                        EndpointOptionsView,
                        AttributeError,
                    >(AttributeError::InvalidExpression(i))
                    &&& key@ == "method"@ && value is Str && method_named(value->Str_0@) is None ==> next == Err::<
                        EndpointOptionsView,
                        AttributeError,
                    >(AttributeError::UnknownMethod(i))
                    &&& key@ == "method"@ && value is Str && method_named(value->Str_0@) is Some ==> next == (
                    if acc.methods.contains(method_named(value->Str_0@)->0) {
                        Err::<EndpointOptionsView, AttributeError>(AttributeError::DuplicateMethod(i))
                    } else {
                        Ok::<EndpointOptionsView, AttributeError>(
                            EndpointOptionsView { methods: acc.methods.push(method_named(value->Str_0@)->0), ..acc },
                        )
                    })
                    &&& !(key@ == "name"@ || key@ == "scope"@ || key@ == "domain"@ || key@ == "filter"@ || key@
                        == "wrap"@ || key@ == "method"@ || key@ == "client_trust"@) ==> next == Err::<
                        EndpointOptionsView,
                        AttributeError,
                    >(AttributeError::UnknownKey(i))
                },
            }
        }),
{
    reveal_strlit("name");
    reveal_strlit("scope");
    reveal_strlit("domain");
    reveal_strlit("filter");
    reveal_strlit("wrap");
    reveal_strlit("method");
    reveal_strlit("client_trust");
    let all = options.push((key, value));
    assert("scope"@.len() != "name"@.len());
    assert("domain"@.len() != "name"@.len());
    assert("domain"@.len() != "scope"@.len());
    assert("filter"@.len() != "name"@.len());
    assert("filter"@.len() != "scope"@.len());
    assert("filter"@[0] != "domain"@[0]);
    assert("wrap"@[0] != "name"@[0]);
    assert("wrap"@.len() != "scope"@.len());
    assert("wrap"@.len() != "domain"@.len());
    assert("wrap"@.len() != "filter"@.len());
    assert("method"@.len() != "name"@.len());
    assert("method"@.len() != "scope"@.len());
    assert("method"@[0] != "domain"@[0]);
    assert("method"@[0] != "filter"@[0]);
    assert("method"@.len() != "wrap"@.len());
    assert("client_trust"@.len() != "name"@.len());
    assert("client_trust"@.len() != "scope"@.len());
    assert("client_trust"@.len() != "domain"@.len());
    assert("client_trust"@.len() != "filter"@.len());
    assert("client_trust"@.len() != "wrap"@.len());
    assert("client_trust"@.len() != "method"@.len());
    assert(all[options.len() as int] == (key, value));
    assert forall|n: nat| n <= options.len() implies endpoint_options_upto(all, methods, n) == endpoint_options_upto(
        options,
        methods,
        n,
    ) by {
        lemma_endpoint_upto_prefix(options, all, methods, n);
    }
}

proof fn lemma_endpoint_upto_prefix(
    options: Seq<(String, OptionValue)>,
    all: Seq<(String, OptionValue)>,
    methods: Seq<Method>,
    n: nat,
)
    requires
        n <= options.len(),
        options.len() <= all.len(),
        forall|j: int| 0 <= j < options.len() ==> all[j] == options[j],
    ensures
        endpoint_options_upto(all, methods, n) == endpoint_options_upto(options, methods, n),
    decreases n,
{
    if n > 0 {
        lemma_endpoint_upto_prefix(options, all, methods, (n - 1) as nat);
    }
}

/// The method each upper-case name names.
pub proof fn law_method_names()
    ensures
        method_named("GET"@) == Some(Method::Get),
        method_named("POST"@) == Some(Method::Post),
        method_named("PUT"@) == Some(Method::Put),
        method_named("DELETE"@) == Some(Method::Delete),
        method_named("HEAD"@) == Some(Method::Head),
        method_named("OPTIONS"@) == Some(Method::Options),
        method_named("CONNECT"@) == Some(Method::Connect),
        method_named("PATCH"@) == Some(Method::Patch),
        method_named("TRACE"@) == Some(Method::Trace),
{
    reveal_strlit("GET");
    reveal_strlit("POST");
    reveal_strlit("PUT");
    reveal_strlit("DELETE");
    reveal_strlit("HEAD");
    reveal_strlit("OPTIONS");
    reveal_strlit("CONNECT");
    reveal_strlit("PATCH");
    reveal_strlit("TRACE");
    assert("POST"@.len() != "GET"@.len());
    assert("PUT"@[0] != "GET"@[0]);
    assert("PUT"@.len() != "POST"@.len());
    assert("DELETE"@.len() != "GET"@.len());
    assert("DELETE"@.len() != "POST"@.len());
    assert("DELETE"@.len() != "PUT"@.len());
    assert("HEAD"@.len() != "GET"@.len());
    assert("HEAD"@[0] != "POST"@[0]);
    assert("HEAD"@.len() != "PUT"@.len());
    assert("HEAD"@.len() != "DELETE"@.len());
    assert("OPTIONS"@.len() != "GET"@.len());
    assert("OPTIONS"@.len() != "POST"@.len());
    assert("OPTIONS"@.len() != "PUT"@.len());
    assert("OPTIONS"@.len() != "DELETE"@.len());
    assert("OPTIONS"@.len() != "HEAD"@.len());
    assert("CONNECT"@.len() != "GET"@.len());
    assert("CONNECT"@.len() != "POST"@.len());
    assert("CONNECT"@.len() != "PUT"@.len());
    assert("CONNECT"@.len() != "DELETE"@.len());
    assert("CONNECT"@.len() != "HEAD"@.len());
    assert("CONNECT"@[0] != "OPTIONS"@[0]);
    assert("PATCH"@.len() != "GET"@.len());
    assert("PATCH"@.len() != "POST"@.len());
    assert("PATCH"@.len() != "PUT"@.len());
    assert("PATCH"@.len() != "DELETE"@.len());
    assert("PATCH"@.len() != "HEAD"@.len());
    assert("PATCH"@.len() != "OPTIONS"@.len());
    assert("PATCH"@.len() != "CONNECT"@.len());
    assert("TRACE"@.len() != "GET"@.len());
    assert("TRACE"@.len() != "POST"@.len());
    assert("TRACE"@.len() != "PUT"@.len());
    assert("TRACE"@.len() != "DELETE"@.len());
    assert("TRACE"@.len() != "HEAD"@.len());
    assert("TRACE"@.len() != "OPTIONS"@.len());
    assert("TRACE"@.len() != "CONNECT"@.len());
    assert("TRACE"@[0] != "PATCH"@[0]);
}

/// Reading one more option of a WebSocket attribute after options that were
/// accepted: `name`, `scope`, `domain`, `filter`, `wrap` and `client_trust`
/// as for an endpoint; `max_message_size`, `max_frame_size` and
/// `upgrade_timeout_ms` take any value the first time and are refused the
/// second; any other key, `method` among them, is refused; each refusal
/// names the position of the new option. Once an option is refused, no
/// later one changes that.
pub proof fn law_websocket_option_keys(options: Seq<(String, OptionValue)>, key: String, value: OptionValue)
    ensures
        ({
            let next = websocket_options_of(options.push((key, value)));
            let i = options.len() as usize;
            match websocket_options_of(options) {
                Err(e) => next == Err::<WebSocketOptionsView, AttributeError>(e),
                Ok(acc) => {
                    &&& (key@ == "name"@ || key@ == "scope"@ || key@ == "domain"@) && value is Expr ==> next == Err::<WebSocketOptionsView, AttributeError>(AttributeError::ExpectsString(i))
                    &&& key@ == "name"@ && value is Str ==> next == Ok::<WebSocketOptionsView, AttributeError>(WebSocketOptionsView { resource_name: Some(value->Str_0), ..acc })
                    &&& key@ == "scope"@ && value is Str ==> next == Ok::<WebSocketOptionsView, AttributeError>(WebSocketOptionsView { scope: Some(value->Str_0), ..acc })
                    &&& key@ == "domain"@ && value is Str ==> next == Ok::<WebSocketOptionsView, AttributeError>(WebSocketOptionsView { domains: acc.domains.push(value->Str_0), ..acc })
                    &&& key@ == "client_trust"@ && acc.client_trust is Some ==> next == Err::<WebSocketOptionsView, AttributeError>(AttributeError::SpecifiedTwice(i))
                    &&& key@ == "client_trust"@ && acc.client_trust is None && value is Str ==> next == Ok::<WebSocketOptionsView, AttributeError>(WebSocketOptionsView { client_trust: Some(value->Str_0), ..acc })
                    &&& key@ == "client_trust"@ && acc.client_trust is None && value is Expr ==> next == Err::<WebSocketOptionsView, AttributeError>(AttributeError::ExpectsString(i))
                    &&& key@ == "filter"@ && value_parses(value) ==> next == Ok::<WebSocketOptionsView, AttributeError>(WebSocketOptionsView { filters: acc.filters.push(value), ..acc })
                    &&& key@ == "wrap"@ && value_parses(value) ==> next == Ok::<WebSocketOptionsView, AttributeError>(WebSocketOptionsView { wrappers: acc.wrappers.push(value), ..acc })
                    &&& (key@ == "filter"@ || key@ == "wrap"@) && !value_parses(value) ==> next == Err::<WebSocketOptionsView, AttributeError>(AttributeError::InvalidExpression(i))
                    &&& key@ == "max_message_size"@ && acc.max_message_size is Some ==> next == Err::<WebSocketOptionsView, AttributeError>(AttributeError::SpecifiedTwice(i))
                    &&& key@ == "max_message_size"@ && acc.max_message_size is None ==> next == Ok::<WebSocketOptionsView, AttributeError>(WebSocketOptionsView { max_message_size: Some(value), ..acc })
                    &&& key@ == "max_frame_size"@ && acc.max_frame_size is Some ==> next == Err::<WebSocketOptionsView, AttributeError>(AttributeError::SpecifiedTwice(i))
                    &&& key@ == "max_frame_size"@ && acc.max_frame_size is None ==> next == Ok::<WebSocketOptionsView, AttributeError>(WebSocketOptionsView { max_frame_size: Some(value), ..acc })
                    &&& key@ == "upgrade_timeout_ms"@ && acc.upgrade_timeout_ms is Some ==> next == Err::<WebSocketOptionsView, AttributeError>(AttributeError::SpecifiedTwice(i))
                    &&& key@ == "upgrade_timeout_ms"@ && acc.upgrade_timeout_ms is None ==> next == Ok::<WebSocketOptionsView, AttributeError>(WebSocketOptionsView { upgrade_timeout_ms: Some(value), ..acc })
                    &&& !(key@ == "name"@ || key@ == "scope"@ || key@ == "domain"@ || key@ == "filter"@ || key@ == "wrap"@ || key@ == "client_trust"@ || key@ == "max_message_size"@ || key@ == "max_frame_size"@ || key@ == "upgrade_timeout_ms"@) ==> next == Err::<WebSocketOptionsView, AttributeError>(AttributeError::UnknownKey(i))
                },
            }
        }),
{
    reveal_strlit("name");
    reveal_strlit("scope");
    reveal_strlit("domain");
    reveal_strlit("filter");
    reveal_strlit("wrap");
    reveal_strlit("client_trust");
    reveal_strlit("max_message_size");
    reveal_strlit("max_frame_size");
    reveal_strlit("upgrade_timeout_ms");
    let all = options.push((key, value));
    assert("scope"@.len() != "name"@.len());
    assert("domain"@.len() != "name"@.len());
    assert("domain"@.len() != "scope"@.len());
    assert("filter"@.len() != "name"@.len());
    assert("filter"@.len() != "scope"@.len());
    assert("filter"@[0] != "domain"@[0]);
    assert("wrap"@[0] != "name"@[0]);
    assert("wrap"@.len() != "scope"@.len());
    assert("wrap"@.len() != "domain"@.len());
    assert("wrap"@.len() != "filter"@.len());
    assert("client_trust"@.len() != "name"@.len());
    assert("client_trust"@.len() != "scope"@.len());
    assert("client_trust"@.len() != "domain"@.len());
    assert("client_trust"@.len() != "filter"@.len());
    assert("client_trust"@.len() != "wrap"@.len());
    assert("max_message_size"@.len() != "name"@.len());
    assert("max_message_size"@.len() != "scope"@.len());
    assert("max_message_size"@.len() != "domain"@.len());
    assert("max_message_size"@.len() != "filter"@.len());
    assert("max_message_size"@.len() != "wrap"@.len());
    assert("max_message_size"@.len() != "client_trust"@.len());
    assert("max_frame_size"@.len() != "name"@.len());
    assert("max_frame_size"@.len() != "scope"@.len());
    assert("max_frame_size"@.len() != "domain"@.len());
    assert("max_frame_size"@.len() != "filter"@.len());
    assert("max_frame_size"@.len() != "wrap"@.len());
    assert("max_frame_size"@.len() != "client_trust"@.len());
    assert("max_frame_size"@.len() != "max_message_size"@.len());
    assert("upgrade_timeout_ms"@.len() != "name"@.len());
    assert("upgrade_timeout_ms"@.len() != "scope"@.len());
    assert("upgrade_timeout_ms"@.len() != "domain"@.len());
    assert("upgrade_timeout_ms"@.len() != "filter"@.len());
    assert("upgrade_timeout_ms"@.len() != "wrap"@.len());
    assert("upgrade_timeout_ms"@.len() != "client_trust"@.len());
    assert("upgrade_timeout_ms"@.len() != "max_message_size"@.len());
    assert("upgrade_timeout_ms"@.len() != "max_frame_size"@.len());
    assert(all[options.len() as int] == (key, value));
    assert forall|n: nat| n <= options.len() implies websocket_options_upto(all, n) == websocket_options_upto(
        options,
        n,
    ) by {
        lemma_websocket_upto_prefix(options, all, n);
    }
}

proof fn lemma_websocket_upto_prefix(options: Seq<(String, OptionValue)>, all: Seq<(String, OptionValue)>, n: nat)
    requires
        n <= options.len(),
        options.len() <= all.len(),
        forall|j: int| 0 <= j < options.len() ==> all[j] == options[j],
    ensures
        websocket_options_upto(all, n) == websocket_options_upto(options, n),
    decreases n,
{
    if n > 0 {
        lemma_websocket_upto_prefix(options, all, (n - 1) as nat);
    }
}

proof fn lemma_distinct_methods(ms: Seq<Method>)
    ensures
        forall|m: Method| distinct_methods(ms).contains(m) <==> ms.contains(m),
        forall|a: int, b: int|
            0 <= a < b < distinct_methods(ms).len() ==> distinct_methods(ms)[a] != distinct_methods(ms)[b],
    decreases ms.len(),
{
    if ms.len() > 0 {
        let front = ms.drop_last();
        lemma_distinct_methods(front);
        let d = distinct_methods(front);
        assert forall|m: Method| distinct_methods(ms).contains(m) <==> ms.contains(m) by {
            if ms.contains(m) {
                let k = choose|k: int| 0 <= k < ms.len() && ms[k] == m;
                if k < ms.len() - 1 {
                    assert(front[k] == m);
                    assert(front.contains(m));
                }
            }
            if front.contains(m) {
                let k = choose|k: int| 0 <= k < front.len() && front[k] == m;
                assert(ms[k] == m);
            }
            if !d.contains(ms.last()) {
                assert(d.push(ms.last())[d.len() as int] == ms.last());
                if d.push(ms.last()).contains(m) {
                    let k = choose|k: int| 0 <= k < d.len() + 1 && d.push(ms.last())[k] == m;
                    if k < d.len() {
                        assert(d[k] == m);
                    }
                }
                if d.contains(m) {
                    let k = choose|k: int| 0 <= k < d.len() && d[k] == m;
                    assert(d.push(ms.last())[k] == m);
                }
            }
            assert(ms[ms.len() - 1] == ms.last());
        }
    }
}

/// Before any option is read, an endpoint has no name, scope, domain,
/// filter, wrapper or client trust, and answers exactly the methods its
/// attribute stands for, each once.
pub proof fn law_endpoint_options_start(methods: Seq<Method>)
    ensures
        endpoint_options_of(Seq::empty(), methods) is Ok,
        ({
            let acc = endpoint_options_of(Seq::empty(), methods)->Ok_0;
            &&& acc.resource_name is None
            &&& acc.scope is None
            &&& acc.domains.len() == 0
            &&& acc.filters.len() == 0
            &&& acc.wrappers.len() == 0
            &&& acc.client_trust is None
            &&& forall|m: Method| acc.methods.contains(m) <==> methods.contains(m)
            &&& forall|a: int, b: int| 0 <= a < b < acc.methods.len() ==> acc.methods[a] != acc.methods[b]
        }),
{
    lemma_distinct_methods(methods);
}

/// Before any option is read, a WebSocket route has no name, scope,
/// domain, filter, wrapper, client trust or limits.
pub proof fn law_websocket_options_start()
    ensures
        websocket_options_of(Seq::empty()) is Ok,
        ({
            let acc = websocket_options_of(Seq::empty())->Ok_0;
            &&& acc.resource_name is None
            &&& acc.scope is None
            &&& acc.domains.len() == 0
            &&& acc.filters.len() == 0
            &&& acc.wrappers.len() == 0
            &&& acc.client_trust is None
            &&& acc.max_message_size is None
            &&& acc.max_frame_size is None
            &&& acc.upgrade_timeout_ms is None
        }),
{
}

} // verus!
