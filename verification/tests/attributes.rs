use portfu::attributes::{
    endpoint, endpoint_options, endpoint_shape_error, expression_ok, parse_method, websocket_options, websocket_plan,
    websocket_route, websocket_shape_error, ArgShape, ArgSource, AttributeError, FnShape, HandlerError, Method,
    OptionValue, ShapeError,
};
use portfu::codegen::{TypeSegment, TypeShape};
use portfu::router::routes::Route;

fn opt(key: &str, value: &str) -> (String, OptionValue) {
    (key.to_string(), OptionValue::Str(value.to_string()))
}

fn expr(key: &str, id: u64) -> (String, OptionValue) {
    (key.to_string(), OptionValue::Expr(id))
}

fn path_type(segments: &[&str]) -> TypeShape {
    TypeShape::Path(segments.iter().map(|s| TypeSegment { ident: s.to_string(), args: None }).collect())
}

fn reference(inner: TypeShape) -> TypeShape {
    TypeShape::Reference(Box::new(inner))
}

fn handler(generic_params: usize, args: Vec<ArgShape>) -> FnShape {
    FnShape { generic_params, has_return: true, args }
}

#[test]
fn endpoint_args_rejects_malformed_route_without_panicking() {
    assert!(Route::try_new("/users/{id".to_string()).is_none());
}

#[test]
fn endpoint_args_reject_duplicate_method_entries() {
    let parsed = endpoint_options(vec![opt("method", "GET"), opt("method", "GET")], vec![]);
    assert_eq!(parsed.err(), Some(AttributeError::DuplicateMethod(1)));
}

#[test]
fn args_accept_scope_option() {
    let parsed = endpoint_options(vec![opt("scope", "admin"), opt("name", "users-list")], vec![Method::Get])
        .expect("options should parse");
    assert_eq!(parsed.scope.expect("scope should be set"), "admin");
}

#[test]
fn args_accept_filter_and_wrap_expressions() {
    let parsed = endpoint_options(vec![expr("filter", 0), expr("wrap", 1)], vec![Method::Get])
        .expect("options should parse");
    assert_eq!(parsed.filters.len(), 1);
    assert_eq!(parsed.wrappers.len(), 1);
}

#[test]
fn args_accept_client_trust_middleware() {
    let parsed = endpoint_options(vec![opt("client_trust", "internal-clients")], vec![Method::Post])
        .expect("options should parse");
    assert_eq!(parsed.client_trust, Some("internal-clients".to_string()));
}

#[test]
fn args_keep_filter_and_wrap_string_compat() {
    let parsed = endpoint_options(
        vec![opt("filter", "::portfu::prelude::filters::method::GET.clone()"), opt("wrap", "my_wrapper()")],
        vec![Method::Get],
    )
    .expect("options should parse");
    assert_eq!(parsed.filters.len(), 1);
    assert_eq!(parsed.wrappers.len(), 1);
}

#[test]
fn unsupported_argument_pattern_emits_compile_error() {
    let f = handler(0, vec![ArgShape::Pattern]);
    assert_eq!(endpoint(vec![], vec![Method::Get], &f).err(), Some(HandlerError::Shape(ShapeError::UnsupportedPattern(0))));
}

#[test]
fn const_generic_endpoints_no_longer_panic_during_expansion() {
    let f = handler(1, vec![ArgShape::Ident("id".to_string(), path_type(&["portfu", "prelude", "Path"]))]);
    assert_eq!(endpoint(vec![], vec![Method::Get], &f).err(), Some(HandlerError::Shape(ShapeError::GenericEndpoint)));
}

#[test]
fn websocket_websocket_args_accept_filter_and_wrap_expressions() {
    let parsed = websocket_options(vec![expr("filter", 0), expr("wrap", 1)]).expect("websocket args should parse");
    assert_eq!(parsed.filters.len(), 1);
    assert_eq!(parsed.wrappers.len(), 1);
}

#[test]
fn websocket_websocket_args_keep_filter_and_wrap_string_compat() {
    let parsed = websocket_options(vec![
        opt("filter", "::portfu::prelude::filters::method::GET.clone()"),
        opt("wrap", "my_wrapper()"),
    ])
    .expect("websocket args should parse");
    assert_eq!(parsed.filters.len(), 1);
    assert_eq!(parsed.wrappers.len(), 1);
}

#[test]
fn websocket_expansion_includes_route_limits_timeout_and_trust() {
    let f = handler(0, vec![ArgShape::Ident("websocket".to_string(), path_type(&["WebSocket"]))]);
    let route = websocket_route(
        vec![
            opt("client_trust", "public-clients"),
            expr("max_message_size", 67108864),
            expr("max_frame_size", 8388608),
            expr("upgrade_timeout_ms", 5000),
        ],
        &vec![],
        &f,
    )
    .expect("route should build");
    assert_eq!(route.client_trust, Some("public-clients".to_string()));
    assert_eq!(route.max_message_size, Some(OptionValue::Expr(67108864)));
    assert_eq!(route.max_frame_size, Some(OptionValue::Expr(8388608)));
    assert_eq!(route.upgrade_timeout_ms, Some(OptionValue::Expr(5000)));
}

#[test]
fn endpoint_options_keep_every_value_in_order() {
    let parsed = endpoint_options(
        vec![
            opt("name", "users"),
            opt("domain", "a.test"),
            opt("domain", "b.test"),
            opt("method", "POST"),
            expr("filter", 7),
        ],
        vec![Method::Get, Method::Get],
    )
    .expect("options should parse");
    assert_eq!(parsed.resource_name, Some("users".to_string()));
    assert_eq!(parsed.domains, vec!["a.test".to_string(), "b.test".to_string()]);
    assert_eq!(parsed.methods, vec![Method::Get, Method::Post]);
    assert_eq!(parsed.filters, vec![OptionValue::Expr(7)]);
    assert_eq!(parsed.scope, None);
}

#[test]
fn endpoint_options_name_each_refusal() {
    assert_eq!(endpoint_options(vec![expr("name", 0)], vec![]).err(), Some(AttributeError::ExpectsString(0)));
    assert_eq!(
        endpoint_options(vec![opt("name", "a"), opt("colour", "red")], vec![]).err(),
        Some(AttributeError::UnknownKey(1))
    );
    assert_eq!(endpoint_options(vec![opt("method", "FETCH")], vec![]).err(), Some(AttributeError::UnknownMethod(0)));
    assert_eq!(
        endpoint_options(vec![opt("client_trust", "a"), opt("client_trust", "b")], vec![]).err(),
        Some(AttributeError::SpecifiedTwice(1))
    );
    assert_eq!(endpoint_options(vec![opt("method", "GET")], vec![Method::Get]).err(), Some(AttributeError::DuplicateMethod(0)));
    assert_eq!(endpoint_options(vec![opt("max_frame_size", "1")], vec![]).err(), Some(AttributeError::UnknownKey(0)));
}

#[test]
fn websocket_options_refuse_repeated_limits_and_methods() {
    assert_eq!(
        websocket_options(vec![expr("max_frame_size", 1), expr("max_frame_size", 2)]).err(),
        Some(AttributeError::SpecifiedTwice(1))
    );
    assert_eq!(websocket_options(vec![opt("method", "GET")]).err(), Some(AttributeError::UnknownKey(0)));
    assert_eq!(websocket_options(vec![expr("scope", 3)]).err(), Some(AttributeError::ExpectsString(0)));
}

#[test]
fn methods_are_named_in_upper_case() {
    assert_eq!(parse_method("PATCH"), Some(Method::Patch));
    assert_eq!(parse_method("Patch"), None);
    assert_eq!(parse_method("OPTIONS"), Some(Method::Options));
    assert_eq!(parse_method("GETS"), None);
}

#[test]
fn endpoint_handlers_need_a_method_and_a_return_type() {
    let f = handler(0, vec![]);
    assert_eq!(endpoint_shape_error(&f, &vec![]), Some(ShapeError::MissingMethod));
    let silent = FnShape { generic_params: 0, has_return: false, args: vec![] };
    assert_eq!(endpoint_shape_error(&silent, &vec![Method::Get]), Some(ShapeError::NoReturnType));
    let borrowed = handler(0, vec![ArgShape::Receiver, ArgShape::Ident("h".to_string(), reference(path_type(&["RequestHeaders"])))]);
    assert_eq!(endpoint_shape_error(&borrowed, &vec![Method::Get]), None);
    let both = handler(2, vec![ArgShape::Receiver, ArgShape::Pattern]);
    assert_eq!(endpoint_shape_error(&both, &vec![Method::Get]), Some(ShapeError::UnsupportedPattern(1)));
}

#[test]
fn websocket_handlers_take_owned_arguments() {
    let vars = vec!["id".to_string()];
    let headers = handler(0, vec![ArgShape::Ident("h".to_string(), reference(path_type(&["portfu", "RequestHeaders"])))]);
    assert_eq!(websocket_shape_error(&headers, &vars), Some(ShapeError::BorrowedRequestHeaders(0)));
    let response = handler(0, vec![ArgShape::Receiver, ArgShape::Ident("r".to_string(), reference(path_type(&["ResponseHeaders"])))]);
    assert_eq!(websocket_shape_error(&response, &vars), Some(ShapeError::ResponseHeaders(1)));
    let other = handler(0, vec![ArgShape::Ident("s".to_string(), reference(path_type(&["str"])))]);
    assert_eq!(websocket_shape_error(&other, &vars), Some(ShapeError::BorrowedParameter(0)));
    let path_var = handler(0, vec![ArgShape::Ident("id".to_string(), reference(path_type(&["str"])))]);
    assert_eq!(websocket_shape_error(&path_var, &vars), None);
    let owned = handler(0, vec![ArgShape::Ident("h".to_string(), path_type(&["RequestHeaders"]))]);
    assert_eq!(websocket_shape_error(&owned, &vars), None);
    let generic = handler(1, vec![ArgShape::Pattern]);
    assert_eq!(websocket_shape_error(&generic, &vars), Some(ShapeError::GenericFunction));
    let pattern = handler(0, vec![ArgShape::Pattern]);
    assert_eq!(websocket_route(vec![], &vars, &pattern).err(), Some(HandlerError::Shape(ShapeError::UnsupportedPattern(0))));
}

#[test]
fn filter_and_wrap_strings_must_be_expressions() {
    assert!(expression_ok(&OptionValue::Str("my_wrapper()".to_string())));
    assert!(expression_ok(&OptionValue::Expr(0)));
    assert!(!expression_ok(&OptionValue::Str("my_wrapper(".to_string())));
    assert_eq!(
        endpoint_options(vec![opt("filter", "a.b()"), opt("wrap", "fn fn")], vec![Method::Get]).err(),
        Some(AttributeError::InvalidExpression(1))
    );
    assert_eq!(
        websocket_options(vec![opt("filter", "let")]).err(),
        Some(AttributeError::InvalidExpression(0))
    );
}

#[test]
fn websocket_arguments_come_from_their_sources() {
    let vars = vec!["room".to_string()];
    let f = handler(
        0,
        vec![
            ArgShape::Receiver,
            ArgShape::Ident("room".to_string(), path_type(&["String"])),
            ArgShape::Ident("headers".to_string(), path_type(&["portfu", "RequestHeaders"])),
            ArgShape::Ident("socket".to_string(), path_type(&["WebSocket"])),
            ArgShape::Ident("peers".to_string(), path_type(&["Peers"])),
            ArgShape::Ident("user".to_string(), path_type(&["User"])),
        ],
    );
    assert_eq!(
        websocket_plan(&f, &vars),
        vec![
            ArgSource::PathVariable("room".to_string()),
            ArgSource::RequestHeaders,
            ArgSource::WebSocket,
            ArgSource::Peers,
            ArgSource::FromRequest,
        ]
    );
}
