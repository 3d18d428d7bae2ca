use portfu::codegen::{
    is_known_response_type, ok_response_conversion, result_ok_type, uses_json_response_fallback, GenericArg,
    ResponseConversion, TypeSegment, TypeShape,
};

fn seg(ident: &str, args: Option<Vec<TypeShape>>) -> TypeSegment {
    TypeSegment { ident: ident.to_string(), args: args.map(|a| a.into_iter().map(GenericArg::Type).collect()) }
}

fn ty(ident: &str) -> TypeShape {
    TypeShape::Path(vec![seg(ident, None)])
}

fn generic(ident: &str, args: Vec<TypeShape>) -> TypeShape {
    TypeShape::Path(vec![seg(ident, Some(args))])
}

fn result_of(ok: TypeShape) -> Option<TypeShape> {
    Some(TypeShape::Path(vec![
        seg("std", None),
        seg("result", None),
        seg("Result", Some(vec![ok, ty("PortfuError")])),
    ]))
}

#[test]
fn serialize_return_types_use_json_response_fallback() {
    let users = generic("Vec", vec![ty("User")]);
    assert_eq!(ok_response_conversion(&result_of(users)), ResponseConversion::Json);
}

#[test]
fn known_response_return_types_keep_into_conversion() {
    assert_eq!(ok_response_conversion(&result_of(ty("String"))), ResponseConversion::Into);
    assert_eq!(ok_response_conversion(&result_of(generic("Vec", vec![ty("u8")]))), ResponseConversion::Into);
    let response = TypeShape::Path(vec![seg("portfu", None), seg("prelude", None), seg("Response", None)]);
    assert_eq!(ok_response_conversion(&result_of(response)), ResponseConversion::Into);
    let json = generic("JsonResponse", vec![generic("Vec", vec![ty("User")])]);
    assert_eq!(ok_response_conversion(&result_of(json)), ResponseConversion::Into);
}

#[test]
fn references_units_and_non_results() {
    let text = TypeShape::Reference(Box::new(ty("str")));
    assert!(!uses_json_response_fallback(&text));
    let bytes = TypeShape::Reference(Box::new(TypeShape::Slice(Box::new(ty("u8")))));
    assert!(!uses_json_response_fallback(&bytes));
    let other_ref = TypeShape::Reference(Box::new(ty("User")));
    assert!(uses_json_response_fallback(&other_ref));
    assert!(!uses_json_response_fallback(&TypeShape::Tuple(vec![])));
    assert!(uses_json_response_fallback(&TypeShape::Tuple(vec![ty("u8")])));
    assert!(uses_json_response_fallback(&TypeShape::Other));
    assert_eq!(ok_response_conversion(&Some(ty("String"))), ResponseConversion::Into);
    assert_eq!(ok_response_conversion(&None), ResponseConversion::Into);
    assert!(result_ok_type(&Some(ty("Result"))).is_none());
    assert!(!is_known_response_type(&vec![]));
}
