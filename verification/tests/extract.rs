use portfu::codegen::sanitize;
use portfu::extract::{is_empty_json_body, path_variable, PathError};
use portfu::router::routes::Route;

#[test]
fn path_variables_by_name() {
    let route = Route::new("/echo/{path_variable}".to_string());
    assert_eq!(path_variable(&route, "/echo/hello", "path_variable"), Ok("hello".to_string()));
    assert_eq!(path_variable(&route, "/echo/hello", "other"), Err(PathError::MissingVariable));
    let plain = Route::new("/echo".to_string());
    assert_eq!(path_variable(&plain, "/echo", "path_variable"), Err(PathError::MissingVariable));
}

#[test]
fn empty_json_bodies() {
    assert!(is_empty_json_body(b""));
    assert!(is_empty_json_body(b"{}"));
    assert!(!is_empty_json_body(b"{ }"));
    assert!(!is_empty_json_body(b"[]"));
    assert!(!is_empty_json_body(b"{\"a\":1}"));
}

#[test]
fn static_file_identifier_from_readme() {
    assert_eq!(format!("STATIC_FILE_{}", sanitize("some_sub_dir/index.json")), "STATIC_FILE_some_sub_dir_index_json");
    assert_eq!(sanitize("index.html"), "index_html");
}
