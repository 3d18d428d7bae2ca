use portfu::router::routes::{PathSegment, Route};

#[test]
fn route_to_string_static_path_is_stable() {
    let route = Route::new("/admin/users".to_string());
    assert_eq!(route.to_string(), "/admin/users");
}

#[test]
fn route_to_string_dynamic_path_is_stable() {
    let route = Route::new("/users/{id}/role".to_string());
    assert_eq!(route.to_string(), "/users/{id}/role");
}

#[test]
fn route_to_string_multiple_dynamic_segments_are_stable() {
    let route = Route::new("/a/{x}/b/{y}/c".to_string());
    assert_eq!(route.to_string(), "/a/{x}/b/{y}/c");
}

#[test]
fn static_route_matches_only_its_path() {
    let route = Route::new("/admin/users".to_string());
    assert!(route.matches("/admin/users"));
    assert!(!route.matches("/admin/users/1"));
    assert!(!route.matches("/admin"));
    assert_eq!(route.extract("/admin/users", "id"), None);
}

#[test]
fn dynamic_route_extracts_and_decodes_parameters() {
    let route = Route::new("/users/{id}/role".to_string());
    assert!(route.matches("/users/42/role"));
    assert!(!route.matches("/users/42/other/role"));
    assert_eq!(route.extract("/users/42/role", "id"), Some("42".to_string()));
    assert_eq!(route.extract("/users/a%20b/role", "id"), Some("a b".to_string()));
    assert_eq!(route.extract("/users/a%FFb/role", "id"), Some("a%FFb".to_string()));
    assert_eq!(route.extract("/nope", "id"), None);
}

#[test]
fn segments_split_on_parameters() {
    let route = Route::new("/a/{x}/b".to_string());
    match route {
        Route::Segmented(segments, _) => {
            let texts: Vec<String> = segments
                .iter()
                .map(|s| match s {
                    PathSegment::Static(t) => format!("S:{t}"),
                    PathSegment::Variable(v) => format!("V:{}", v.name),
                })
                .collect();
            assert_eq!(texts, vec!["S:/a/", "V:x", "S:/b"]);
        }
        Route::Static(_, _) => panic!("expected segments"),
    }
}

#[test]
fn tail_parameter_takes_rest_of_path() {
    let route = Route::new("/files/{path}*".to_string());
    assert!(route.matches("/files/a/b/c.txt"));
    assert_eq!(route.extract("/files/a/b/c.txt", "path"), Some("a/b/c.txt".to_string()));
    assert_eq!(route.to_string(), "/files/{path}");
}

#[test]
fn trailing_star_matches_prefix() {
    let route = Route::new("/static*".to_string());
    assert!(route.matches("/static/app.js"));
    assert!(!route.matches("/other"));
    assert_eq!(route.to_string(), "/static*");
}

#[test]
fn malformed_and_invalid_patterns_are_refused() {
    assert!(Route::try_new("/users/{id".to_string()).is_none());
    assert!(Route::try_new("/users/{a-b}".to_string()).is_none());
    assert!(Route::try_new("/users/{id}".to_string()).is_some());
}
