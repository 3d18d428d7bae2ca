use portfu::paths::Path;
use portfu::routes::Route as PlainRoute;
use portfu::router::routes::Route;

#[test]
fn path_parse_and_extract() {
    let path = Path::parse("/users/{id}".to_string());
    assert!(path.matches("/users/7"));
    assert_eq!(path.extract("/users/7", "id"), "7");
    assert_eq!(path.extract("/users/7", "other"), "");
    let plain = Path::parse("/health".to_string());
    assert!(plain.matches("/health"));
    assert_eq!(plain.extract("/health", "id"), "");
    assert!(Path::try_parse("/users/{id".to_string()).is_none());
}

#[test]
fn plain_routes_do_not_decode() {
    let route = PlainRoute::new("/files/{name}".to_string());
    assert!(route.matches("/files/a%20b"));
    assert_eq!(route.extract("/files/a%20b", "name"), Some("a%20b".to_string()));
    assert!(PlainRoute::try_new("/x/{".to_string()).is_none());
}

#[test]
fn route_variable_names() {
    let route = Route::new("/a/{x}/b/{y}".to_string());
    assert_eq!(route.variable_names(), vec!["x".to_string(), "y".to_string()]);
    assert!(Route::new("/a".to_string()).variable_names().is_empty());
}
