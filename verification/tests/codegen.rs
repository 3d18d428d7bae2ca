use portfu::codegen::{guess_content_type, index_alias, mount_route, sanitize};
use portfu::files::static_file::StaticFile;

#[test]
fn content_types_by_extension() {
    assert_eq!(guess_content_type("index.html"), "text/html; charset=utf-8");
    assert_eq!(guess_content_type("STYLE.CSS"), "text/css; charset=utf-8");
    assert_eq!(guess_content_type("app.mjs"), "application/javascript; charset=utf-8");
    assert_eq!(guess_content_type("a/b.JPEG"), "image/jpeg");
    assert_eq!(guess_content_type("module.wasm"), "application/wasm");
    assert_eq!(guess_content_type("archive.tar.gz"), "application/octet-stream");
    assert_eq!(guess_content_type("html"), "application/octet-stream");
}

#[test]
fn mount_routes() {
    assert_eq!(mount_route(""), "/{file_path}*");
    assert_eq!(mount_route("/"), "/{file_path}*");
    assert_eq!(mount_route("///"), "/{file_path}*");
    assert_eq!(mount_route("/assets/"), "/assets/{file_path}*");
    assert_eq!(mount_route("assets"), "/assets/{file_path}*");
}

#[test]
fn sanitize_paths() {
    assert_eq!(sanitize("/index.html"), "_index_html");
    assert_eq!(sanitize("a@b"), "a_at_b");
    assert_eq!(sanitize("a//b"), "a_b");
    assert_eq!(sanitize("a///b"), "a__b");
    assert_eq!(sanitize("x-1 (2)+3"), "x_1_2_3");
}

#[test]
fn static_file_content_type_header() {
    let file = StaticFile { name: "/a.txt", mime: "text/plain".to_string(), file_contents: b"hi" };
    assert_eq!(file.content_type().map(|v| v.value().to_str().unwrap().to_string()), Some("text/plain".to_string()));
    assert_eq!(file.body(), b"hi");
    let bad = StaticFile { name: "/b", mime: "text/plain\n".to_string(), file_contents: b"" };
    assert!(bad.content_type().is_none());
}

#[test]
fn options_set_once() {
    let mut target: Option<u32> = None;
    assert_eq!(portfu::codegen::set_once(&mut target, 5), Ok(()));
    assert_eq!(target, Some(5));
    assert_eq!(portfu::codegen::set_once(&mut target, 6), Err(portfu::codegen::OptionError::SpecifiedTwice));
    assert_eq!(target, Some(5));
}

#[test]
fn static_file_routes() {
    assert_eq!(portfu::codegen::file_route("css\\site.css"), "/css/site.css");
    assert_eq!(portfu::codegen::file_route("index.html"), "/index.html");
    assert_eq!(portfu::codegen::file_route(""), "/");
}

#[test]
fn static_file_content_type_keeps_the_bytes() {
    let file = StaticFile { name: "notes.txt", mime: "text/plain; charset=utf-8".to_string(), file_contents: b"hi" };
    let value = file.content_type().expect("valid header text");
    assert_eq!(value.value().as_bytes(), b"text/plain; charset=utf-8");
}

#[test]
fn index_files_are_also_served_at_their_folder() {
    assert_eq!(index_alias("/index.html"), Some("/".to_string()));
    assert_eq!(index_alias("/docs/index.html"), Some("/docs/".to_string()));
    assert_eq!(index_alias("/docs//index.html"), Some("/docs/".to_string()));
    assert_eq!(index_alias("/docs/readme.html"), None);
    assert_eq!(index_alias("/docs/myindex.html"), Some("/docs/my/".to_string()));
}
