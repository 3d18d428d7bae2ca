use portfu::services::body::{BodyType, MutBody};
use portfu::services::request::{HeadFromHeaders, RequestType, ServiceRequest};
use portfu::services::response::{ResponseType, ServiceResponse};
use portfu::router::routes::Route;
use std::sync::Arc;

type Response = ServiceResponse<u32, &'static str, Vec<u8>>;

fn state(r: &Response) -> String {
    match r.response_type() {
        ResponseType::Stream(p, s) => format!("stream {p} {s}"),
        ResponseType::Sized(p, z) => format!("sized {p} {z:?}"),
        ResponseType::Consumed(p) => format!("consumed {p}"),
        ResponseType::Empty(p) => format!("empty {p}"),
    }
}

fn body(b: BodyType<&'static str, Vec<u8>>) -> String {
    match b {
        BodyType::Stream(s) => format!("stream {s}"),
        BodyType::Sized(z) => format!("sized {z:?}"),
        BodyType::Empty => "empty".to_string(),
    }
}

#[test]
fn response_starts_empty() {
    let r = Response::new();
    assert_eq!(state(&r), "empty 0");
}

#[test]
fn response_set_body_then_consume_gives_it_back() {
    let mut r = Response::from_state(ResponseType::Empty(7));
    r.set_body(BodyType::Sized(vec![1, 2]));
    assert_eq!(state(&r), "sized 7 [1, 2]");
    assert_eq!(body(r.consume()), "sized [1, 2]");
    assert_eq!(state(&r), "consumed 7");
    assert_eq!(body(r.consume()), "empty");
    assert_eq!(state(&r), "consumed 7");
}

#[test]
fn response_set_empty_body_keeps_head() {
    let mut r = Response::from_state(ResponseType::Stream(3, "s"));
    r.set_body(BodyType::Empty);
    assert_eq!(state(&r), "empty 3");
    assert_eq!(body(r.consume()), "empty");
    assert_eq!(state(&r), "empty 3");
}

#[test]
fn response_mut_body_consume_marks_consumed() {
    let mut r = Response::from_state(ResponseType::Empty(4));
    assert_eq!(body(MutBody::consume(&mut r)), "empty");
    assert_eq!(state(&r), "consumed 4");
    MutBody::set_body(&mut r, BodyType::Stream("x"));
    assert_eq!(state(&r), "stream 4 x");
    MutBody::set_body(&mut r, BodyType::Empty);
    assert_eq!(state(&r), "sized 4 []");
}

#[test]
fn response_into_parts() {
    let r = Response::from_state(ResponseType::Sized(9, vec![5]));
    let (p, b) = r.into_parts();
    assert_eq!(p, 9);
    assert_eq!(body(b), "sized [5]");
}

#[derive(Debug, PartialEq)]
struct Head(Vec<String>);

impl HeadFromHeaders<Vec<String>> for Head {
    fn from_headers(headers: Vec<String>) -> Self {
        Head(headers)
    }
}

type Request = ServiceRequest<Head, &'static str, Vec<u8>, Vec<String>>;

fn route() -> Arc<Route> {
    Arc::new(Route::new("/x".to_string()))
}

fn request_state(r: &Request) -> String {
    match r.request_type() {
        RequestType::Stream(p, s) => format!("stream {p:?} {s}"),
        RequestType::Sized(p, z) => format!("sized {p:?} {z:?}"),
        RequestType::Consumed(p) => format!("consumed {p:?}"),
        RequestType::Empty(h) => format!("empty {h:?}"),
    }
}

#[test]
fn request_consume_takes_body_once() {
    let mut r = Request::new(RequestType::Stream(Head(vec![]), "s"), route());
    assert_eq!(body(r.consume()), "stream s");
    assert_eq!(request_state(&r), "consumed Head([])");
    assert_eq!(body(r.consume()), "empty");
    assert_eq!(r.route().to_string(), "/x");
    assert!(r.parts().is_some());
}

#[test]
fn request_mut_body_on_headers_only() {
    let mut r = Request::new(RequestType::Empty(vec!["a".to_string()]), route());
    assert!(r.parts().is_none());
    MutBody::set_body(&mut r, BodyType::Empty);
    assert_eq!(request_state(&r), "sized Head([\"a\"]) []");
    let mut r = Request::new(RequestType::Empty(vec!["a".to_string()]), route());
    assert_eq!(body(MutBody::consume(&mut r)), "empty");
    assert_eq!(request_state(&r), "empty []");
}
