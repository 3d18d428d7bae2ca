//! What handlers take from a request: a path parameter by name, and
//! whether a JSON body holds anything.
use crate::pattern::{regex_capture, regex_is_match};
use crate::router::routes::{decoded_or_raw, Route, RouteView};
use vstd::prelude::*;

verus! {

/// Why a path parameter could not be taken.
#[derive(Clone, Copy, PartialEq, Eq, Structural, Debug)]
pub enum PathError {
    /// The route has no parameter of that name, or the path gives it no value.
    MissingVariable,
}

/// The value of the route's parameter `name` in the request path `path`;
/// an error where the route has no parameters or the path gives none.
pub fn path_variable(route: &Route, path: &str, name: &str) -> (value: Result<String, PathError>)
    ensures
        match route.view() {
            RouteView::Static(_) => value == Err::<String, PathError>(PathError::MissingVariable),
            RouteView::Segmented(_) => match regex_capture(route.regex_source(), path@, name@) {
                Some(raw) => value matches Ok(v) && v@ == decoded_or_raw(raw),
                None => value == Err::<String, PathError>(PathError::MissingVariable),
            },
        },
        value is Ok ==> regex_is_match(route.regex_source(), path@),
{
    match route.extract(path, name) {
        Some(v) => Ok(v),
        None => Err(PathError::MissingVariable),
    }
}

/// Whether a JSON body stands for no value: it is empty or is `{}`.
pub open spec fn json_body_empty(body: Seq<u8>) -> bool {
    body.len() == 0 || body == seq![123u8, 125u8]
}

/// Whether a JSON body stands for no value: see `json_body_empty`.
pub fn is_empty_json_body(body: &[u8]) -> (empty: bool)
    ensures
        empty == json_body_empty(body@),
{
    if body.len() == 0 {
        return true;
    }
    let braces = body.len() == 2 && body[0] == 123u8 && body[1] == 125u8;
    proof {
        if body@.len() == 2 && body@[0] == 123u8 && body@[1] == 125u8 {
            assert(body@ =~= seq![123u8, 125u8]);
        }
    }
    braces
}

} // verus!
