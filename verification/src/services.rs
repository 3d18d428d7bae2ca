//! Services: a route, the filters that decide whether a request is theirs,
//! the wrappers that run around their handler, and the handler; how they are
//! built, grouped and registered; and the requests and responses that pass
//! through them.
pub mod body;
pub mod builder;
pub mod group;
pub mod request;
pub mod response;

use crate::router::routes::Route;
use std::sync::Arc;
use vstd::prelude::*;

verus! {

#[verifier::external_type_specification]
#[verifier::external_body]
pub struct ExExtensions(http::Extensions);

/// `http::Extensions::new`: a store of shared values, one per type, that
/// holds none. Nothing is stated of it: its values are filed by their
/// types, which have no model here.
#[verifier::external_body]
pub(crate) fn empty_state() -> http::Extensions {
    http::Extensions::new()
}

/// `Clone` for `http::Extensions`: a store with a copy of each shared
/// value. Nothing is stated of the copy, for the same reason.
#[verifier::external_body]
pub(crate) fn clone_state(state: &http::Extensions) -> http::Extensions {
    state.clone()
}

/// `http::Extensions::extend`: adds the values of `other` to `state`, where
/// they replace values of the same type. Nothing is stated of the result,
/// for the same reason.
#[verifier::external_body]
pub(crate) fn extend_state(state: &mut http::Extensions, other: http::Extensions) {
    state.extend(other)
}

/// `http::Extensions::insert`: files `value` under its type, in place of a
/// value of that type. Nothing is stated of the result, for the same reason.
#[verifier::external_body]
pub(crate) fn insert_state<X: Clone + Send + Sync + 'static>(state: &mut http::Extensions, value: X) {
    state.insert(value);
}

/// A service: its route, name and id, the values shared with its handler
/// (one per type), its filters `F` and wrappers `W` in the order they run,
/// and its handler `H`, if it has one.
pub struct Service<F: ?Sized, W: ?Sized, H: ?Sized> {
    pub path: Arc<Route>,
    pub name: String,
    pub uuid: u128,
    pub shared_state: http::Extensions,
    pub filters: Vec<Arc<F>>,
    pub wrappers: Vec<Arc<W>>,
    pub handler: Option<Arc<H>>,
}

/// A service as values; the shared values have no model.
pub struct ServiceView<F: ?Sized, W: ?Sized, H: ?Sized> {
    pub path: Route,
    pub name: Seq<char>,
    pub uuid: u128,
    pub filters: Seq<Arc<F>>,
    pub wrappers: Seq<Arc<W>>,
    pub handler: Option<Arc<H>>,
}

impl<F: ?Sized, W: ?Sized, H: ?Sized> View for Service<F, W, H> {
    type V = ServiceView<F, W, H>;

    open spec fn view(&self) -> ServiceView<F, W, H> {
        ServiceView {
            path: *self.path,
            name: self.name@,
            uuid: self.uuid,
            filters: self.filters@,
            wrappers: self.wrappers@,
            handler: self.handler,
        }
    }
}

/// A service with `filters` and `wrappers` run after its own.
pub open spec fn attach<F: ?Sized, W: ?Sized, H: ?Sized>(
    s: ServiceView<F, W, H>,
    filters: Seq<Arc<F>>,
    wrappers: Seq<Arc<W>>,
) -> ServiceView<F, W, H> {
    ServiceView { filters: s.filters + filters, wrappers: s.wrappers + wrappers, ..s }
}

/// Copies of shared handles, each to the same value.
pub fn clone_handles<T: ?Sized>(handles: &Vec<Arc<T>>) -> (copy: Vec<Arc<T>>)
    ensures
        copy@ == handles@,
{
    let mut copy: Vec<Arc<T>> = Vec::new();
    let mut i: usize = 0;
    while i < handles.len()
        invariant
            i <= handles@.len(),
            copy@ == handles@.take(i as int),
        decreases handles.len() - i,
    {
        copy.push(crate::arc_clone(&handles[i]));
        assert(copy@ =~= handles@.take(i + 1 as int));
        i = i + 1;
    }
    assert(handles@.take(handles@.len() as int) =~= handles@);
    copy
}

/// Appends copies of `more` to `handles`.
pub fn extend_handles<T: ?Sized>(handles: &mut Vec<Arc<T>>, more: &Vec<Arc<T>>)
    ensures
        final(handles)@ == old(handles)@ + more@,
{
    let mut i: usize = 0;
    let ghost start = handles@;
    while i < more.len()
        invariant
            i <= more@.len(),
            handles@ == start + more@.take(i as int),
        decreases more.len() - i,
    {
        handles.push(crate::arc_clone(&more[i]));
        assert(handles@ =~= start + more@.take(i + 1 as int));
        i = i + 1;
    }
    assert(more@.take(more@.len() as int) =~= more@);
}

impl<F: ?Sized, W: ?Sized, H: ?Sized> Service<F, W, H> {
    /// The service with `filters` and `wrappers` run after its own.
    pub fn attach(self, filters: &Vec<Arc<F>>, wrappers: &Vec<Arc<W>>) -> (attached: Self)
        ensures
            attached@ == attach(self@, filters@, wrappers@),
    {
        let mut s = self;
        extend_handles(&mut s.filters, filters);
        extend_handles(&mut s.wrappers, wrappers);
        s
    }

    /// The service's name.
    pub fn name(&self) -> (name: &str)
        ensures
            name@ == self.name@,
    {
        self.name.as_str()
    }

    /// The service's id.
    pub fn uuid(&self) -> (uuid: u128)
        ensures
            uuid == self.uuid,
    {
        self.uuid
    }
}

} // verus!
