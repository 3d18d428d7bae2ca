//! Building a service step by step.
use crate::pattern::{pattern_well_formed, regex_compiles};
use crate::router::routes::{route_regex_source, route_view_of, Route};
use crate::services::{empty_state, extend_state, insert_state, Service, ServiceView};
use std::sync::Arc;
use vstd::prelude::*;

verus! {

/// A fresh random service id (`uuid::Uuid::new_v4` as a number): random
/// bits, but for the version nibble, which is 4, and the two variant bits,
/// which are `10`.
#[verifier::external_body]
fn new_service_id() -> (id: u128)
    ensures
        id & 0xF000C000000000000000u128 == 0x40008000000000000000u128,
{
    uuid::Uuid::new_v4().as_u128()
}

/// A service being built: its route, its name if given, its filters,
/// wrappers and tasks in the order added, and its handler if given.
pub struct ServiceBuilder<F: ?Sized, W: ?Sized, H: ?Sized, T: ?Sized> {
    path: Route,
    name: Option<String>,
    filters: Vec<Arc<F>>,
    wrappers: Vec<Arc<W>>,
    tasks: Vec<Arc<T>>,
    handler: Option<Arc<H>>,
    shared_state: http::Extensions,
}

/// A service being built, as values; the shared values have no model.
pub struct BuilderView<F: ?Sized, W: ?Sized, H: ?Sized, T: ?Sized> {
    pub path: Route,
    pub name: Option<Seq<char>>,
    pub filters: Seq<Arc<F>>,
    pub wrappers: Seq<Arc<W>>,
    pub tasks: Seq<Arc<T>>,
    pub handler: Option<Arc<H>>,
}

impl<F: ?Sized, W: ?Sized, H: ?Sized, T: ?Sized> View for ServiceBuilder<F, W, H, T> {
    type V = BuilderView<F, W, H, T>;

    closed spec fn view(&self) -> BuilderView<F, W, H, T> {
        BuilderView {
            path: self.path,
            name: match self.name {
                Some(n) => Some(n@),
                None => None,
            },
            filters: self.filters@,
            wrappers: self.wrappers@,
            tasks: self.tasks@,
            handler: self.handler,
        }
    }
}

impl<F: ?Sized, W: ?Sized, H: ?Sized, T: ?Sized> ServiceBuilder<F, W, H, T> {
    /// A builder for a service at the route `path`, with nothing else yet.
    pub fn new(path: &str) -> (builder: Self)
        requires
            pattern_well_formed(path@),
            regex_compiles(route_regex_source(path@)),
        ensures
            builder@.path.view() == route_view_of(path@),
            builder@.path.regex_source() == route_regex_source(path@),
            builder@.name is None,
            builder@.filters.len() == 0,
            builder@.wrappers.len() == 0,
            builder@.tasks.len() == 0,
            builder@.handler is None,
    {
        ServiceBuilder {
            path: Route::new(String::from_str(path)),
            name: None,
            filters: Vec::new(),
            wrappers: Vec::new(),
            tasks: Vec::new(),
            handler: None,
            shared_state: empty_state(),
        }
    }

    /// A builder for a service at the route `path`, or none where `path` is
    /// not a route.
    pub fn try_new(path: &str) -> (builder: Option<Self>)
        ensures
            builder is Some == (pattern_well_formed(path@) && regex_compiles(route_regex_source(path@))),
            builder matches Some(b) ==> {
                &&& b@.path.view() == route_view_of(path@)
                &&& b@.path.regex_source() == route_regex_source(path@)
                &&& b@.name is None
                &&& b@.filters.len() == 0
                &&& b@.wrappers.len() == 0
                &&& b@.tasks.len() == 0
                &&& b@.handler is None
            },
    {
        match Route::try_new(String::from_str(path)) {
            Some(route) => Some(
                ServiceBuilder {
                    path: route,
                    name: None,
                    filters: Vec::new(),
                    wrappers: Vec::new(),
                    tasks: Vec::new(),
                    handler: None,
                    shared_state: empty_state(),
                },
            ),
            None => None,
        }
    }

    /// Names the service.
    pub fn name(self, name: &str) -> (builder: Self)
        ensures
            builder@ == (BuilderView { name: Some(name@), ..self@ }),
    {
        let mut b = self;
        b.name = Some(String::from_str(name));
        b
    }

    /// Shares `value` with the service's handler, in place of a shared
    /// value of the same type.
    pub fn shared_state<X: Send + Sync + 'static>(self, value: X) -> (builder: Self)
        ensures
            builder@ == self@,
    {
        let mut b = self;
        insert_state(&mut b.shared_state, Arc::new(value));
        b
    }

    /// Shares the values of `state` with the service's handler, in place of
    /// shared values of the same types.
    pub fn extend_state(self, state: http::Extensions) -> (builder: Self)
        ensures
            builder@ == self@,
    {
        let mut b = self;
        extend_state(&mut b.shared_state, state);
        b
    }

    /// Adds a filter after those added.
    pub fn filter(self, filter: Arc<F>) -> (builder: Self)
        ensures
            builder@ == (BuilderView { filters: self@.filters.push(filter), ..self@ }),
    {
        let mut b = self;
        b.filters.push(filter);
        b
    }

    /// Adds a background task.
    pub fn task(self, task: Arc<T>) -> (builder: Self)
        ensures
            builder@ == (BuilderView { tasks: self@.tasks.push(task), ..self@ }),
    {
        let mut b = self;
        b.tasks.push(task);
        b
    }

    /// Adds a wrapper after those added.
    pub fn wrap(self, wrapper: Arc<W>) -> (builder: Self)
        ensures
            builder@ == (BuilderView { wrappers: self@.wrappers.push(wrapper), ..self@ }),
    {
        let mut b = self;
        b.wrappers.push(wrapper);
        b
    }

    /// Sets the handler.
    pub fn handler(self, handler: Arc<H>) -> (builder: Self)
        ensures
            builder@ == (BuilderView { handler: Some(handler), ..self@ }),
    {
        let mut b = self;
        b.handler = Some(handler);
        b
    }

    /// The service: its route, its name (empty if none was given), its
    /// filters, wrappers and handler, and a fresh random id; the tasks are
    /// not part of it.
    pub fn build(self) -> (service: Service<F, W, H>)
        ensures
            service@ == (ServiceView {
                path: self@.path,
                name: match self@.name {
                    Some(n) => n,
                    None => Seq::<char>::empty(),
                },
                uuid: service@.uuid,
                filters: self@.filters,
                wrappers: self@.wrappers,
                handler: self@.handler,
            }),
            service@.uuid & 0xF000C000000000000000u128 == 0x40008000000000000000u128,
    {
        let name = match self.name {
            Some(n) => n,
            None => String::new(),
        };
        Service {
            path: Arc::new(self.path),
            name,
            uuid: new_service_id(),
            shared_state: self.shared_state,
            filters: self.filters,
            wrappers: self.wrappers,
            handler: self.handler,
        }
    }
}

} // verus!
