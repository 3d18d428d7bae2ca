use std::sync::Arc;
use vstd::prelude::*;

pub mod keys;
pub mod text;
pub mod pattern;
pub mod router;
pub mod routes;
pub mod paths;
pub mod filters;
pub mod wrappers;
pub mod editable;
pub mod files;
pub mod net;
pub mod headers;
pub mod cache;
pub mod utils;
pub mod services;
pub mod server;
pub mod service;
pub mod runtime;
pub mod operator;
pub mod ssl;
pub mod codegen;
pub mod attributes;
pub mod npm;
pub mod extract;

verus! {

/// What kind of content a service serves.
pub enum ServiceType {
    File,
    Folder,
    API,
}

/// Shared state handed to services, by reference count.
#[derive(Clone)]
pub struct State<T: Send + Sync + 'static>(pub Arc<T>);

/// `Arc::clone`: another handle to the same value.
#[verifier::external_body]
fn arc_clone<T: ?Sized>(a: &Arc<T>) -> (b: Arc<T>)
    ensures
        b == *a,
{
    a.clone()
}

impl<T: Send + Sync + 'static> State<T> {
    /// Another handle to the shared value.
    pub fn inner(&self) -> (value: Arc<T>)
        ensures
            *value == *self.0,
    {
        arc_clone(&self.0)
    }
}

impl<T: Send + Sync + 'static> AsRef<T> for State<T> {
    /// The shared value.
    fn as_ref(&self) -> (value: &T)
        ensures
            *value == *self.0,
    {
        &self.0
    }
}

impl<T: Send + Sync + 'static> std::ops::Deref for State<T> {
    type Target = T;

    /// The shared value.
    fn deref(&self) -> (value: &T)
        ensures
            *value == *self.0,
    {
        &self.0
    }
}

} // verus!
