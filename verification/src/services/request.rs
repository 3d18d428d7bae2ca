//! The request a service reads: head `P` (or only headers `H`) and body.
use crate::router::routes::Route;
use crate::services::body::{BodyType, MutBody};
use std::sync::Arc;
use vstd::prelude::*;

verus! {

/// A request: its head with a streamed body, with a sized body, with its
/// body taken out (`Consumed`), or only a set of headers (`Empty`).
pub enum RequestType<P, S, Z, H> {
    Stream(P, S),
    Sized(P, Z),
    Consumed(P),
    Empty(H),
}

/// Taking the body out: a streamed or sized body comes out and the request
/// is left `Consumed`; otherwise no body comes out and the request stays.
pub open spec fn request_consumed<P, S, Z, H>(r: RequestType<P, S, Z, H>) -> (RequestType<P, S, Z, H>, BodyType<S, Z>) {
    match r {
        RequestType::Stream(p, b) => (RequestType::Consumed(p), BodyType::Stream(b)),
        RequestType::Sized(p, b) => (RequestType::Consumed(p), BodyType::Sized(b)),
        RequestType::Consumed(p) => (RequestType::Consumed(p), BodyType::Empty),
        RequestType::Empty(h) => (RequestType::Empty(h), BodyType::Empty),
    }
}

/// A head made from a set of headers alone.
pub trait HeadFromHeaders<H>: Sized {
    fn from_headers(headers: H) -> Self;
}

/// A request being served, with the route that matched it.
pub struct ServiceRequest<P, S, Z, H> {
    request_type: RequestType<P, S, Z, H>,
    route: Arc<Route>,
}

impl<P, S, Z, H> ServiceRequest<P, S, Z, H> {
    pub closed spec fn state(&self) -> RequestType<P, S, Z, H> {
        self.request_type
    }

    pub closed spec fn route_spec(&self) -> Route {
        *self.route
    }

    /// A request in the given state, matched by `route`.
    pub fn new(request_type: RequestType<P, S, Z, H>, route: Arc<Route>) -> (request: Self)
        ensures
            request.state() == request_type,
            request.route_spec() == *route,
    {
        ServiceRequest { request_type, route }
    }

    /// The request's state.
    pub fn request_type(&self) -> (r: &RequestType<P, S, Z, H>)
        ensures
            *r == self.state(),
    {
        &self.request_type
    }

    /// Replaces the request's state.
    pub fn set_request_type(&mut self, request_type: RequestType<P, S, Z, H>)
        ensures
            final(self).state() == request_type,
            final(self).route_spec() == old(self).route_spec(),
    {
        self.request_type = request_type;
    }

    /// Another handle to the route that matched.
    pub fn route(&self) -> (route: Arc<Route>)
        ensures
            *route == self.route_spec(),
    {
        crate::arc_clone(&self.route)
    }

    /// The head of the request, unless it holds only headers.
    pub fn parts(&self) -> (parts: Option<&P>)
        ensures
            parts == match self.state() {
                RequestType::Stream(p, _) => Some(&p),
                RequestType::Sized(p, _) => Some(&p),
                RequestType::Consumed(p) => Some(&p),
                RequestType::Empty(_) => None::<&P>,
            },
    {
        match &self.request_type {
            RequestType::Stream(p, _) => Some(p),
            RequestType::Sized(p, _) => Some(p),
            RequestType::Consumed(p) => Some(p),
            RequestType::Empty(_) => None,
        }
    }

    /// Takes the whole state out, leaving only a default set of headers.
    fn take_state(&mut self) -> (current: RequestType<P, S, Z, H>)
        where
            H: Default,
        ensures
            current == old(self).state(),
            final(self).state() is Empty,
            final(self).route_spec() == old(self).route_spec(),
    {
        let mut current = RequestType::Empty(H::default());
        std::mem::swap(&mut current, &mut self.request_type);
        current
    }

    /// Takes the body out: see `request_consumed`. A sized body is one held
    /// whole in memory, so reading it out cannot fail.
    pub fn consume(&mut self) -> (body: BodyType<S, Z>)
        where
            H: Default,
        ensures
            (final(self).state(), body) == request_consumed(old(self).state()),
            final(self).route_spec() == old(self).route_spec(),
    {
        let (next, body) = match self.take_state() {
            RequestType::Stream(p, b) => (RequestType::Consumed(p), BodyType::Stream(b)),
            RequestType::Sized(p, b) => (RequestType::Consumed(p), BodyType::Sized(b)),
            RequestType::Consumed(p) => (RequestType::Consumed(p), BodyType::Empty),
            RequestType::Empty(h) => (RequestType::Empty(h), BodyType::Empty),
        };
        self.request_type = next;
        body
    }
}

/// The request with the body taken through `MutBody`: as `request_consumed`,
/// except that a request holding only headers loses them to a default set.
pub open spec fn request_taken<P, S, Z, H>(r: RequestType<P, S, Z, H>, fresh: H) -> (RequestType<P, S, Z, H>, BodyType<S, Z>) {
    match r {
        RequestType::Empty(_) => (RequestType::Empty(fresh), BodyType::Empty),
        _ => request_consumed(r),
    }
}

impl<P: HeadFromHeaders<H>, S, Z: Default, H: Default> MutBody<S, Z> for ServiceRequest<P, S, Z, H> {
    /// Takes the body out; a request holding only headers is left with a
    /// default set of headers.
    fn consume(&mut self) -> (body: BodyType<S, Z>)
        ensures
            !(old(self).state() is Empty) ==> (final(self).state(), body) == request_consumed(old(self).state()),
            old(self).state() is Empty ==> final(self).state() is Empty && body is Empty,
            final(self).route_spec() == old(self).route_spec(),
    {
        match self.take_state() {
            RequestType::Stream(p, b) => {
                self.request_type = RequestType::Consumed(p);
                BodyType::Stream(b)
            },
            RequestType::Sized(p, b) => {
                self.request_type = RequestType::Consumed(p);
                BodyType::Sized(b)
            },
            RequestType::Consumed(p) => {
                self.request_type = RequestType::Consumed(p);
                BodyType::Empty
            },
            RequestType::Empty(_) => BodyType::Empty,
        }
    }

    /// Gives the request the body `body` under its head; a request holding
    /// only headers gets a head made from them; no body gives an empty sized one.
    fn set_body(&mut self, body: BodyType<S, Z>)
        ensures
            final(self).route_spec() == old(self).route_spec(),
            body matches BodyType::Stream(b) ==> (final(self).state() matches RequestType::Stream(_, s) && s == b),
            body matches BodyType::Sized(b) ==> (final(self).state() matches RequestType::Sized(_, z) && z == b),
            body is Empty ==> final(self).state() is Sized,
            !(old(self).state() is Empty) ==> request_parts(final(self).state()) == request_parts(old(self).state()),
    {
        let parts = match self.take_state() {
            RequestType::Stream(p, _) => p,
            RequestType::Sized(p, _) => p,
            RequestType::Consumed(p) => p,
            RequestType::Empty(h) => P::from_headers(h),
        };
        self.request_type = match body {
            BodyType::Stream(b) => RequestType::Stream(parts, b),
            BodyType::Sized(b) => RequestType::Sized(parts, b),
            BodyType::Empty => RequestType::Sized(parts, Z::default()),
        };
    }
}

/// The head of a request that has one.
pub open spec fn request_parts<P, S, Z, H>(r: RequestType<P, S, Z, H>) -> P
    recommends
        !(r is Empty),
{
    match r {
        RequestType::Stream(p, _) => p,
        RequestType::Sized(p, _) => p,
        RequestType::Consumed(p) => p,
        RequestType::Empty(_) => arbitrary(),
    }
}

/// Taking the body out keeps the head, and a second take finds no body.
pub proof fn law_request_consume_keeps_head<P, S, Z, H>(r: RequestType<P, S, Z, H>)
    ensures
        !(r is Empty) ==> request_parts(request_consumed(r).0) == request_parts(r),
        request_consumed(request_consumed(r).0).1 is Empty,
        request_consumed(request_consumed(r).0).0 == request_consumed(r).0,
{
}

} // verus!
