//! The response a service builds: head `P` and body.
use crate::services::body::{BodyType, MutBody};
use vstd::prelude::*;

verus! {

/// A response: its head with a streamed body, with a sized body, with its
/// body taken out (`Consumed`), or with no body (`Empty`).
pub enum ResponseType<P, S, Z> {
    Stream(P, S),
    Sized(P, Z),
    Consumed(P),
    Empty(P),
}

/// The head of a response.
pub open spec fn parts_of<P, S, Z>(r: ResponseType<P, S, Z>) -> P {
    match r {
        ResponseType::Stream(p, _) => p,
        ResponseType::Sized(p, _) => p,
        ResponseType::Consumed(p) => p,
        ResponseType::Empty(p) => p,
    }
}

/// A response of head `parts` and body `body`; no body gives `Empty`.
pub open spec fn with_body<P, S, Z>(parts: P, body: BodyType<S, Z>) -> ResponseType<P, S, Z> {
    match body {
        BodyType::Stream(b) => ResponseType::Stream(parts, b),
        BodyType::Sized(b) => ResponseType::Sized(parts, b),
        BodyType::Empty => ResponseType::Empty(parts),
    }
}

/// Taking the body out: a streamed or sized body comes out and the response
/// is left `Consumed`; otherwise no body comes out and the response stays.
pub open spec fn consumed<P, S, Z>(r: ResponseType<P, S, Z>) -> (ResponseType<P, S, Z>, BodyType<S, Z>) {
    match r {
        ResponseType::Stream(p, b) => (ResponseType::Consumed(p), BodyType::Stream(b)),
        ResponseType::Sized(p, b) => (ResponseType::Consumed(p), BodyType::Sized(b)),
        ResponseType::Consumed(p) => (ResponseType::Consumed(p), BodyType::Empty),
        ResponseType::Empty(p) => (ResponseType::Empty(p), BodyType::Empty),
    }
}

/// Taking the body out through `MutBody`: as `consumed`, except that a
/// response without a body is left `Consumed` too.
pub open spec fn taken<P, S, Z>(r: ResponseType<P, S, Z>) -> (ResponseType<P, S, Z>, BodyType<S, Z>) {
    match r {
        ResponseType::Empty(p) => (ResponseType::Consumed(p), BodyType::Empty),
        _ => consumed(r),
    }
}

/// The response a service is building.
pub struct ServiceResponse<P, S, Z> {
    response_type: ResponseType<P, S, Z>,
}

impl<P, S, Z> ServiceResponse<P, S, Z> {
    pub closed spec fn state(&self) -> ResponseType<P, S, Z> {
        self.response_type
    }

    /// A response without a body, with a default head.
    pub fn new() -> (response: Self)
        where
            P: Default,
        ensures
            response.state() is Empty,
    {
        ServiceResponse { response_type: ResponseType::Empty(P::default()) }
    }

    /// A response in the given state.
    pub fn from_state(response_type: ResponseType<P, S, Z>) -> (response: Self)
        ensures
            response.state() == response_type,
    {
        ServiceResponse { response_type }
    }

    /// Replaces the whole response.
    pub fn set_response(&mut self, outgoing: ResponseType<P, S, Z>)
        ensures
            final(self).state() == outgoing,
    {
        self.response_type = outgoing;
    }

    /// The response's state.
    pub fn response_type(&self) -> (r: &ResponseType<P, S, Z>)
        ensures
            *r == self.state(),
    {
        &self.response_type
    }

    /// Takes the whole state out, leaving an empty response with a default head.
    fn take_state(&mut self) -> (current: ResponseType<P, S, Z>)
        where
            P: Default,
        ensures
            current == old(self).state(),
            final(self).state() is Empty,
    {
        let mut current = ResponseType::Empty(P::default());
        std::mem::swap(&mut current, &mut self.response_type);
        current
    }

    /// Gives the response the body `body`, keeping its head; no body leaves it `Empty`.
    pub fn set_body(&mut self, body: BodyType<S, Z>)
        where
            P: Default,
        ensures
            final(self).state() == with_body(parts_of(old(self).state()), body),
    {
        let parts = match self.take_state() {
            ResponseType::Stream(p, _) => p,
            ResponseType::Sized(p, _) => p,
            ResponseType::Consumed(p) => p,
            ResponseType::Empty(p) => p,
        };
        self.response_type = match body {
            BodyType::Stream(b) => ResponseType::Stream(parts, b),
            BodyType::Sized(b) => ResponseType::Sized(parts, b),
            BodyType::Empty => ResponseType::Empty(parts),
        };
    }

    /// Takes the body out: see `consumed`.
    pub fn consume(&mut self) -> (body: BodyType<S, Z>)
        where
            P: Default,
        ensures
            (final(self).state(), body) == consumed(old(self).state()),
    {
        let (next, body) = match self.take_state() {
            ResponseType::Stream(p, b) => (ResponseType::Consumed(p), BodyType::Stream(b)),
            ResponseType::Sized(p, b) => (ResponseType::Consumed(p), BodyType::Sized(b)),
            ResponseType::Consumed(p) => (ResponseType::Consumed(p), BodyType::Empty),
            ResponseType::Empty(p) => (ResponseType::Empty(p), BodyType::Empty),
        };
        self.response_type = next;
        body
    }

    /// The head and the body, for sending.
    pub fn into_parts(self) -> (message: (P, BodyType<S, Z>))
        ensures
            message.0 == parts_of(self.state()),
            message.1 == match self.state() {
                ResponseType::Stream(_, b) => BodyType::<S, Z>::Stream(b),
                ResponseType::Sized(_, b) => BodyType::<S, Z>::Sized(b),
                _ => BodyType::<S, Z>::Empty,
            },
    {
        match self.response_type {
            ResponseType::Stream(p, b) => (p, BodyType::Stream(b)),
            ResponseType::Sized(p, b) => (p, BodyType::Sized(b)),
            ResponseType::Consumed(p) => (p, BodyType::Empty),
            ResponseType::Empty(p) => (p, BodyType::Empty),
        }
    }
}

impl<P: Default, S, Z: Default> MutBody<S, Z> for ServiceResponse<P, S, Z> {
    /// Takes the body out: see `taken`.
    fn consume(&mut self) -> (body: BodyType<S, Z>)
        ensures
            (final(self).state(), body) == taken(old(self).state()),
    {
        match self.take_state() {
            ResponseType::Stream(p, b) => {
                self.response_type = ResponseType::Consumed(p);
                BodyType::Stream(b)
            },
            ResponseType::Sized(p, b) => {
                self.response_type = ResponseType::Consumed(p);
                BodyType::Sized(b)
            },
            ResponseType::Consumed(p) => {
                self.response_type = ResponseType::Consumed(p);
                BodyType::Empty
            },
            ResponseType::Empty(p) => {
                self.response_type = ResponseType::Consumed(p);
                BodyType::Empty
            },
        }
    }

    /// Gives the response the body `body` under its head; no body gives an
    /// empty sized body.
    fn set_body(&mut self, body: BodyType<S, Z>)
        ensures
            !(body is Empty) ==> final(self).state() == with_body(parts_of(old(self).state()), body),
            body is Empty ==> final(self).state() is Sized,
            parts_of(final(self).state()) == parts_of(old(self).state()),
    {
        let parts = match self.take_state() {
            ResponseType::Stream(p, _) => p,
            ResponseType::Sized(p, _) => p,
            ResponseType::Consumed(p) => p,
            ResponseType::Empty(p) => p,
        };
        self.response_type = match body {
            BodyType::Stream(b) => ResponseType::Stream(parts, b),
            BodyType::Sized(b) => ResponseType::Sized(parts, b),
            BodyType::Empty => ResponseType::Sized(parts, Z::default()),
        };
    }
}

/// What is set as a body is what a take gives back, and the head stays.
pub proof fn law_set_then_consume<P, S, Z>(parts: P, body: BodyType<S, Z>)
    ensures
        consumed(with_body(parts, body)).1 == body,
        parts_of(consumed(with_body(parts, body)).0) == parts,
        taken(with_body(parts, body)).1 == body,
{
}

/// Taking the body out keeps the head, and a second take finds no body.
pub proof fn law_consume_twice<P, S, Z>(r: ResponseType<P, S, Z>)
    ensures
        parts_of(consumed(r).0) == parts_of(r),
        consumed(consumed(r).0).1 is Empty,
        consumed(consumed(r).0).0 == consumed(r).0,
        parts_of(taken(r).0) == parts_of(r),
        taken(taken(r).0).1 is Empty,
{
}

} // verus!
