//! Message bodies: streamed, sized, or none.
use vstd::prelude::*;

verus! {

/// A body: a stream `S`, a sized body `Z`, or none.
pub enum BodyType<S, Z> {
    Stream(S),
    Sized(Z),
    Empty,
}

/// A message that hands its body out and takes a new one.
pub trait MutBody<S, Z> {
    /// Takes the body out of the message.
    fn consume(&mut self) -> BodyType<S, Z>;

    /// Gives the message a new body.
    fn set_body(&mut self, body: BodyType<S, Z>);
}

} // verus!
