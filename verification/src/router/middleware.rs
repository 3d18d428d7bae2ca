//! Middleware: each one runs before and after a service and may stop the chain.
use vstd::prelude::*;

verus! {

#[derive(Clone, Copy, PartialEq, Eq, Structural, Debug)]
pub enum MiddlewareResult {
    Continue,
    Return,
}

impl From<bool> for MiddlewareResult {
    fn from(value: bool) -> (result: Self) {
        if value {
            MiddlewareResult::Continue
        } else {
            MiddlewareResult::Return
        }
    }
}

impl vstd::std_specs::convert::FromSpecImpl<bool> for MiddlewareResult {
    open spec fn obeys_from_spec() -> bool {
        true
    }

    open spec fn from_spec(v: bool) -> MiddlewareResult {
        if v {
            MiddlewareResult::Continue
        } else {
            MiddlewareResult::Return
        }
    }
}

/// The result of a chain of middleware, given the results of its members in
/// order: `Return` at the first one that returns, else `Continue`.
pub open spec fn chain_result(results: Seq<MiddlewareResult>) -> MiddlewareResult {
    if exists|i: int| 0 <= i < results.len() && results[i] == MiddlewareResult::Return {
        MiddlewareResult::Return
    } else {
        MiddlewareResult::Continue
    }
}

/// Folds the results of a chain's members, as `MiddlewareImpl::before` and
/// `after` do: the first `Return` ends the chain with `Return`.
pub fn chain(results: &[MiddlewareResult]) -> (result: MiddlewareResult)
    ensures
        result == chain_result(results@),
{
    let mut i: usize = 0;
    while i < results.len()
        invariant
            i <= results@.len(),
            forall|j: int| 0 <= j < i ==> results@[j] == MiddlewareResult::Continue,
        decreases results.len() - i,
    {
        if results[i] == MiddlewareResult::Return {
            return MiddlewareResult::Return;
        }
        i = i + 1;
    }
    MiddlewareResult::Continue
}

} // verus!
