//! Wrappers: functions that run before and after a service and may stop the chain.
use vstd::prelude::*;

verus! {

#[derive(Clone, Copy, PartialEq, Eq, Structural, Debug)]
pub enum WrapperResult {
    Continue,
    Return,
}

impl From<bool> for WrapperResult {
    fn from(value: bool) -> (result: Self) {
        if value {
            WrapperResult::Continue
        } else {
            WrapperResult::Return
        }
    }
}

impl vstd::std_specs::convert::FromSpecImpl<bool> for WrapperResult {
    open spec fn obeys_from_spec() -> bool {
        true
    }

    open spec fn from_spec(v: bool) -> WrapperResult {
        if v {
            WrapperResult::Continue
        } else {
            WrapperResult::Return
        }
    }
}

/// The result of a wrapper made of wrappers, given the results of its
/// members in the order they ran: `Return` if one of them returned (the
/// members after it are not run), else `Continue`.
pub open spec fn chain_result(results: Seq<WrapperResult>) -> WrapperResult {
    if exists|i: int| 0 <= i < results.len() && results[i] == WrapperResult::Return {
        WrapperResult::Return
    } else {
        WrapperResult::Continue
    }
}

/// Folds the results of a wrapper's members, as `Wrapper::before` and
/// `after` do: the first `Return` ends the chain with `Return`.
pub fn chain(results: &[WrapperResult]) -> (result: WrapperResult)
    ensures
        result == chain_result(results@),
{
    let mut i: usize = 0;
    while i < results.len()
        invariant
            i <= results@.len(),
            forall|j: int| 0 <= j < i ==> results@[j] == WrapperResult::Continue,
        decreases results.len() - i,
    {
        if results[i] == WrapperResult::Return {
            return WrapperResult::Return;
        }
        i = i + 1;
    }
    WrapperResult::Continue
}

} // verus!
