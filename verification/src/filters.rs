//! Request filters: each filter allows or blocks a request, and a filter of
//! filters combines their results by "any" or "all".
use vstd::prelude::*;

verus! {

#[derive(Clone, Copy, PartialEq, Eq, Structural, Debug)]
pub enum FilterResult {
    Allow,
    Block,
}

#[derive(Clone, Copy, PartialEq, Eq, Structural, Debug)]
pub enum FilterMode {
    Any,
    All,
}

impl From<bool> for FilterResult {
    fn from(value: bool) -> (result: Self) {
        if value {
            FilterResult::Allow
        } else {
            FilterResult::Block
        }
    }
}

impl vstd::std_specs::convert::FromSpecImpl<bool> for FilterResult {
    open spec fn obeys_from_spec() -> bool {
        true
    }

    open spec fn from_spec(v: bool) -> FilterResult {
        if v {
            FilterResult::Allow
        } else {
            FilterResult::Block
        }
    }
}

/// What a filter of filters decides from its filters' results, taken in order:
/// under `Any`, `Allow` as soon as one allows; under `All`, `Block` as soon as
/// one blocks; otherwise the decision stays open.
pub open spec fn step_decision(mode: FilterMode, result: FilterResult) -> Option<FilterResult> {
    match (mode, result) {
        (FilterMode::Any, FilterResult::Allow) => Some(FilterResult::Allow),
        (FilterMode::All, FilterResult::Block) => Some(FilterResult::Block),
        _ => None,
    }
}

/// The decision of a filter of filters over all its filters' results.
pub open spec fn combined(mode: FilterMode, results: Seq<FilterResult>) -> FilterResult {
    match mode {
        FilterMode::Any => if exists|i: int| 0 <= i < results.len() && results[i] == FilterResult::Allow {
            FilterResult::Allow
        } else {
            FilterResult::Block
        },
        FilterMode::All => if forall|i: int| 0 <= i < results.len() ==> results[i] == FilterResult::Allow {
            FilterResult::Allow
        } else {
            FilterResult::Block
        },
    }
}

impl FilterMode {
    /// Whether one more result settles the decision, and how.
    pub fn step(&self, result: FilterResult) -> (decided: Option<FilterResult>)
        ensures
            decided == step_decision(*self, result),
    {
        match (self, result) {
            (FilterMode::Any, FilterResult::Allow) => Some(FilterResult::Allow),
            (FilterMode::All, FilterResult::Block) => Some(FilterResult::Block),
            _ => None,
        }
    }

    /// The decision once no result settled it: `Block` under `Any`, `Allow` under `All`.
    pub fn undecided(&self) -> (result: FilterResult)
        ensures
            result == (match *self {
                FilterMode::Any => FilterResult::Block,
                FilterMode::All => FilterResult::Allow,
            }),
    {
        match self {
            FilterMode::Any => FilterResult::Block,
            FilterMode::All => FilterResult::Allow,
        }
    }

    /// Combines the results of the filters, as `Filter::filter` does:
    /// `Any` allows where some filter allows, `All` where every filter does.
    pub fn combine(&self, results: &[FilterResult]) -> (result: FilterResult)
        ensures
            result == combined(*self, results@),
    {
        let mut i: usize = 0;
        while i < results.len()
            invariant
                i <= results@.len(),
                forall|j: int| 0 <= j < i ==> step_decision(*self, results@[j]) is None,
            decreases results.len() - i,
        {
            if let Some(decided) = self.step(results[i]) {
                return decided;
            }
            i = i + 1;
        }
        proof {
            match *self {
                FilterMode::Any => {
                    assert forall|j: int| 0 <= j < results@.len() implies results@[j] != FilterResult::Allow by {
                        assert(step_decision(*self, results@[j]) is None);
                    }
                },
                FilterMode::All => {
                    assert forall|j: int| 0 <= j < results@.len() implies results@[j] == FilterResult::Allow by {
                        assert(step_decision(*self, results@[j]) is None);
                    }
                },
            }
        }
        self.undecided()
    }
}

/// The decision once no result settled it: `Block` under `Any`, `Allow`
/// under `All`.
pub open spec fn undecided_result(mode: FilterMode) -> FilterResult {
    match mode {
        FilterMode::Any => FilterResult::Block,
        FilterMode::All => FilterResult::Allow,
    }
}

/// Asking the filters in order from position `from`, given what each would
/// answer, and stopping at the first answer that settles the decision.
pub open spec fn run_mode(mode: FilterMode, results: Seq<FilterResult>, from: nat) -> FilterResult
    decreases results.len() - from,
{
    if from >= results.len() {
        undecided_result(mode)
    } else {
        match step_decision(mode, results[from as int]) {
            Some(d) => d,
            None => run_mode(mode, results, from + 1),
        }
    }
}

proof fn lemma_run_mode(mode: FilterMode, results: Seq<FilterResult>, from: nat)
    requires
        from <= results.len(),
    ensures
        run_mode(mode, results, from) == combined(mode, results.subrange(from as int, results.len() as int)),
    decreases results.len() - from,
{
    let sub = results.subrange(from as int, results.len() as int);
    if from < results.len() {
        let rest = results.subrange(from + 1 as int, results.len() as int);
        lemma_run_mode(mode, results, from + 1);
        assert(sub[0] == results[from as int]);
        assert forall|i: int| 0 <= i < rest.len() implies #[trigger] rest[i] == sub[i + 1] by {}
        match mode {
            FilterMode::Any => {
                if results[from as int] != FilterResult::Allow {
                    if exists|i: int| 0 <= i < sub.len() && sub[i] == FilterResult::Allow {
                        let i = choose|i: int| 0 <= i < sub.len() && sub[i] == FilterResult::Allow;
                        assert(rest[i - 1] == FilterResult::Allow);
                    }
                    if exists|i: int| 0 <= i < rest.len() && rest[i] == FilterResult::Allow {
                        let i = choose|i: int| 0 <= i < rest.len() && rest[i] == FilterResult::Allow;
                        assert(sub[i + 1] == FilterResult::Allow);
                    }
                }
            },
            FilterMode::All => {
                if results[from as int] == FilterResult::Allow {
                    if forall|i: int| 0 <= i < rest.len() ==> rest[i] == FilterResult::Allow {
                        assert forall|i: int| 0 <= i < sub.len() implies sub[i] == FilterResult::Allow by {
                            if i > 0 {
                                assert(rest[i - 1] == sub[i]);
                            }
                        }
                    } else {
                        let i = choose|i: int| 0 <= i < rest.len() && rest[i] != FilterResult::Allow;
                        assert(sub[i + 1] != FilterResult::Allow);
                    }
                }
            },
        }
    }
}

proof fn lemma_run_mode_settled(mode: FilterMode, results: Seq<FilterResult>, from: nat, k: nat)
    requires
        from <= k < results.len(),
        step_decision(mode, results[k as int]) is Some,
        forall|j: int| from <= j < k ==> step_decision(mode, #[trigger] results[j]) is None,
    ensures
        run_mode(mode, results, from) == step_decision(mode, results[k as int])->0,
    decreases k - from,
{
    if from < k {
        lemma_run_mode_settled(mode, results, from + 1, k);
    }
}

/// A filter of filters that asks its filters in order and stops at the first
/// answer that settles the decision decides as if it had every answer:
/// under `Any`, `Allow` where some filter allows; under `All`, `Allow` where
/// every filter allows (so no filters give `Block` under `Any` and `Allow`
/// under `All`).
pub proof fn law_filters_in_order_decide_as_combined(mode: FilterMode, results: Seq<FilterResult>)
    ensures
        run_mode(mode, results, 0) == combined(mode, results),
{
    lemma_run_mode(mode, results, 0);
    assert(results.subrange(0, results.len() as int) =~= results);
}

/// The filters after the first one whose answer settles the decision are
/// never asked: any answers of theirs give the same decision, the one that
/// first answer settles.
pub proof fn law_filters_stop_at_first_decision(mode: FilterMode, results: Seq<FilterResult>, other: Seq<FilterResult>, k: nat)
    requires
        k < results.len(),
        k < other.len(),
        forall|j: int| 0 <= j <= k ==> #[trigger] other[j] == results[j],
        step_decision(mode, results[k as int]) is Some,
        forall|j: int| 0 <= j < k ==> step_decision(mode, #[trigger] results[j]) is None,
    ensures
        run_mode(mode, results, 0) == step_decision(mode, results[k as int])->0,
        run_mode(mode, other, 0) == run_mode(mode, results, 0),
{
    lemma_run_mode_settled(mode, results, 0, k);
    assert forall|j: int| 0 <= j < k implies step_decision(mode, #[trigger] other[j]) is None by {
        assert(other[j] == results[j]);
    }
    assert(other[k as int] == results[k as int]);
    lemma_run_mode_settled(mode, other, 0, k);
}

} // verus!
