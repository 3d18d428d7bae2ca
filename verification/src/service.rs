//! How a service takes a request: whether it handles it (its route matches
//! and every filter allows it), and the order in which its wrappers and its
//! handler run.
use crate::filters::FilterResult;
use crate::wrappers::WrapperResult;
use vstd::prelude::*;

verus! {

/// Where the check "does this service handle the request" stands.
#[derive(Clone, Copy, PartialEq, Eq, Structural, Debug)]
pub enum HandlesStep {
    /// Ask the filter at this position.
    Check(usize),
    Yes,
    No,
}

/// The first step: a service whose route does not match never handles the
/// request; one without filters handles every request its route matches.
pub open spec fn handles_start(route_matches: bool, filters: nat) -> HandlesStep {
    if !route_matches {
        HandlesStep::No
    } else if filters == 0 {
        HandlesStep::Yes
    } else {
        HandlesStep::Check(0)
    }
}

/// The step after the filter at `index` gave `result`.
pub open spec fn handles_next(index: nat, result: FilterResult, filters: nat) -> HandlesStep {
    if result != FilterResult::Allow {
        HandlesStep::No
    } else if index + 1 < filters {
        HandlesStep::Check((index + 1) as usize)
    } else {
        HandlesStep::Yes
    }
}

/// The first step of the check.
pub fn handles_start_step(route_matches: bool, filters: usize) -> (step: HandlesStep)
    ensures
        step == handles_start(route_matches, filters as nat),
{
    if !route_matches {
        HandlesStep::No
    } else if filters == 0 {
        HandlesStep::Yes
    } else {
        HandlesStep::Check(0)
    }
}

/// The step after the filter at `index` of `filters` gave `result`.
pub fn handles_next_step(index: usize, result: FilterResult, filters: usize) -> (step: HandlesStep)
    requires
        index < filters,
    ensures
        step == handles_next(index as nat, result, filters as nat),
{
    if result != FilterResult::Allow {
        HandlesStep::No
    } else if index + 1 < filters {
        HandlesStep::Check(index + 1)
    } else {
        HandlesStep::Yes
    }
}

/// Running the check from filter `from` against the filters' results.
pub open spec fn run_filters(results: Seq<FilterResult>, from: nat) -> HandlesStep
    decreases results.len() - from,
{
    if from >= results.len() {
        HandlesStep::Yes
    } else {
        match handles_next(from, results[from as int], results.len()) {
            HandlesStep::Check(next) => if next > from {
                run_filters(results, next as nat)
            } else {
                HandlesStep::No
            },
            done => done,
        }
    }
}

proof fn lemma_run_filters(results: Seq<FilterResult>, from: nat)
    requires
        from <= results.len(),
        results.len() <= usize::MAX,
    ensures
        run_filters(results, from) == (if forall|j: int| from <= j < results.len() ==> results[j] == FilterResult::Allow {
            HandlesStep::Yes
        } else {
            HandlesStep::No
        }),
    decreases results.len() - from,
{
    if from < results.len() && results[from as int] == FilterResult::Allow && from + 1 < results.len() {
        lemma_run_filters(results, from + 1);
    }
}

/// A service handles a request exactly when its route matches the request's
/// path and every one of its filters allows the request.
pub proof fn law_handles_iff_all_allow(route_matches: bool, results: Seq<FilterResult>)
    requires
        results.len() <= usize::MAX,
    ensures
        (match handles_start(route_matches, results.len()) {
            HandlesStep::Check(i) => run_filters(results, i as nat),
            done => done,
        }) == (if route_matches && forall|j: int| 0 <= j < results.len() ==> results[j] == FilterResult::Allow {
            HandlesStep::Yes
        } else {
            HandlesStep::No
        }),
{
    lemma_run_filters(results, 0);
}

/// Where the handling of a request by a service stands.
#[derive(Clone, Copy, PartialEq, Eq, Structural, Debug)]
pub enum HandleStep {
    /// Run the "before" part of the wrapper at this position.
    Before(usize),
    /// Run the service's handler.
    Handler,
    /// Run the "after" part of the wrapper at this position.
    After(usize),
    /// The response is ready.
    Done,
    /// A wrapper part or the handler failed: the handling ends at once with
    /// its error.
    Failed,
}

/// What a step of the handling gave: a wrapper part's answer (for the
/// handler, any answer means that it succeeded), or an error.
#[derive(Clone, Copy, PartialEq, Eq, Structural, Debug)]
pub enum StepOutcome {
    Answered(WrapperResult),
    Failed,
}

/// What comes once every "before" part has let the request through: the
/// handler if there is one, else the "after" parts, else nothing.
pub open spec fn past_before(wrappers: nat, has_handler: bool) -> HandleStep {
    if has_handler {
        HandleStep::Handler
    } else if wrappers > 0 {
        HandleStep::After(0)
    } else {
        HandleStep::Done
    }
}

/// The first step for a service with `wrappers` wrappers.
pub open spec fn handle_start(wrappers: nat, has_handler: bool) -> HandleStep {
    if wrappers > 0 {
        HandleStep::Before(0)
    } else {
        past_before(wrappers, has_handler)
    }
}

/// The step after a wrapper part answered `result`, or the handler
/// succeeded: `Return` ends the handling at once.
pub open spec fn answered_next(step: HandleStep, result: WrapperResult, wrappers: nat, has_handler: bool) -> HandleStep {
    match step {
        HandleStep::Before(i) => if result == WrapperResult::Return {
            HandleStep::Done
        } else if i + 1 < wrappers {
            HandleStep::Before((i + 1) as usize)
        } else {
            past_before(wrappers, has_handler)
        },
        HandleStep::Handler => if wrappers > 0 {
            HandleStep::After(0)
        } else {
            HandleStep::Done
        },
        HandleStep::After(i) => if result == WrapperResult::Return {
            HandleStep::Done
        } else if i + 1 < wrappers {
            HandleStep::After((i + 1) as usize)
        } else {
            HandleStep::Done
        },
        HandleStep::Done => HandleStep::Done,
        HandleStep::Failed => HandleStep::Failed,
    }
}

/// The step after `step` gave `outcome`: an error ends the handling at
/// once, as `Failed`; an answer goes on as `answered_next` says. The
/// handling, once over, stays over.
pub open spec fn handle_next(step: HandleStep, outcome: StepOutcome, wrappers: nat, has_handler: bool) -> HandleStep {
    match step {
        HandleStep::Done => HandleStep::Done,
        HandleStep::Failed => HandleStep::Failed,
        _ => match outcome {
            StepOutcome::Failed => HandleStep::Failed,
            StepOutcome::Answered(result) => answered_next(step, result, wrappers, has_handler),
        },
    }
}

/// The first step for a service with `wrappers` wrappers.
pub fn handle_start_step(wrappers: usize, has_handler: bool) -> (step: HandleStep)
    ensures
        step == handle_start(wrappers as nat, has_handler),
{
    if wrappers > 0 {
        HandleStep::Before(0)
    } else if has_handler {
        HandleStep::Handler
    } else {
        HandleStep::Done
    }
}

/// The step after `step` gave `outcome`: see `handle_next`.
pub fn handle_next_step(step: HandleStep, outcome: StepOutcome, wrappers: usize, has_handler: bool) -> (next: HandleStep)
    requires
        step matches HandleStep::Before(i) ==> i < wrappers,
        step matches HandleStep::After(i) ==> i < wrappers,
    ensures
        next == handle_next(step, outcome, wrappers as nat, has_handler),
{
    let result = match outcome {
        StepOutcome::Failed => {
            return match step {
                HandleStep::Done => HandleStep::Done,
                _ => HandleStep::Failed,
            };
        },
        StepOutcome::Answered(result) => result,
    };
    match step {
        HandleStep::Before(i) => if result == WrapperResult::Return {
            HandleStep::Done
        } else if i + 1 < wrappers {
            HandleStep::Before(i + 1)
        } else if has_handler {
            HandleStep::Handler
        } else if wrappers > 0 {
            HandleStep::After(0)
        } else {
            HandleStep::Done
        },
        HandleStep::Handler => if wrappers > 0 {
            HandleStep::After(0)
        } else {
            HandleStep::Done
        },
        HandleStep::After(i) => if result == WrapperResult::Return {
            HandleStep::Done
        } else if i + 1 < wrappers {
            HandleStep::After(i + 1)
        } else {
            HandleStep::Done
        },
        HandleStep::Done => HandleStep::Done,
        HandleStep::Failed => HandleStep::Failed,
    }
}

/// Feeding the "before" parts' answers from wrapper `from` on.
pub open spec fn run_before(answers: Seq<WrapperResult>, from: nat, has_handler: bool) -> HandleStep
    decreases answers.len() - from,
{
    if from >= answers.len() {
        past_before(answers.len(), has_handler)
    } else {
        match answered_next(HandleStep::Before(from as usize), answers[from as int], answers.len(), has_handler) {
            HandleStep::Before(next) => if next > from {
                run_before(answers, next as nat, has_handler)
            } else {
                HandleStep::Done
            },
            other => other,
        }
    }
}

proof fn lemma_run_before(answers: Seq<WrapperResult>, from: nat, has_handler: bool)
    requires
        from <= answers.len(),
        answers.len() <= usize::MAX,
    ensures
        run_before(answers, from, has_handler) == (if forall|j: int| from <= j < answers.len() ==> answers[j] == WrapperResult::Continue {
            past_before(answers.len(), has_handler)
        } else {
            HandleStep::Done
        }),
    decreases answers.len() - from,
{
    if from < answers.len() && answers[from as int] == WrapperResult::Continue && from + 1 < answers.len() {
        lemma_run_before(answers, from + 1, has_handler);
    }
}

/// The handler runs exactly when it exists and every wrapper's "before"
/// part lets the request through; the first `Return` ends the handling.
pub proof fn law_handler_runs_iff_all_continue(answers: Seq<WrapperResult>, has_handler: bool)
    requires
        answers.len() <= usize::MAX,
    ensures
        (match handle_start(answers.len(), has_handler) {
            HandleStep::Before(i) => run_before(answers, i as nat, has_handler),
            other => other,
        }) == HandleStep::Handler <==> has_handler && forall|j: int| 0 <= j < answers.len() ==> answers[j] == WrapperResult::Continue,
{
    lemma_run_before(answers, 0, has_handler);
}

/// The parts of the handling run in order and the first `Return` ends it:
/// a service starts at its first wrapper's "before" part, else at its
/// handler, else it is done; a "before" part that lets the request through
/// leads to the next "before" part, after the last to the handler if there
/// is one, else to the first "after" part; the handler leads to the first
/// "after" part, or ends the handling where there is none; an "after" part
/// that lets the response through leads to the next one, and after the last
/// the handling is done; `Return` from any "before" or "after" part ends the
/// handling at once.
pub proof fn law_handling_order(i: nat, answer: WrapperResult, wrappers: nat, has_handler: bool)
    requires
        i < wrappers,
        i < usize::MAX,
    ensures
        handle_start(wrappers, has_handler) == HandleStep::Before(0),
        handle_start(0, has_handler) == (if has_handler {
            HandleStep::Handler
        } else {
            HandleStep::Done
        }),
        handle_next(HandleStep::Before(i as usize), StepOutcome::Answered(WrapperResult::Return), wrappers, has_handler)
            == HandleStep::Done,
        handle_next(HandleStep::After(i as usize), StepOutcome::Answered(WrapperResult::Return), wrappers, has_handler)
            == HandleStep::Done,
        i + 1 < wrappers ==> handle_next(
            HandleStep::Before(i as usize),
            StepOutcome::Answered(WrapperResult::Continue),
            wrappers,
            has_handler,
        ) == HandleStep::Before((i + 1) as usize),
        i + 1 == wrappers ==> handle_next(
            HandleStep::Before(i as usize),
            StepOutcome::Answered(WrapperResult::Continue),
            wrappers,
            has_handler,
        ) == (if has_handler {
            HandleStep::Handler
        } else {
            HandleStep::After(0)
        }),
        handle_next(HandleStep::Handler, StepOutcome::Answered(answer), wrappers, has_handler) == HandleStep::After(0),
        handle_next(HandleStep::Handler, StepOutcome::Answered(answer), 0, has_handler) == HandleStep::Done,
        i + 1 < wrappers ==> handle_next(
            HandleStep::After(i as usize),
            StepOutcome::Answered(WrapperResult::Continue),
            wrappers,
            has_handler,
        ) == HandleStep::After((i + 1) as usize),
        i + 1 == wrappers ==> handle_next(
            HandleStep::After(i as usize),
            StepOutcome::Answered(WrapperResult::Continue),
            wrappers,
            has_handler,
        ) == HandleStep::Done,
{
}

/// An error ends the handling at once: from any step still under way, an
/// error leads to `Failed`, and from `Failed` nothing runs any more.
pub proof fn law_failure_ends_handling(step: HandleStep, outcome: StepOutcome, wrappers: nat, has_handler: bool)
    ensures
        step != HandleStep::Done ==> handle_next(step, StepOutcome::Failed, wrappers, has_handler) == HandleStep::Failed,
        handle_next(HandleStep::Failed, outcome, wrappers, has_handler) == HandleStep::Failed,
        handle_next(HandleStep::Done, outcome, wrappers, has_handler) == HandleStep::Done,
{
}

/// The answer once the handling failed: status 500 ("internal server
/// error") with the error's text as body.
pub fn failure_answer(error_text: String) -> (answer: (u16, String))
    ensures
        answer.0 == 500,
        answer.1@ == error_text@,
{
    (500, error_text)
}

} // verus!
