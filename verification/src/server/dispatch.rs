//! Choosing the service that answers a request: the registered services are
//! asked in order whether they handle it, the first that does answers, and
//! otherwise the default service, if there is one; else the answer is
//! "not found".
use vstd::prelude::*;

verus! {

/// What the server does next while choosing a service.
#[derive(Clone, Copy, PartialEq, Eq, Structural, Debug)]
pub enum Dispatch {
    /// Ask the service at this position whether it handles the request.
    Ask(usize),
    /// The service at this position answers.
    Serve(usize),
    /// The default service answers.
    ServeDefault,
    /// Nobody answers: the response is "not found".
    NotFound,
}

/// What happens once no registered service is left to ask.
pub open spec fn fallback(has_default: bool) -> Dispatch {
    if has_default {
        Dispatch::ServeDefault
    } else {
        Dispatch::NotFound
    }
}

/// The first step for `count` registered services.
pub open spec fn dispatch_start(count: nat, has_default: bool) -> Dispatch {
    if count > 0 {
        Dispatch::Ask(0)
    } else {
        fallback(has_default)
    }
}

/// The step after the service at `index` answered `handles`.
pub open spec fn dispatch_next(index: nat, handles: bool, count: nat, has_default: bool) -> Dispatch {
    if handles {
        Dispatch::Serve(index as usize)
    } else if index + 1 < count {
        Dispatch::Ask((index + 1) as usize)
    } else {
        fallback(has_default)
    }
}

/// The position of the first service that handles the request.
pub open spec fn first_handler(handles: Seq<bool>) -> Option<nat>
    decreases handles.len(),
{
    if handles.len() == 0 {
        None
    } else if handles[0] {
        Some(0)
    } else {
        match first_handler(handles.drop_first()) {
            Some(i) => Some(i + 1),
            None => None,
        }
    }
}

/// The service that answers when the registered services would answer
/// `handles`: the first that handles the request, else the fallback.
pub open spec fn chosen(handles: Seq<bool>, has_default: bool) -> Dispatch {
    match first_handler(handles) {
        Some(i) => Dispatch::Serve(i as usize),
        None => fallback(has_default),
    }
}

/// The first step for `count` registered services.
pub fn dispatch_start_step(count: usize, has_default: bool) -> (step: Dispatch)
    ensures
        step == dispatch_start(count as nat, has_default),
{
    if count > 0 {
        Dispatch::Ask(0)
    } else if has_default {
        Dispatch::ServeDefault
    } else {
        Dispatch::NotFound
    }
}

/// The step after the service at `index` of `count` answered `handles`.
pub fn dispatch_next_step(index: usize, handles: bool, count: usize, has_default: bool) -> (step: Dispatch)
    requires
        index < count,
    ensures
        step == dispatch_next(index as nat, handles, count as nat, has_default),
{
    if handles {
        Dispatch::Serve(index)
    } else if index + 1 < count {
        Dispatch::Ask(index + 1)
    } else if has_default {
        Dispatch::ServeDefault
    } else {
        Dispatch::NotFound
    }
}

/// Running the steps from `Ask(from)` against the answers `handles`.
pub open spec fn run_from(handles: Seq<bool>, from: nat, has_default: bool) -> Dispatch
    decreases handles.len() - from,
{
    if from >= handles.len() {
        fallback(has_default)
    } else {
        match dispatch_next(from, handles[from as int], handles.len(), has_default) {
            Dispatch::Ask(next) => if next > from {
                run_from(handles, next as nat, has_default)
            } else {
                Dispatch::NotFound
            },
            done => done,
        }
    }
}

proof fn lemma_first_handler(handles: Seq<bool>)
    ensures
        first_handler(handles) matches Some(i) ==> i < handles.len() && handles[i as int]
            && forall|j: int| 0 <= j < i ==> !handles[j],
        first_handler(handles) is None <==> forall|j: int| 0 <= j < handles.len() ==> !handles[j],
    decreases handles.len(),
{
    if handles.len() > 0 && !handles[0] {
        let rest = handles.drop_first();
        lemma_first_handler(rest);
        assert forall|j: int| 1 <= j < handles.len() implies handles[j] == rest[j - 1] by {}
        if first_handler(handles) is None {
            assert forall|j: int| 0 <= j < handles.len() implies !handles[j] by {
                if j > 0 {
                    assert(!rest[j - 1]);
                }
            }
        }
    }
}

proof fn lemma_run_from(handles: Seq<bool>, from: nat, has_default: bool)
    requires
        from <= handles.len(),
        handles.len() <= usize::MAX,
    ensures
        run_from(handles, from, has_default) == match first_handler(handles.skip(from as int)) {
            Some(i) => Dispatch::Serve((i + from) as usize),
            None => fallback(has_default),
        },
    decreases handles.len() - from,
{
    let rest = handles.skip(from as int);
    if from < handles.len() {
        assert(rest[0] == handles[from as int]);
        assert(rest.drop_first() == handles.skip(from + 1 as int));
        if !handles[from as int] && from + 1 < handles.len() {
            lemma_run_from(handles, from + 1, has_default);
        } else if !handles[from as int] {
            assert(rest.drop_first().len() == 0);
        }
    } else {
        assert(rest.len() == 0);
    }
}

/// Stepping from the start against the answers of the registered services
/// serves the first one that handles the request; when none does, the
/// default service answers if there is one, and otherwise nobody does.
pub proof fn law_dispatch_serves_first(handles: Seq<bool>, has_default: bool)
    requires
        handles.len() <= usize::MAX,
    ensures
        (match dispatch_start(handles.len(), has_default) {
            Dispatch::Ask(i) => run_from(handles, i as nat, has_default),
            done => done,
        }) == chosen(handles, has_default),
        chosen(handles, has_default) matches Dispatch::Serve(i) ==> i < handles.len() && handles[i as int]
            && forall|j: int| 0 <= j < i ==> !handles[j],
        chosen(handles, has_default) == fallback(has_default) <==> forall|j: int| 0 <= j < handles.len() ==> !handles[j],
        fallback(has_default) == (if has_default {
            Dispatch::ServeDefault
        } else {
            Dispatch::NotFound
        }),
{
    lemma_run_from(handles, 0, has_default);
    assert(handles.skip(0) == handles);
    lemma_first_handler(handles);
}

/// The answer when the choice ends with no service: status 404 ("not
/// found") and an empty body; none where a service answers.
pub fn unanswered(step: Dispatch) -> (answer: Option<(u16, Vec<u8>)>)
    ensures
        answer is Some == (step == Dispatch::NotFound),
        answer matches Some(a) ==> a.0 == 404 && a.1@.len() == 0,
{
    match step {
        Dispatch::NotFound => Some((404, Vec::new())),
        _ => None,
    }
}

} // verus!
