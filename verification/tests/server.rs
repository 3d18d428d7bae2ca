use portfu::server::config::{ServerConfig, SslConfig};
use portfu::server::dispatch::{dispatch_next_step, dispatch_start_step, unanswered, Dispatch};
use portfu::service::{
    failure_answer, handle_next_step, handle_start_step, handles_next_step, handles_start_step, HandleStep, HandlesStep,
    StepOutcome,
};
use portfu::filters::FilterResult;
use portfu::wrappers::WrapperResult;

#[test]
fn server_config_defaults() {
    let config = ServerConfig::default();
    assert_eq!(config.host, "localhost");
    assert_eq!(config.port, 8080);
    assert_eq!(config.ssl_config, None);
    assert_eq!(config.client_ssl_config, None);
    assert!(config.keep_alive);
    assert!(config.half_close);
    assert!(config.preserve_header_case);
    assert_eq!(config.max_buf_size, 2 * 1024 * 1024);
}

#[test]
fn bind_host_maps_localhost_to_loopback() {
    let mut config = ServerConfig::default();
    assert_eq!(config.bind_host(), "127.0.0.1");
    config.host = "0.0.0.0".to_string();
    assert_eq!(config.bind_host(), "0.0.0.0");
    config.host = "LOCALHOST".to_string();
    assert_eq!(config.bind_host(), "LOCALHOST");
}

#[test]
fn ssl_config_default_is_empty() {
    let ssl = SslConfig::default();
    assert_eq!(ssl.domain, "");
    assert_eq!(ssl.key, "");
}

fn dispatch(handles: &[bool], has_default: bool) -> Dispatch {
    let mut step = dispatch_start_step(handles.len(), has_default);
    while let Dispatch::Ask(i) = step {
        step = dispatch_next_step(i, handles[i], handles.len(), has_default);
    }
    step
}

#[test]
fn dispatch_serves_first_handler() {
    assert_eq!(dispatch(&[false, true, true], false), Dispatch::Serve(1));
    assert_eq!(dispatch(&[true], true), Dispatch::Serve(0));
}

#[test]
fn dispatch_falls_back_to_default_or_not_found() {
    assert_eq!(dispatch(&[false, false], true), Dispatch::ServeDefault);
    assert_eq!(dispatch(&[false, false], false), Dispatch::NotFound);
    assert_eq!(dispatch(&[], true), Dispatch::ServeDefault);
    assert_eq!(dispatch(&[], false), Dispatch::NotFound);
}

fn handles(route_matches: bool, results: &[FilterResult]) -> HandlesStep {
    let mut step = handles_start_step(route_matches, results.len());
    while let HandlesStep::Check(i) = step {
        step = handles_next_step(i, results[i], results.len());
    }
    step
}

#[test]
fn service_handles_when_route_matches_and_all_filters_allow() {
    assert_eq!(handles(true, &[]), HandlesStep::Yes);
    assert_eq!(handles(true, &[FilterResult::Allow, FilterResult::Allow]), HandlesStep::Yes);
    assert_eq!(handles(true, &[FilterResult::Allow, FilterResult::Block]), HandlesStep::No);
    assert_eq!(handles(false, &[FilterResult::Allow]), HandlesStep::No);
}

fn handle(before: &[WrapperResult], after: &[WrapperResult], has_handler: bool) -> Vec<HandleStep> {
    let before: Vec<StepOutcome> = before.iter().map(|r| StepOutcome::Answered(*r)).collect();
    let after: Vec<StepOutcome> = after.iter().map(|r| StepOutcome::Answered(*r)).collect();
    handle_outcomes(&before, StepOutcome::Answered(WrapperResult::Continue), &after, has_handler).0
}

fn handle_outcomes(
    before: &[StepOutcome],
    handler: StepOutcome,
    after: &[StepOutcome],
    has_handler: bool,
) -> (Vec<HandleStep>, HandleStep) {
    let n = before.len();
    let mut trace = vec![];
    let mut step = handle_start_step(n, has_handler);
    while step != HandleStep::Done && step != HandleStep::Failed {
        trace.push(step);
        let outcome = match step {
            HandleStep::Before(i) => before[i],
            HandleStep::After(i) => after[i],
            _ => handler,
        };
        step = handle_next_step(step, outcome, n, has_handler);
    }
    (trace, step)
}

#[test]
fn handle_runs_before_handler_after_in_order() {
    let c = WrapperResult::Continue;
    assert_eq!(
        handle(&[c, c], &[c, c], true),
        vec![
            HandleStep::Before(0),
            HandleStep::Before(1),
            HandleStep::Handler,
            HandleStep::After(0),
            HandleStep::After(1)
        ]
    );
}

#[test]
fn handle_stops_at_first_return() {
    let c = WrapperResult::Continue;
    let r = WrapperResult::Return;
    assert_eq!(handle(&[c, r], &[c, c], true), vec![HandleStep::Before(0), HandleStep::Before(1)]);
    assert_eq!(
        handle(&[c], &[r], true),
        vec![HandleStep::Before(0), HandleStep::Handler, HandleStep::After(0)]
    );
    assert_eq!(handle(&[], &[], true), vec![HandleStep::Handler]);
    assert_eq!(handle(&[c], &[c], false), vec![HandleStep::Before(0), HandleStep::After(0)]);
}

#[test]
fn handle_ends_at_the_first_error() {
    let c = StepOutcome::Answered(WrapperResult::Continue);
    let f = StepOutcome::Failed;
    assert_eq!(
        handle_outcomes(&[c, f], c, &[c, c], true),
        (vec![HandleStep::Before(0), HandleStep::Before(1)], HandleStep::Failed)
    );
    assert_eq!(
        handle_outcomes(&[c, c], f, &[c, c], true),
        (vec![HandleStep::Before(0), HandleStep::Before(1), HandleStep::Handler], HandleStep::Failed)
    );
    assert_eq!(
        handle_outcomes(&[c], c, &[f], true),
        (vec![HandleStep::Before(0), HandleStep::Handler, HandleStep::After(0)], HandleStep::Failed)
    );
    assert_eq!(handle_outcomes(&[c], c, &[c], true).1, HandleStep::Done);
    assert_eq!(handle_next_step(HandleStep::Failed, c, 1, true), HandleStep::Failed);
    assert_eq!(failure_answer("boom".to_string()), (500, "boom".to_string()));
}

#[test]
fn unanswered_requests_get_not_found() {
    assert_eq!(unanswered(Dispatch::NotFound), Some((404, vec![])));
    assert_eq!(unanswered(Dispatch::ServeDefault), None);
    assert_eq!(unanswered(Dispatch::Serve(0)), None);
}
