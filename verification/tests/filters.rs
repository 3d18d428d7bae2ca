use portfu::filters::FilterResult::{Allow, Block};
use portfu::filters::{FilterMode, FilterResult};
use portfu::router::middleware::MiddlewareResult::{Continue, Return};
use portfu::router::middleware::{chain, MiddlewareResult};
use portfu::wrappers::WrapperResult;
use portfu::{ServiceType, State};
use std::sync::Arc;

#[test]
fn results_from_bools() {
    assert_eq!(FilterResult::from(true), FilterResult::Allow);
    assert_eq!(FilterResult::from(false), FilterResult::Block);
    assert_eq!(WrapperResult::from(true), WrapperResult::Continue);
    assert_eq!(WrapperResult::from(false), WrapperResult::Return);
    assert_eq!(MiddlewareResult::from(false), MiddlewareResult::Return);
}

#[test]
fn any_and_all_filters() {
    assert_eq!(FilterMode::Any.combine(&[Block, Allow]), Allow);
    assert_eq!(FilterMode::Any.combine(&[Block, Block]), Block);
    assert_eq!(FilterMode::Any.combine(&[]), Block);
    assert_eq!(FilterMode::All.combine(&[Allow, Block]), Block);
    assert_eq!(FilterMode::All.combine(&[Allow, Allow]), Allow);
    assert_eq!(FilterMode::All.combine(&[]), Allow);
}

#[test]
fn middleware_chain_stops_on_return() {
    assert_eq!(chain(&[Continue, Continue]), Continue);
    assert_eq!(chain(&[Continue, Return]), Return);
    assert_eq!(chain(&[]), Continue);
}

#[test]
fn state_shares_its_value() {
    let state = State(Arc::new(5u32));
    let inner = state.inner();
    assert_eq!(*inner, 5);
    assert!(Arc::ptr_eq(&inner, &state.0));
    assert_eq!(*state, 5);
    assert_eq!(state.as_ref(), &5);
    let copy = state.clone();
    assert!(Arc::ptr_eq(&copy.0, &state.0));
    let _ = ServiceType::Folder;
}

#[test]
fn wrapper_chain_stops_on_return() {
    assert_eq!(portfu::wrappers::chain(&[WrapperResult::Continue, WrapperResult::Return]), WrapperResult::Return);
    assert_eq!(portfu::wrappers::chain(&[WrapperResult::Continue]), WrapperResult::Continue);
    assert_eq!(portfu::wrappers::chain(&[]), WrapperResult::Continue);
}

#[test]
fn filters_asked_in_order_stop_at_the_first_decision() {
    let answers = [Block, Allow, Block];
    let mut asked = 0;
    let mut decision = FilterMode::Any.undecided();
    for a in answers {
        asked += 1;
        if let Some(d) = FilterMode::Any.step(a) {
            decision = d;
            break;
        }
    }
    assert_eq!(asked, 2);
    assert_eq!(decision, FilterMode::Any.combine(&answers));
    assert_eq!(FilterMode::All.step(Block), Some(Block));
    assert_eq!(FilterMode::All.step(Allow), None);
    assert_eq!(FilterMode::All.undecided(), Allow);
}
