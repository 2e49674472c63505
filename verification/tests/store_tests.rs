use diagweave::cause::{
    collect_error_chain, CauseCollection, CauseKind, CauseTraversalState, ErrorGraph, ErrorNode, ReportSourceErrorIter,
    SeenErrorAddrs, SourceErrorIterStage,
};
use diagweave::config::CauseCollectOptions;
use diagweave::source_chain::{SourceErrorChain, SourceErrorItem};
use diagweave::store::{
    CauseStore, EventCauseStore, EventOnlyStore, LocalCause, LocalCauseStore, LocalErrorCauseStore, StdCause,
    StdCauseStore, StdErrorCauseStore,
};
use diagweave::utils::{fast_map_new, fast_map_with_capacity, fast_set_new, fast_set_with_capacity};

fn node(message: &str, identity: usize, source: Option<usize>) -> ErrorNode {
    ErrorNode { message: message.to_string(), identity, source }
}

/// `db` -> `io` -> `os`, and a self-looping error.
fn graph() -> ErrorGraph {
    ErrorGraph {
        nodes: vec![node("io timeout", 20, Some(1)), node("os error 110", 30, None), node("loop error", 40, Some(2))],
    }
}

fn opts(max_depth: usize, detect_cycle: bool) -> CauseCollectOptions {
    CauseCollectOptions { max_depth, detect_cycle }
}

#[test]
fn std_store_collects_errors_events_and_groups_in_order() {
    let mut store = StdCauseStore::default();
    store.push(StdCause::error(node("db failed", 10, Some(0))));
    store.push(StdCause::group(vec![StdCause::event("retried".to_string()), StdCause::event("gave up".to_string())]));
    let c = store.collect(&graph(), opts(16, true));
    assert_eq!(c.messages, vec!["db failed", "io timeout", "os error 110", "event: retried", "event: gave up"]);
    assert!(!c.truncated);
    assert!(!c.cycle_detected);
    assert_eq!(store.causes().len(), 2);
}

#[test]
fn std_store_truncates_at_max_depth() {
    let mut store = StdCauseStore::default();
    store.push(StdCause::error(node("db failed", 10, Some(0))));
    store.push(StdCause::event("never reached".to_string()));
    let c = store.collect(&graph(), opts(2, true));
    assert_eq!(c.messages, vec!["db failed", "io timeout"]);
    assert!(c.truncated);
}

#[test]
fn std_store_stops_on_cycle() {
    let mut store = StdCauseStore::default();
    store.push(StdCause::error(node("outer", 1, Some(2))));
    store.push(StdCause::event("after".to_string()));
    let c = store.collect(&graph(), opts(16, true));
    assert_eq!(c.messages, vec!["outer", "loop error"]);
    assert!(c.cycle_detected);
    let c = store.collect(&graph(), opts(4, false));
    assert_eq!(c.messages, vec!["outer", "loop error", "loop error", "loop error"]);
    assert!(c.truncated);
    assert!(!c.cycle_detected);
}

#[test]
fn first_error_is_found_depth_first() {
    let mut store = LocalCauseStore::default();
    assert!(store.first_error().is_none());
    store.extend(vec![
        LocalCause::event("e".to_string()),
        LocalCause::group(vec![LocalCause::event("f".to_string()), LocalCause::error(node("deep", 7, None))]),
        LocalCause::error(node("later", 8, None)),
    ]);
    assert_eq!(store.first_error().map(|n| n.message.as_str()), Some("deep"));
    assert_eq!(store.causes().len(), 3);
}

#[test]
fn stores_record_events_and_errors_their_own_way() {
    match StdCauseStore::local_error_cause(node("not sync", 3, None)) {
        StdCause::Event(m) => assert_eq!(m, "local-error: not sync"),
        _ => panic!("a local error is kept as an event"),
    }
    match LocalCauseStore::local_error_cause(node("not sync", 3, None)) {
        StdCause::Error(n) => assert_eq!(n.message, "not sync"),
        _ => panic!("a local error is kept as an error"),
    }
    assert!(matches!(StdCauseStore::std_error_cause(node("x", 1, None)), StdCause::Error(_)));
    assert!(matches!(LocalCauseStore::event_cause("x".to_string()), StdCause::Event(_)));
    assert_eq!(EventOnlyStore::std_error_cause(node("io down", 1, None)), "io down");
    assert_eq!(EventOnlyStore::local_error_cause(node("local", 1, None)), "local");
    assert_eq!(EventOnlyStore::event_cause("tick".to_string()), "tick");
}

#[test]
fn event_only_store_keeps_messages_up_to_depth() {
    let mut store = EventOnlyStore::default();
    store.push("a".to_string());
    store.extend(vec!["b".to_string(), "c".to_string()]);
    assert_eq!(store.events().len(), 3);
    assert!(store.first_error().is_none());
    let c = store.collect(&graph(), opts(2, true));
    assert_eq!(c.messages, vec!["event: a", "event: b"]);
    assert!(c.truncated);
    let c = store.collect(&graph(), opts(3, true));
    assert!(!c.truncated);
    assert_eq!(c.messages.len(), 3);
}

#[test]
fn error_chain_collection_appends_to_state() {
    let g = graph();
    let mut state = CauseCollection { messages: vec!["head".to_string()], truncated: false, cycle_detected: false };
    let mut depth = 1usize;
    let mut seen = SeenErrorAddrs::new();
    collect_error_chain(&g, Some(0), opts(8, true), &mut state, &mut depth, &mut seen);
    assert_eq!(state.messages, vec!["head", "io timeout", "os error 110"]);
    assert_eq!(depth, 3);
    assert!(seen.contains(20) && seen.contains(30) && !seen.contains(40));
}

#[test]
fn seen_addresses_spill_past_eight() {
    let mut seen = SeenErrorAddrs::new();
    for a in 0..12usize {
        assert!(seen.insert(a * 3));
    }
    assert!(!seen.insert(33));
    assert!(seen.contains(0) && seen.contains(33));
    assert!(!seen.contains(34));
}

#[test]
fn source_iterator_walks_attached_then_inner_errors() {
    let g = graph();
    let mut it = ReportSourceErrorIter::new(g, vec![0], Some(2), opts(16, true));
    assert_eq!(it.next(), Some(0));
    assert_eq!(it.next(), Some(1));
    assert_eq!(it.next(), Some(2));
    assert_eq!(it.next(), None);
    assert_eq!(it.state(), CauseTraversalState { truncated: false, cycle_detected: true });
    assert_eq!(it.next(), None);
}

#[test]
fn source_iterator_truncates() {
    let mut it = ReportSourceErrorIter::new(graph(), vec![0], None, opts(1, true));
    assert_eq!(it.next(), Some(0));
    assert_eq!(it.next(), None);
    assert!(it.state().truncated);
    assert!(matches!(SourceErrorIterStage::Done, SourceErrorIterStage::Done));
}

#[test]
fn root_items_iterate_in_root_order() {
    let mut chain = SourceErrorChain::new();
    let a = chain.push_node(SourceErrorItem::new("a".to_string(), None, 1));
    let b = chain.push_node(SourceErrorItem::new("b".to_string(), None, 2));
    chain.push_root(b);
    chain.push_root(a);
    chain.push_root(9);
    chain.push_root(a);
    let mut it = chain.iter();
    assert_eq!(it.next().map(|n| n.message.as_str()), Some("b"));
    assert_eq!(it.next().map(|n| n.message.as_str()), Some("a"));
    assert!(it.next().is_none());
    assert_eq!(it.next().map(|n| n.message.as_str()), Some("a"));
    assert!(it.next().is_none());
}

#[test]
fn cause_kinds_have_labels() {
    assert_eq!(CauseKind::Error.label(), "error");
    assert_eq!(CauseKind::Event.label(), "event");
}

#[test]
fn fast_collections_start_empty() {
    let m: std::collections::HashMap<u64, u8> = fast_map_new();
    let s: std::collections::HashSet<u64> = fast_set_new();
    let mc: std::collections::HashMap<u64, u8> = fast_map_with_capacity(16);
    let sc: std::collections::HashSet<u64> = fast_set_with_capacity(16);
    assert!(m.is_empty() && s.is_empty() && mc.is_empty() && sc.is_empty());
    assert!(mc.capacity() >= 16 && sc.capacity() >= 16);
}
