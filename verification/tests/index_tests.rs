use griid_trace::index::{event_key, sort_events_by_ts, trace_key_prefix, MemoryIndex};
use griid_trace::trace::{Attributes, Timestamp, TraceEvent};

fn ev(trace_id: &str, span_id: &str, name: &str, status: &str, secs: i64) -> TraceEvent {
    TraceEvent {
        ts: Timestamp { secs, nanos: 0 },
        trace_id: trace_id.to_string(),
        span_id: span_id.to_string(),
        parent_id: None,
        name: name.to_string(),
        status: status.to_string(),
        attrs: Attributes::new(),
    }
}

fn ids(events: &[TraceEvent]) -> Vec<&str> {
    events.iter().map(|e| e.span_id.as_str()).collect()
}

#[test]
fn memory_index_pages() {
    let mut idx = MemoryIndex::with_page_size(2);
    idx.add_events((0..5).map(|i| ev("t", &format!("s{}", i), "n", "ok", i)).collect());
    assert_eq!(idx.len(), 5);
    assert_eq!(idx.page_count(), 3);
    assert_eq!(ids(idx.get_events_paged(0)), vec!["s0", "s1"]);
    assert_eq!(ids(idx.get_events_paged(2)), vec!["s4"]);
    assert!(idx.get_events_paged(3).is_empty());
    let all: Vec<&str> = (0..idx.page_count()).flat_map(|p| ids(idx.get_events_paged(p))).collect();
    assert_eq!(all, ids(idx.get_events()));
}

#[test]
fn memory_index_defaults() {
    let idx = MemoryIndex::new();
    assert_eq!(idx.page_size(), 1000);
    assert_eq!(idx.page_count(), 0);
    let d = MemoryIndex::default();
    assert_eq!(d.page_size(), 0);
    assert!(d.get_events_paged(0).is_empty());
}

#[test]
fn memory_index_filters() {
    let mut idx = MemoryIndex::new();
    idx.add_event(ev("t1", "a", "llm_call", "ok", 1));
    idx.add_event(ev("t2", "b", "tool_call", "error", 2));
    idx.add_event(ev("t1", "c", "llm_call", "error", 3));
    let by_name: Vec<&str> = idx.filter_by_name("llm_call").iter().map(|e| e.span_id.as_str()).collect();
    assert_eq!(by_name, vec!["a", "c"]);
    let by_status: Vec<&str> = idx.filter_by_status("error").iter().map(|e| e.span_id.as_str()).collect();
    assert_eq!(by_status, vec!["b", "c"]);
    let t1 = idx.get_trace("t1");
    assert_eq!(t1.trace_id, "t1");
    assert_eq!(ids(&t1.events), vec!["a", "c"]);
    let none = idx.get_trace("nope");
    assert_eq!(none.trace_id, "unknown");
    assert!(none.events.is_empty());
    idx.clear();
    assert_eq!(idx.len(), 0);
    assert_eq!(idx.page_size(), 1000);
}

#[test]
fn index_keys() {
    assert_eq!(event_key("t_abc", "s_1"), "t_abc:s_1");
    assert_eq!(trace_key_prefix("t_abc"), "t_abc:");
    assert!(event_key("t_abc", "s_1").starts_with(&trace_key_prefix("t_abc")));
}

#[test]
fn sort_is_stable_by_timestamp() {
    let events = vec![
        ev("t", "late", "n", "ok", 5),
        ev("t", "early", "n", "ok", 1),
        ev("t", "tie1", "n", "ok", 3),
        ev("t", "tie2", "n", "ok", 3),
        ev("t", "first", "n", "ok", 0),
    ];
    let sorted = sort_events_by_ts(events);
    assert_eq!(ids(&sorted), vec!["first", "early", "tie1", "tie2", "late"]);
}
