use griid_trace::trace::{
    estimate_event_count, AttrValue, Attributes, LineRead, Timestamp, Trace, TraceError,
    TraceEvent,
};
use griid_trace::tree::SpanNode;

fn ts(secs: i64, nanos: u32) -> Timestamp {
    Timestamp { secs, nanos }
}

fn event(trace_id: &str, span_id: &str, parent_id: Option<&str>, name: &str, status: &str) -> TraceEvent {
    TraceEvent {
        ts: ts(1782833400, 123_000_000),
        trace_id: trace_id.to_string(),
        span_id: span_id.to_string(),
        parent_id: parent_id.map(|p| p.to_string()),
        name: name.to_string(),
        status: status.to_string(),
        attrs: Attributes::new(),
    }
}

/// A sample event: a root llm_call of trace
/// t_bench with model, latency and cost.
fn sample_event(i: usize) -> TraceEvent {
    let mut e = event("t_bench", &format!("s_{}", i), None, "llm_call", "ok");
    e.ts = ts(1782833400 + (i % 60) as i64, 123_000_000);
    e.attrs.insert("model".to_string(), AttrValue::Str("gpt-4".to_string()));
    e.attrs.insert("latency_ms".to_string(), AttrValue::UInt(10));
    e.attrs.insert("cost_usd".to_string(), AttrValue::Float(0.001f64.to_bits()));
    e
}

fn count_nodes(nodes: &[SpanNode]) -> usize {
    nodes.iter().map(|n| 1 + count_nodes(&n.children)).sum()
}

#[test]
fn test_parse_trace_event() {
    let mut e = event("t_abc123", "s_xyz789", None, "llm_call", "ok");
    e.attrs.insert("model".to_string(), AttrValue::Str("gpt-4".to_string()));
    e.attrs.insert("tokens_in".to_string(), AttrValue::UInt(1200));
    e.attrs.insert("tokens_out".to_string(), AttrValue::UInt(400));
    e.attrs.insert("latency_ms".to_string(), AttrValue::UInt(2100));
    e.attrs.insert("cost_usd".to_string(), AttrValue::Float(0.028f64.to_bits()));
    assert_eq!(e.trace_id, "t_abc123");
    assert_eq!(e.name, "llm_call");
    assert!(e.is_root());
    assert_eq!(e.model(), Some("gpt-4"));
    assert_eq!(e.tokens_in(), Some(1200));
}

#[test]
fn test_validate_required_fields() {
    let e = sample_event(0);
    assert!(e.validate().is_ok());
}

#[test]
fn test_build_span_tree() {
    let root = sample_event(0);
    let mut child = sample_event(1);
    child.parent_id = Some("s_0".to_string());
    let trace = Trace::new(vec![root, child]);
    let tree = trace.build_span_tree();
    assert!(!tree.is_empty());
}

#[test]
fn integration_validate_rejects_empty_span_id() {
    let e = event("t1", "", None, "llm_call", "ok");
    let result = TraceEvent::stream_parse_reader(vec![LineRead::Parsed(Ok(e))], 64);
    assert!(result.is_err());
}

#[test]
fn validate_names_first_missing_field() {
    let cases = [
        (event("", "", None, "", ""), "trace_id"),
        (event("t", "", None, "", ""), "span_id"),
        (event("t", "s", None, "", ""), "name"),
        (event("t", "s", None, "n", ""), "status"),
    ];
    for (e, field) in cases.iter() {
        match e.validate() {
            Err(TraceError::MissingField(f)) => assert_eq!(f, *field),
            other => panic!("unexpected {:?}", other),
        }
    }
}

#[test]
fn error_messages() {
    assert_eq!(TraceError::MissingField("span_id".to_string()).message(), "Missing required field: span_id");
    assert_eq!(TraceError::InvalidJson("eof".to_string()).message(), "Invalid JSON: eof");
    assert_eq!(TraceError::InvalidTimestamp.message(), "Invalid timestamp format");
    assert_eq!(TraceError::IoError("denied".to_string()).message(), "IO error: denied");
}

#[test]
fn attributes_later_insert_replaces() {
    let mut a = Attributes::new();
    a.insert("model".to_string(), AttrValue::Str("a".to_string()));
    a.insert("tokens_in".to_string(), AttrValue::UInt(3));
    a.insert("model".to_string(), AttrValue::Str("b".to_string()));
    assert_eq!(a.entries().len(), 2);
    assert!(matches!(a.get("model"), Some(AttrValue::Str(s)) if s == "b"));
    assert!(a.get("missing").is_none());
}

#[test]
fn attribute_getters_need_the_right_type() {
    let mut e = event("t", "s", None, "llm_call", "ok");
    e.attrs.insert("model".to_string(), AttrValue::UInt(7));
    e.attrs.insert("tokens_in".to_string(), AttrValue::Float(1200.0f64.to_bits()));
    e.attrs.insert("tokens_out".to_string(), AttrValue::NegInt(-4));
    assert_eq!(e.model(), None);
    assert_eq!(e.tokens_in(), None);
    assert_eq!(e.tokens_out(), None);
}

#[test]
fn trace_id_comes_from_first_event() {
    let t = Trace::new(vec![event("t1", "a", None, "x", "ok"), event("t2", "b", None, "x", "ok")]);
    assert_eq!(t.trace_id, "t1");
    let empty = Trace::new(vec![]);
    assert_eq!(empty.trace_id, "unknown");
}

#[test]
fn root_spans_are_events_without_parent() {
    let t = Trace::new(vec![
        event("t", "a", None, "root", "ok"),
        event("t", "b", Some("a"), "child", "ok"),
        event("t", "c", None, "root2", "ok"),
    ]);
    let roots: Vec<&str> = t.root_spans().iter().map(|e| e.span_id.as_str()).collect();
    assert_eq!(roots, vec!["a", "c"]);
}

#[test]
fn span_tree_nests_by_parent_and_keeps_last_event() {
    // a (start), b child of a, c child of b, a (completed), orphan d
    let a_start = event("t", "a", None, "agent", "in_progress");
    let b = event("t", "b", Some("a"), "llm_call", "ok");
    let c = event("t", "c", Some("b"), "tool_call", "ok");
    let a_end = event("t", "a", None, "agent", "ok");
    let d = event("t", "d", Some("zzz"), "lost", "ok");
    let tree = Trace::new(vec![a_start, b, c, a_end, d]).build_span_tree();
    assert_eq!(tree.len(), 1);
    assert_eq!(tree[0].event.status, "ok");
    assert_eq!(tree[0].children.len(), 1);
    assert_eq!(tree[0].children[0].event.span_id, "b");
    assert_eq!(tree[0].children[0].children[0].event.span_id, "c");
    assert_eq!(count_nodes(&tree), 3);
}

#[test]
fn span_tree_orders_by_first_occurrence() {
    let tree = Trace::new(vec![
        event("t", "A", None, "agent", "in_progress"),
        event("t", "B", None, "agent", "in_progress"),
        event("t", "B", None, "agent", "ok"),
        event("t", "A", None, "agent", "ok"),
    ])
    .build_span_tree();
    let ids: Vec<&str> = tree.iter().map(|n| n.event.span_id.as_str()).collect();
    assert_eq!(ids, vec!["A", "B"]);
    assert!(tree.iter().all(|n| n.event.status == "ok"));

    let tree = Trace::new(vec![
        event("t", "R", None, "agent", "in_progress"),
        event("t", "C1", Some("R"), "tool_call", "in_progress"),
        event("t", "C2", Some("R"), "tool_call", "in_progress"),
        event("t", "C2", Some("R"), "tool_call", "ok"),
        event("t", "C1", Some("R"), "tool_call", "error"),
        event("t", "R", None, "agent", "ok"),
    ])
    .build_span_tree();
    assert_eq!(tree.len(), 1);
    let kids: Vec<(&str, &str)> =
        tree[0].children.iter().map(|n| (n.event.span_id.as_str(), n.event.status.as_str())).collect();
    assert_eq!(kids, vec![("C1", "error"), ("C2", "ok")]);
}

#[test]
fn span_tree_ignores_cycles() {
    let tree = Trace::new(vec![
        event("t", "x", Some("y"), "a", "ok"),
        event("t", "y", Some("x"), "b", "ok"),
        event("t", "z", Some("z"), "c", "ok"),
    ])
    .build_span_tree();
    assert!(tree.is_empty());
}

#[test]
fn stream_parse_reader_skips_blank_lines_and_keeps_order() {
    let lines = vec![
        LineRead::Parsed(Ok(event("t", "a", None, "x", "ok"))),
        LineRead::Blank,
        LineRead::Parsed(Ok(event("t", "b", None, "y", "ok"))),
    ];
    let events = TraceEvent::stream_parse_reader(lines, 2).unwrap();
    let ids: Vec<&str> = events.iter().map(|e| e.span_id.as_str()).collect();
    assert_eq!(ids, vec!["a", "b"]);
}

#[test]
fn stream_parse_reader_reports_first_failure() {
    let lines = vec![
        LineRead::Parsed(Ok(event("t", "a", None, "x", "ok"))),
        LineRead::Parsed(Err(TraceError::InvalidJson("bad".to_string()))),
        LineRead::Unreadable(TraceError::IoError("late".to_string())),
    ];
    match TraceEvent::stream_parse_reader(lines, 0) {
        Err(TraceError::InvalidJson(m)) => assert_eq!(m, "bad"),
        other => panic!("unexpected {:?}", other.map(|v| v.len())),
    }
    let unreadable = vec![LineRead::Unreadable(TraceError::IoError("disk".to_string()))];
    assert!(matches!(
        TraceEvent::stream_parse_reader(unreadable, 0),
        Err(TraceError::IoError(_))
    ));
    let invalid = vec![LineRead::Parsed(Ok(event("t", "s", None, "", "ok")))];
    match TraceEvent::stream_parse_reader(invalid, 0) {
        Err(TraceError::MissingField(f)) => assert_eq!(f, "name"),
        other => panic!("unexpected {:?}", other.map(|v| v.len())),
    }
}

#[test]
fn stream_parse_reader_handles_many_events() {
    let lines: Vec<LineRead> = (0..100_000).map(|i| LineRead::Parsed(Ok(sample_event(i)))).collect();
    let events = TraceEvent::stream_parse_reader(lines, 100_000).unwrap();
    assert_eq!(events.len(), 100_000);
}

#[test]
fn capacity_estimate() {
    assert_eq!(estimate_event_count(0), 64);
    assert_eq!(estimate_event_count(12_800), 64);
    assert_eq!(estimate_event_count(20_000), 100);
    assert_eq!(estimate_event_count(20_199), 100);
}

#[test]
fn timestamps_order_by_seconds_then_nanos() {
    assert!(ts(1, 5).is_at_or_before(&ts(1, 5)));
    assert!(ts(1, 5).is_at_or_before(&ts(1, 6)));
    assert!(ts(1, 999).is_at_or_before(&ts(2, 0)));
    assert!(!ts(2, 0).is_at_or_before(&ts(1, 999)));
}

fn edges(nodes: &[SpanNode], parent: &str, out: &mut Vec<(String, String)>) {
    for n in nodes {
        out.push((parent.to_string(), n.event.span_id.clone()));
        edges(&n.children, &n.event.span_id, out);
    }
}

#[test]
fn span_tree_same_up_to_order_for_reordered_events() {
    let evs = vec![
        event("t", "r", None, "agent", "ok"),
        event("t", "a", Some("r"), "tool_call", "ok"),
        event("t", "b", Some("r"), "llm_call", "ok"),
        event("t", "c", Some("a"), "llm_call", "error"),
        event("t", "q", None, "agent", "ok"),
    ];
    let mut reordered = evs.clone();
    reordered.reverse();
    reordered.swap(0, 2);
    let mut e1 = Vec::new();
    edges(&Trace::new(evs).build_span_tree(), "", &mut e1);
    let mut e2 = Vec::new();
    edges(&Trace::new(reordered).build_span_tree(), "", &mut e2);
    assert_ne!(e1, e2);
    e1.sort();
    e2.sort();
    assert_eq!(e1, e2);
    assert_eq!(e1.len(), 5);
}

fn sample_trace_lines() -> Vec<LineRead> {
    vec![
        LineRead::Parsed(Ok(event("t_sample", "s_root", None, "agent_execution", "in_progress"))),
        LineRead::Parsed(Ok(event("t_sample", "s_llm", Some("s_root"), "llm_call", "in_progress"))),
        LineRead::Parsed(Ok(event("t_sample", "s_llm", Some("s_root"), "llm_call", "ok"))),
        LineRead::Parsed(Ok(event("t_sample", "s_tool", Some("s_root"), "tool_call", "in_progress"))),
        LineRead::Parsed(Ok(event("t_sample", "s_tool", Some("s_root"), "tool_call", "ok"))),
        LineRead::Parsed(Ok(event("t_sample", "s_root", None, "agent_execution", "ok"))),
    ]
}

#[test]
fn integration_span_tree_from_sample() {
    let events = TraceEvent::stream_parse_reader(sample_trace_lines(), 6).unwrap();
    let trace = Trace::new(events);
    assert_eq!(trace.events.len(), 6);
    let roots = trace.build_span_tree();
    assert_eq!(roots.len(), 1);
    assert!(!roots[0].children.is_empty());
}
