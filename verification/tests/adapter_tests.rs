use griid_trace::adapter::{llm_call, root_span, tool_call, Span, SpanContext, SpanEnd, SpanStart};
use griid_trace::trace::{AttrValue, Attributes};

fn start(id: &str) -> SpanStart {
    SpanStart {
        span_id: id.to_string(),
        fresh_trace_id: format!("trace-for-{}", id),
        ts: "2026-07-02T15:30:00.000Z".to_string(),
    }
}

fn end(ms: u64) -> SpanEnd {
    SpanEnd { ts: "2026-07-02T15:30:01.000Z".to_string(), latency_ms: AttrValue::Float((ms as f64).to_bits()) }
}

#[test]
fn llm_call_records_start_and_end() {
    let mut ctx = SpanContext { trace_id: None, parent_span_id: None };
    let (first, second) = llm_call(&mut ctx, "gpt-4", "hi", "hello", 12, 34, start("s1"), end(5));
    assert_eq!(first.status, "in_progress");
    assert_eq!(second.status, "ok");
    assert_eq!(first.name, "llm_call");
    assert_eq!(first.span_id, "s1");
    assert_eq!(second.span_id, "s1");
    assert_eq!(first.trace_id, "trace-for-s1");
    assert_eq!(second.trace_id, first.trace_id);
    assert_eq!(first.parent_id, None);
    assert!(first.attrs.get("latency_ms").is_none());
    assert!(matches!(second.attrs.get("latency_ms"), Some(AttrValue::Float(b)) if f64::from_bits(*b) == 5.0));
    assert!(matches!(second.attrs.get("total_latency_ms"), Some(AttrValue::Float(b)) if f64::from_bits(*b) == 5.0));
    assert!(matches!(second.attrs.get("tokens_out"), Some(AttrValue::UInt(34))));
    assert!(matches!(second.attrs.get("model"), Some(AttrValue::Str(m)) if m == "gpt-4"));
    assert_eq!(ctx.parent_span_id, None);
}

#[test]
fn nested_spans_take_the_outer_span_as_parent() {
    let mut ctx = SpanContext { trace_id: Some("T".to_string()), parent_span_id: Some("outer-parent".to_string()) };
    let (outer, outer_start) = Span::new(&mut ctx, "agent_execution", Attributes::new(), start("outer"));
    assert_eq!(outer_start.parent_id.as_deref(), Some("outer-parent"));
    assert_eq!(outer_start.trace_id, "T");
    assert_eq!(ctx.parent_span_id.as_deref(), Some("outer"));
    let (inner, inner_start) = Span::new(&mut ctx, "tool_call", Attributes::new(), start("inner"));
    assert_eq!(inner_start.parent_id.as_deref(), Some("outer"));
    let inner_end = inner.complete_error(&mut ctx, "boom", end(1));
    assert_eq!(inner_end.status, "error");
    assert!(inner_end.attrs.get("total_latency_ms").is_none());
    assert!(matches!(inner_end.attrs.get("error"), Some(AttrValue::Str(e)) if e == "boom"));
    assert_eq!(ctx.parent_span_id.as_deref(), Some("outer"));
    let outer_end = outer.complete_ok(&mut ctx, end(2));
    assert_eq!(outer_end.parent_id.as_deref(), Some("outer-parent"));
    assert_eq!(ctx.parent_span_id.as_deref(), Some("outer-parent"));
    assert_eq!(ctx.trace_id.as_deref(), Some("T"));
}

#[test]
fn fresh_span_start_has_distinct_ids() {
    let a = SpanStart::now();
    let b = SpanStart::now();
    assert!(!a.span_id.is_empty());
    assert_ne!(a.span_id, b.span_id);
    assert_ne!(a.span_id, a.fresh_trace_id);
    assert!(a.ts.ends_with('Z'));
    let e = SpanEnd::now(AttrValue::UInt(3));
    assert!(matches!(e.latency_ms, AttrValue::UInt(3)));
}

#[test]
fn tool_and_root_spans() {
    let mut ctx = SpanContext { trace_id: None, parent_span_id: None };
    let (root, root_start) = root_span(&mut ctx, "question", start("r"));
    assert_eq!(root_start.name, "agent_execution");
    assert!(matches!(root_start.attrs.get("input"), Some(AttrValue::Str(s)) if s == "question"));
    let (tool, tool_start) = tool_call(&mut ctx, "search", start("t"));
    assert_eq!(tool_start.name, "tool_call");
    assert_eq!(tool_start.parent_id.as_deref(), Some("r"));
    assert!(matches!(tool_start.attrs.get("tool"), Some(AttrValue::Str(s)) if s == "search"));
    let tool_end = tool.complete_ok(&mut ctx, end(1));
    assert!(tool_end.attrs.get("total_latency_ms").is_none());
    assert_eq!(ctx.parent_span_id.as_deref(), Some("r"));
    let root_end = root.complete_ok(&mut ctx, end(2));
    assert!(matches!(root_end.attrs.get("latency_ms"), Some(AttrValue::Float(b)) if f64::from_bits(*b) == 2.0));
    assert!(matches!(root_end.attrs.get("total_latency_ms"), Some(AttrValue::Float(b)) if f64::from_bits(*b) == 2.0));
    assert!(matches!(root_end.attrs.get("input"), Some(AttrValue::Str(s)) if s == "question"));
    assert_eq!(ctx.parent_span_id, None);
}

#[test]
fn failed_root_span_carries_total_latency() {
    let mut ctx = SpanContext { trace_id: None, parent_span_id: None };
    let (root, _) = root_span(&mut ctx, "What is 2+2?", start("r"));
    let root_end = root.complete_error(&mut ctx, "boom", end(7));
    assert_eq!(root_end.status, "error");
    assert!(matches!(root_end.attrs.get("total_latency_ms"), Some(AttrValue::Float(b)) if f64::from_bits(*b) == 7.0));
    assert!(matches!(root_end.attrs.get("error"), Some(AttrValue::Str(e)) if e == "boom"));
}

#[test]
fn fresh_ids_are_uuid_v4_text_and_times_are_utc_millis() {
    let s = SpanStart::now();
    for id in [&s.span_id, &s.fresh_trace_id] {
        let c: Vec<char> = id.chars().collect();
        assert_eq!(c.len(), 36);
        for (i, ch) in c.iter().enumerate() {
            if [8, 13, 18, 23].contains(&i) {
                assert_eq!(*ch, '-');
            } else {
                assert!(ch.is_ascii_digit() || ('a'..='f').contains(ch));
            }
        }
        assert_eq!(c[14], '4');
        assert!(['8', '9', 'a', 'b'].contains(&c[19]));
    }
    let e = SpanEnd::now(AttrValue::Null);
    for ts in [&s.ts, &e.ts] {
        let c: Vec<char> = ts.chars().collect();
        let n = c.len();
        assert!(n >= 24);
        assert_eq!(c[n - 1], 'Z');
        assert_eq!(c[n - 5], '.');
        assert_eq!(c[n - 8], ':');
        assert_eq!(c[n - 11], ':');
        assert_eq!(c[n - 14], 'T');
        assert_eq!(c[n - 17], '-');
        assert_eq!(c[n - 20], '-');
        for i in (n - 19)..(n - 1) {
            if ![n - 17, n - 14, n - 11, n - 8, n - 5].contains(&i) {
                assert!(c[i].is_ascii_digit());
            }
        }
    }
}
