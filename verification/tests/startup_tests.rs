use griid_trace::startup::{resolve_trace_path, trace_file_size_allowed, validation_report, PathError, PathProbe};
use griid_trace::trace::{Attributes, LineRead, Timestamp, TraceError, TraceEvent};
use griid_trace::tui::App;
use griid_trace::watch::{parsed_events, TailCursor};

fn probe(file: bool, env: bool, def: bool, hidden: bool) -> PathProbe {
    PathProbe { file_exists: file, env_path_exists: env, default_exists: def, hidden_default_exists: hidden }
}

fn ev(span_id: &str, name: &str) -> TraceEvent {
    TraceEvent {
        ts: Timestamp { secs: 0, nanos: 0 },
        trace_id: "t".to_string(),
        span_id: span_id.to_string(),
        parent_id: None,
        name: name.to_string(),
        status: "ok".to_string(),
        attrs: Attributes::new(),
    }
}

#[test]
fn resolve_named_file() {
    let r = resolve_trace_path(Some("my.jsonl".to_string()), false, None, probe(true, false, false, false)).unwrap();
    assert_eq!(r.path, "my.jsonl");
    assert!(!r.create);
    let r = resolve_trace_path(Some("new.jsonl".to_string()), true, None, probe(false, false, true, false)).unwrap();
    assert_eq!(r.path, "new.jsonl");
    assert!(r.create);
    match resolve_trace_path(Some("gone.jsonl".to_string()), false, None, probe(false, false, true, true)) {
        Err(PathError::FileNotFound(p)) => assert_eq!(p, "gone.jsonl"),
        other => panic!("{:?}", other),
    }
}

#[test]
fn resolve_env_and_defaults() {
    let r = resolve_trace_path(None, false, Some("env.jsonl".to_string()), probe(false, true, true, false)).unwrap();
    assert_eq!(r.path, "env.jsonl");
    let r = resolve_trace_path(None, false, Some("env.jsonl".to_string()), probe(false, false, false, true)).unwrap();
    assert_eq!(r.path, "./.trace/trace.jsonl");
    let r = resolve_trace_path(None, false, None, probe(false, false, true, true)).unwrap();
    assert_eq!(r.path, "./trace.jsonl");
    assert!(!r.create);
    let r = resolve_trace_path(None, true, None, probe(false, false, false, false)).unwrap();
    assert_eq!(r.path, "./trace.jsonl");
    assert!(r.create);
    assert!(matches!(resolve_trace_path(None, false, None, probe(false, false, false, false)), Err(PathError::NoTraceFile)));
}

#[test]
fn validation_report_lists_invalid_events() {
    let lines = vec![
        LineRead::Parsed(Ok(ev("a", "x"))),
        LineRead::Parsed(Ok(ev("", "x"))),
        LineRead::Blank,
        LineRead::Parsed(Err(TraceError::InvalidJson("expected value".to_string()))),
        LineRead::Parsed(Ok(ev("c", "x"))),
        LineRead::Parsed(Ok(ev("d", ""))),
    ];
    let report = validation_report(lines);
    assert_eq!(report.events, 4);
    let found: Vec<(usize, String)> = report
        .findings
        .iter()
        .map(|(i, e)| {
            (
                *i,
                match e {
                    TraceError::MissingField(f) => f.clone(),
                    TraceError::InvalidJson(_) => "json".to_string(),
                    _ => String::new(),
                },
            )
        })
        .collect();
    assert_eq!(
        found,
        vec![(2, "span_id".to_string()), (4, "json".to_string()), (6, "name".to_string())]
    );
}

#[test]
fn validation_report_passes_clean_file() {
    let lines = vec![LineRead::Parsed(Ok(ev("a", "x"))), LineRead::Blank, LineRead::Parsed(Ok(ev("b", "y")))];
    let report = validation_report(lines);
    assert_eq!(report.events, 2);
    assert!(report.findings.is_empty());
    let first_bad = vec![LineRead::Parsed(Err(TraceError::InvalidJson("x".to_string()))), LineRead::Parsed(Ok(ev("b", "y")))];
    let report = validation_report(first_bad);
    assert_eq!(report.events, 1);
    assert_eq!(report.findings.len(), 1);
    assert_eq!(report.findings[0].0, 1);
}

#[test]
fn large_traces_are_paged() {
    let many: Vec<TraceEvent> = (0..10_001).map(|i| ev(&format!("s{}", i), "x")).collect();
    let app = App::for_trace(many, true, "t.jsonl".to_string());
    assert_eq!(app.index.page_size(), 1000);
    assert!(app.watch_mode);
    assert_eq!(app.trace_path.as_deref(), Some("t.jsonl"));
    let few = App::for_trace(vec![ev("a", "x")], false, "t.jsonl".to_string());
    assert_eq!(few.index.page_size(), 1000);
    assert!(!few.watch_mode);
}

#[test]
fn tail_cursor_counts_bytes_and_filters_events() {
    let mut cur = TailCursor::new();
    assert!(cur.initial_line(10, Ok(ev("a", "x"))).is_some());
    assert!(cur.initial_line(5, Ok(ev("", "x"))).is_none());
    assert!(cur.initial_line(3, Err(TraceError::InvalidJson("x".to_string()))).is_none());
    assert_eq!(cur.position, 21);
    assert!(cur.has_new_data(22));
    assert!(!cur.has_new_data(21));
    assert!(cur.appended_line(4, Ok(ev("", "x"))).is_none());
    assert!(cur.appended_line(2, Ok(ev("b", "x"))).is_some());
    assert_eq!(cur.position, 29);
}

#[test]
fn parsed_events_skip_failures() {
    let lines = vec![Ok(ev("a", "x")), Err(TraceError::InvalidJson("no".to_string())), Ok(ev("", "y"))];
    let evs = parsed_events(lines);
    let ids: Vec<&str> = evs.iter().map(|e| e.span_id.as_str()).collect();
    assert_eq!(ids, vec!["a", ""]);
}

#[test]
fn desktop_size_limit() {
    assert!(trace_file_size_allowed(256 * 1024 * 1024));
    assert!(!trace_file_size_allowed(256 * 1024 * 1024 + 1));
}
