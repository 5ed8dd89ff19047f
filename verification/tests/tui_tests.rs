use griid_trace::trace::{Attributes, Timestamp, Trace, TraceError, TraceEvent};
use griid_trace::tui::{App, AppAction, KeyCode, KeyInput, ViewMode};

fn ev(span_id: &str, name: &str, status: &str) -> TraceEvent {
    TraceEvent {
        ts: Timestamp { secs: 0, nanos: 0 },
        trace_id: "t".to_string(),
        span_id: span_id.to_string(),
        parent_id: None,
        name: name.to_string(),
        status: status.to_string(),
        attrs: Attributes::new(),
    }
}

fn key(c: char) -> KeyInput {
    KeyInput { code: KeyCode::Char(c), ctrl: false }
}

fn ctrl(c: char) -> KeyInput {
    KeyInput { code: KeyCode::Char(c), ctrl: true }
}

fn code(k: KeyCode) -> KeyInput {
    KeyInput { code: k, ctrl: false }
}

fn sample_app() -> App {
    App::with_events(vec![
        ev("s_1", "llm_call", "ok"),
        ev("s_2", "tool_call", "error"),
        ev("s_3", "llm_call", "in_progress"),
    ])
}

#[test]
fn quit_with_q_or_ctrl_c() {
    let mut app = sample_app();
    app.handle_key(key('q'));
    assert!(app.should_quit);
    let mut app = sample_app();
    app.handle_key(key('c'));
    assert!(!app.should_quit);
    app.handle_key(ctrl('c'));
    assert!(app.should_quit);
}

#[test]
fn tab_cycles_views() {
    let mut app = sample_app();
    assert_eq!(app.view_mode, ViewMode::Table);
    app.handle_key(code(KeyCode::Tab));
    assert_eq!(app.view_mode, ViewMode::Flamegraph);
    app.handle_key(code(KeyCode::Tab));
    assert_eq!(app.view_mode, ViewMode::Detail);
    app.handle_key(code(KeyCode::Tab));
    assert_eq!(app.view_mode, ViewMode::Table);
}

#[test]
fn help_toggles_and_esc_closes() {
    let mut app = sample_app();
    app.handle_key(key('?'));
    assert!(app.show_help);
    app.handle_key(key('?'));
    assert!(!app.show_help);
    app.handle_key(key('?'));
    app.handle_key(code(KeyCode::Esc));
    assert!(!app.show_help);
}

#[test]
fn navigation_stays_in_bounds() {
    let mut app = sample_app();
    app.handle_key(code(KeyCode::Up));
    assert_eq!(app.selected_index, 0);
    app.handle_key(key('j'));
    app.handle_key(code(KeyCode::Down));
    app.handle_key(code(KeyCode::Down));
    assert_eq!(app.selected_index, 2);
    app.handle_key(key('k'));
    assert_eq!(app.selected_index, 1);
    app.handle_key(key('G'));
    assert_eq!(app.selected_index, 2);
    app.scroll_offset = 4;
    app.handle_key(key('g'));
    assert_eq!(app.selected_index, 0);
    assert_eq!(app.scroll_offset, 0);
}

#[test]
fn search_filters_by_name_or_span_id() {
    let mut app = sample_app();
    app.handle_key(key('/'));
    assert!(app.search_mode);
    for c in "tool".chars() {
        app.handle_key(key(c));
    }
    app.handle_key(code(KeyCode::Enter));
    assert!(!app.search_mode);
    assert_eq!(app.search_query, "tool");
    let listed: Vec<&str> = app.get_filtered_events().iter().map(|e| e.span_id.as_str()).collect();
    assert_eq!(listed, vec!["s_2"]);
    app.handle_key(key('/'));
    for c in "s_3x".chars() {
        app.handle_key(key(c));
    }
    app.handle_key(code(KeyCode::Backspace));
    app.handle_key(code(KeyCode::Enter));
    let listed: Vec<&str> = app.get_filtered_events().iter().map(|e| e.span_id.as_str()).collect();
    assert_eq!(listed, vec!["s_3"]);
    app.handle_key(code(KeyCode::Esc));
    assert_eq!(app.get_filtered_events().len(), 3);
}

#[test]
fn search_escape_clears_query() {
    let mut app = sample_app();
    app.handle_key(key('/'));
    app.handle_key(key('x'));
    app.handle_key(code(KeyCode::Esc));
    assert!(!app.search_mode);
    assert_eq!(app.search_query, "");
}

#[test]
fn status_filter_cycles() {
    let mut app = sample_app();
    app.selected_index = 2;
    app.handle_key(key('f'));
    assert_eq!(app.filter_status.as_deref(), Some("ok"));
    assert_eq!(app.selected_index, 0);
    assert_eq!(app.get_filtered_events().len(), 1);
    app.handle_key(key('f'));
    assert_eq!(app.filter_status.as_deref(), Some("error"));
    app.handle_key(key('f'));
    assert_eq!(app.filter_status.as_deref(), Some("in_progress"));
    app.handle_key(key('f'));
    assert_eq!(app.filter_status, None);
}

#[test]
fn enter_opens_details_from_table_only() {
    let mut app = sample_app();
    app.handle_key(code(KeyCode::Enter));
    assert_eq!(app.view_mode, ViewMode::Detail);
    let mut app = sample_app();
    app.handle_key(code(KeyCode::Tab));
    app.handle_key(key(' '));
    assert_eq!(app.view_mode, ViewMode::Flamegraph);
}

#[test]
fn reload_and_watch_keys() {
    let mut app = sample_app();
    assert_eq!(app.handle_key(key('r')), AppAction::Reload);
    assert_eq!(app.handle_key(key('w')), AppAction::Nothing);
    assert!(!app.watch_mode);
    app.handle_key(ctrl('w'));
    assert!(app.watch_mode);
    app.selected_index = 2;
    app.scroll_offset = 3;
    app.reload_trace(Err(TraceError::IoError("gone".to_string())));
    assert_eq!(app.selected_index, 2);
    app.reload_trace(Ok(Trace::new(vec![ev("n", "x", "ok")])));
    assert_eq!(app.selected_index, 0);
    assert_eq!(app.scroll_offset, 0);
    assert_eq!(app.index.len(), 1);
}

#[test]
fn paged_viewer() {
    let app = App::with_events_paged(vec![ev("a", "x", "ok")], 7);
    assert_eq!(app.index.page_size(), 7);
    assert_eq!(app.index.len(), 1);
    let fresh = App::default();
    assert_eq!(fresh.index.page_size(), 1000);
    assert_eq!(fresh.view_mode, ViewMode::Table);
}
