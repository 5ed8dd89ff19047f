//! The state machine of the terminal viewer: views, selection, search and
//! status filter, driven by key presses.
use vstd::prelude::*;
use crate::index::MemoryIndex;
use crate::text::{chars_of, contains_chars, occurs_in, string_of};
use crate::trace::{derefs, Trace, TraceError, TraceEvent};

verus! {

/// The panel shown in the main area.
#[derive(Clone, Copy, Debug, PartialEq, Eq, Structural)]
pub enum ViewMode {
    Table,
    Flamegraph,
    Detail,
}

/// The key of a key press, as far as the viewer tells keys apart.
#[derive(Clone, Copy, Debug, PartialEq, Eq, Structural)]
pub enum KeyCode {
    Char(char),
    Tab,
    Esc,
    Enter,
    Up,
    Down,
    Backspace,
    Other,
}

/// A key press: the key, and whether Control was held.
#[derive(Clone, Copy, Debug, PartialEq, Eq, Structural)]
pub struct KeyInput {
    pub code: KeyCode,
    pub ctrl: bool,
}

/// An input event of the terminal viewer.
#[derive(Clone, Copy, Debug, PartialEq, Eq, Structural)]
pub enum Event {
    Key(KeyInput),
    Tick,
}

/// Outside work that a key press asks of the program around the viewer.
#[derive(Clone, Copy, Debug, PartialEq, Eq, Structural)]
pub enum AppAction {
    /// Nothing to do.
    Nothing,
    /// Read the trace file again and hand the result to
    /// [`App::reload_trace`].
    Reload,
}

/// The viewer's state.
pub struct App {
    pub index: MemoryIndex,
    pub selected_index: usize,
    pub view_mode: ViewMode,
    pub search_query: String,
    pub filter_status: Option<String>,
    pub should_quit: bool,
    pub show_help: bool,
    pub scroll_offset: usize,
    pub search_mode: bool,
    pub input_mode: bool,
    pub watch_mode: bool,
    pub trace_path: Option<String>,
}

/// The mathematical value of an [`App`].
#[verifier::ext_equal]
pub struct AppView {
    pub events: Seq<TraceEvent>,
    pub page_size: usize,
    pub selected_index: usize,
    pub view_mode: ViewMode,
    pub search_query: Seq<char>,
    pub filter_status: Option<Seq<char>>,
    pub should_quit: bool,
    pub show_help: bool,
    pub scroll_offset: usize,
    pub search_mode: bool,
    pub input_mode: bool,
    pub watch_mode: bool,
    pub trace_path: Option<Seq<char>>,
}

impl View for App {
    type V = AppView;

    open spec fn view(&self) -> AppView {
        AppView {
            events: self.index@,
            page_size: self.index.page_size_spec(),
            selected_index: self.selected_index,
            view_mode: self.view_mode,
            search_query: self.search_query@,
            filter_status: crate::trace::opt_str_view(self.filter_status),
            should_quit: self.should_quit,
            show_help: self.show_help,
            scroll_offset: self.scroll_offset,
            search_mode: self.search_mode,
            input_mode: self.input_mode,
            watch_mode: self.watch_mode,
            trace_path: crate::trace::opt_str_view(self.trace_path),
        }
    }
}

/// An event is listed when it has the status filtered for (if any) and,
/// when a search query is set, its name or span id contains the query.
pub open spec fn is_listed(filter: Option<Seq<char>>, query: Seq<char>, e: TraceEvent) -> bool {
    &&& match filter {
        Some(st) => e.status@ == st,
        None => true,
    }
    &&& (query.len() == 0 || occurs_in(query, e.name@) || occurs_in(query, e.span_id@))
}

/// The events the viewer lists, in order.
pub open spec fn listed(s: AppView) -> Seq<TraceEvent> {
    s.events.filter(|e: TraceEvent| is_listed(s.filter_status, s.search_query, e))
}

/// The view after `v` when cycling with Tab.
pub open spec fn next_view(v: ViewMode) -> ViewMode {
    match v {
        ViewMode::Table => ViewMode::Flamegraph,
        ViewMode::Flamegraph => ViewMode::Detail,
        ViewMode::Detail => ViewMode::Table,
    }
}

/// The status filter after `f` when cycling with `f`: none, "ok",
/// "error", "in_progress", then none again.
pub open spec fn next_filter(f: Option<Seq<char>>) -> Option<Seq<char>> {
    match f {
        None => Some("ok"@),
        Some(st) => if st == "ok"@ {
            Some("error"@)
        } else if st == "error"@ {
            Some("in_progress"@)
        } else {
            None
        },
    }
}

/// The selection after moving down one row.
pub open spec fn selection_down(s: AppView) -> usize {
    let n = listed(s).len();
    if n > 0 && s.selected_index < n - 1 {
        (s.selected_index + 1) as usize
    } else {
        s.selected_index
    }
}

/// The selection after moving up one row.
pub open spec fn selection_up(s: AppView) -> usize {
    if s.selected_index > 0 {
        (s.selected_index - 1) as usize
    } else {
        s.selected_index
    }
}

/// What a key press does while a search query is typed.
pub open spec fn search_key_result(s: AppView, key: KeyInput) -> AppView {
    match key.code {
        KeyCode::Esc => AppView { search_mode: false, search_query: Seq::empty(), ..s },
        KeyCode::Enter => AppView { search_mode: false, ..s },
        KeyCode::Char(c) => AppView { search_query: s.search_query.push(c), ..s },
        KeyCode::Backspace => AppView {
            search_query: if s.search_query.len() > 0 {
                s.search_query.drop_last()
            } else {
                s.search_query
            },
            ..s
        },
        _ => s,
    }
}

/// What a key press does to the viewer, and what it asks of the program
/// around it. `q` and Ctrl+C quit; `?` toggles help; Tab cycles the views;
/// `/` starts a search and Esc ends it; `r` asks for a reload; Ctrl+W
/// toggles the watch indicator; Up/`k` and Down/`j` move the selection;
/// `g` and `G` go to the top and the bottom; Enter or Space open the
/// details of the table selection; `f` cycles the status filter.
pub open spec fn key_result(s: AppView, key: KeyInput) -> (AppView, AppAction) {
    if s.search_mode {
        (search_key_result(s, key), AppAction::Nothing)
    } else {
        match key.code {
            KeyCode::Char(c) => if c == 'q' || (c == 'c' && key.ctrl) {
                (AppView { should_quit: true, ..s }, AppAction::Nothing)
            } else if c == '?' {
                (AppView { show_help: !s.show_help, ..s }, AppAction::Nothing)
            } else if c == '/' {
                (AppView { search_mode: true, search_query: Seq::empty(), ..s }, AppAction::Nothing)
            } else if c == 'r' {
                (s, AppAction::Reload)
            } else if c == 'w' && key.ctrl {
                (AppView { watch_mode: !s.watch_mode, ..s }, AppAction::Nothing)
            } else if c == 'k' {
                (AppView { selected_index: selection_up(s), ..s }, AppAction::Nothing)
            } else if c == 'j' {
                (AppView { selected_index: selection_down(s), ..s }, AppAction::Nothing)
            } else if c == 'g' {
                (AppView { selected_index: 0, scroll_offset: 0, ..s }, AppAction::Nothing)
            } else if c == 'G' {
                if listed(s).len() > 0 {
                    (AppView { selected_index: (listed(s).len() - 1) as usize, ..s }, AppAction::Nothing)
                } else {
                    (s, AppAction::Nothing)
                }
            } else if c == ' ' {
                (AppView {
                    view_mode: if s.view_mode == ViewMode::Table {
                        ViewMode::Detail
                    } else {
                        s.view_mode
                    },
                    ..s
                }, AppAction::Nothing)
            } else if c == 'f' {
                (AppView { filter_status: next_filter(s.filter_status), selected_index: 0, ..s }, AppAction::Nothing)
            } else {
                (s, AppAction::Nothing)
            },
            KeyCode::Tab => (AppView { view_mode: next_view(s.view_mode), ..s }, AppAction::Nothing),
            KeyCode::Esc => (AppView {
                search_mode: false,
                search_query: Seq::empty(),
                show_help: false,
                ..s
            }, AppAction::Nothing),
            KeyCode::Up => (AppView { selected_index: selection_up(s), ..s }, AppAction::Nothing),
            KeyCode::Down => (AppView { selected_index: selection_down(s), ..s }, AppAction::Nothing),
            KeyCode::Enter => (AppView {
                view_mode: if s.view_mode == ViewMode::Table {
                    ViewMode::Detail
                } else {
                    s.view_mode
                },
                ..s
            }, AppAction::Nothing),
            _ => (s, AppAction::Nothing),
        }
    }
}

/// Tab three times shows the view one started from.
pub proof fn lemma_view_cycle(v: ViewMode)
    ensures
        next_view(next_view(next_view(v))) == v,
{
}

/// Pressing `f` four times from no filter comes back to no filter, passing
/// through "ok", "error" and "in_progress".
pub proof fn lemma_filter_cycle()
    ensures
        next_filter(None) == Some("ok"@),
        next_filter(Some("ok"@)) == Some("error"@),
        next_filter(Some("error"@)) == Some("in_progress"@),
        next_filter(Some("in_progress"@)) == None::<Seq<char>>,
{
    reveal_strlit("ok");
    reveal_strlit("error");
    reveal_strlit("in_progress");
    assert("error"@ != "ok"@) by {
        assert("error"@.len() != "ok"@.len());
    }
    assert("in_progress"@ != "ok"@) by {
        assert("in_progress"@.len() != "ok"@.len());
    }
    assert("in_progress"@ != "error"@) by {
        assert("in_progress"@.len() != "error"@.len());
    }
}

/// Outside a search, `?` twice leaves the viewer as it was, and quitting
/// twice is quitting once.
pub proof fn lemma_help_toggle_and_quit(s: AppView)
    requires
        !s.search_mode,
    ensures
        key_result(key_result(s, KeyInput { code: KeyCode::Char('?'), ctrl: false }).0, KeyInput {
            code: KeyCode::Char('?'),
            ctrl: false,
        }).0 == s,
        ({
            let q = key_result(s, KeyInput { code: KeyCode::Char('q'), ctrl: false }).0;
            &&& q.should_quit
            &&& key_result(q, KeyInput { code: KeyCode::Char('q'), ctrl: false }).0 == q
        }),
{
    let once = key_result(s, KeyInput { code: KeyCode::Char('?'), ctrl: false }).0;
    assert(key_result(once, KeyInput { code: KeyCode::Char('?'), ctrl: false }).0 =~= s);
    let q = key_result(s, KeyInput { code: KeyCode::Char('q'), ctrl: false }).0;
    assert(key_result(q, KeyInput { code: KeyCode::Char('q'), ctrl: false }).0 =~= q);
}

/// Moving the selection keeps it on a listed event: a selection on the
/// list stays on the list after Up or Down.
pub proof fn lemma_selection_stays_listed(s: AppView)
    ensures
        s.selected_index < listed(s).len() ==> selection_down(s) < listed(s).len(),
        s.selected_index < listed(s).len() ==> selection_up(s) < listed(s).len(),
        selection_up(s) <= s.selected_index,
{
}

/// While searching, typing a character and deleting it again leaves the
/// query as it was; Esc always ends the search with an empty query.
pub proof fn lemma_search_editing(s: AppView, c: char, ctrl: bool)
    requires
        s.search_mode,
    ensures
        ({
            let typed = search_key_result(s, KeyInput { code: KeyCode::Char(c), ctrl });
            search_key_result(typed, KeyInput { code: KeyCode::Backspace, ctrl }) == s
        }),
        !key_result(s, KeyInput { code: KeyCode::Esc, ctrl }).0.search_mode,
        key_result(s, KeyInput { code: KeyCode::Esc, ctrl }).0.search_query == Seq::<char>::empty(),
{
    let typed = search_key_result(s, KeyInput { code: KeyCode::Char(c), ctrl });
    assert(typed.search_query.drop_last() =~= s.search_query);
    assert(search_key_result(typed, KeyInput { code: KeyCode::Backspace, ctrl }) =~= s);
}

/// Keeping every element: a filter whose test holds throughout changes
/// nothing.
proof fn lemma_filter_keeps_all(s: Seq<TraceEvent>, p: spec_fn(TraceEvent) -> bool)
    requires
        forall|i: int| 0 <= i < s.len() ==> p(#[trigger] s[i]),
    ensures
        s.filter(p) == s,
    decreases s.len(),
{
    reveal_with_fuel(Seq::<_>::filter, 1);
    if s.len() > 0 {
        lemma_filter_keeps_all(s.drop_last(), p);
        assert(s.drop_last().push(s.last()) =~= s);
    }
}

/// The viewer lists exactly the events that pass both the status filter
/// and the search: an event is listed when it is one of the trace's events,
/// has the filtered status (when a filter is set) and its name or span id
/// contains the query (when a query is set). With neither set, every event
/// is listed, in order.
pub proof fn lemma_listed_is_filter_and_search(s: AppView, e: TraceEvent)
    ensures
        listed(s).contains(e) <==> {
            &&& s.events.contains(e)
            &&& (s.filter_status is Some ==> e.status@ == s.filter_status->0)
            &&& (s.search_query.len() > 0 ==> occurs_in(s.search_query, e.name@) || occurs_in(
                s.search_query,
                e.span_id@,
            ))
        },
        listed(s).len() <= s.events.len(),
        (s.filter_status is None && s.search_query.len() == 0) ==> listed(s) == s.events,
{
    broadcast use vstd::seq_lib::group_filter_ensures;
    let p = |x: TraceEvent| is_listed(s.filter_status, s.search_query, x);
    if listed(s).contains(e) {
        s.events.lemma_filter_contains_rev(p, e);
        let i = choose|i: int| 0 <= i < listed(s).len() && listed(s)[i] == e;
        assert(p(listed(s)[i]));
    }
    if s.events.contains(e) && p(e) {
        let i = choose|i: int| 0 <= i < s.events.len() && s.events[i] == e;
        s.events.lemma_filter_contains(p, i);
    }
    if s.filter_status is None && s.search_query.len() == 0 {
        lemma_filter_keeps_all(s.events, p);
    }
}

/// Outside a search, `G` selects the last listed event (the last one that
/// passes the status filter and the search), so the selection stays on the
/// list; with nothing listed it leaves the selection alone. The events,
/// filter and query stay as they were. (The events of a viewer are held in
/// memory, so there are at most `usize::MAX` of them.)
pub proof fn lemma_bottom_selects_last_listed(s: AppView, ctrl: bool)
    requires
        !s.search_mode,
        s.events.len() <= usize::MAX,
    ensures
        ({
            let r = key_result(s, KeyInput { code: KeyCode::Char('G'), ctrl }).0;
            &&& listed(s).len() > 0 ==> r.selected_index == listed(s).len() - 1
            &&& listed(s).len() > 0 ==> r.selected_index < listed(s).len()
            &&& listed(s).len() == 0 ==> r.selected_index == s.selected_index
            &&& r.events == s.events
            &&& r.filter_status == s.filter_status
            &&& r.search_query == s.search_query
            &&& listed(r) == listed(s)
        }),
{
    broadcast use vstd::seq_lib::group_filter_ensures;
    assert(listed(s).len() <= s.events.len());
}

/// A fresh viewer: no events, pages of 1000, table view, nothing selected,
/// searched or filtered.
pub open spec fn initial_view() -> AppView {
    AppView {
        events: Seq::empty(),
        page_size: 1000,
        selected_index: 0,
        view_mode: ViewMode::Table,
        search_query: Seq::empty(),
        filter_status: None,
        should_quit: false,
        show_help: false,
        scroll_offset: 0,
        search_mode: false,
        input_mode: false,
        watch_mode: false,
        trace_path: None,
    }
}

impl App {
    /// A viewer with no events, in table view.
    pub fn new() -> (r: App)
        ensures
            r@ == initial_view(),
    {
        let r = App {
            index: MemoryIndex::new(),
            selected_index: 0,
            view_mode: ViewMode::Table,
            search_query: String::new(),
            filter_status: None,
            should_quit: false,
            show_help: false,
            scroll_offset: 0,
            search_mode: false,
            input_mode: false,
            watch_mode: false,
            trace_path: None,
        };
        assert(r@ =~= initial_view());
        r
    }

    /// A new viewer showing `events`.
    pub fn with_events(events: Vec<TraceEvent>) -> (r: App)
        ensures
            r@ == (AppView { events: events@, ..initial_view() }),
    {
        let mut app = App::new();
        app.index.add_events(events);
        assert(Seq::<TraceEvent>::empty() + events@ =~= events@);
        assert(app@ =~= (AppView { events: events@, ..initial_view() }));
        app
    }

    /// A new viewer showing `events`, paged `page_size` at a time.
    pub fn with_events_paged(events: Vec<TraceEvent>, page_size: usize) -> (r: App)
        ensures
            r@ == (AppView { events: events@, page_size, ..initial_view() }),
    {
        let mut app = App::new();
        app.index = MemoryIndex::with_page_size(page_size);
        app.index.add_events(events);
        assert(Seq::<TraceEvent>::empty() + events@ =~= events@);
        assert(app@ =~= (AppView { events: events@, page_size, ..initial_view() }));
        app
    }

    /// Replaces the events with those of a freshly read trace and resets the
    /// selection and scrolling; a failed read changes nothing.
    pub fn reload_trace(&mut self, loaded: Result<Trace, TraceError>)
        ensures
            match loaded {
                Ok(t) => final(self)@ == (AppView {
                    events: t.events@,
                    selected_index: 0,
                    scroll_offset: 0,
                    ..old(self)@
                }),
                Err(_) => final(self)@ == old(self)@,
            },
    {
        match loaded {
            Ok(trace) => {
                let ghost evs = trace.events@;
                self.index.clear();
                self.index.add_events(trace.events);
                self.selected_index = 0;
                self.scroll_offset = 0;
                assert(Seq::<TraceEvent>::empty() + evs =~= evs);
                assert(self@ =~= (AppView {
                    events: evs,
                    selected_index: 0,
                    scroll_offset: 0,
                    ..old(self)@
                }));
            },
            Err(_) => {},
        }
    }

    /// The events listed under the current status filter and search query,
    /// in order.
    pub fn get_filtered_events(&self) -> (r: Vec<&TraceEvent>)
        ensures
            derefs(r@) == listed(self@),
    {
        let events = self.index.get_events();
        let q = chars_of(self.search_query.as_str());
        let mut out: Vec<&TraceEvent> = Vec::new();
        let n = events.len();
        let mut i: usize = 0;
        while i < n
            invariant
                n == events@.len(),
                events@ == self.index@,
                q@ == self.search_query@,
                i <= n,
                derefs(out@) == events@.take(i as int).filter(
                    |e: TraceEvent| is_listed(crate::trace::opt_str_view(self.filter_status), self.search_query@, e),
                ),
            decreases n - i,
        {
            proof {
                reveal_with_fuel(Seq::<_>::filter, 1);
            }
            assert(events@.take(i + 1).drop_last() =~= events@.take(i as int));
            let e = &events[i];
            let status_ok = match &self.filter_status {
                Some(st) => e.status == *st,
                None => true,
            };
            let keep = status_ok && (q.len() == 0 || contains_chars(&chars_of(e.name.as_str()), &q)
                || contains_chars(&chars_of(e.span_id.as_str()), &q));
            let ghost prev = out@;
            if keep {
                out.push(e);
                assert(derefs(out@) =~= derefs(prev).push(events@[i as int]));
            }
            i = i + 1;
        }
        assert(events@.take(n as int) =~= events@);
        out
    }

    /// Moves the selection one row down, staying on the last listed event.
    pub fn select_next(&mut self)
        ensures
            final(self)@ == (AppView { selected_index: selection_down(old(self)@), ..old(self)@ }),
    {
        let n = self.get_filtered_events().len();
        if n > 0 && self.selected_index < n - 1 {
            self.selected_index = self.selected_index + 1;
        }
        assert(self@ =~= (AppView { selected_index: selection_down(old(self)@), ..old(self)@ }));
    }

    /// Moves the selection one row up, staying on the first row.
    pub fn select_previous(&mut self)
        ensures
            final(self)@ == (AppView { selected_index: selection_up(old(self)@), ..old(self)@ }),
    {
        if self.selected_index > 0 {
            self.selected_index = self.selected_index - 1;
        }
        assert(self@ =~= (AppView { selected_index: selection_up(old(self)@), ..old(self)@ }));
    }

    /// Shows the next view: table, flamegraph, detail, table again.
    pub fn cycle_view(&mut self)
        ensures
            final(self)@ == (AppView { view_mode: next_view(old(self)@.view_mode), ..old(self)@ }),
    {
        self.view_mode = match self.view_mode {
            ViewMode::Table => ViewMode::Flamegraph,
            ViewMode::Flamegraph => ViewMode::Detail,
            ViewMode::Detail => ViewMode::Table,
        };
        assert(self@ =~= (AppView { view_mode: next_view(old(self)@.view_mode), ..old(self)@ }));
    }

    /// Shows or hides the help overlay.
    pub fn toggle_help(&mut self)
        ensures
            final(self)@ == (AppView { show_help: !old(self)@.show_help, ..old(self)@ }),
    {
        self.show_help = !self.show_help;
        assert(self@ =~= (AppView { show_help: !old(self)@.show_help, ..old(self)@ }));
    }

    /// Asks the viewer to stop.
    pub fn quit(&mut self)
        ensures
            final(self)@ == (AppView { should_quit: true, ..old(self)@ }),
    {
        self.should_quit = true;
        assert(self@ =~= (AppView { should_quit: true, ..old(self)@ }));
    }

    /// The status filter that follows the current one.
    fn next_filter_status(&self) -> (r: Option<String>)
        ensures
            crate::trace::opt_str_view(r) == next_filter(self@.filter_status),
    {
        match &self.filter_status {
            None => Some(String::from_str("ok")),
            Some(st) => {
                if *st == String::from_str("ok") {
                    Some(String::from_str("error"))
                } else if *st == String::from_str("error") {
                    Some(String::from_str("in_progress"))
                } else {
                    None
                }
            },
        }
    }

    /// Handles a key press while a search query is typed.
    fn handle_search_key(&mut self, key: KeyInput)
        requires
            old(self).search_mode,
        ensures
            final(self)@ == search_key_result(old(self)@, key),
    {
        match key.code {
            KeyCode::Esc => {
                self.search_mode = false;
                self.search_query = String::new();
            },
            KeyCode::Enter => {
                self.search_mode = false;
            },
            KeyCode::Char(c) => {
                let mut q = chars_of(self.search_query.as_str());
                q.push(c);
                self.search_query = string_of(&q);
            },
            KeyCode::Backspace => {
                let mut q = chars_of(self.search_query.as_str());
                if q.len() > 0 {
                    q.pop();
                    assert(q@ =~= old(self).search_query@.drop_last());
                }
                self.search_query = string_of(&q);
            },
            _ => {},
        }
        assert(self@ =~= search_key_result(old(self)@, key));
    }

    /// Handles a key press; the result says what the program around the
    /// viewer has to do next.
    pub fn handle_key(&mut self, key: KeyInput) -> (r: AppAction)
        ensures
            (final(self)@, r) == key_result(old(self)@, key),
    {
        if self.search_mode {
            self.handle_search_key(key);
            return AppAction::Nothing;
        }
        match key.code {
            KeyCode::Char(c) => {
                if c == 'q' || (c == 'c' && key.ctrl) {
                    self.quit();
                } else if c == '?' {
                    self.toggle_help();
                } else if c == '/' {
                    self.search_mode = true;
                    self.search_query = String::new();
                } else if c == 'r' {
                    return AppAction::Reload;
                } else if c == 'w' && key.ctrl {
                    self.watch_mode = !self.watch_mode;
                } else if c == 'k' {
                    self.select_previous();
                } else if c == 'j' {
                    self.select_next();
                } else if c == 'g' {
                    self.selected_index = 0;
                    self.scroll_offset = 0;
                } else if c == 'G' {
                    let n = self.get_filtered_events().len();
                    if n > 0 {
                        self.selected_index = n - 1;
                    }
                } else if c == ' ' {
                    if self.view_mode == ViewMode::Table {
                        self.view_mode = ViewMode::Detail;
                    }
                } else if c == 'f' {
                    self.filter_status = self.next_filter_status();
                    self.selected_index = 0;
                }
            },
            KeyCode::Tab => {
                self.cycle_view();
            },
            KeyCode::Esc => {
                self.search_mode = false;
                self.search_query = String::new();
                self.show_help = false;
            },
            KeyCode::Up => {
                self.select_previous();
            },
            KeyCode::Down => {
                self.select_next();
            },
            KeyCode::Enter => {
                if self.view_mode == ViewMode::Table {
                    self.view_mode = ViewMode::Detail;
                }
            },
            _ => {},
        }
        assert(self@ =~= key_result(old(self)@, key).0);
        AppAction::Nothing
    }
}

impl Default for App {
    /// The same as [`App::new`].
    fn default() -> (r: App)
        ensures
            r@ == initial_view(),
    {
        App::new()
    }
}

} // verus!
