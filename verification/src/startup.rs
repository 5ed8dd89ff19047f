//! Decisions of the `trace` program around its commands: which trace file
//! to open, how to hold the loaded events, and what validation reports.
use vstd::prelude::*;
use crate::trace::{missing_field, opt_str_view, ErrorView, LineRead, TraceError, TraceEvent};
use crate::tui::{initial_view, App, AppView};

verus! {

/// Which of the candidate trace files exist.
#[derive(Clone, Copy, Debug, PartialEq, Eq, Structural)]
pub struct PathProbe {
    /// The file named on the command line exists.
    pub file_exists: bool,
    /// The file named by `TRACE_PATH` exists.
    pub env_path_exists: bool,
    /// `./trace.jsonl` exists.
    pub default_exists: bool,
    /// `./.trace/trace.jsonl` exists.
    pub hidden_default_exists: bool,
}

/// The trace file to open, and whether it has to be created first (with
/// its parent directories).
#[derive(Debug)]
pub struct ResolvedPath {
    pub path: String,
    pub create: bool,
}

/// Why no trace file can be opened.
#[derive(Debug)]
pub enum PathError {
    /// The file named on the command line does not exist (and is not to be
    /// created).
    FileNotFound(String),
    /// No file was named and none of the default ones exists.
    NoTraceFile,
}

/// The mathematical value of a path decision.
pub enum PathDecision {
    Open { path: Seq<char>, create: bool },
    FileNotFound(Seq<char>),
    NoTraceFile,
}

/// Which trace file the viewer opens: the file named on the command line;
/// else the one `TRACE_PATH` names, if it exists or is to be watched;
/// else `./trace.jsonl` or `./.trace/trace.jsonl` if one exists; else, when
/// watching, a new `./trace.jsonl`. A file that does not exist is created
/// only when watching.
pub open spec fn trace_path_decision(
    file: Option<Seq<char>>,
    watch: bool,
    env_path: Option<Seq<char>>,
    probe: PathProbe,
) -> PathDecision {
    match file {
        Some(p) => if probe.file_exists || watch {
            PathDecision::Open { path: p, create: !probe.file_exists }
        } else {
            PathDecision::FileNotFound(p)
        },
        None => if env_path is Some && (probe.env_path_exists || watch) {
            PathDecision::Open { path: env_path->0, create: !probe.env_path_exists }
        } else if probe.default_exists {
            PathDecision::Open { path: "./trace.jsonl"@, create: false }
        } else if probe.hidden_default_exists {
            PathDecision::Open { path: "./.trace/trace.jsonl"@, create: false }
        } else if watch {
            PathDecision::Open { path: "./trace.jsonl"@, create: true }
        } else {
            PathDecision::NoTraceFile
        },
    }
}

/// The mathematical value of a path resolution.
pub open spec fn path_result_view(r: Result<ResolvedPath, PathError>) -> PathDecision {
    match r {
        Ok(p) => PathDecision::Open { path: p.path@, create: p.create },
        Err(PathError::FileNotFound(p)) => PathDecision::FileNotFound(p@),
        Err(PathError::NoTraceFile) => PathDecision::NoTraceFile,
    }
}

/// Decides which trace file the viewer opens (see [`trace_path_decision`]).
pub fn resolve_trace_path(
    file: Option<String>,
    watch: bool,
    env_path: Option<String>,
    probe: PathProbe,
) -> (r: Result<ResolvedPath, PathError>)
    ensures
        path_result_view(r) == trace_path_decision(opt_str_view(file), watch, opt_str_view(env_path), probe),
{
    if let Some(path) = file {
        if probe.file_exists || watch {
            return Ok(ResolvedPath { path, create: !probe.file_exists });
        }
        return Err(PathError::FileNotFound(path));
    }
    if let Some(path) = env_path {
        if probe.env_path_exists || watch {
            return Ok(ResolvedPath { path, create: !probe.env_path_exists });
        }
    }
    if probe.default_exists {
        return Ok(ResolvedPath { path: String::from_str("./trace.jsonl"), create: false });
    }
    if probe.hidden_default_exists {
        return Ok(ResolvedPath { path: String::from_str("./.trace/trace.jsonl"), create: false });
    }
    if watch {
        return Ok(ResolvedPath { path: String::from_str("./trace.jsonl"), create: true });
    }
    Err(PathError::NoTraceFile)
}

/// Where the viewer's trace file comes from, in order of precedence. A
/// file named on the command line is opened when it exists or is to be
/// watched (created in the second case), and is otherwise not found; no
/// other source is looked at. With no file named and `TRACE_PATH` set, its
/// file is opened when it exists or is to be watched, created when it does
/// not exist yet. Only when neither applies do the default files count:
/// `./trace.jsonl`, then `./.trace/trace.jsonl`, then a new `./trace.jsonl`
/// when watching; else there is no trace file.
pub proof fn lemma_trace_path_precedence(
    file: Option<Seq<char>>,
    watch: bool,
    env_path: Option<Seq<char>>,
    probe: PathProbe,
)
    ensures
        ({
            let d = trace_path_decision(file, watch, env_path, probe);
            &&& file is Some && (probe.file_exists || watch) ==> d == PathDecision::Open {
                path: file->0,
                create: !probe.file_exists,
            }
            &&& file is Some && !probe.file_exists && !watch ==> d == PathDecision::FileNotFound(file->0)
            &&& file is None && env_path is Some && (probe.env_path_exists || watch) ==> d
                == PathDecision::Open { path: env_path->0, create: !probe.env_path_exists }
            &&& file is None && !(env_path is Some && (probe.env_path_exists || watch)) ==> d == (
            if probe.default_exists {
                PathDecision::Open { path: "./trace.jsonl"@, create: false }
            } else if probe.hidden_default_exists {
                PathDecision::Open { path: "./.trace/trace.jsonl"@, create: false }
            } else if watch {
                PathDecision::Open { path: "./trace.jsonl"@, create: true }
            } else {
                PathDecision::NoTraceFile
            })
        }),
{
}

/// A file is only ever created for the viewer when it watches the file.
pub proof fn lemma_create_only_when_watching(
    file: Option<Seq<char>>,
    watch: bool,
    env_path: Option<Seq<char>>,
    probe: PathProbe,
)
    ensures
        trace_path_decision(file, watch, env_path, probe) matches PathDecision::Open { create, .. }
            ==> (create ==> watch),
{
}

/// The viewer state for a freshly loaded trace: more than 10000 events are
/// paged 1000 at a time.
pub open spec fn loaded_view(events: Seq<TraceEvent>, watch: bool, path: Seq<char>) -> AppView {
    AppView {
        events,
        page_size: if events.len() > 10000 {
            1000
        } else {
            initial_view().page_size
        },
        watch_mode: watch,
        trace_path: Some(path),
        ..initial_view()
    }
}

impl App {
    /// The viewer for a freshly loaded trace file.
    pub fn for_trace(events: Vec<TraceEvent>, watch: bool, trace_path: String) -> (r: App)
        ensures
            r@ == loaded_view(events@, watch, trace_path@),
    {
        let mut app = if events.len() > 10000 {
            App::with_events_paged(events, 1000)
        } else {
            App::with_events(events)
        };
        app.watch_mode = watch;
        app.trace_path = Some(trace_path);
        assert(app@ =~= loaded_view(events@, watch, trace_path@));
        app
    }
}

/// The findings of a format check of a file's lines: for each line that
/// could not be read, did not parse, or holds an event missing a required
/// field, its line number (counting from 1) and the error. Empty lines are
/// fine.
pub open spec fn line_findings(lines: Seq<LineRead>) -> Seq<(int, ErrorView)>
    decreases lines.len(),
{
    if lines.len() == 0 {
        Seq::empty()
    } else {
        let prev = line_findings(lines.drop_last());
        let n = lines.len() as int;
        match lines.last() {
            LineRead::Blank => prev,
            LineRead::Unreadable(e) => prev.push((n, e@)),
            LineRead::Parsed(Err(e)) => prev.push((n, e@)),
            LineRead::Parsed(Ok(ev)) => match missing_field(ev@) {
                Some(f) => prev.push((n, ErrorView::MissingField(f))),
                None => prev,
            },
        }
    }
}

/// The number of lines that parsed as events.
pub open spec fn parsed_count(lines: Seq<LineRead>) -> int
    decreases lines.len(),
{
    if lines.len() == 0 {
        0
    } else {
        parsed_count(lines.drop_last()) + match lines.last() {
            LineRead::Parsed(Ok(_)) => 1int,
            _ => 0int,
        }
    }
}

/// The result of checking a trace file's format.
pub struct ValidationReport {
    /// How many lines parsed as events.
    pub events: usize,
    /// Each failing line's number (counting from 1) and error, in order.
    pub findings: Vec<(usize, TraceError)>,
}

/// The mathematical value of a list of findings.
pub open spec fn findings_view(r: Seq<(usize, TraceError)>) -> Seq<(int, ErrorView)> {
    r.map_values(|p: (usize, TraceError)| (p.0 as int, p.1@))
}

/// Checks every line of a trace file for format compliance: each line that
/// is not empty must have been read, must parse as an event and the event
/// must have its required fields. Reports each failing line by its number;
/// the file passes exactly when nothing is reported.
pub fn validation_report(lines: Vec<LineRead>) -> (r: ValidationReport)
    requires
        lines@.len() < usize::MAX,
    ensures
        findings_view(r.findings@) == line_findings(lines@),
        r.events == parsed_count(lines@),
{
    let ghost all = lines@;
    let mut findings: Vec<(usize, TraceError)> = Vec::new();
    let mut events: usize = 0;
    let mut number: usize = 0;
    assert(all.take(0) =~= Seq::<LineRead>::empty());
    assert(findings_view(findings@) =~= Seq::<(int, ErrorView)>::empty());
    for line in it: lines
        invariant
            it.seq() == all,
            all.len() < usize::MAX,
            number == it.index(),
            findings_view(findings@) == line_findings(all.take(it.index() as int)),
            events == parsed_count(all.take(it.index() as int)),
            events <= number,
    {
        assert(all.take(it.index() + 1).drop_last() =~= all.take(it.index() as int));
        assert(all.take(it.index() + 1).last() == line);
        number = number + 1;
        let ghost prev = findings@;
        match line {
            LineRead::Blank => {},
            LineRead::Unreadable(e) => {
                findings.push((number, e));
            },
            LineRead::Parsed(Err(e)) => {
                findings.push((number, e));
            },
            LineRead::Parsed(Ok(ev)) => {
                events = events + 1;
                match ev.validate() {
                    Ok(()) => {},
                    Err(e) => {
                        findings.push((number, e));
                    },
                }
            },
        }
        assert(findings_view(findings@) =~= line_findings(all.take(it.index() + 1)));
    }
    assert(all.take(all.len() as int) =~= all);
    ValidationReport { events, findings }
}

/// The largest trace file the desktop viewer reads: 256 MiB.
pub const MAX_TRACE_FILE_BYTES: u64 = 268435456;

/// Whether the desktop viewer reads a trace file of `len` bytes: only up
/// to [`MAX_TRACE_FILE_BYTES`].
pub fn trace_file_size_allowed(len: u64) -> (r: bool)
    ensures
        r == (len <= MAX_TRACE_FILE_BYTES),
{
    len <= MAX_TRACE_FILE_BYTES
}

} // verus!
