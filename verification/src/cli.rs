//! The command line of the `trace` program: its commands and the grammar
//! that reads them from the arguments.
use vstd::prelude::*;
use crate::text::{chars_eq_str, chars_from, chars_of, starts_with, starts_with_str, string_of};

verus! {

/// Export formats.
#[derive(Debug)]
pub enum ExportCommands {
    /// Export to a self-contained HTML file.
    Html { input: String, output: String },
}

/// The commands of the `trace` program.
#[derive(Debug)]
pub enum Commands {
    /// Launch the interactive viewer on a trace file (watching it for
    /// changes; the watch flag is always set).
    Tui { file: Option<String>, watch: bool },
    /// Export a trace.
    Export { export_cmd: ExportCommands },
    /// Check a trace.jsonl file for format compliance.
    Validate { file: String },
    /// Clear the index and cache.
    Clean,
}

/// A parsed command line.
#[derive(Debug)]
pub struct Cli {
    pub command: Commands,
}

/// Why the arguments do not make a command.
#[derive(Debug)]
pub enum CliError {
    /// Help was asked for, for the command at this path (empty: the program).
    HelpRequested(Vec<String>),
    /// The version was asked for.
    VersionRequested,
    /// The command at this path needs a subcommand.
    MissingCommand(Vec<String>),
    /// No such subcommand.
    UnknownCommand(String),
    /// No such option.
    UnknownArgument(String),
    /// A positional argument too many.
    UnexpectedArgument(String),
    /// A required argument is missing.
    MissingArgument(String),
    /// An option that takes a value was given none.
    MissingValue(String),
    /// An option was given twice.
    RepeatedArgument(String),
    /// A path argument is empty.
    EmptyValue(String),
}

/// The mathematical value of a [`Cli`].
pub enum CliView {
    Tui { file: Option<Seq<char>>, watch: bool },
    ExportHtml { input: Seq<char>, output: Seq<char> },
    Validate { file: Seq<char> },
    Clean,
}

/// The mathematical value of a [`CliError`].
pub enum CliErrorView {
    HelpRequested(Seq<Seq<char>>),
    VersionRequested,
    MissingCommand(Seq<Seq<char>>),
    UnknownCommand(Seq<char>),
    UnknownArgument(Seq<char>),
    UnexpectedArgument(Seq<char>),
    MissingArgument(Seq<char>),
    MissingValue(Seq<char>),
    RepeatedArgument(Seq<char>),
    EmptyValue(Seq<char>),
}

/// The characters of each string.
pub open spec fn strings_view(v: Seq<String>) -> Seq<Seq<char>> {
    v.map_values(|s: String| s@)
}

impl View for Cli {
    type V = CliView;

    open spec fn view(&self) -> CliView {
        match &self.command {
            Commands::Tui { file, watch } => CliView::Tui {
                file: crate::trace::opt_str_view(*file),
                watch: *watch,
            },
            Commands::Export { export_cmd: ExportCommands::Html { input, output } } => CliView::ExportHtml {
                input: input@,
                output: output@,
            },
            Commands::Validate { file } => CliView::Validate { file: file@ },
            Commands::Clean => CliView::Clean,
        }
    }
}

impl View for CliError {
    type V = CliErrorView;

    open spec fn view(&self) -> CliErrorView {
        match self {
            CliError::HelpRequested(p) => CliErrorView::HelpRequested(strings_view(p@)),
            CliError::VersionRequested => CliErrorView::VersionRequested,
            CliError::MissingCommand(p) => CliErrorView::MissingCommand(strings_view(p@)),
            CliError::UnknownCommand(s) => CliErrorView::UnknownCommand(s@),
            CliError::UnknownArgument(s) => CliErrorView::UnknownArgument(s@),
            CliError::UnexpectedArgument(s) => CliErrorView::UnexpectedArgument(s@),
            CliError::MissingArgument(s) => CliErrorView::MissingArgument(s@),
            CliError::MissingValue(s) => CliErrorView::MissingValue(s@),
            CliError::RepeatedArgument(s) => CliErrorView::RepeatedArgument(s@),
            CliError::EmptyValue(s) => CliErrorView::EmptyValue(s@),
        }
    }
}

/// The commands that read options and positional arguments.
#[derive(Clone, Copy, PartialEq, Eq, Structural)]
pub enum CmdKind {
    Tui,
    ExportHtml,
    Validate,
    Clean,
}

/// The state of reading a command's arguments from left to right.
pub struct Scan {
    pub positionals: Seq<Seq<char>>,
    pub watch: bool,
    pub output: Option<Seq<char>>,
    pub pending_output: bool,
    pub raw: bool,
    pub error: Option<CliErrorView>,
}

/// An argument that reads as an option: a '-' followed by something.
pub open spec fn flag_like(t: Seq<char>) -> bool {
    t.len() > 1 && t[0] == '-'
}

/// `-h` or `--help`.
pub open spec fn is_help_flag(t: Seq<char>) -> bool {
    t == "-h"@ || t == "--help"@
}

/// The command path of a command, as help names it.
pub open spec fn kind_path(k: CmdKind) -> Seq<Seq<char>> {
    match k {
        CmdKind::Tui => seq!["tui"@],
        CmdKind::ExportHtml => seq!["export"@, "html"@],
        CmdKind::Validate => seq!["validate"@],
        CmdKind::Clean => seq!["clean"@],
    }
}

/// How many positional arguments a command takes.
pub open spec fn max_positionals(k: CmdKind) -> int {
    match k {
        CmdKind::Clean => 0,
        _ => 1,
    }
}

/// The name of a command's positional argument.
pub open spec fn positional_name(k: CmdKind) -> Seq<char> {
    match k {
        CmdKind::ExportHtml => "<INPUT>"@,
        _ => "<FILE>"@,
    }
}

/// An output option with its value attached: `--output=V`, `-oV` or `-o=V`.
pub open spec fn is_attached_output(t: Seq<char>) -> bool {
    starts_with(t, "--output="@) || (t.len() > 2 && t[0] == '-' && t[1] == 'o')
}

/// The value attached to an output option.
pub open spec fn attached_output_value(t: Seq<char>) -> Seq<char> {
    if starts_with(t, "--output="@) {
        t.skip("--output="@.len() as int)
    } else if t[2] == '=' {
        t.skip(3)
    } else {
        t.skip(2)
    }
}

/// `st` with the error `e`.
pub open spec fn fail(st: Scan, e: CliErrorView) -> Scan {
    Scan { error: Some(e), ..st }
}

/// The option named by one character: '-' and the character.
pub open spec fn short_name(c: char) -> Seq<char> {
    seq!['-', c]
}

/// Reading the characters of a cluster of short flags such as `-wh` from
/// position `i` on, left to right: `h` asks for help, `w` sets the watch
/// flag of `tui` (once), and any other character is an unknown option.
pub open spec fn cluster_step(k: CmdKind, st: Scan, t: Seq<char>, i: int) -> Scan
    decreases t.len() - i,
{
    if i < 1 || i >= t.len() {
        st
    } else if t[i] == 'h' {
        fail(st, CliErrorView::HelpRequested(kind_path(k)))
    } else if k == CmdKind::Tui && t[i] == 'w' {
        if st.watch {
            fail(st, CliErrorView::RepeatedArgument("--watch"@))
        } else {
            cluster_step(k, Scan { watch: true, ..st }, t, i + 1)
        }
    } else {
        fail(st, CliErrorView::UnknownArgument(short_name(t[i])))
    }
}

/// Reading one more argument `t` of command `k`. Until `--`, `-h`/`--help`
/// asks for help, the command's own options are read (short flags may come
/// clustered, as in `-wh`) and any other argument that reads as an option
/// is unknown; after that, arguments are positional.
pub open spec fn scan_step(k: CmdKind, st: Scan, t: Seq<char>) -> Scan {
    if st.error is Some {
        st
    } else if st.pending_output {
        if flag_like(t) {
            fail(st, CliErrorView::MissingValue("--output <OUTPUT>"@))
        } else if t.len() == 0 {
            fail(st, CliErrorView::EmptyValue("--output <OUTPUT>"@))
        } else {
            Scan { output: Some(t), pending_output: false, ..st }
        }
    } else if !st.raw && t == "--"@ {
        Scan { raw: true, ..st }
    } else if !st.raw && is_help_flag(t) {
        fail(st, CliErrorView::HelpRequested(kind_path(k)))
    } else if !st.raw && k == CmdKind::Tui && (t == "-w"@ || t == "--watch"@) {
        if st.watch {
            fail(st, CliErrorView::RepeatedArgument("--watch"@))
        } else {
            Scan { watch: true, ..st }
        }
    } else if !st.raw && k == CmdKind::ExportHtml && (t == "-o"@ || t == "--output"@) {
        if st.output is Some {
            fail(st, CliErrorView::RepeatedArgument("--output <OUTPUT>"@))
        } else {
            Scan { pending_output: true, ..st }
        }
    } else if !st.raw && k == CmdKind::ExportHtml && is_attached_output(t) {
        if st.output is Some {
            fail(st, CliErrorView::RepeatedArgument("--output <OUTPUT>"@))
        } else if attached_output_value(t).len() == 0 {
            fail(st, CliErrorView::EmptyValue("--output <OUTPUT>"@))
        } else {
            Scan { output: Some(attached_output_value(t)), ..st }
        }
    } else if !st.raw && flag_like(t) {
        if t[1] == '-' {
            fail(st, CliErrorView::UnknownArgument(t))
        } else {
            cluster_step(k, st, t, 1)
        }
    } else if st.positionals.len() < max_positionals(k) {
        if t.len() == 0 {
            fail(st, CliErrorView::EmptyValue(positional_name(k)))
        } else {
            Scan { positionals: st.positionals.push(t), ..st }
        }
    } else {
        fail(st, CliErrorView::UnexpectedArgument(t))
    }
}

/// The state before any argument is read.
pub open spec fn scan_start() -> Scan {
    Scan {
        positionals: Seq::empty(),
        watch: false,
        output: None,
        pending_output: false,
        raw: false,
        error: None,
    }
}

/// The state after reading all of `toks`.
pub open spec fn scan(k: CmdKind, toks: Seq<Seq<char>>) -> Scan
    decreases toks.len(),
{
    if toks.len() == 0 {
        scan_start()
    } else {
        scan_step(k, scan(k, toks.drop_last()), toks.last())
    }
}

/// The command that a finished reading gives, or why there is none.
pub open spec fn finish(k: CmdKind, st: Scan) -> Result<CliView, CliErrorView> {
    if st.error is Some {
        Err(st.error->0)
    } else if st.pending_output {
        Err(CliErrorView::MissingValue("--output <OUTPUT>"@))
    } else {
        match k {
            CmdKind::Tui => Ok(CliView::Tui {
                file: if st.positionals.len() > 0 {
                    Some(st.positionals[0])
                } else {
                    None
                },
                watch: true,
            }),
            CmdKind::ExportHtml => if st.positionals.len() == 0 {
                Err(CliErrorView::MissingArgument("<INPUT>"@))
            } else if st.output is None {
                Err(CliErrorView::MissingArgument("--output <OUTPUT>"@))
            } else {
                Ok(CliView::ExportHtml { input: st.positionals[0], output: st.output->0 })
            },
            CmdKind::Validate => if st.positionals.len() == 0 {
                Err(CliErrorView::MissingArgument("<FILE>"@))
            } else {
                Ok(CliView::Validate { file: st.positionals[0] })
            },
            CmdKind::Clean => Ok(CliView::Clean),
        }
    }
}

/// What the arguments (without the program name) mean:
/// `tui [FILE] [-w|--watch]`, `export html <INPUT> -o|--output <OUTPUT>`,
/// `validate <FILE>`, `clean`, `help [COMMAND]...`, `export help
/// [COMMAND]...`, and `-h`/`--help` and `-V`/`--version` before the
/// command. Short flags may come clustered (`-wh`); they are read left to
/// right, and help or the version is given as soon as it is read.
pub open spec fn parse_spec(a: Seq<Seq<char>>) -> Result<CliView, CliErrorView> {
    if a.len() == 0 {
        Err(CliErrorView::MissingCommand(Seq::empty()))
    } else if is_help_flag(a[0]) {
        Err(CliErrorView::HelpRequested(Seq::empty()))
    } else if a[0] == "-V"@ || a[0] == "--version"@ {
        Err(CliErrorView::VersionRequested)
    } else if a[0] == "tui"@ {
        finish(CmdKind::Tui, scan(CmdKind::Tui, a.skip(1)))
    } else if a[0] == "export"@ {
        if a.len() == 1 {
            Err(CliErrorView::MissingCommand(seq!["export"@]))
        } else if is_help_flag(a[1]) {
            Err(CliErrorView::HelpRequested(seq!["export"@]))
        } else if a[1] == "html"@ {
            finish(CmdKind::ExportHtml, scan(CmdKind::ExportHtml, a.skip(2)))
        } else if a[1] == "help"@ {
            Err(CliErrorView::HelpRequested(seq!["export"@] + a.skip(2)))
        } else if flag_like(a[1]) && a[1][1] == 'h' {
            Err(CliErrorView::HelpRequested(seq!["export"@]))
        } else if flag_like(a[1]) && a[1][1] != '-' {
            Err(CliErrorView::UnknownArgument(short_name(a[1][1])))
        } else if flag_like(a[1]) {
            Err(CliErrorView::UnknownArgument(a[1]))
        } else {
            Err(CliErrorView::UnknownCommand(a[1]))
        }
    } else if a[0] == "validate"@ {
        finish(CmdKind::Validate, scan(CmdKind::Validate, a.skip(1)))
    } else if a[0] == "clean"@ {
        finish(CmdKind::Clean, scan(CmdKind::Clean, a.skip(1)))
    } else if a[0] == "help"@ {
        Err(CliErrorView::HelpRequested(a.skip(1)))
    } else if flag_like(a[0]) && a[0][1] == 'h' {
        Err(CliErrorView::HelpRequested(Seq::empty()))
    } else if flag_like(a[0]) && a[0][1] == 'V' {
        Err(CliErrorView::VersionRequested)
    } else if flag_like(a[0]) && a[0][1] != '-' {
        Err(CliErrorView::UnknownArgument(short_name(a[0][1])))
    } else if flag_like(a[0]) {
        Err(CliErrorView::UnknownArgument(a[0]))
    } else {
        Err(CliErrorView::UnknownCommand(a[0]))
    }
}

/// The viewer always watches its file: every command line that reads as
/// `tui` has the watch flag set.
pub proof fn lemma_tui_always_watches(a: Seq<Seq<char>>)
    ensures
        parse_spec(a) matches Ok(CliView::Tui { watch, .. }) ==> watch,
{
}

/// The mathematical value of a parse result.
pub open spec fn cli_result_view(r: Result<Cli, CliError>) -> Result<CliView, CliErrorView> {
    match r {
        Ok(c) => Ok(c@),
        Err(e) => Err(e@),
    }
}

/// The characters of each character vector.
pub open spec fn char_vecs_view(v: Seq<Vec<char>>) -> Seq<Seq<char>> {
    v.map_values(|c: Vec<char>| c@)
}

/// Reading state of the arguments of one command.
struct ScanState {
    positionals: Vec<Vec<char>>,
    watch: bool,
    output: Option<Vec<char>>,
    pending_output: bool,
    raw: bool,
    error: Option<CliError>,
}

impl View for ScanState {
    type V = Scan;

    closed spec fn view(&self) -> Scan {
        Scan {
            positionals: char_vecs_view(self.positionals@),
            watch: self.watch,
            output: match self.output {
                Some(v) => Some(v@),
                None => None,
            },
            pending_output: self.pending_output,
            raw: self.raw,
            error: match self.error {
                Some(e) => Some(e@),
                None => None,
            },
        }
    }
}

/// A string of the given literal.
fn lit(s: &str) -> (r: String)
    ensures
        r@ == s@,
{
    String::from_str(s)
}

/// The command path of a command, as strings.
fn kind_path_strings(k: CmdKind) -> (r: Vec<String>)
    ensures
        strings_view(r@) == kind_path(k),
{
    let mut v: Vec<String> = Vec::new();
    match k {
        CmdKind::Tui => {
            v.push(lit("tui"));
        },
        CmdKind::ExportHtml => {
            v.push(lit("export"));
            v.push(lit("html"));
        },
        CmdKind::Validate => {
            v.push(lit("validate"));
        },
        CmdKind::Clean => {
            v.push(lit("clean"));
        },
    }
    assert(strings_view(v@) =~= kind_path(k));
    v
}

/// Sets the error of the reading state.
fn set_error(st: &mut ScanState, e: CliError)
    ensures
        final(st)@ == fail(old(st)@, e@),
{
    st.error = Some(e);
}

/// The name of the short option `c`.
fn short_name_exec(c: char) -> (r: String)
    ensures
        r@ == short_name(c),
{
    let mut v: Vec<char> = Vec::new();
    v.push('-');
    v.push(c);
    assert(v@ =~= short_name(c));
    string_of(&v)
}

/// Reads a cluster of short flags, from its second character on.
fn cluster_exec(k: CmdKind, st: &mut ScanState, t: &Vec<char>)
    requires
        old(st)@.error is None,
    ensures
        final(st)@ == cluster_step(k, old(st)@, t@, 1),
{
    let ghost target = cluster_step(k, st@, t@, 1);
    let n = t.len();
    let mut i: usize = 1;
    while i < n
        invariant
            n == t@.len(),
            1 <= i,
            st@.error is None,
            cluster_step(k, st@, t@, i as int) == target,
            target == cluster_step(k, old(st)@, t@, 1),
        decreases n - i,
    {
        let c = t[i];
        if c == 'h' {
            set_error(st, CliError::HelpRequested(kind_path_strings(k)));
            return;
        } else if k == CmdKind::Tui && c == 'w' {
            if st.watch {
                set_error(st, CliError::RepeatedArgument(lit("--watch")));
                return;
            }
            st.watch = true;
            i = i + 1;
        } else {
            set_error(st, CliError::UnknownArgument(short_name_exec(c)));
            return;
        }
    }
}

/// Reads one more argument of command `k`.
fn scan_step_exec(k: CmdKind, st: &mut ScanState, t: &Vec<char>)
    ensures
        final(st)@ == scan_step(k, old(st)@, t@),
{
    if st.error.is_some() {
        return;
    }
    let flag = t.len() > 1 && t[0] == '-';
    if st.pending_output {
        if flag {
            set_error(st, CliError::MissingValue(lit("--output <OUTPUT>")));
        } else if t.len() == 0 {
            set_error(st, CliError::EmptyValue(lit("--output <OUTPUT>")));
        } else {
            st.output = Some(t.clone());
            st.pending_output = false;
        }
        return;
    }
    if !st.raw && chars_eq_str(t, "--") {
        st.raw = true;
        return;
    }
    if !st.raw && (chars_eq_str(t, "-h") || chars_eq_str(t, "--help")) {
        set_error(st, CliError::HelpRequested(kind_path_strings(k)));
        return;
    }
    if !st.raw && k == CmdKind::Tui && (chars_eq_str(t, "-w") || chars_eq_str(t, "--watch")) {
        if st.watch {
            set_error(st, CliError::RepeatedArgument(lit("--watch")));
        } else {
            st.watch = true;
        }
        return;
    }
    if !st.raw && k == CmdKind::ExportHtml && (chars_eq_str(t, "-o") || chars_eq_str(t, "--output")) {
        if st.output.is_some() {
            set_error(st, CliError::RepeatedArgument(lit("--output <OUTPUT>")));
        } else {
            st.pending_output = true;
        }
        return;
    }
    let long_form = starts_with_str(t, "--output=");
    let attached = long_form || (t.len() > 2 && t[0] == '-' && t[1] == 'o');
    if !st.raw && k == CmdKind::ExportHtml && attached {
        let value = if long_form {
            let prefix = chars_of("--output=");
            chars_from(t, prefix.len())
        } else if t[2] == '=' {
            chars_from(t, 3)
        } else {
            chars_from(t, 2)
        };
        assert(value@ == attached_output_value(t@));
        if st.output.is_some() {
            set_error(st, CliError::RepeatedArgument(lit("--output <OUTPUT>")));
        } else if value.len() == 0 {
            set_error(st, CliError::EmptyValue(lit("--output <OUTPUT>")));
        } else {
            st.output = Some(value);
        }
        return;
    }
    if !st.raw && flag {
        if t[1] == '-' {
            set_error(st, CliError::UnknownArgument(string_of(t)));
        } else {
            cluster_exec(k, st, t);
        }
        return;
    }
    let max: usize = match k {
        CmdKind::Clean => 0,
        _ => 1,
    };
    if st.positionals.len() < max {
        if t.len() == 0 {
            let name = match k {
                CmdKind::ExportHtml => lit("<INPUT>"),
                _ => lit("<FILE>"),
            };
            set_error(st, CliError::EmptyValue(name));
        } else {
            let ghost prev = st.positionals@;
            st.positionals.push(t.clone());
            assert(char_vecs_view(st.positionals@) =~= char_vecs_view(prev).push(t@));
        }
    } else {
        set_error(st, CliError::UnexpectedArgument(string_of(t)));
    }
}

/// Reads the arguments `toks[from..]` of command `k` and gives the command
/// they make.
fn scan_and_finish(k: CmdKind, toks: &Vec<Vec<char>>, from: usize) -> (r: Result<Cli, CliError>)
    requires
        from <= toks@.len(),
    ensures
        cli_result_view(r) == finish(k, scan(k, char_vecs_view(toks@).skip(from as int))),
{
    let ghost a = char_vecs_view(toks@).skip(from as int);
    let mut st = ScanState {
        positionals: Vec::new(),
        watch: false,
        output: None,
        pending_output: false,
        raw: false,
        error: None,
    };
    assert(st@.positionals =~= Seq::<Seq<char>>::empty());
    assert(a.take(0) =~= Seq::<Seq<char>>::empty());
    let n = toks.len();
    let mut i: usize = from;
    while i < n
        invariant
            from <= i <= n,
            n == toks@.len(),
            a == char_vecs_view(toks@).skip(from as int),
            st@ == scan(k, a.take(i - from)),
        decreases n - i,
    {
        assert(a.take(i - from + 1).drop_last() =~= a.take(i - from));
        assert(a.take(i - from + 1).last() == toks@[i as int]@);
        scan_step_exec(k, &mut st, &toks[i]);
        i = i + 1;
    }
    assert(a.take(n - from) =~= a);
    finish_exec(k, st)
}

/// The command that a finished reading gives, or why there is none.
fn finish_exec(k: CmdKind, st: ScanState) -> (r: Result<Cli, CliError>)
    ensures
        cli_result_view(r) == finish(k, st@),
{
    if let Some(e) = st.error {
        return Err(e);
    }
    if st.pending_output {
        return Err(CliError::MissingValue(lit("--output <OUTPUT>")));
    }
    match k {
        CmdKind::Tui => {
            let file = if st.positionals.len() > 0 {
                Some(string_of(&st.positionals[0]))
            } else {
                None
            };
            Ok(Cli { command: Commands::Tui { file, watch: true } })
        },
        CmdKind::ExportHtml => {
            if st.positionals.len() == 0 {
                Err(CliError::MissingArgument(lit("<INPUT>")))
            } else {
                match &st.output {
                    None => Err(CliError::MissingArgument(lit("--output <OUTPUT>"))),
                    Some(o) => Ok(
                        Cli {
                            command: Commands::Export {
                                export_cmd: ExportCommands::Html {
                                    input: string_of(&st.positionals[0]),
                                    output: string_of(o),
                                },
                            },
                        },
                    ),
                }
            }
        },
        CmdKind::Validate => {
            if st.positionals.len() == 0 {
                Err(CliError::MissingArgument(lit("<FILE>")))
            } else {
                Ok(Cli { command: Commands::Validate { file: string_of(&st.positionals[0]) } })
            }
        },
        CmdKind::Clean => Ok(Cli { command: Commands::Clean }),
    }
}

/// The given strings, copied.
fn strings_from(toks: &Vec<Vec<char>>, from: usize) -> (r: Vec<String>)
    requires
        from <= toks@.len(),
    ensures
        strings_view(r@) == char_vecs_view(toks@).skip(from as int),
{
    let mut out: Vec<String> = Vec::new();
    let n = toks.len();
    let mut i: usize = from;
    while i < n
        invariant
            from <= i <= n,
            n == toks@.len(),
            strings_view(out@) == char_vecs_view(toks@).subrange(from as int, i as int),
        decreases n - i,
    {
        let ghost prev = out@;
        out.push(string_of(&toks[i]));
        assert(strings_view(out@) =~= strings_view(prev).push(toks@[i as int]@));
        assert(char_vecs_view(toks@).subrange(from as int, i + 1) =~= char_vecs_view(toks@).subrange(
            from as int,
            i as int,
        ).push(toks@[i as int]@));
        i = i + 1;
    }
    assert(char_vecs_view(toks@).subrange(from as int, n as int) =~= char_vecs_view(toks@).skip(
        from as int,
    ));
    out
}

impl Cli {
    /// Reads the command line from the program's arguments (without the
    /// program name), as [`parse_spec`] describes.
    pub fn parse_args(args: &Vec<String>) -> (r: Result<Cli, CliError>)
        ensures
            cli_result_view(r) == parse_spec(strings_view(args@)),
    {
        let mut toks: Vec<Vec<char>> = Vec::new();
        let n = args.len();
        let mut i: usize = 0;
        while i < n
            invariant
                n == args@.len(),
                i <= n,
                char_vecs_view(toks@) == strings_view(args@).take(i as int),
            decreases n - i,
        {
            let ghost prev = toks@;
            toks.push(chars_of(args[i].as_str()));
            assert(char_vecs_view(toks@) =~= char_vecs_view(prev).push(args@[i as int]@));
            assert(strings_view(args@).take(i + 1) =~= strings_view(args@).take(i as int).push(args@[i as int]@));
            i = i + 1;
        }
        let ghost a = strings_view(args@);
        assert(a.take(n as int) =~= a);
        assert(char_vecs_view(toks@) == a);
        if n == 0 {
            let empty: Vec<String> = Vec::new();
            assert(strings_view(empty@) =~= Seq::<Seq<char>>::empty());
            return Err(CliError::MissingCommand(empty));
        }
        let first = &toks[0];
        assert(first@ == a[0]);
        if chars_eq_str(first, "-h") || chars_eq_str(first, "--help") {
            let empty: Vec<String> = Vec::new();
            assert(strings_view(empty@) =~= Seq::<Seq<char>>::empty());
            return Err(CliError::HelpRequested(empty));
        }
        if chars_eq_str(first, "-V") || chars_eq_str(first, "--version") {
            return Err(CliError::VersionRequested);
        }
        if chars_eq_str(first, "tui") {
            return scan_and_finish(CmdKind::Tui, &toks, 1);
        }
        if chars_eq_str(first, "export") {
            if n == 1 {
                let mut p: Vec<String> = Vec::new();
                p.push(lit("export"));
                assert(strings_view(p@) =~= seq!["export"@]);
                return Err(CliError::MissingCommand(p));
            }
            let second = &toks[1];
            assert(second@ == a[1]);
            if chars_eq_str(second, "-h") || chars_eq_str(second, "--help") {
                let mut p: Vec<String> = Vec::new();
                p.push(lit("export"));
                assert(strings_view(p@) =~= seq!["export"@]);
                return Err(CliError::HelpRequested(p));
            }
            if chars_eq_str(second, "html") {
                return scan_and_finish(CmdKind::ExportHtml, &toks, 2);
            }
            if chars_eq_str(second, "help") {
                let mut p: Vec<String> = Vec::new();
                p.push(lit("export"));
                let rest = strings_from(&toks, 2);
                let ghost prefix = strings_view(p@);
                p.append(&mut rest.clone());
                assert(strings_view(p@) =~= seq!["export"@] + a.skip(2)) by {
                    assert(prefix =~= seq!["export"@]);
                }
                return Err(CliError::HelpRequested(p));
            }
            if second.len() > 1 && second[0] == '-' {
                if second[1] == 'h' {
                    let mut p: Vec<String> = Vec::new();
                    p.push(lit("export"));
                    assert(strings_view(p@) =~= seq!["export"@]);
                    return Err(CliError::HelpRequested(p));
                }
                if second[1] != '-' {
                    return Err(CliError::UnknownArgument(short_name_exec(second[1])));
                }
                return Err(CliError::UnknownArgument(string_of(second)));
            }
            return Err(CliError::UnknownCommand(string_of(second)));
        }
        if chars_eq_str(first, "validate") {
            return scan_and_finish(CmdKind::Validate, &toks, 1);
        }
        if chars_eq_str(first, "clean") {
            return scan_and_finish(CmdKind::Clean, &toks, 1);
        }
        if chars_eq_str(first, "help") {
            return Err(CliError::HelpRequested(strings_from(&toks, 1)));
        }
        if first.len() > 1 && first[0] == '-' {
            if first[1] == 'h' {
                let empty: Vec<String> = Vec::new();
                assert(strings_view(empty@) =~= Seq::<Seq<char>>::empty());
                return Err(CliError::HelpRequested(empty));
            }
            if first[1] == 'V' {
                return Err(CliError::VersionRequested);
            }
            if first[1] != '-' {
                return Err(CliError::UnknownArgument(short_name_exec(first[1])));
            }
            return Err(CliError::UnknownArgument(string_of(first)));
        }
        Err(CliError::UnknownCommand(string_of(first)))
    }
}

} // verus!
