//! The trace.jsonl event model: events, attributes, validation, traces and
//! span trees.
use vstd::prelude::*;

verus! {

/// An instant in UTC: whole seconds since the Unix epoch and the
/// nanoseconds within that second (leap seconds may push `nanos` past
/// 999_999_999, as chrono represents them).
#[derive(Clone, Copy, Debug, PartialEq, Eq, Structural)]
pub struct Timestamp {
    pub secs: i64,
    pub nanos: u32,
}

impl Timestamp {
    /// `self` is at or before `other` in time.
    pub open spec fn at_or_before(self, other: Timestamp) -> bool {
        self.secs < other.secs || (self.secs == other.secs && self.nanos <= other.nanos)
    }

    /// Compares two instants: `true` when `self` is at or before `other`.
    pub fn is_at_or_before(&self, other: &Timestamp) -> (r: bool)
        ensures
            r == self.at_or_before(*other),
    {
        self.secs < other.secs || (self.secs == other.secs && self.nanos <= other.nanos)
    }
}

/// `at_or_before` is the order of instants: every two timestamps are
/// comparable; an earlier second, or the same second with fewer
/// nanoseconds, comes strictly first; two timestamps each at or before the
/// other are the same instant; and the order is reflexive and transitive.
pub proof fn lemma_timestamp_order(a: Timestamp, b: Timestamp, c: Timestamp)
    ensures
        a.at_or_before(a),
        a.at_or_before(b) || b.at_or_before(a),
        a.at_or_before(b) && b.at_or_before(a) ==> a == b,
        a.at_or_before(b) && b.at_or_before(c) ==> a.at_or_before(c),
        a.secs < b.secs ==> a.at_or_before(b) && !b.at_or_before(a),
        a.secs == b.secs && a.nanos < b.nanos ==> a.at_or_before(b) && !b.at_or_before(a),
{
}

/// A JSON attribute value as the event model holds it.
///
/// Non-negative integers are `UInt`, negative integers `NegInt`; a
/// floating-point number is kept as its IEEE-754 bit pattern, and an array
/// or object as its compact JSON text.
#[derive(Clone, Debug)]
pub enum AttrValue {
    Null,
    Bool(bool),
    UInt(u64),
    NegInt(i64),
    Float(u64),
    Str(String),
    Composite(String),
}

/// The mathematical value of an [`AttrValue`].
pub enum AttrView {
    Null,
    Bool(bool),
    UInt(u64),
    NegInt(i64),
    Float(u64),
    Str(Seq<char>),
    Composite(Seq<char>),
}

impl View for AttrValue {
    type V = AttrView;

    open spec fn view(&self) -> AttrView {
        match self {
            AttrValue::Null => AttrView::Null,
            AttrValue::Bool(b) => AttrView::Bool(*b),
            AttrValue::UInt(n) => AttrView::UInt(*n),
            AttrValue::NegInt(n) => AttrView::NegInt(*n),
            AttrValue::Float(bits) => AttrView::Float(*bits),
            AttrValue::Str(s) => AttrView::Str(s@),
            AttrValue::Composite(s) => AttrView::Composite(s@),
        }
    }
}

impl AttrValue {
    /// A copy with the same value.
    pub fn duplicate(&self) -> (r: AttrValue)
        ensures
            r@ == self@,
    {
        match self {
            AttrValue::Null => AttrValue::Null,
            AttrValue::Bool(b) => AttrValue::Bool(*b),
            AttrValue::UInt(n) => AttrValue::UInt(*n),
            AttrValue::NegInt(n) => AttrValue::NegInt(*n),
            AttrValue::Float(bits) => AttrValue::Float(*bits),
            AttrValue::Str(s) => AttrValue::Str(s.clone()),
            AttrValue::Composite(s) => AttrValue::Composite(s.clone()),
        }
    }

    /// The string inside, when the value is a JSON string.
    pub fn as_str(&self) -> (r: Option<&str>)
        ensures
            match self@ {
                AttrView::Str(s) => r is Some && r.unwrap()@ == s,
                _ => r is None,
            },
    {
        match self {
            AttrValue::Str(s) => Some(s.as_str()),
            _ => None,
        }
    }

    /// The number inside, when the value is a non-negative JSON integer.
    pub fn as_u64(&self) -> (r: Option<u64>)
        ensures
            match self@ {
                AttrView::UInt(n) => r == Some(n),
                _ => r is None,
            },
    {
        match self {
            AttrValue::UInt(n) => Some(*n),
            _ => None,
        }
    }
}

/// The map that a list of key/value entries denotes: a later entry for a
/// key replaces an earlier one.
pub open spec fn entries_map(s: Seq<(String, AttrValue)>) -> Map<Seq<char>, AttrView>
    decreases s.len(),
{
    if s.len() == 0 {
        Map::empty()
    } else {
        entries_map(s.drop_last()).insert(s.last().0@, s.last().1@)
    }
}

/// Reading an attribute after setting it gives the value set, and setting
/// one key leaves the others as they were.
pub proof fn lemma_attr_insert_then_get(m: Map<Seq<char>, AttrView>, k: Seq<char>, v: AttrView, other: Seq<char>)
    ensures
        m.insert(k, v).contains_key(k),
        m.insert(k, v)[k] == v,
        other != k ==> (m.insert(k, v).contains_key(other) == m.contains_key(other)),
        other != k && m.contains_key(other) ==> m.insert(k, v)[other] == m[other],
{
}

/// The attributes of an event: a finite map from keys to JSON values.
#[derive(Clone, Debug)]
pub struct Attributes {
    entries: Vec<(String, AttrValue)>,
}

impl View for Attributes {
    type V = Map<Seq<char>, AttrView>;

    closed spec fn view(&self) -> Map<Seq<char>, AttrView> {
        entries_map(self.entries@)
    }
}

impl Attributes {
    /// No attributes.
    pub fn new() -> (r: Attributes)
        ensures
            r@ == Map::<Seq<char>, AttrView>::empty(),
    {
        Attributes { entries: Vec::new() }
    }

    /// A copy with the same value.
    pub fn duplicate(&self) -> (r: Attributes)
        ensures
            r@ == self@,
    {
        let mut out: Vec<(String, AttrValue)> = Vec::new();
        let n = self.entries.len();
        let mut i: usize = 0;
        while i < n
            invariant
                n == self.entries@.len(),
                i <= n,
                entries_map(out@) == entries_map(self.entries@.take(i as int)),
            decreases n - i,
        {
            let ghost prev = out@;
            let k = self.entries[i].0.clone();
            let v = self.entries[i].1.duplicate();
            out.push((k, v));
            assert(out@.drop_last() =~= prev);
            assert(self.entries@.take(i + 1).drop_last() =~= self.entries@.take(i as int));
            i = i + 1;
        }
        assert(self.entries@.take(n as int) =~= self.entries@);
        Attributes { entries: out }
    }

    /// The entries, in storage order; later entries win for a repeated key.
    pub fn entries(&self) -> (r: &Vec<(String, AttrValue)>)
        ensures
            entries_map(r@) == self@,
    {
        &self.entries
    }

    /// The value stored under `key`, if any.
    pub fn get(&self, key: &str) -> (r: Option<&AttrValue>)
        ensures
            match r {
                Some(v) => self@.contains_key(key@) && self@[key@] == v@,
                None => !self@.contains_key(key@),
            },
    {
        let k = String::from_str(key);
        let s = &self.entries;
        let mut i: usize = s.len();
        assert(s@.take(s@.len() as int) =~= s@);
        while i > 0
            invariant
                i <= s@.len(),
                k@ == key@,
                entries_map(s@) == self@,
                entries_map(s@.take(i as int)).contains_key(k@) == entries_map(s@).contains_key(k@),
                entries_map(s@).contains_key(k@) ==> entries_map(s@.take(i as int))[k@]
                    == entries_map(s@)[k@],
            decreases i,
        {
            assert(s@.take(i as int).drop_last() =~= s@.take(i - 1));
            if s[i - 1].0 == k {
                assert(s@.take(i as int).last() == s@[i - 1]);
                return Some(&s[i - 1].1);
            }
            i = i - 1;
        }
        None
    }

    /// Sets `key` to `value`, replacing any earlier value.
    pub fn insert(&mut self, key: String, value: AttrValue)
        ensures
            final(self)@ == old(self)@.insert(key@, value@),
    {
        let mut kept: Vec<(String, AttrValue)> = Vec::new();
        let n = self.entries.len();
        let mut i: usize = 0;
        while i < n
            invariant
                n == self.entries@.len(),
                i <= n,
                entries_map(kept@) == entries_map(self.entries@.take(i as int)).remove(key@),
            decreases n - i,
        {
            let ghost prev = kept@;
            assert(self.entries@.take(i + 1).drop_last() =~= self.entries@.take(i as int));
            assert(self.entries@.take(i + 1).last() == self.entries@[i as int]);
            if self.entries[i].0 != key {
                let k2 = self.entries[i].0.clone();
                let v2 = self.entries[i].1.duplicate();
                kept.push((k2, v2));
                assert(kept@.drop_last() =~= prev);
                assert(entries_map(kept@) =~= entries_map(self.entries@.take(i + 1)).remove(key@));
            } else {
                assert(entries_map(kept@) =~= entries_map(self.entries@.take(i + 1)).remove(key@));
            }
            i = i + 1;
        }
        assert(self.entries@.take(n as int) =~= self.entries@);
        let ghost before = kept@;
        kept.push((key, value));
        assert(kept@.drop_last() =~= before);
        assert(entries_map(kept@) =~= old(self)@.insert(key@, value@));
        self.entries = kept;
    }
}

/// The mathematical value of a [`TraceEvent`].
pub struct EventView {
    pub ts: Timestamp,
    pub trace_id: Seq<char>,
    pub span_id: Seq<char>,
    pub parent_id: Option<Seq<char>>,
    pub name: Seq<char>,
    pub status: Seq<char>,
    pub attrs: Map<Seq<char>, AttrView>,
}

/// The characters of an optional string.
pub open spec fn opt_str_view(o: Option<String>) -> Option<Seq<char>> {
    match o {
        Some(s) => Some(s@),
        None => None,
    }
}

/// The characters of an optional string slice.
pub open spec fn opt_slice_view(o: Option<&str>) -> Option<Seq<char>> {
    match o {
        Some(s) => Some(s@),
        None => None,
    }
}

/// A single trace event in the trace.jsonl format.
#[derive(Clone, Debug)]
pub struct TraceEvent {
    /// When the event was recorded.
    pub ts: Timestamp,
    /// Identifier of the trace the event belongs to.
    pub trace_id: String,
    /// Identifier of the span the event describes.
    pub span_id: String,
    /// Span identifier of the parent span (`None` for a root span).
    pub parent_id: Option<String>,
    /// Name of the span (e.g. "llm_call", "tool_call").
    pub name: String,
    /// Status: "ok", "error" or "in_progress".
    pub status: String,
    /// Arbitrary attributes (model, tokens, cost, ...).
    pub attrs: Attributes,
}

impl View for TraceEvent {
    type V = EventView;

    open spec fn view(&self) -> EventView {
        EventView {
            ts: self.ts,
            trace_id: self.trace_id@,
            span_id: self.span_id@,
            parent_id: opt_str_view(self.parent_id),
            name: self.name@,
            status: self.status@,
            attrs: self.attrs@,
        }
    }
}

/// Errors of reading and checking trace events.
#[derive(Debug)]
pub enum TraceError {
    /// A line is not a JSON trace event; the text says why.
    InvalidJson(String),
    /// A required field is empty; the text names it.
    MissingField(String),
    /// A timestamp is not in RFC 3339 form.
    InvalidTimestamp,
    /// Reading the trace failed; the text says why.
    IoError(String),
}

/// The mathematical value of a [`TraceError`].
pub enum ErrorView {
    InvalidJson(Seq<char>),
    MissingField(Seq<char>),
    InvalidTimestamp,
    IoError(Seq<char>),
}

impl View for TraceError {
    type V = ErrorView;

    open spec fn view(&self) -> ErrorView {
        match self {
            TraceError::InvalidJson(s) => ErrorView::InvalidJson(s@),
            TraceError::MissingField(s) => ErrorView::MissingField(s@),
            TraceError::InvalidTimestamp => ErrorView::InvalidTimestamp,
            TraceError::IoError(s) => ErrorView::IoError(s@),
        }
    }
}

impl TraceError {
    /// The human-readable message of the error.
    pub fn message(&self) -> (r: String)
        ensures
            r@ == error_message(self@),
    {
        match self {
            TraceError::InvalidJson(s) => String::from_str("Invalid JSON: ").concat(s.as_str()),
            TraceError::MissingField(s) => String::from_str("Missing required field: ").concat(s.as_str()),
            TraceError::InvalidTimestamp => String::from_str("Invalid timestamp format"),
            TraceError::IoError(s) => String::from_str("IO error: ").concat(s.as_str()),
        }
    }
}

/// The message shown for an error.
pub open spec fn error_message(e: ErrorView) -> Seq<char> {
    match e {
        ErrorView::InvalidJson(s) => "Invalid JSON: "@ + s,
        ErrorView::MissingField(s) => "Missing required field: "@ + s,
        ErrorView::InvalidTimestamp => "Invalid timestamp format"@,
        ErrorView::IoError(s) => "IO error: "@ + s,
    }
}

/// The first required field (in the order trace_id, span_id, name, status)
/// that is empty, if any.
pub open spec fn missing_field(e: EventView) -> Option<Seq<char>> {
    if e.trace_id.len() == 0 {
        Some("trace_id"@)
    } else if e.span_id.len() == 0 {
        Some("span_id"@)
    } else if e.name.len() == 0 {
        Some("name"@)
    } else if e.status.len() == 0 {
        Some("status"@)
    } else {
        None
    }
}

/// The string stored under `key`, if the attribute is a JSON string.
pub open spec fn str_attr(e: EventView, key: Seq<char>) -> Option<Seq<char>> {
    if e.attrs.contains_key(key) {
        match e.attrs[key] {
            AttrView::Str(s) => Some(s),
            _ => None,
        }
    } else {
        None
    }
}

/// The number stored under `key`, if the attribute is a non-negative JSON
/// integer.
pub open spec fn uint_attr(e: EventView, key: Seq<char>) -> Option<u64> {
    if e.attrs.contains_key(key) {
        match e.attrs[key] {
            AttrView::UInt(n) => Some(n),
            _ => None,
        }
    } else {
        None
    }
}

impl TraceEvent {
    /// A copy with the same value.
    pub fn duplicate(&self) -> (r: TraceEvent)
        ensures
            r@ == self@,
    {
        let parent_id = match &self.parent_id {
            Some(p) => Some(p.clone()),
            None => None,
        };
        TraceEvent {
            ts: self.ts,
            trace_id: self.trace_id.clone(),
            span_id: self.span_id.clone(),
            parent_id,
            name: self.name.clone(),
            status: self.status.clone(),
            attrs: self.attrs.duplicate(),
        }
    }

    /// Validate the required fields per the trace.jsonl v1.0 format: the
    /// first empty one among trace_id, span_id, name and status is reported.
    pub fn validate(&self) -> (r: Result<(), TraceError>)
        ensures
            match r {
                Ok(()) => missing_field(self@) is None,
                Err(e) => missing_field(self@) is Some && e@ == ErrorView::MissingField(
                    missing_field(self@)->0,
                ),
            },
    {
        if self.trace_id.as_str().is_empty() {
            return Err(TraceError::MissingField(String::from_str("trace_id")));
        }
        if self.span_id.as_str().is_empty() {
            return Err(TraceError::MissingField(String::from_str("span_id")));
        }
        if self.name.as_str().is_empty() {
            return Err(TraceError::MissingField(String::from_str("name")));
        }
        if self.status.as_str().is_empty() {
            return Err(TraceError::MissingField(String::from_str("status")));
        }
        Ok(())
    }

    /// A root span has no parent.
    pub fn is_root(&self) -> (r: bool)
        ensures
            r == (self@.parent_id is None),
    {
        self.parent_id.is_none()
    }

    /// The model name of an LLM call (the string attribute "model").
    pub fn model(&self) -> (r: Option<&str>)
        ensures
            opt_slice_view(r) == str_attr(self@, "model"@),
    {
        match self.attrs.get("model") {
            Some(v) => v.as_str(),
            None => None,
        }
    }

    /// Input token count of an LLM call (the integer attribute "tokens_in").
    pub fn tokens_in(&self) -> (r: Option<u64>)
        ensures
            r == uint_attr(self@, "tokens_in"@),
    {
        match self.attrs.get("tokens_in") {
            Some(v) => v.as_u64(),
            None => None,
        }
    }

    /// Output token count of an LLM call (the integer attribute "tokens_out").
    pub fn tokens_out(&self) -> (r: Option<u64>)
        ensures
            r == uint_attr(self@, "tokens_out"@),
    {
        match self.attrs.get("tokens_out") {
            Some(v) => v.as_u64(),
            None => None,
        }
    }
}

/// The trace id of a trace made of `events`: that of the first event, or
/// "unknown" when there is none.
pub open spec fn trace_id_of(events: Seq<TraceEvent>) -> Seq<char> {
    if events.len() > 0 {
        events[0].trace_id@
    } else {
        "unknown"@
    }
}

/// The events that a sequence of references points at.
pub open spec fn derefs(s: Seq<&TraceEvent>) -> Seq<TraceEvent> {
    s.map_values(|e: &TraceEvent| *e)
}

/// A root span: an event without a parent.
pub open spec fn is_root_event(e: TraceEvent) -> bool {
    e.parent_id is None
}

/// A collection of trace events.
#[derive(Debug)]
pub struct Trace {
    pub events: Vec<TraceEvent>,
    pub trace_id: String,
}

impl Trace {
    /// A trace of `events`, named after the first event's trace id.
    pub fn new(events: Vec<TraceEvent>) -> (r: Trace)
        ensures
            r.events == events,
            r.trace_id@ == trace_id_of(events@),
    {
        let trace_id = if events.len() > 0 {
            events[0].trace_id.clone()
        } else {
            String::from_str("unknown")
        };
        Trace { events, trace_id }
    }

    /// All root spans, in order.
    pub fn root_spans(&self) -> (r: Vec<&TraceEvent>)
        ensures
            derefs(r@) == self.events@.filter(|e: TraceEvent| is_root_event(e)),
    {
        let mut out: Vec<&TraceEvent> = Vec::new();
        let n = self.events.len();
        let mut i: usize = 0;
        while i < n
            invariant
                n == self.events@.len(),
                i <= n,
                derefs(out@) == self.events@.take(i as int).filter(|e: TraceEvent| is_root_event(e)),
            decreases n - i,
        {
            proof {
                reveal_with_fuel(Seq::<_>::filter, 1);
            }
            assert(self.events@.take(i + 1).drop_last() =~= self.events@.take(i as int));
            let ghost prev = out@;
            if self.events[i].is_root() {
                out.push(&self.events[i]);
                assert(derefs(out@) =~= derefs(prev).push(self.events@[i as int]));
            }
            i = i + 1;
        }
        assert(self.events@.take(n as int) =~= self.events@);
        out
    }
}

/// One line of a trace file as it was read.
pub enum LineRead {
    /// Reading the line failed.
    Unreadable(TraceError),
    /// The line is empty.
    Blank,
    /// The line has text, and this is what parsing it as an event gave.
    Parsed(Result<TraceEvent, TraceError>),
}

/// What reading `lines` gives: the valid events in order, or the error of
/// the first line that could not be read, parsed or validated. Empty lines
/// are skipped.
pub open spec fn read_events(lines: Seq<LineRead>) -> Result<Seq<EventView>, ErrorView>
    decreases lines.len(),
{
    if lines.len() == 0 {
        Ok(Seq::empty())
    } else {
        match read_events(lines.drop_last()) {
            Err(e) => Err(e),
            Ok(evs) => match lines.last() {
                LineRead::Unreadable(e) => Err(e@),
                LineRead::Blank => Ok(evs),
                LineRead::Parsed(Err(e)) => Err(e@),
                LineRead::Parsed(Ok(ev)) => match missing_field(ev@) {
                    Some(f) => Err(ErrorView::MissingField(f)),
                    None => Ok(evs.push(ev@)),
                },
            },
        }
    }
}

/// Once a prefix of the lines fails, reading the whole fails the same way.
proof fn lemma_read_events_stops(s: Seq<LineRead>, i: int)
    requires
        0 <= i <= s.len(),
        read_events(s.take(i)) is Err,
    ensures
        read_events(s) == read_events(s.take(i)),
    decreases s.len() - i,
{
    if i < s.len() {
        assert(s.take(i + 1).drop_last() =~= s.take(i));
        lemma_read_events_stops(s, i + 1);
    } else {
        assert(s.take(i) =~= s);
    }
}

/// The views of a sequence of events.
pub open spec fn views(s: Seq<TraceEvent>) -> Seq<EventView> {
    s.map_values(|e: TraceEvent| e@)
}

impl TraceEvent {
    /// Collect the events of a trace file from its lines: empty lines are
    /// skipped, every other line must have been read, parsed and validated,
    /// and the first line that was not ends the reading with its error.
    pub fn stream_parse_reader(lines: Vec<LineRead>, capacity: usize) -> (r: Result<
        Vec<TraceEvent>,
        TraceError,
    >)
        ensures
            match r {
                Ok(evs) => read_events(lines@) == Ok::<Seq<EventView>, ErrorView>(views(evs@)),
                Err(e) => read_events(lines@) == Err::<Seq<EventView>, ErrorView>(e@),
            },
    {
        let mut events: Vec<TraceEvent> = Vec::with_capacity(capacity);
        let ghost all = lines@;
        assert(views(events@) =~= Seq::<EventView>::empty());
        assert(all.take(0) =~= Seq::<LineRead>::empty());
        for line in it: lines
            invariant
                it.seq() == all,
                read_events(all.take(it.index() as int)) == Ok::<Seq<EventView>, ErrorView>(views(events@)),
        {
            proof {
                assert(all.take(it.index() + 1).drop_last() =~= all.take(it.index() as int));
                assert(all.take(it.index() + 1).last() == line);
            }
            match line {
                LineRead::Unreadable(e) => {
                    proof {
                        lemma_read_events_stops(all, it.index() + 1);
                    }
                    return Err(e);
                },
                LineRead::Blank => {},
                LineRead::Parsed(Err(e)) => {
                    proof {
                        lemma_read_events_stops(all, it.index() + 1);
                    }
                    return Err(e);
                },
                LineRead::Parsed(Ok(ev)) => {
                    match ev.validate() {
                        Err(e) => {
                            proof {
                                lemma_read_events_stops(all, it.index() + 1);
                            }
                            return Err(e);
                        },
                        Ok(()) => {
                            let ghost prev = events@;
                            events.push(ev);
                            assert(views(events@) =~= views(prev).push(ev@));
                        },
                    }
                },
            }
        }
        assert(all.take(all.len() as int) =~= all);
        Ok(events)
    }
}

/// Every event that reading a trace file yields has its required fields,
/// and there is one event for each line that is not empty.
pub proof fn lemma_read_events_valid(lines: Seq<LineRead>)
    ensures
        read_events(lines) matches Ok(evs) ==> {
            &&& forall|k: int| 0 <= k < evs.len() ==> missing_field(#[trigger] evs[k]) is None
            &&& evs.len() == lines.filter(|l: LineRead| !(l is Blank)).len()
        },
    decreases lines.len(),
{
    reveal_with_fuel(Seq::<_>::filter, 1);
    if lines.len() > 0 {
        lemma_read_events_valid(lines.drop_last());
    }
}

/// The capacity reserved for a trace file of `size` bytes: one event per
/// 200 bytes, and at least 64.
pub fn estimate_event_count(size: u64) -> (r: usize)
    ensures
        r == (if (size as usize) / 200 > 64 { (size as usize) / 200 } else { 64 }),
{
    #[verifier::truncate]
    let bytes = size as usize;
    let n = bytes / 200;
    if n > 64 {
        n
    } else {
        64
    }
}

} // verus!
