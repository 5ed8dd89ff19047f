//! The span bookkeeping of the Rust adapter (trace-rs): opening and
//! completing spans, the parent-span context that nests them, and the
//! records appended to trace.jsonl for them.
use vstd::prelude::*;
use crate::trace::{opt_str_view, AttrValue, AttrView, Attributes};

verus! {

/// The trace context the adapter keeps between spans: the `TRACE_ID` and
/// `PARENT_SPAN_ID` environment variables.
pub struct SpanContext {
    pub trace_id: Option<String>,
    pub parent_span_id: Option<String>,
}

/// The mathematical value of a [`SpanContext`].
pub struct ContextView {
    pub trace_id: Option<Seq<char>>,
    pub parent_span_id: Option<Seq<char>>,
}

impl View for SpanContext {
    type V = ContextView;

    open spec fn view(&self) -> ContextView {
        ContextView {
            trace_id: opt_str_view(self.trace_id),
            parent_span_id: opt_str_view(self.parent_span_id),
        }
    }
}

/// One line the adapter appends to trace.jsonl.
pub struct SpanRecord {
    pub ts: String,
    pub trace_id: String,
    pub span_id: String,
    pub parent_id: Option<String>,
    pub name: String,
    pub status: String,
    pub attrs: Attributes,
}

/// The mathematical value of a [`SpanRecord`].
pub struct RecordView {
    pub ts: Seq<char>,
    pub trace_id: Seq<char>,
    pub span_id: Seq<char>,
    pub parent_id: Option<Seq<char>>,
    pub name: Seq<char>,
    pub status: Seq<char>,
    pub attrs: Map<Seq<char>, AttrView>,
}

impl View for SpanRecord {
    type V = RecordView;

    open spec fn view(&self) -> RecordView {
        RecordView {
            ts: self.ts@,
            trace_id: self.trace_id@,
            span_id: self.span_id@,
            parent_id: opt_str_view(self.parent_id),
            name: self.name@,
            status: self.status@,
            attrs: self.attrs@,
        }
    }
}

/// What only the world outside the adapter gives a span when it opens: a
/// fresh span id, a fresh trace id to use when the context names none, and
/// the current time in RFC 3339 form.
pub struct SpanStart {
    pub span_id: String,
    pub fresh_trace_id: String,
    pub ts: String,
}

/// What only the world outside gives a span when it completes: the current
/// time in RFC 3339 form and the elapsed milliseconds, as the JSON value
/// to record.
pub struct SpanEnd {
    pub ts: String,
    pub latency_ms: AttrValue,
}

/// A lowercase hexadecimal digit.
pub open spec fn is_lower_hex(c: char) -> bool {
    ('0' <= c && c <= '9') || ('a' <= c && c <= 'f')
}

/// The hyphenated text of a random (version 4, RFC 9562 variant) UUID:
/// 36 characters, hyphens at positions 8, 13, 18 and 23, the version digit
/// '4' at position 14, a variant digit among '8', '9', 'a', 'b' at position
/// 19, and lowercase hexadecimal digits everywhere else.
pub open spec fn is_uuid_v4_text(s: Seq<char>) -> bool {
    &&& s.len() == 36
    &&& forall|i: int|
        0 <= i < 36 && i != 8 && i != 13 && i != 18 && i != 23 ==> is_lower_hex(#[trigger] s[i])
    &&& s[8] == '-' && s[13] == '-' && s[18] == '-' && s[23] == '-'
    &&& s[14] == '4'
    &&& (s[19] == '8' || s[19] == '9' || s[19] == 'a' || s[19] == 'b')
}

/// A decimal digit.
pub open spec fn is_digit(c: char) -> bool {
    '0' <= c && c <= '9'
}

/// An RFC 3339 UTC time with milliseconds, as chrono writes it: a year of
/// at least four characters (four digits for the years 0..=9999, a sign and
/// digits otherwise), then `-MM-DDTHH:MM:SS.mmmZ`, with two digits for each
/// field and three for the milliseconds.
pub open spec fn is_rfc3339_millis_utc(s: Seq<char>) -> bool {
    let n = s.len() as int;
    &&& n >= 24
    &&& s[n - 20] == '-' && s[n - 17] == '-' && s[n - 14] == 'T'
    &&& s[n - 11] == ':' && s[n - 8] == ':' && s[n - 5] == '.' && s[n - 1] == 'Z'
    &&& forall|i: int|
        n - 20 < i < n - 1 && i != n - 17 && i != n - 14 && i != n - 11 && i != n - 8 && i != n - 5
            ==> is_digit(#[trigger] s[i])
}

/// `uuid::Uuid::new_v4`, rendered as text by its `Display` (the hyphenated
/// lowercase form). Which UUID comes out depends on chance; every outcome
/// has the version 4 layout. uuid panics when the operating system gives
/// no random bytes.
#[verifier::external_body]
fn random_uuid() -> (r: String)
    ensures
        is_uuid_v4_text(r@),
{
    uuid::Uuid::new_v4().to_string()
}

/// `chrono::Utc::now`, rendered by `to_rfc3339_opts(SecondsFormat::Millis,
/// true)`. Which time comes out depends on the clock; every outcome has the
/// RFC 3339 layout with milliseconds and 'Z' (UTC written as Zulu). Which
/// digits stand in it, and the width of the year, are left unsaid. chrono
/// panics when the clock reads a time before 1970.
#[verifier::external_body]
fn now_rfc3339_millis() -> (r: String)
    ensures
        is_rfc3339_millis_utc(r@),
{
    chrono::Utc::now().to_rfc3339_opts(chrono::SecondsFormat::Millis, true)
}

impl SpanStart {
    /// What a span opened now gets: a random version 4 UUID as span id,
    /// another as the trace id for when the context names none, and the
    /// current UTC time with milliseconds.
    pub fn now() -> (r: SpanStart)
        ensures
            is_uuid_v4_text(r.span_id@),
            is_uuid_v4_text(r.fresh_trace_id@),
            is_rfc3339_millis_utc(r.ts@),
    {
        SpanStart { span_id: random_uuid(), fresh_trace_id: random_uuid(), ts: now_rfc3339_millis() }
    }
}

impl SpanEnd {
    /// What a span completed now gets: the current UTC time with
    /// milliseconds, and the given elapsed milliseconds.
    pub fn now(latency_ms: AttrValue) -> (r: SpanEnd)
        ensures
            r.latency_ms == latency_ms,
            is_rfc3339_millis_utc(r.ts@),
    {
        SpanEnd { ts: now_rfc3339_millis(), latency_ms }
    }
}

/// An open span.
pub struct Span {
    pub span_id: String,
    pub trace_id: String,
    pub parent_id: Option<String>,
    pub name: String,
    pub attrs: Attributes,
}

/// The mathematical value of a [`Span`].
pub struct SpanView {
    pub span_id: Seq<char>,
    pub trace_id: Seq<char>,
    pub parent_id: Option<Seq<char>>,
    pub name: Seq<char>,
    pub attrs: Map<Seq<char>, AttrView>,
}

impl View for Span {
    type V = SpanView;

    open spec fn view(&self) -> SpanView {
        SpanView {
            span_id: self.span_id@,
            trace_id: self.trace_id@,
            parent_id: opt_str_view(self.parent_id),
            name: self.name@,
            attrs: self.attrs@,
        }
    }
}

/// The span that opening `name` with `attrs` in context `c` gives: the
/// context's trace id (or the fresh one), and the context's current span as
/// parent.
pub open spec fn opened_span(
    c: ContextView,
    name: Seq<char>,
    attrs: Map<Seq<char>, AttrView>,
    span_id: Seq<char>,
    fresh_trace_id: Seq<char>,
) -> SpanView {
    SpanView {
        span_id,
        trace_id: match c.trace_id {
            Some(t) => t,
            None => fresh_trace_id,
        },
        parent_id: c.parent_span_id,
        name,
        attrs,
    }
}

/// The record of a span, with a status, attributes and a time.
pub open spec fn span_record(s: SpanView, status: Seq<char>, attrs: Map<Seq<char>, AttrView>, ts: Seq<char>) -> RecordView {
    RecordView {
        ts,
        trace_id: s.trace_id,
        span_id: s.span_id,
        parent_id: s.parent_id,
        name: s.name,
        status,
        attrs,
    }
}

/// The attributes a span completes with: its own, with the elapsed time as
/// `latency_ms`; a root span (one without a parent) also carries it as
/// `total_latency_ms`, the latency of the whole trace.
pub open spec fn completion_attrs(s: SpanView, latency: AttrView) -> Map<Seq<char>, AttrView> {
    let a = s.attrs.insert("latency_ms"@, latency);
    if s.parent_id is None {
        a.insert("total_latency_ms"@, latency)
    } else {
        a
    }
}

/// The context inside a span: the span is the parent of spans opened in it.
pub open spec fn context_inside(c: ContextView, span_id: Seq<char>) -> ContextView {
    ContextView { parent_span_id: Some(span_id), ..c }
}

/// The context after a span completes: its parent is current again.
pub open spec fn context_after(c: ContextView, s: SpanView) -> ContextView {
    ContextView { parent_span_id: s.parent_id, ..c }
}

/// Spans nest: completing a span restores the context it was opened in,
/// so the spans opened and completed inside it leave the context as they
/// found it.
pub proof fn lemma_span_restores_context(
    c: ContextView,
    name: Seq<char>,
    attrs: Map<Seq<char>, AttrView>,
    span_id: Seq<char>,
    fresh_trace_id: Seq<char>,
)
    ensures
        context_after(
            context_inside(c, span_id),
            opened_span(c, name, attrs, span_id, fresh_trace_id),
        ) == c,
{
}

/// A copy of an optional string.
fn copy_opt(o: &Option<String>) -> (r: Option<String>)
    ensures
        opt_str_view(r) == opt_str_view(*o),
{
    match o {
        Some(s) => Some(s.clone()),
        None => None,
    }
}

impl Span {
    /// Opens a span named `name` with `attrs`: records it as in progress
    /// and makes it the parent of spans opened until it completes.
    pub fn new(ctx: &mut SpanContext, name: &str, attrs: Attributes, start: SpanStart) -> (r: (
        Span,
        SpanRecord,
    ))
        ensures
            r.0@ == opened_span(old(ctx)@, name@, attrs@, start.span_id@, start.fresh_trace_id@),
            r.1@ == span_record(r.0@, "in_progress"@, attrs@, start.ts@),
            final(ctx)@ == context_inside(old(ctx)@, start.span_id@),
    {
        let trace_id = match &ctx.trace_id {
            Some(t) => t.clone(),
            None => start.fresh_trace_id,
        };
        let parent_id = copy_opt(&ctx.parent_span_id);
        ctx.parent_span_id = Some(start.span_id.clone());
        let record = SpanRecord {
            ts: start.ts,
            trace_id: trace_id.clone(),
            span_id: start.span_id.clone(),
            parent_id: copy_opt(&parent_id),
            name: String::from_str(name),
            status: String::from_str("in_progress"),
            attrs: attrs.duplicate(),
        };
        let span = Span {
            span_id: start.span_id,
            trace_id,
            parent_id,
            name: String::from_str(name),
            attrs,
        };
        (span, record)
    }

    /// Completes the span successfully: its record gains the elapsed time
    /// as `latency_ms` (and, for a root span, as `total_latency_ms`), and
    /// its parent becomes the current span again.
    pub fn complete_ok(self, ctx: &mut SpanContext, end: SpanEnd) -> (r: SpanRecord)
        ensures
            r@ == span_record(self@, "ok"@, completion_attrs(self@, end.latency_ms@), end.ts@),
            final(ctx)@ == context_after(old(ctx)@, self@),
    {
        let mut attrs = self.attrs;
        if self.parent_id.is_none() {
            attrs.insert(String::from_str("latency_ms"), end.latency_ms.duplicate());
            attrs.insert(String::from_str("total_latency_ms"), end.latency_ms);
        } else {
            attrs.insert(String::from_str("latency_ms"), end.latency_ms);
        }
        ctx.parent_span_id = copy_opt(&self.parent_id);
        SpanRecord {
            ts: end.ts,
            trace_id: self.trace_id,
            span_id: self.span_id,
            parent_id: self.parent_id,
            name: self.name,
            status: String::from_str("ok"),
            attrs,
        }
    }

    /// Completes the span with an error: its record gains the elapsed time
    /// as `latency_ms` (and, for a root span, as `total_latency_ms`) and
    /// the message as `error`, and its parent becomes the current span
    /// again.
    pub fn complete_error(self, ctx: &mut SpanContext, error: &str, end: SpanEnd) -> (r: SpanRecord)
        ensures
            r@ == span_record(
                self@,
                "error"@,
                completion_attrs(self@, end.latency_ms@).insert("error"@, AttrView::Str(error@)),
                end.ts@,
            ),
            final(ctx)@ == context_after(old(ctx)@, self@),
    {
        let mut attrs = self.attrs;
        if self.parent_id.is_none() {
            attrs.insert(String::from_str("latency_ms"), end.latency_ms.duplicate());
            attrs.insert(String::from_str("total_latency_ms"), end.latency_ms);
        } else {
            attrs.insert(String::from_str("latency_ms"), end.latency_ms);
        }
        attrs.insert(String::from_str("error"), AttrValue::Str(String::from_str(error)));
        ctx.parent_span_id = copy_opt(&self.parent_id);
        SpanRecord {
            ts: end.ts,
            trace_id: self.trace_id,
            span_id: self.span_id,
            parent_id: self.parent_id,
            name: self.name,
            status: String::from_str("error"),
            attrs,
        }
    }
}

/// Opens the span of a tool call: named "tool_call", with the tool as the
/// attribute "tool". The tool's work runs inside the span, which
/// [`Span::complete_ok`] then completes.
pub fn tool_call(ctx: &mut SpanContext, tool: &str, start: SpanStart) -> (r: (Span, SpanRecord))
    ensures
        r.0@ == opened_span(
            old(ctx)@,
            "tool_call"@,
            Map::empty().insert("tool"@, AttrView::Str(tool@)),
            start.span_id@,
            start.fresh_trace_id@,
        ),
        r.1@ == span_record(r.0@, "in_progress"@, r.0@.attrs, start.ts@),
        final(ctx)@ == context_inside(old(ctx)@, start.span_id@),
{
    let mut attrs = Attributes::new();
    attrs.insert(String::from_str("tool"), AttrValue::Str(String::from_str(tool)));
    Span::new(ctx, "tool_call", attrs, start)
}

/// Opens the root span of an agent run: named "agent_execution", with the
/// run's input as the attribute "input". The run happens inside the span,
/// which [`Span::complete_ok`] then completes.
pub fn root_span(ctx: &mut SpanContext, input: &str, start: SpanStart) -> (r: (Span, SpanRecord))
    ensures
        r.0@ == opened_span(
            old(ctx)@,
            "agent_execution"@,
            Map::empty().insert("input"@, AttrView::Str(input@)),
            start.span_id@,
            start.fresh_trace_id@,
        ),
        r.1@ == span_record(r.0@, "in_progress"@, r.0@.attrs, start.ts@),
        final(ctx)@ == context_inside(old(ctx)@, start.span_id@),
{
    let mut attrs = Attributes::new();
    attrs.insert(String::from_str("input"), AttrValue::Str(String::from_str(input)));
    Span::new(ctx, "agent_execution", attrs, start)
}

/// The attributes of an LLM call.
pub open spec fn llm_attrs(
    model: Seq<char>,
    prompt: Seq<char>,
    response: Seq<char>,
    tokens_in: u64,
    tokens_out: u64,
) -> Map<Seq<char>, AttrView> {
    Map::empty().insert("model"@, AttrView::Str(model)).insert("prompt"@, AttrView::Str(prompt)).insert(
        "response"@,
        AttrView::Str(response),
    ).insert("tokens_in"@, AttrView::UInt(tokens_in)).insert("tokens_out"@, AttrView::UInt(tokens_out))
}

/// An LLM call's records hold each argument under its own key: the model,
/// prompt and response as text under "model", "prompt" and "response", the
/// token counts under "tokens_in" and "tokens_out", and nothing else. The
/// completed record keeps all of them beside the elapsed time.
pub proof fn lemma_llm_call_attributes(
    c: ContextView,
    model: Seq<char>,
    prompt: Seq<char>,
    response: Seq<char>,
    tokens_in: u64,
    tokens_out: u64,
    span_id: Seq<char>,
    fresh_trace_id: Seq<char>,
    latency: AttrView,
)
    ensures
        ({
            let a = llm_attrs(model, prompt, response, tokens_in, tokens_out);
            let s = opened_span(c, "llm_call"@, a, span_id, fresh_trace_id);
            let done = completion_attrs(s, latency);
            &&& a.dom() == set!["model"@, "prompt"@, "response"@, "tokens_in"@, "tokens_out"@]
            &&& a["model"@] == AttrView::Str(model)
            &&& a["prompt"@] == AttrView::Str(prompt)
            &&& a["response"@] == AttrView::Str(response)
            &&& a["tokens_in"@] == AttrView::UInt(tokens_in)
            &&& a["tokens_out"@] == AttrView::UInt(tokens_out)
            &&& done["model"@] == AttrView::Str(model)
            &&& done["prompt"@] == AttrView::Str(prompt)
            &&& done["response"@] == AttrView::Str(response)
            &&& done["tokens_in"@] == AttrView::UInt(tokens_in)
            &&& done["tokens_out"@] == AttrView::UInt(tokens_out)
            &&& done["latency_ms"@] == latency
        }),
{
    reveal_strlit("model");
    reveal_strlit("prompt");
    reveal_strlit("response");
    reveal_strlit("tokens_in");
    reveal_strlit("tokens_out");
    reveal_strlit("latency_ms");
    reveal_strlit("total_latency_ms");
    let keys = seq!["model"@, "prompt"@, "response"@, "tokens_in"@, "tokens_out"@];
    assert(keys[0].len() == 5 && keys[1].len() == 6 && keys[2].len() == 8);
    assert(keys[3].len() == 9 && keys[4].len() == 10);
    assert("latency_ms"@.len() == 10 && "total_latency_ms"@.len() == 16);
    assert("latency_ms"@[0] != "tokens_out"@[0]);
    assert(forall|i: int, j: int| 0 <= i < j < 5 ==> keys[i] != keys[j]) by {
        assert forall|i: int, j: int| 0 <= i < j < 5 implies keys[i] != keys[j] by {
            assert(keys[i].len() != keys[j].len());
        }
    }
    assert(forall|i: int| 0 <= i < 5 ==> keys[i] != "latency_ms"@ && keys[i] != "total_latency_ms"@) by {
        assert forall|i: int| 0 <= i < 5 implies keys[i] != "latency_ms"@ && keys[i] != "total_latency_ms"@ by {
            if i == 4 {
                assert(keys[4][0] != "latency_ms"@[0]);
            } else {
                assert(keys[i].len() != "latency_ms"@.len());
            }
        }
    }
    let a = llm_attrs(model, prompt, response, tokens_in, tokens_out);
    assert(a.dom() =~= set!["model"@, "prompt"@, "response"@, "tokens_in"@, "tokens_out"@]);
}

/// Records an LLM call as a span named "llm_call" with the model, prompt,
/// response and token counts as attributes: the in-progress record and the
/// completed one, in order. The context is the same afterwards.
pub fn llm_call(
    ctx: &mut SpanContext,
    model: &str,
    prompt: &str,
    response: &str,
    tokens_in: u64,
    tokens_out: u64,
    start: SpanStart,
    end: SpanEnd,
) -> (r: (SpanRecord, SpanRecord))
    ensures
        ({
            let s = opened_span(
                old(ctx)@,
                "llm_call"@,
                llm_attrs(model@, prompt@, response@, tokens_in, tokens_out),
                start.span_id@,
                start.fresh_trace_id@,
            );
            &&& r.0@ == span_record(s, "in_progress"@, s.attrs, start.ts@)
            &&& r.1@ == span_record(s, "ok"@, completion_attrs(s, end.latency_ms@), end.ts@)
        }),
        final(ctx)@ == old(ctx)@,
{
    let mut attrs = Attributes::new();
    attrs.insert(String::from_str("model"), AttrValue::Str(String::from_str(model)));
    attrs.insert(String::from_str("prompt"), AttrValue::Str(String::from_str(prompt)));
    attrs.insert(String::from_str("response"), AttrValue::Str(String::from_str(response)));
    attrs.insert(String::from_str("tokens_in"), AttrValue::UInt(tokens_in));
    attrs.insert(String::from_str("tokens_out"), AttrValue::UInt(tokens_out));
    let (span, first) = Span::new(ctx, "llm_call", attrs, start);
    let second = span.complete_ok(ctx, end);
    (first, second)
}

} // verus!
