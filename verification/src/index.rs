//! In-memory event index with paging and filters, and the key layout of
//! the on-disk index.
use vstd::prelude::*;
use crate::trace::{derefs, views, Trace, TraceEvent};

verus! {

/// The events of `s` whose trace id is `trace_id`, in order.
pub open spec fn with_trace_id(s: Seq<TraceEvent>, trace_id: Seq<char>) -> Seq<TraceEvent> {
    s.filter(|e: TraceEvent| e.trace_id@ == trace_id)
}

/// The events of `s` whose name is `name`, in order.
pub open spec fn with_name(s: Seq<TraceEvent>, name: Seq<char>) -> Seq<TraceEvent> {
    s.filter(|e: TraceEvent| e.name@ == name)
}

/// The events of `s` whose status is `status`, in order.
pub open spec fn with_status(s: Seq<TraceEvent>, status: Seq<char>) -> Seq<TraceEvent> {
    s.filter(|e: TraceEvent| e.status@ == status)
}

/// The smaller of two numbers.
pub open spec fn min_int(a: int, b: int) -> int {
    if a < b {
        a
    } else {
        b
    }
}

/// The events on page `page` when pages hold `page_size` events.
pub open spec fn page_of(s: Seq<TraceEvent>, page_size: int, page: int) -> Seq<TraceEvent> {
    s.subrange(min_int(page * page_size, s.len() as int), min_int((page + 1) * page_size, s.len() as int))
}

/// In-memory index for fast operations without disk persistence.
#[derive(Debug)]
pub struct MemoryIndex {
    events: Vec<TraceEvent>,
    page_size: usize,
}

impl View for MemoryIndex {
    type V = Seq<TraceEvent>;

    closed spec fn view(&self) -> Seq<TraceEvent> {
        self.events@
    }
}

impl MemoryIndex {
    /// The number of events on a page.
    pub closed spec fn page_size_spec(&self) -> usize {
        self.page_size
    }

    /// An empty index that pages 1000 events at a time.
    pub fn new() -> (r: MemoryIndex)
        ensures
            r@ == Seq::<TraceEvent>::empty(),
            r.page_size_spec() == 1000,
    {
        MemoryIndex { events: Vec::new(), page_size: 1000 }
    }

    /// An empty index with the given page size.
    pub fn with_page_size(page_size: usize) -> (r: MemoryIndex)
        ensures
            r@ == Seq::<TraceEvent>::empty(),
            r.page_size_spec() == page_size,
    {
        MemoryIndex { events: Vec::new(), page_size }
    }

    /// The number of events on a page.
    pub fn page_size(&self) -> (r: usize)
        ensures
            r == self.page_size_spec(),
    {
        self.page_size
    }

    /// Appends one event.
    pub fn add_event(&mut self, event: TraceEvent)
        ensures
            final(self)@ == old(self)@.push(event),
            final(self).page_size_spec() == old(self).page_size_spec(),
    {
        self.events.push(event);
    }

    /// Appends events, in order.
    pub fn add_events(&mut self, events: Vec<TraceEvent>)
        ensures
            final(self)@ == old(self)@ + events@,
            final(self).page_size_spec() == old(self).page_size_spec(),
    {
        let mut events = events;
        self.events.append(&mut events);
    }

    /// All events, in order.
    pub fn get_events(&self) -> (r: &[TraceEvent])
        ensures
            r@ == self@,
    {
        self.events.as_slice()
    }

    /// The events of page `page` (counting from 0) for large traces; a page
    /// past the end is empty.
    pub fn get_events_paged(&self, page: usize) -> (r: &[TraceEvent])
        requires
            page + 1 <= usize::MAX,
            (page + 1) * self.page_size_spec() <= usize::MAX,
        ensures
            r@ == page_of(self@, self.page_size_spec() as int, page as int),
    {
        let len = self.events.len();
        assert(page * self.page_size <= (page + 1) * self.page_size) by (nonlinear_arith);
        let start = page * self.page_size;
        let end = (page + 1) * self.page_size;
        let a = if start < len { start } else { len };
        let b = if end < len { end } else { len };
        assert(a <= b) by (nonlinear_arith)
            requires
                start <= end,
                a == (if start < len { start } else { len }),
                b == (if end < len { end } else { len }),
        ;
        let s = self.events.as_slice();
        &s[a..b]
    }

    /// The events of one trace, in order, as a trace.
    pub fn get_trace(&self, trace_id: &str) -> (r: Trace)
        ensures
            views(r.events@) == views(with_trace_id(self@, trace_id@)),
            r.trace_id@ == (if with_trace_id(self@, trace_id@).len() > 0 {
                trace_id@
            } else {
                "unknown"@
            }),
    {
        let key = String::from_str(trace_id);
        let mut out: Vec<TraceEvent> = Vec::new();
        let n = self.events.len();
        let mut i: usize = 0;
        while i < n
            invariant
                n == self.events@.len(),
                i <= n,
                key@ == trace_id@,
                views(out@) == views(with_trace_id(self.events@.take(i as int), trace_id@)),
                forall|k: int| 0 <= k < out@.len() ==> (#[trigger] out@[k]).trace_id@ == trace_id@,
            decreases n - i,
        {
            proof {
                reveal_with_fuel(Seq::<_>::filter, 1);
            }
            assert(self.events@.take(i + 1).drop_last() =~= self.events@.take(i as int));
            let ghost prev = out@;
            if self.events[i].trace_id == key {
                out.push(self.events[i].duplicate());
                assert(views(out@) =~= views(prev).push(self.events@[i as int]@));
                assert(views(with_trace_id(self.events@.take(i + 1), trace_id@)) =~= views(
                    with_trace_id(self.events@.take(i as int), trace_id@),
                ).push(self.events@[i as int]@));
            }
            i = i + 1;
        }
        assert(self.events@.take(n as int) =~= self.events@);
        proof {
            if out@.len() > 0 {
                assert(views(out@)[0] == out@[0]@);
            }
        }
        Trace::new(out)
    }

    /// The events named `name`, in order.
    pub fn filter_by_name(&self, name: &str) -> (r: Vec<&TraceEvent>)
        ensures
            derefs(r@) == with_name(self@, name@),
    {
        let key = String::from_str(name);
        let mut out: Vec<&TraceEvent> = Vec::new();
        let n = self.events.len();
        let mut i: usize = 0;
        while i < n
            invariant
                n == self.events@.len(),
                i <= n,
                key@ == name@,
                derefs(out@) == with_name(self.events@.take(i as int), name@),
            decreases n - i,
        {
            proof {
                reveal_with_fuel(Seq::<_>::filter, 1);
            }
            assert(self.events@.take(i + 1).drop_last() =~= self.events@.take(i as int));
            let ghost prev = out@;
            if self.events[i].name == key {
                out.push(&self.events[i]);
                assert(derefs(out@) =~= derefs(prev).push(self.events@[i as int]));
            }
            i = i + 1;
        }
        assert(self.events@.take(n as int) =~= self.events@);
        out
    }

    /// The events with status `status`, in order.
    pub fn filter_by_status(&self, status: &str) -> (r: Vec<&TraceEvent>)
        ensures
            derefs(r@) == with_status(self@, status@),
    {
        let key = String::from_str(status);
        let mut out: Vec<&TraceEvent> = Vec::new();
        let n = self.events.len();
        let mut i: usize = 0;
        while i < n
            invariant
                n == self.events@.len(),
                i <= n,
                key@ == status@,
                derefs(out@) == with_status(self.events@.take(i as int), status@),
            decreases n - i,
        {
            proof {
                reveal_with_fuel(Seq::<_>::filter, 1);
            }
            assert(self.events@.take(i + 1).drop_last() =~= self.events@.take(i as int));
            let ghost prev = out@;
            if self.events[i].status == key {
                out.push(&self.events[i]);
                assert(derefs(out@) =~= derefs(prev).push(self.events@[i as int]));
            }
            i = i + 1;
        }
        assert(self.events@.take(n as int) =~= self.events@);
        out
    }

    /// Removes all events.
    pub fn clear(&mut self)
        ensures
            final(self)@ == Seq::<TraceEvent>::empty(),
            final(self).page_size_spec() == old(self).page_size_spec(),
    {
        self.events.clear();
    }

    /// The number of events.
    pub fn len(&self) -> (r: usize)
        ensures
            r == self@.len(),
    {
        self.events.len()
    }

    /// The number of pages: the event count divided by the page size,
    /// rounded up.
    pub fn page_count(&self) -> (r: usize)
        requires
            self.page_size_spec() > 0,
            self@.len() + self.page_size_spec() <= usize::MAX,
        ensures
            r == (self@.len() + self.page_size_spec() - 1) / (self.page_size_spec() as int),
    {
        (self.events.len() + self.page_size - 1) / self.page_size
    }
}

impl Default for MemoryIndex {
    /// An empty index whose page size is 0.
    fn default() -> (r: MemoryIndex)
        ensures
            r@ == Seq::<TraceEvent>::empty(),
            r.page_size_spec() == 0,
    {
        MemoryIndex { events: Vec::new(), page_size: 0 }
    }
}

/// Every event is on exactly one page: event `i` is at position
/// `i % page_size` of page `i / page_size`, and that page is one of the
/// `page_count` pages.
pub proof fn lemma_paging_covers(s: Seq<TraceEvent>, page_size: int, i: int)
    requires
        page_size > 0,
        0 <= i < s.len(),
    ensures
        0 <= i / page_size < (s.len() + page_size - 1) / page_size,
        0 <= i % page_size < page_of(s, page_size, i / page_size).len(),
        page_of(s, page_size, i / page_size)[i % page_size] == s[i],
{
    let p = i / page_size;
    let r = i % page_size;
    let n = s.len() as int;
    assert(i == p * page_size + r && 0 <= r < page_size) by {
        vstd::arithmetic::div_mod::lemma_fundamental_div_mod(i, page_size);
        vstd::arithmetic::div_mod::lemma_mod_bound(i, page_size);
    }
    assert(p >= 0) by {
        vstd::arithmetic::div_mod::lemma_div_pos_is_pos(i, page_size);
    }
    assert((p + 1) * page_size == p * page_size + page_size) by (nonlinear_arith);
    assert(p * page_size <= i);
    assert(p < (n + page_size - 1) / page_size) by {
        let c = (n + page_size - 1) / page_size;
        vstd::arithmetic::div_mod::lemma_fundamental_div_mod(n + page_size - 1, page_size);
        vstd::arithmetic::div_mod::lemma_mod_bound(n + page_size - 1, page_size);
        assert(n + page_size - 1 == c * page_size + (n + page_size - 1) % page_size);
        if p >= c {
            assert(p * page_size >= c * page_size) by (nonlinear_arith)
                requires
                    p >= c,
                    page_size > 0,
            ;
        }
    }
}

/// Pages `0..k` put one after another.
pub open spec fn pages_concat(s: Seq<TraceEvent>, page_size: int, k: nat) -> Seq<TraceEvent>
    decreases k,
{
    if k == 0 {
        Seq::empty()
    } else {
        pages_concat(s, page_size, (k - 1) as nat) + page_of(s, page_size, k - 1)
    }
}

/// The first `k` pages together are the first `k * page_size` events (or
/// all of them, when there are fewer).
proof fn lemma_pages_concat_prefix(s: Seq<TraceEvent>, page_size: int, k: nat)
    requires
        page_size > 0,
    ensures
        pages_concat(s, page_size, k) == s.subrange(0, min_int(k * page_size, s.len() as int)),
    decreases k,
{
    if k == 0 {
        assert(pages_concat(s, page_size, 0) =~= s.subrange(0, 0));
    } else {
        let j = (k - 1) as nat;
        lemma_pages_concat_prefix(s, page_size, j);
        assert(k * page_size == j * page_size + page_size) by (nonlinear_arith)
            requires
                k == j + 1,
        ;
        assert(j * page_size >= 0) by (nonlinear_arith)
            requires
                page_size > 0,
        ;
        let a = min_int(j * page_size, s.len() as int);
        let b = min_int(k * page_size, s.len() as int);
        assert(s.subrange(0, a) + s.subrange(a, b) =~= s.subrange(0, b));
    }
}

/// Paging splits the events exactly: with `page_size > 0` and
/// `count = ceil(len / page_size)` pages, the pages `0..count` put one after
/// another are all the events in order, and a page is empty exactly when
/// its number is `count` or more.
pub proof fn lemma_pages_partition(s: Seq<TraceEvent>, page_size: int)
    requires
        page_size > 0,
    ensures
        ({
            let count = (s.len() + page_size - 1) / page_size;
            &&& count >= 0
            &&& pages_concat(s, page_size, count as nat) == s
            &&& forall|p: int| 0 <= p ==> (#[trigger] page_of(s, page_size, p).len() == 0 <==> p >= count)
        }),
{
    let n = s.len() as int;
    let count = (n + page_size - 1) / page_size;
    let r = (n + page_size - 1) % page_size;
    vstd::arithmetic::div_mod::lemma_fundamental_div_mod(n + page_size - 1, page_size);
    vstd::arithmetic::div_mod::lemma_mod_bound(n + page_size - 1, page_size);
    vstd::arithmetic::div_mod::lemma_div_pos_is_pos(n + page_size - 1, page_size);
    assert(n + page_size - 1 == page_size * count + r);
    assert(count * page_size == page_size * count) by (nonlinear_arith);
    assert(count * page_size >= n);
    assert((count - 1) * page_size < n) by (nonlinear_arith)
        requires
            count * page_size == n + page_size - 1 - r,
            0 <= r < page_size,
    ;
    lemma_pages_concat_prefix(s, page_size, count as nat);
    assert(s.subrange(0, n) =~= s);
    assert forall|p: int| 0 <= p implies (#[trigger] page_of(s, page_size, p).len() == 0 <==> p >= count) by {
        assert((p + 1) * page_size == p * page_size + page_size) by (nonlinear_arith);
        if p >= count {
            assert(p * page_size >= count * page_size) by (nonlinear_arith)
                requires
                    p >= count,
                    page_size > 0,
            ;
        } else {
            assert(p * page_size <= (count - 1) * page_size) by (nonlinear_arith)
                requires
                    p <= count - 1,
                    page_size > 0,
            ;
            assert(p * page_size >= 0) by (nonlinear_arith)
                requires
                    p >= 0,
                    page_size > 0,
            ;
        }
    }
}

/// The on-disk index key of an event: its trace id, ':' and its span id.
pub fn event_key(trace_id: &str, span_id: &str) -> (r: String)
    ensures
        r@ == trace_id@ + ":"@ + span_id@,
{
    String::from_str(trace_id).concat(":").concat(span_id)
}

/// The prefix shared by the on-disk keys of a trace's events.
pub fn trace_key_prefix(trace_id: &str) -> (r: String)
    ensures
        r@ == trace_id@ + ":"@,
{
    String::from_str(trace_id).concat(":")
}

/// The key of every event of a trace starts with the trace's key prefix,
/// so a prefix scan finds all of them.
pub proof fn lemma_event_key_has_prefix(trace_id: Seq<char>, span_id: Seq<char>)
    ensures
        (trace_id + ":"@ + span_id).take((trace_id + ":"@).len() as int) == trace_id + ":"@,
{
    assert((trace_id + ":"@ + span_id).take((trace_id + ":"@).len() as int) =~= trace_id + ":"@);
}

/// `e` placed into `s` after every event at or before it in time and
/// before the run of events after it at the end of `s`.
pub open spec fn insert_by_ts(s: Seq<TraceEvent>, e: TraceEvent) -> Seq<TraceEvent>
    decreases s.len(),
{
    if s.len() == 0 {
        seq![e]
    } else if s.last().ts.at_or_before(e.ts) {
        s.push(e)
    } else {
        insert_by_ts(s.drop_last(), e).push(s.last())
    }
}

/// The events of `s` in time order; events with equal timestamps keep
/// their order (a stable sort).
pub open spec fn sorted_by_ts(s: Seq<TraceEvent>) -> Seq<TraceEvent>
    decreases s.len(),
{
    if s.len() == 0 {
        s
    } else {
        insert_by_ts(sorted_by_ts(s.drop_last()), s.last())
    }
}

/// Sort events by timestamp, keeping the order of events with equal
/// timestamps (as the on-disk index does for the events of a trace).
pub fn sort_events_by_ts(events: Vec<TraceEvent>) -> (r: Vec<TraceEvent>)
    ensures
        r@ == sorted_by_ts(events@),
{
    let ghost all = events@;
    let mut out: Vec<TraceEvent> = Vec::new();
    assert(all.take(0) =~= Seq::<TraceEvent>::empty());
    for ev in it: events
        invariant
            it.seq() == all,
            out@ == sorted_by_ts(all.take(it.index() as int)),
    {
        proof {
            assert(all.take(it.index() + 1).drop_last() =~= all.take(it.index() as int));
            assert(all.take(it.index() + 1).last() == ev);
        }
        let ghost s = out@;
        let mut pos: usize = out.len();
        assert(s.take(pos as int) =~= s);
        assert(s.skip(pos as int) =~= Seq::<TraceEvent>::empty());
        while pos > 0 && !out[pos - 1].ts.is_at_or_before(&ev.ts)
            invariant
                out@ == s,
                pos <= s.len(),
                insert_by_ts(s, ev) == insert_by_ts(s.take(pos as int), ev) + s.skip(pos as int),
            decreases pos,
        {
            assert(s.take(pos as int).drop_last() =~= s.take(pos - 1));
            assert(s.take(pos as int).last() == s[pos - 1]);
            assert(s.skip(pos - 1) =~= seq![s[pos - 1]] + s.skip(pos as int));
            assert(insert_by_ts(s.take(pos - 1), ev).push(s[pos - 1]) + s.skip(pos as int)
                =~= insert_by_ts(s.take(pos - 1), ev) + s.skip(pos - 1));
            pos = pos - 1;
        }
        proof {
            if pos > 0 {
                assert(s.take(pos as int).last() == s[pos - 1]);
            } else {
                assert(s.take(0) =~= Seq::<TraceEvent>::empty());
            }
            assert(insert_by_ts(s, ev) =~= s.insert(pos as int, ev));
        }
        out.insert(pos, ev);
    }
    assert(all.take(all.len() as int) =~= all);
    out
}

/// The events of `s` are in time order.
pub open spec fn in_time_order(s: Seq<TraceEvent>) -> bool {
    forall|i: int, j: int| 0 <= i < j < s.len() ==> (#[trigger] s[i]).ts.at_or_before((#[trigger] s[j]).ts)
}

proof fn lemma_insert_by_ts(s: Seq<TraceEvent>, e: TraceEvent)
    requires
        in_time_order(s),
    ensures
        in_time_order(insert_by_ts(s, e)),
        insert_by_ts(s, e).to_multiset() == s.to_multiset().insert(e),
        insert_by_ts(s, e).len() == s.len() + 1,
    decreases s.len(),
{
    broadcast use vstd::seq_lib::group_to_multiset_ensures;
    if s.len() == 0 {
        assert(seq![e].to_multiset() =~= s.to_multiset().insert(e)) by {
            assert(seq![e] =~= s.push(e));
        }
    } else if s.last().ts.at_or_before(e.ts) {
    } else {
        let t = s.drop_last();
        assert(in_time_order(t));
        lemma_insert_by_ts(t, e);
        let u = insert_by_ts(t, e);
        assert(s =~= t.push(s.last()));
        assert forall|i: int, j: int| 0 <= i < j < u.push(s.last()).len() implies (#[trigger] u.push(
            s.last(),
        )[i]).ts.at_or_before((#[trigger] u.push(s.last())[j]).ts) by {
            if j == u.len() {
                lemma_insert_members(t, e, i);
            }
        }
    }
}

/// Every event of `insert_by_ts(s, e)` is `e` or an event of `s`.
proof fn lemma_insert_members(s: Seq<TraceEvent>, e: TraceEvent, i: int)
    requires
        0 <= i < insert_by_ts(s, e).len(),
    ensures
        insert_by_ts(s, e)[i] == e || exists|k: int| 0 <= k < s.len() && s[k] == insert_by_ts(s, e)[i],
    decreases s.len(),
{
    if s.len() > 0 && !s.last().ts.at_or_before(e.ts) {
        let u = insert_by_ts(s.drop_last(), e);
        if i < u.len() {
            lemma_insert_members(s.drop_last(), e, i);
            if insert_by_ts(s, e)[i] != e {
                let k = choose|k: int| 0 <= k < s.drop_last().len() && s.drop_last()[k] == u[i];
                assert(s[k] == insert_by_ts(s, e)[i]);
            }
        } else {
            assert(s[s.len() - 1] == insert_by_ts(s, e)[i]);
        }
    } else if s.len() > 0 && i < s.len() {
        assert(s[i] == insert_by_ts(s, e)[i]);
    }
}

/// Sorting by timestamp puts the events in time order and keeps exactly
/// the same events: the result is a permutation of the input.
pub proof fn lemma_sorted_by_ts(s: Seq<TraceEvent>)
    ensures
        in_time_order(sorted_by_ts(s)),
        sorted_by_ts(s).to_multiset() == s.to_multiset(),
    decreases s.len(),
{
    broadcast use vstd::seq_lib::group_to_multiset_ensures;
    if s.len() > 0 {
        lemma_sorted_by_ts(s.drop_last());
        lemma_insert_by_ts(sorted_by_ts(s.drop_last()), s.last());
        assert(s =~= s.drop_last().push(s.last()));
    }
}

/// Sorting by timestamp never lists a later instant before an earlier
/// one: in the result, an event whose timestamp is in an earlier second,
/// or in the same second with fewer nanoseconds, comes before every event
/// of a later instant. The result holds exactly the events given.
pub proof fn lemma_sort_follows_instants(s: Seq<TraceEvent>)
    ensures
        ({
            let r = sorted_by_ts(s);
            &&& r.to_multiset() == s.to_multiset()
            &&& forall|i: int, j: int|
                0 <= i < j < r.len() ==> !((#[trigger] r[j]).ts.secs < (#[trigger] r[i]).ts.secs || (r[j].ts.secs
                    == r[i].ts.secs && r[j].ts.nanos < r[i].ts.nanos))
        }),
{
    lemma_sorted_by_ts(s);
    let r = sorted_by_ts(s);
    assert forall|i: int, j: int| 0 <= i < j < r.len() implies !((#[trigger] r[j]).ts.secs < (
    #[trigger] r[i]).ts.secs || (r[j].ts.secs == r[i].ts.secs && r[j].ts.nanos < r[i].ts.nanos)) by {
        assert(r[i].ts.at_or_before(r[j].ts));
        crate::trace::lemma_timestamp_order(r[j].ts, r[i].ts, r[i].ts);
    }
}

} // verus!
