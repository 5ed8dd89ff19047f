//! Span trees: the hierarchy that parent ids give the events of a trace.
use vstd::prelude::*;
use vstd::set_lib::*;
use crate::trace::{opt_str_view, EventView, Trace, TraceEvent};

verus! {

/// A node in the span tree.
#[derive(Debug)]
pub struct SpanNode {
    pub event: TraceEvent,
    pub children: Vec<SpanNode>,
}

/// Event `i` is the last one recorded for its span id: a later event of a
/// span (such as its completion) supersedes an earlier one.
pub open spec fn is_final_event(s: Seq<TraceEvent>, i: int) -> bool {
    &&& 0 <= i < s.len()
    &&& forall|j: int| i < j < s.len() ==> s[j].span_id@ != s[i].span_id@
}

/// Event `i` is the first one recorded for its span id: it fixes where the
/// span stands among its siblings.
pub open spec fn is_first_event(s: Seq<TraceEvent>, i: int) -> bool {
    &&& 0 <= i < s.len()
    &&& forall|j: int| 0 <= j < i ==> s[j].span_id@ != s[i].span_id@
}

/// The position of the last event among the first `m` whose span id is
/// `sp`, if there is one.
pub open spec fn last_with_span(s: Seq<TraceEvent>, sp: Seq<char>, m: int) -> Option<int>
    decreases m,
{
    if m <= 0 {
        None
    } else if s[m - 1].span_id@ == sp {
        Some(m - 1)
    } else {
        last_with_span(s, sp, m - 1)
    }
}

/// The position of the last event of the span of event `j`.
pub open spec fn final_of(s: Seq<TraceEvent>, j: int) -> int {
    match last_with_span(s, s[j].span_id@, s.len() as int) {
        Some(k) => k,
        None => j,
    }
}

/// The spans first recorded among the first `m` events whose last event
/// has parent id `parent`, in the order of their first events; each is
/// represented by its last event.
pub open spec fn children_upto(s: Seq<TraceEvent>, parent: Option<Seq<char>>, m: int) -> Seq<
    EventView,
>
    decreases m,
{
    if m <= 0 {
        Seq::empty()
    } else {
        let prev = children_upto(s, parent, m - 1);
        if is_first_event(s, m - 1) && opt_str_view(s[final_of(s, m - 1)].parent_id) == parent {
            prev.push(s[final_of(s, m - 1)]@)
        } else {
            prev
        }
    }
}

/// The spans whose parent id is `parent`, in the order of their first
/// events, each represented by its last event; with `parent` `None`, the
/// root spans.
pub open spec fn children_of(s: Seq<TraceEvent>, parent: Option<Seq<char>>) -> Seq<EventView> {
    children_upto(s, parent, s.len() as int)
}

/// `node` and each node below it have as children exactly the spans whose
/// parent is that node's span, as [`children_of`] lists them.
pub open spec fn well_built(node: SpanNode, s: Seq<TraceEvent>) -> bool
    decreases node,
{
    let kids = children_of(s, Some(node.event.span_id@));
    &&& node.children@.len() == kids.len()
    &&& forall|k: int|
        0 <= k < kids.len() ==> (#[trigger] node.children@[k]).event@ == kids[k] && well_built(
            node.children@[k],
            s,
        )
}

proof fn lemma_last_with_span(s: Seq<TraceEvent>, sp: Seq<char>, m: int)
    requires
        0 <= m <= s.len(),
    ensures
        match last_with_span(s, sp, m) {
            Some(k) => 0 <= k < m && s[k].span_id@ == sp && forall|l: int| k < l < m ==> s[l].span_id@ != sp,
            None => forall|l: int| 0 <= l < m ==> s[l].span_id@ != sp,
        },
    decreases m,
{
    if m > 0 {
        lemma_last_with_span(s, sp, m - 1);
    }
}

/// The last event of a span is final, has the span's id and comes no
/// earlier than any event of the span.
proof fn lemma_final_of(s: Seq<TraceEvent>, j: int)
    requires
        0 <= j < s.len(),
    ensures
        is_final_event(s, final_of(s, j)),
        s[final_of(s, j)].span_id@ == s[j].span_id@,
        j <= final_of(s, j),
{
    lemma_last_with_span(s, s[j].span_id@, s.len() as int);
}

/// A final event is its span's last event.
proof fn lemma_final_of_final(s: Seq<TraceEvent>, j: int)
    requires
        is_final_event(s, j),
    ensures
        final_of(s, j) == j,
{
    lemma_final_of(s, j);
    lemma_final_unique(s, final_of(s, j), j);
}

/// Every span has a first event.
proof fn lemma_first_exists(s: Seq<TraceEvent>, j: int)
    requires
        0 <= j < s.len(),
    ensures
        exists|f: int| 0 <= f <= j && is_first_event(s, f) && #[trigger] s[f].span_id@ == s[j].span_id@,
    decreases j,
{
    if !is_first_event(s, j) {
        let l = choose|l: int| 0 <= l < j && s[l].span_id@ == s[j].span_id@;
        lemma_first_exists(s, l);
        let f = choose|f: int| 0 <= f <= l && is_first_event(s, f) && #[trigger] s[f].span_id@ == s[l].span_id@;
        assert(s[f].span_id@ == s[j].span_id@);
    } else {
        assert(s[j].span_id@ == s[j].span_id@);
    }
}

/// `q` is a path of distinct final events down from a root span, each the
/// child of the one before.
spec fn chain_ok(s: Seq<TraceEvent>, q: Seq<int>) -> bool {
    &&& q.len() > 0
    &&& q.no_duplicates()
    &&& forall|k: int| 0 <= k < q.len() ==> #[trigger] is_final_event(s, q[k])
    &&& opt_str_view(s[q[0]].parent_id) is None
    &&& forall|k: int|
        1 <= k < q.len() ==> opt_str_view(s[#[trigger] q[k]].parent_id) == Some(s[q[k - 1]].span_id@)
}

/// Two final events of the same span are the same event.
proof fn lemma_final_unique(s: Seq<TraceEvent>, a: int, b: int)
    requires
        is_final_event(s, a),
        is_final_event(s, b),
        s[a].span_id@ == s[b].span_id@,
    ensures
        a == b,
{
    if a < b {
        assert(s[b].span_id@ != s[a].span_id@);
    } else if b < a {
        assert(s[a].span_id@ != s[b].span_id@);
    }
}

/// A sequence of distinct indices below `n` has at most `n` elements.
proof fn lemma_distinct_bounded(q: Seq<int>, n: int)
    requires
        0 <= n,
        q.no_duplicates(),
        forall|k: int| 0 <= k < q.len() ==> 0 <= #[trigger] q[k] < n,
    ensures
        q.len() <= n,
{
    q.unique_seq_to_set();
    lemma_int_range(0, n);
    assert(q.to_set().subset_of(set_int_range(0, n)));
    lemma_len_subset(q.to_set(), set_int_range(0, n));
}

/// A child of the last event of a path extends the path: it cannot be on
/// the path already, so the path stays free of repetitions and never
/// grows longer than the number of events.
proof fn lemma_child_extends(s: Seq<TraceEvent>, q: Seq<int>, c: int)
    requires
        chain_ok(s, q),
        is_final_event(s, c),
        opt_str_view(s[c].parent_id) == Some(s[q.last()].span_id@),
    ensures
        chain_ok(s, q.push(c)),
        q.len() + 1 <= s.len(),
{
    let q2 = q.push(c);
    assert forall|k: int| 0 <= k < q.len() implies q[k] != c by {
        if q[k] == c {
            if k == 0 {
                assert(opt_str_view(s[q[0]].parent_id) is None);
            } else {
                assert(opt_str_view(s[q[k]].parent_id) == Some(s[q[k - 1]].span_id@));
                assert(is_final_event(s, q[k - 1]));
                assert(is_final_event(s, q[q.len() - 1]));
                lemma_final_unique(s, q[k - 1], q[q.len() - 1]);
                assert(q[k - 1] == q[q.len() - 1]);
            }
        }
    }
    assert(q2.no_duplicates());
    assert forall|k: int| 0 <= k < q2.len() implies #[trigger] is_final_event(s, q2[k]) by {
        if k < q.len() {
            assert(q2[k] == q[k]);
        }
    }
    assert forall|k: int| 1 <= k < q2.len() implies opt_str_view(s[#[trigger] q2[k]].parent_id)
        == Some(s[q2[k - 1]].span_id@) by {
        if k < q.len() {
            assert(q2[k] == q[k]);
            assert(q2[k - 1] == q[k - 1]);
        } else {
            assert(q2[k - 1] == q.last());
        }
    }
    assert(q2[0] == q[0]);
    assert(chain_ok(s, q2));
    assert forall|k: int| 0 <= k < q2.len() implies 0 <= #[trigger] q2[k] < s.len() by {
        assert(is_final_event(s, q2[k]));
    }
    lemma_distinct_bounded(q2, s.len() as int);
}

/// For each event, whether it is the first one recorded for its span, and
/// the position of its span's last event.
fn span_positions(events: &Vec<TraceEvent>) -> (r: (Vec<bool>, Vec<usize>))
    ensures
        r.0@.len() == events@.len(),
        r.1@.len() == events@.len(),
        forall|i: int| 0 <= i < r.0@.len() ==> r.0@[i] == is_first_event(events@, i),
        forall|i: int| 0 <= i < r.1@.len() ==> r.1@[i] == final_of(events@, i),
{
    let n = events.len();
    let mut firsts: Vec<bool> = Vec::new();
    let mut lasts: Vec<usize> = Vec::new();
    let mut i: usize = 0;
    while i < n
        invariant
            n == events@.len(),
            i <= n,
            firsts@.len() == i,
            lasts@.len() == i,
            forall|k: int| 0 <= k < i ==> firsts@[k] == is_first_event(events@, k),
            forall|k: int| 0 <= k < i ==> lasts@[k] == final_of(events@, k),
        decreases n - i,
    {
        let ghost sp = events@[i as int].span_id@;
        let mut first = true;
        let mut j: usize = 0;
        while j < i
            invariant
                n == events@.len(),
                i < n,
                j <= i,
                sp == events@[i as int].span_id@,
                first == (forall|m: int| 0 <= m < j ==> events@[m].span_id@ != sp),
            decreases i - j,
        {
            if events[j].span_id == events[i].span_id {
                first = false;
            }
            j = j + 1;
        }
        let mut last: usize = i;
        let mut k: usize = i + 1;
        while k < n
            invariant
                n == events@.len(),
                i < n,
                i + 1 <= k <= n,
                sp == events@[i as int].span_id@,
                last_with_span(events@, sp, k as int) == Some(last as int),
            decreases n - k,
        {
            if events[k].span_id == events[i].span_id {
                last = k;
            }
            k = k + 1;
        }
        firsts.push(first);
        lasts.push(last);
        i = i + 1;
    }
    (firsts, lasts)
}

/// The subtree of final event `i`, reached along the path `path`.
fn build_node(
    events: &Vec<TraceEvent>,
    firsts: &Vec<bool>,
    lasts: &Vec<usize>,
    i: usize,
    fuel: usize,
    Ghost(path): Ghost<Seq<int>>,
) -> (r: SpanNode)
    requires
        firsts@.len() == events@.len(),
        lasts@.len() == events@.len(),
        forall|k: int| 0 <= k < firsts@.len() ==> firsts@[k] == is_first_event(events@, k),
        forall|k: int| 0 <= k < lasts@.len() ==> lasts@[k] == final_of(events@, k),
        chain_ok(events@, path.push(i as int)),
        path.len() + fuel == events@.len(),
        i < events@.len(),
    ensures
        r.event@ == events@[i as int]@,
        well_built(r, events@),
    decreases fuel,
{
    let n = events.len();
    let ghost q = path.push(i as int);
    let ghost span = events@[i as int].span_id@;
    assert(q.last() == i as int);
    let mut children: Vec<SpanNode> = Vec::new();
    let mut j: usize = 0;
    while j < n
        invariant
            n == events@.len(),
            j <= n,
            firsts@.len() == events@.len(),
            lasts@.len() == events@.len(),
            forall|k: int| 0 <= k < firsts@.len() ==> firsts@[k] == is_first_event(events@, k),
            forall|k: int| 0 <= k < lasts@.len() ==> lasts@[k] == final_of(events@, k),
            chain_ok(events@, q),
            q.last() == i as int,
            q == path.push(i as int),
            path.len() + fuel == n,
            i < n,
            span == events@[i as int].span_id@,
            children@.len() == children_upto(events@, Some(span), j as int).len(),
            forall|k: int|
                0 <= k < children@.len() ==> (#[trigger] children@[k]).event@ == children_upto(
                    events@,
                    Some(span),
                    j as int,
                )[k] && well_built(children@[k], events@),
        decreases n - j,
    {
        proof {
            lemma_final_of(events@, j as int);
        }
        let c = lasts[j];
        let is_child = match &events[c].parent_id {
            Some(p) => firsts[j] && *p == events[i].span_id,
            None => false,
        };
        assert(is_child == (is_first_event(events@, j as int) && opt_str_view(
            events@[final_of(events@, j as int)].parent_id,
        ) == Some(span)));
        if is_child {
            proof {
                lemma_child_extends(events@, q, c as int);
            }
            let child = build_node(events, firsts, lasts, c, fuel - 1, Ghost(q));
            let ghost prev = children@;
            children.push(child);
            assert forall|k: int| 0 <= k < children@.len() implies (#[trigger] children@[k]).event@
                == children_upto(events@, Some(span), j + 1)[k] && well_built(children@[k], events@) by {
                if k < prev.len() {
                    assert(children@[k] == prev[k]);
                }
            }
        }
        j = j + 1;
    }
    let r = SpanNode { event: events[i].duplicate(), children };
    assert(r.children@ == children@);
    r
}

/// The spans listed among the first `m` with parent `parent` include the
/// span of every first event there whose last event has that parent.
proof fn lemma_children_upto_members(s: Seq<TraceEvent>, parent: Option<Seq<char>>, m: int, f: int)
    requires
        0 <= f < m <= s.len(),
        is_first_event(s, f),
        opt_str_view(s[final_of(s, f)].parent_id) == parent,
    ensures
        children_upto(s, parent, m).contains(s[final_of(s, f)]@),
    decreases m,
{
    if f < m - 1 {
        lemma_children_upto_members(s, parent, m - 1, f);
        let prev = children_upto(s, parent, m - 1);
        let k = choose|k: int| 0 <= k < prev.len() && prev[k] == s[final_of(s, f)]@;
        assert(children_upto(s, parent, m)[k] == s[final_of(s, f)]@);
    } else {
        assert(children_upto(s, parent, m).last() == s[final_of(s, f)]@);
    }
}

/// No span is lost from the tree: the last event of each span without a
/// parent is a root, and the last event of each span whose parent is the
/// span of the last event `i` of its span is a child of `i`.
pub proof fn lemma_span_tree_complete(s: Seq<TraceEvent>, i: int, j: int)
    requires
        is_final_event(s, j),
    ensures
        opt_str_view(s[j].parent_id) is None ==> children_of(s, None).contains(s[j]@),
        is_final_event(s, i) && opt_str_view(s[j].parent_id) == Some(s[i].span_id@) ==> children_of(
            s,
            Some(s[i].span_id@),
        ).contains(s[j]@),
{
    lemma_first_exists(s, j);
    let f = choose|f: int| 0 <= f <= j && is_first_event(s, f) && #[trigger] s[f].span_id@ == s[j].span_id@;
    lemma_final_of(s, f);
    lemma_final_unique(s, final_of(s, f), j);
    lemma_children_upto_members(s, opt_str_view(s[j].parent_id), s.len() as int, f);
}

/// Each listed child is the last event of a span whose first event is among
/// the first `m`, and its last event has the parent listed for.
proof fn lemma_children_upto_from_first(s: Seq<TraceEvent>, parent: Option<Seq<char>>, m: int, k: int)
    requires
        0 <= m <= s.len(),
        0 <= k < children_upto(s, parent, m).len(),
    ensures
        exists|f: int|
            0 <= f < m && is_first_event(s, f) && opt_str_view(s[final_of(s, f)].parent_id) == parent
                && #[trigger] s[final_of(s, f)]@ == children_upto(s, parent, m)[k],
    decreases m,
{
    if m > 0 {
        let prev = children_upto(s, parent, m - 1);
        if k < prev.len() {
            lemma_children_upto_from_first(s, parent, m - 1, k);
            let f = choose|f: int|
                0 <= f < m - 1 && is_first_event(s, f) && opt_str_view(s[final_of(s, f)].parent_id) == parent
                    && #[trigger] s[final_of(s, f)]@ == prev[k];
            assert(s[final_of(s, f)]@ == children_upto(s, parent, m)[k]);
        } else {
            assert(s[final_of(s, m - 1)]@ == children_upto(s, parent, m)[k]);
        }
    }
}

proof fn lemma_children_upto_distinct(s: Seq<TraceEvent>, parent: Option<Seq<char>>, m: int)
    requires
        0 <= m <= s.len(),
    ensures
        forall|a: int, b: int|
            0 <= a < b < children_upto(s, parent, m).len() ==> (#[trigger] children_upto(s, parent, m)[a]).span_id
                != (#[trigger] children_upto(s, parent, m)[b]).span_id,
    decreases m,
{
    if m > 0 {
        lemma_children_upto_distinct(s, parent, m - 1);
        let prev = children_upto(s, parent, m - 1);
        let cur = children_upto(s, parent, m);
        assert forall|a: int, b: int| 0 <= a < b < cur.len() implies (#[trigger] cur[a]).span_id
            != (#[trigger] cur[b]).span_id by {
            if b < prev.len() {
                assert(cur[a] == prev[a] && cur[b] == prev[b]);
            } else {
                assert(cur[a] == prev[a]);
                lemma_children_upto_from_first(s, parent, m - 1, a);
                let f = choose|f: int|
                    0 <= f < m - 1 && is_first_event(s, f) && opt_str_view(s[final_of(s, f)].parent_id)
                        == parent && #[trigger] s[final_of(s, f)]@ == prev[a];
                lemma_final_of(s, f);
                lemma_final_of(s, m - 1);
                assert(cur[b] == s[final_of(s, m - 1)]@);
                assert(s[f].span_id@ != s[m - 1].span_id@);
            }
        }
    }
}

/// No span is listed twice among the roots or among the children of a
/// span: the listed events have distinct span ids.
pub proof fn lemma_span_tree_no_repeats(s: Seq<TraceEvent>, parent: Option<Seq<char>>)
    ensures
        forall|a: int, b: int|
            0 <= a < b < children_of(s, parent).len() ==> (#[trigger] children_of(s, parent)[a]).span_id
                != (#[trigger] children_of(s, parent)[b]).span_id,
{
    lemma_children_upto_distinct(s, parent, s.len() as int);
}

/// The events of `s` have distinct span ids.
pub open spec fn distinct_spans(s: Seq<TraceEvent>) -> bool {
    forall|a: int, b: int| 0 <= a < b < s.len() ==> (#[trigger] s[a]).span_id@ != (#[trigger] s[b]).span_id@
}

/// With one event per span, the events listed under `parent` are exactly
/// the events whose parent id is `parent`.
proof fn lemma_children_when_distinct(s: Seq<TraceEvent>, parent: Option<Seq<char>>, v: EventView)
    requires
        distinct_spans(s),
    ensures
        children_of(s, parent).contains(v) <==> (crate::trace::views(s).contains(v) && v.parent_id == parent),
{
    if children_of(s, parent).contains(v) {
        let k = choose|k: int| 0 <= k < children_of(s, parent).len() && children_of(s, parent)[k] == v;
        lemma_children_upto_from_first(s, parent, s.len() as int, k);
        let f = choose|f: int|
            0 <= f < s.len() && is_first_event(s, f) && opt_str_view(s[final_of(s, f)].parent_id) == parent
                && #[trigger] s[final_of(s, f)]@ == children_of(s, parent)[k];
        lemma_final_of(s, f);
        assert(crate::trace::views(s)[final_of(s, f)] == v);
    }
    if crate::trace::views(s).contains(v) && v.parent_id == parent {
        let j = choose|j: int| 0 <= j < crate::trace::views(s).len() && crate::trace::views(s)[j] == v;
        assert(s[j]@ == v);
        assert(is_final_event(s, j)) by {
            assert forall|l: int| j < l < s.len() implies s[l].span_id@ != s[j].span_id@ by {
                assert(s[j].span_id@ != s[l].span_id@);
            }
        }
        assert(is_first_event(s, j)) by {
            assert forall|l: int| 0 <= l < j implies s[l].span_id@ != s[j].span_id@ by {
                assert(s[l].span_id@ != s[j].span_id@);
            }
        }
        lemma_final_of_final(s, j);
        lemma_children_upto_members(s, parent, s.len() as int, j);
    }
}

/// Reordering events whose span ids are distinct keeps them distinct.
proof fn lemma_distinct_spans_reordered(s: Seq<TraceEvent>, s2: Seq<TraceEvent>)
    requires
        distinct_spans(s),
        crate::trace::views(s).to_multiset() == crate::trace::views(s2).to_multiset(),
    ensures
        distinct_spans(s2),
{
    broadcast use vstd::seq_lib::group_to_multiset_ensures;
    let v1 = crate::trace::views(s);
    let v2 = crate::trace::views(s2);
    assert(v1.no_duplicates()) by {
        assert forall|i: int, j: int| 0 <= i < v1.len() && 0 <= j < v1.len() && i != j implies v1[i] != v1[j] by {
            if i < j {
                assert(s[i].span_id@ != s[j].span_id@);
            } else {
                assert(s[j].span_id@ != s[i].span_id@);
            }
        }
    }
    v1.lemma_multiset_has_no_duplicates();
    v2.lemma_multiset_has_no_duplicates_conv();
    assert forall|a: int, b: int| 0 <= a < b < s2.len() implies (#[trigger] s2[a]).span_id@ != (#[trigger] s2[b]).span_id@ by {
        assert(v2[a] != v2[b]);
        assert(v2.contains(v2[a]));
        assert(v2.contains(v2[b]));
        assert(v2.to_multiset().count(v2[a]) > 0);
        assert(v2.to_multiset().count(v2[b]) > 0);
        assert(v1.to_multiset().count(v2[a]) > 0);
        assert(v1.to_multiset().count(v2[b]) > 0);
        assert(v1.contains(v2[a]));
        assert(v1.contains(v2[b]));
        let i = choose|i: int| 0 <= i < v1.len() && v1[i] == v2[a];
        let j = choose|j: int| 0 <= j < v1.len() && v1[j] == v2[b];
        assert(i != j);
        if i < j {
            assert(s[i].span_id@ != s[j].span_id@);
        } else {
            assert(s[j].span_id@ != s[i].span_id@);
        }
    }
}

/// The tree does not depend on the order in which the events come, when
/// each span has one event: for any reordering of the same events, the
/// roots and the children of every span are the same events (in another
/// order).
pub proof fn lemma_span_tree_order_free(s: Seq<TraceEvent>, s2: Seq<TraceEvent>, parent: Option<Seq<char>>, v: EventView)
    requires
        distinct_spans(s),
        crate::trace::views(s).to_multiset() == crate::trace::views(s2).to_multiset(),
    ensures
        children_of(s, parent).contains(v) <==> children_of(s2, parent).contains(v),
{
    broadcast use vstd::seq_lib::group_to_multiset_ensures;
    lemma_distinct_spans_reordered(s, s2);
    lemma_children_when_distinct(s, parent, v);
    lemma_children_when_distinct(s2, parent, v);
    assert(crate::trace::views(s).contains(v) <==> crate::trace::views(s).to_multiset().count(v) > 0);
    assert(crate::trace::views(s2).contains(v) <==> crate::trace::views(s2).to_multiset().count(v) > 0);
}

impl Trace {
    /// Build the span tree of the trace. Each span is represented by the
    /// last event recorded for its span id (its completion supersedes its
    /// start), and stands where its first event stands; the roots are the
    /// spans without a parent, and the children of a span are the spans
    /// whose parent id is its span id, each list in the order of first
    /// events. Spans whose parent is not in the trace are left out.
    pub fn build_span_tree(&self) -> (r: Vec<SpanNode>)
        ensures
            r@.len() == children_of(self.events@, None).len(),
            forall|k: int|
                0 <= k < r@.len() ==> (#[trigger] r@[k]).event@ == children_of(self.events@, None)[k]
                    && well_built(r@[k], self.events@),
    {
        let events = &self.events;
        let n = events.len();
        let (firsts, lasts) = span_positions(events);
        let mut roots: Vec<SpanNode> = Vec::new();
        let mut j: usize = 0;
        while j < n
            invariant
                n == events@.len(),
                events == &self.events,
                j <= n,
                firsts@.len() == events@.len(),
                lasts@.len() == events@.len(),
                forall|k: int| 0 <= k < firsts@.len() ==> firsts@[k] == is_first_event(events@, k),
                forall|k: int| 0 <= k < lasts@.len() ==> lasts@[k] == final_of(events@, k),
                roots@.len() == children_upto(events@, None, j as int).len(),
                forall|k: int|
                    0 <= k < roots@.len() ==> (#[trigger] roots@[k]).event@ == children_upto(
                        events@,
                        None,
                        j as int,
                    )[k] && well_built(roots@[k], events@),
            decreases n - j,
        {
            proof {
                lemma_final_of(events@, j as int);
            }
            let c = lasts[j];
            if firsts[j] && events[c].parent_id.is_none() {
                let ghost q = Seq::<int>::empty().push(c as int);
                assert(chain_ok(events@, q)) by {
                    assert(q[0] == c as int);
                }
                assert(Seq::<int>::empty().push(c as int) == q);
                let node = build_node(events, &firsts, &lasts, c, n, Ghost(Seq::empty()));
                let ghost prev = roots@;
                roots.push(node);
                assert forall|k: int| 0 <= k < roots@.len() implies (#[trigger] roots@[k]).event@
                    == children_upto(events@, None, j + 1)[k] && well_built(roots@[k], events@) by {
                    if k < prev.len() {
                        assert(roots@[k] == prev[k]);
                    }
                }
            }
            j = j + 1;
        }
        roots
    }
}

} // verus!
