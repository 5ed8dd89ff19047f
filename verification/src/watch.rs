//! Decisions of the trace file watcher: how far the file has been read and
//! which of the lines read become events.
use vstd::prelude::*;
use crate::trace::{missing_field, views, EventView, TraceError, TraceEvent};

verus! {

/// How far a watched trace file has been read, in bytes.
#[derive(Clone, Copy, Debug, PartialEq, Eq, Structural)]
pub struct TailCursor {
    pub position: u64,
}

/// The mathematical value of an optional event.
pub open spec fn opt_event_view(o: Option<TraceEvent>) -> Option<EventView> {
    match o {
        Some(e) => Some(e@),
        None => None,
    }
}

impl TailCursor {
    /// Nothing read yet.
    pub fn new() -> (r: TailCursor)
        ensures
            r.position == 0,
    {
        TailCursor { position: 0 }
    }

    /// Whether a file of `file_size` bytes holds data past the cursor.
    pub fn has_new_data(&self, file_size: u64) -> (r: bool)
        ensures
            r == (file_size > self.position),
    {
        file_size > self.position
    }

    /// Accounts for a line of `line_len` bytes and its newline, read while
    /// loading the file that exists when watching starts; its event is
    /// emitted only when it parsed and passes validation.
    pub fn initial_line(&mut self, line_len: usize, parsed: Result<TraceEvent, TraceError>) -> (r: Option<TraceEvent>)
        requires
            old(self).position + line_len + 1 <= u64::MAX,
        ensures
            final(self).position == old(self).position + line_len + 1,
            opt_event_view(r) == match parsed {
                Ok(e) => if missing_field(e@) is None {
                    Some(e@)
                } else {
                    None
                },
                Err(_) => None,
            },
    {
        self.position = self.position + line_len as u64 + 1;
        match parsed {
            Ok(e) => match e.validate() {
                Ok(()) => Some(e),
                Err(_) => None,
            },
            Err(_) => None,
        }
    }

    /// Accounts for a line of `line_len` bytes and its newline, appended
    /// while watching; as for the lines read at the start, its event is
    /// emitted only when it parsed and passes validation.
    pub fn appended_line(&mut self, line_len: usize, parsed: Result<TraceEvent, TraceError>) -> (r: Option<TraceEvent>)
        requires
            old(self).position + line_len + 1 <= u64::MAX,
        ensures
            final(self).position == old(self).position + line_len + 1,
            opt_event_view(r) == match parsed {
                Ok(e) => if missing_field(e@) is None {
                    Some(e@)
                } else {
                    None
                },
                Err(_) => None,
            },
    {
        self.position = self.position + line_len as u64 + 1;
        match parsed {
            Ok(e) => match e.validate() {
                Ok(()) => Some(e),
                Err(_) => None,
            },
            Err(_) => None,
        }
    }
}

/// The events of the lines that parsed, in order.
pub open spec fn parsed_only(lines: Seq<Result<TraceEvent, TraceError>>) -> Seq<EventView>
    decreases lines.len(),
{
    if lines.len() == 0 {
        Seq::empty()
    } else {
        match lines.last() {
            Ok(e) => parsed_only(lines.drop_last()).push(e@),
            Err(_) => parsed_only(lines.drop_last()),
        }
    }
}

/// The events of a trace file read without validation: every line that
/// parsed, in order; lines that did not parse are skipped.
pub fn parsed_events(lines: Vec<Result<TraceEvent, TraceError>>) -> (r: Vec<TraceEvent>)
    ensures
        views(r@) == parsed_only(lines@),
{
    let ghost all = lines@;
    let mut out: Vec<TraceEvent> = Vec::new();
    assert(all.take(0) =~= Seq::<Result<TraceEvent, TraceError>>::empty());
    assert(views(out@) =~= Seq::<EventView>::empty());
    for line in it: lines
        invariant
            it.seq() == all,
            views(out@) == parsed_only(all.take(it.index() as int)),
    {
        assert(all.take(it.index() + 1).drop_last() =~= all.take(it.index() as int));
        assert(all.take(it.index() + 1).last() == line);
        match line {
            Ok(e) => {
                let ghost prev = out@;
                out.push(e);
                assert(views(out@) =~= views(prev).push(e@));
            },
            Err(_) => {},
        }
    }
    assert(all.take(all.len() as int) =~= all);
    out
}

} // verus!
