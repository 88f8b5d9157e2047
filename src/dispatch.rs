//! Fan-out of a batch of raw events to the clients of each watched root.

use vstd::prelude::*;
use crate::event::{duplicate_events, events_view, translate, translate_batch, Event, EventView, RawEvent};
use crate::registry::{entries_view, EntryView, WatchEntry};
use crate::supervisor::{Outgoing, OutgoingView};

verus! {

/// The abstract values of a sequence of messages.
pub open spec fn outgoing_view(messages: Seq<Outgoing>) -> Seq<OutgoingView> {
    messages.map_values(|m: Outgoing| m@)
}

/// One message per identifier of the entry, each carrying the whole batch.
pub open spec fn fan_out(ids: Seq<usize>, batch: Seq<EventView>) -> Seq<OutgoingView> {
    ids.map_values(|id: usize| OutgoingView::WatchEvents { watch_id: id, events: batch })
}

/// The messages that a batch of raw events yields for one entry: nothing
/// when no event concerns its root.
pub open spec fn entry_messages(entry: EntryView, raws: Seq<RawEvent>) -> Seq<OutgoingView> {
    let batch = translate_batch(entry.root, raws);
    if batch.len() == 0 {
        seq![]
    } else {
        fan_out(entry.ids, batch)
    }
}

/// The messages that a batch of raw events yields for the entries, entry by entry.
pub open spec fn registry_messages(entries: Seq<EntryView>, raws: Seq<RawEvent>) -> Seq<OutgoingView>
    decreases entries.len(),
{
    if entries.len() == 0 {
        seq![]
    } else {
        registry_messages(entries.drop_last(), raws) + entry_messages(entries.last(), raws)
    }
}

/// The process-wide message for a raw error that names no path.
pub open spec fn unscoped_error(raw: RawEvent) -> Seq<OutgoingView> {
    match raw {
        RawEvent::Error { description, path: None } => seq![
            OutgoingView::WatcherError { description: description@ },
        ],
        _ => seq![],
    }
}

/// The process-wide messages of a batch of raw events, in order.
pub open spec fn unscoped_errors(raws: Seq<RawEvent>) -> Seq<OutgoingView>
    decreases raws.len(),
{
    if raws.len() == 0 {
        seq![]
    } else {
        unscoped_errors(raws.drop_last()) + unscoped_error(raws.last())
    }
}

/// Everything that one batch of raw events yields: the entries' messages,
/// then the process-wide errors.
pub open spec fn dispatch_messages(entries: Seq<EntryView>, raws: Seq<RawEvent>) -> Seq<OutgoingView> {
    registry_messages(entries, raws) + unscoped_errors(raws)
}

/// Appends to `out` one message per identifier of `ids`, each with a copy of `batch`.
fn push_fan_out(ids: &Vec<usize>, batch: &Vec<Event>, out: &mut Vec<Outgoing>)
    ensures
        outgoing_view(final(out)@) == outgoing_view(old(out)@) + fan_out(ids@, events_view(batch@)),
{
    let ghost start = outgoing_view(out@);
    let ghost ev = events_view(batch@);
    let mut k: usize = 0;
    while k < ids.len()
        invariant
            k <= ids.len(),
            ev == events_view(batch@),
            outgoing_view(out@) == start + fan_out(ids@.subrange(0, k as int), ev),
        decreases ids.len() - k,
    {
        let ghost prev = out@;
        let events = duplicate_events(batch);
        out.push(Outgoing::WatchEvents { watch_id: ids[k], events });
        assert(outgoing_view(out@) =~= outgoing_view(prev).push(
            OutgoingView::WatchEvents { watch_id: ids@[k as int], events: ev },
        ));
        assert(fan_out(ids@.subrange(0, k + 1), ev) =~= fan_out(ids@.subrange(0, k as int), ev).push(
            OutgoingView::WatchEvents { watch_id: ids@[k as int], events: ev },
        ));
        k += 1;
    }
    assert(ids@.subrange(0, ids.len() as int) =~= ids@);
}

impl WatchEntry {
    /// Appends to `out` the messages that a batch of raw events yields for
    /// this entry: when some event concerns its root, one message per
    /// identifier, each with every such event in the order of the batch.
    pub fn notify(&self, raws: &Vec<RawEvent>, out: &mut Vec<Outgoing>)
        ensures
            outgoing_view(final(out)@) == outgoing_view(old(out)@) + entry_messages(self@, raws@),
    {
        let batch = translate(&self.root, raws);
        if batch.len() > 0 {
            push_fan_out(&self.ids, &batch, out);
        } else {
            assert(outgoing_view(out@) =~= outgoing_view(out@) + entry_messages(self@, raws@));
        }
    }
}

/// The messages that a batch of raw events yields for the entries of a
/// registry, followed by the process-wide errors of the batch.
pub fn dispatch(entries: &Vec<WatchEntry>, raws: &Vec<RawEvent>) -> (r: Vec<Outgoing>)
    ensures
        outgoing_view(r@) == dispatch_messages(entries_view(entries@), raws@),
{
    let ghost ev = entries_view(entries@);
    let mut out: Vec<Outgoing> = Vec::new();
    let mut i: usize = 0;
    while i < entries.len()
        invariant
            i <= entries.len(),
            ev == entries_view(entries@),
            outgoing_view(out@) == registry_messages(ev.subrange(0, i as int), raws@),
        decreases entries.len() - i,
    {
        assert(ev.subrange(0, i + 1).drop_last() =~= ev.subrange(0, i as int));
        entries[i].notify(raws, &mut out);
        i += 1;
    }
    assert(ev.subrange(0, entries.len() as int) =~= ev);
    let ghost from_entries = outgoing_view(out@);
    let mut j: usize = 0;
    while j < raws.len()
        invariant
            j <= raws.len(),
            outgoing_view(out@) == from_entries + unscoped_errors(raws@.subrange(0, j as int)),
        decreases raws.len() - j,
    {
        assert(raws@.subrange(0, j + 1).drop_last() =~= raws@.subrange(0, j as int));
        let ghost prev = out@;
        match &raws[j] {
            RawEvent::Error { description, path: None } => {
                out.push(Outgoing::WatcherError { description: description.clone() });
            },
            _ => {},
        }
        assert(outgoing_view(out@) =~= outgoing_view(prev) + unscoped_error(raws@[j as int]));
        j += 1;
    }
    assert(raws@.subrange(0, raws.len() as int) =~= raws@);
    out
}

} // verus!
