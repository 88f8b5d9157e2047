//! Raw change notices, client events, and the translation between them.

use vstd::prelude::*;
use crate::paths::{path_starts_with, simplified, simplified_of, starts_with};

verus! {

/// A low-level notice from the watching capability, before translation.
#[allow(inconsistent_fields)]
#[derive(Clone, Debug, PartialEq, Eq)]
pub enum RawEvent {
    NoticeWrite { path: String },
    NoticeRemove { path: String },
    Create { path: String },
    Write { path: String },
    Chmod { path: String },
    Remove { path: String },
    Rename { old_path: String, new_path: String },
    Rescan,
    Error { description: String, path: Option<String> },
}

/// A semantic change notification, as delivered to a client.
#[derive(Clone, Debug, PartialEq, Eq)]
pub enum Event {
    Modified { path: String },
    Created { path: String },
    Deleted { path: String },
    Renamed { path: String, old_path: String },
    Error { path: String, description: String },
}

/// The abstract value of an [`Event`].
pub enum EventView {
    Modified { path: Seq<char> },
    Created { path: Seq<char> },
    Deleted { path: Seq<char> },
    Renamed { path: Seq<char>, old_path: Seq<char> },
    Error { path: Seq<char>, description: Seq<char> },
}

impl View for Event {
    type V = EventView;

    open spec fn view(&self) -> EventView {
        match self {
            Event::Modified { path } => EventView::Modified { path: path@ },
            Event::Created { path } => EventView::Created { path: path@ },
            Event::Deleted { path } => EventView::Deleted { path: path@ },
            Event::Renamed { path, old_path } => EventView::Renamed {
                path: path@,
                old_path: old_path@,
            },
            Event::Error { path, description } => EventView::Error {
                path: path@,
                description: description@,
            },
        }
    }
}

/// The abstract values of a sequence of events.
pub open spec fn events_view(events: Seq<Event>) -> Seq<EventView> {
    events.map_values(|e: Event| e@)
}

/// Whether `path` lies in the subtree rooted at `root`.
pub open spec fn is_under(path: Seq<char>, root: Seq<char>) -> bool {
    path_starts_with(path, root)
}

/// The semantic events that one raw event yields for a watch on `root`.
pub open spec fn translate_event(root: Seq<char>, raw: RawEvent) -> Seq<EventView> {
    match raw {
        RawEvent::Create { path } => if is_under(path@, root) {
            seq![EventView::Created { path: simplified_of(path@) }]
        } else {
            seq![]
        },
        RawEvent::Write { path } => if is_under(path@, root) {
            seq![EventView::Modified { path: simplified_of(path@) }]
        } else {
            seq![]
        },
        RawEvent::Remove { path } => if is_under(path@, root) {
            seq![EventView::Deleted { path: simplified_of(path@) }]
        } else {
            seq![]
        },
        RawEvent::Rename { old_path, new_path } => {
            let old_in = is_under(old_path@, root);
            let new_in = is_under(new_path@, root);
            if old_in && new_in {
                seq![
                    EventView::Renamed {
                        path: simplified_of(new_path@),
                        old_path: simplified_of(old_path@),
                    },
                ]
            } else if old_in {
                seq![EventView::Deleted { path: simplified_of(old_path@) }]
            } else if new_in {
                seq![EventView::Created { path: simplified_of(new_path@) }]
            } else {
                seq![]
            }
        },
        RawEvent::Error { description, path } => match path {
            Some(p) => if is_under(p@, root) {
                seq![EventView::Error { path: simplified_of(p@), description: description@ }]
            } else {
                seq![]
            },
            None => seq![],
        },
        _ => seq![],
    }
}

/// The semantic events that a batch of raw events yields for a watch on
/// `root`, in the order of the batch.
pub open spec fn translate_batch(root: Seq<char>, raws: Seq<RawEvent>) -> Seq<EventView>
    decreases raws.len(),
{
    if raws.len() == 0 {
        seq![]
    } else {
        translate_batch(root, raws.drop_last()) + translate_event(root, raws.last())
    }
}

/// Whether a raw event only reports metadata (a pending notice, an attribute
/// change or a rescan marker).
pub open spec fn is_metadata_only(raw: RawEvent) -> bool {
    match raw {
        RawEvent::NoticeWrite { .. } | RawEvent::NoticeRemove { .. } | RawEvent::Chmod { .. }
        | RawEvent::Rescan => true,
        _ => false,
    }
}

impl Event {
    pub fn modified(path: &String) -> (r: Event)
        ensures
            r@ == (EventView::Modified { path: simplified_of(path@) }),
    {
        Event::Modified { path: simplified(path) }
    }

    pub fn created(path: &String) -> (r: Event)
        ensures
            r@ == (EventView::Created { path: simplified_of(path@) }),
    {
        Event::Created { path: simplified(path) }
    }

    pub fn deleted(path: &String) -> (r: Event)
        ensures
            r@ == (EventView::Deleted { path: simplified_of(path@) }),
    {
        Event::Deleted { path: simplified(path) }
    }

    pub fn renamed(old_path: &String, new_path: &String) -> (r: Event)
        ensures
            r@ == (EventView::Renamed {
                path: simplified_of(new_path@),
                old_path: simplified_of(old_path@),
            }),
    {
        Event::Renamed { path: simplified(new_path), old_path: simplified(old_path) }
    }

    pub fn error(path: &String, description: &String) -> (r: Event)
        ensures
            r@ == (EventView::Error { path: simplified_of(path@), description: description@ }),
    {
        Event::Error { path: simplified(path), description: description.clone() }
    }

    /// A copy of this event.
    pub fn duplicate(&self) -> (r: Event)
        ensures
            r@ == self@,
    {
        match self {
            Event::Modified { path } => Event::Modified { path: path.clone() },
            Event::Created { path } => Event::Created { path: path.clone() },
            Event::Deleted { path } => Event::Deleted { path: path.clone() },
            Event::Renamed { path, old_path } => Event::Renamed {
                path: path.clone(),
                old_path: old_path.clone(),
            },
            Event::Error { path, description } => Event::Error {
                path: path.clone(),
                description: description.clone(),
            },
        }
    }
}

/// Copies a sequence of events.
pub fn duplicate_events(events: &Vec<Event>) -> (r: Vec<Event>)
    ensures
        events_view(r@) == events_view(events@),
{
    let mut out: Vec<Event> = Vec::new();
    let mut i: usize = 0;
    while i < events.len()
        invariant
            i <= events.len(),
            events_view(out@) =~= events_view(events@.subrange(0, i as int)),
        decreases events.len() - i,
    {
        let e = events[i].duplicate();
        let ghost prev = out@;
        out.push(e);
        assert(events@.subrange(0, i + 1) =~= events@.subrange(0, i as int).push(events@[i as int]));
        assert(events_view(out@) =~= events_view(prev).push(events@[i as int]@));
        assert(events_view(events@.subrange(0, i + 1)) =~= events_view(
            events@.subrange(0, i as int),
        ).push(events@[i as int]@));
        i += 1;
    }
    assert(events@.subrange(0, events.len() as int) =~= events@);
    out
}

/// Appends to `out` the semantic events that `raw` yields for a watch on `root`.
pub fn translate_into(root: &String, raw: &RawEvent, out: &mut Vec<Event>)
    ensures
        events_view(final(out)@) == events_view(old(out)@) + translate_event(root@, *raw),
{
    let ghost before = events_view(out@);
    match raw {
        RawEvent::Create { path } => {
            if starts_with(path, root) {
                out.push(Event::created(path));
            }
        },
        RawEvent::Write { path } => {
            if starts_with(path, root) {
                out.push(Event::modified(path));
            }
        },
        RawEvent::Remove { path } => {
            if starts_with(path, root) {
                out.push(Event::deleted(path));
            }
        },
        RawEvent::Rename { old_path, new_path } => {
            let old_in = starts_with(old_path, root);
            let new_in = starts_with(new_path, root);
            if old_in && new_in {
                out.push(Event::renamed(old_path, new_path));
            } else if old_in {
                out.push(Event::deleted(old_path));
            } else if new_in {
                out.push(Event::created(new_path));
            }
        },
        RawEvent::Error { description, path } => {
            if let Some(p) = path {
                if starts_with(p, root) {
                    out.push(Event::error(p, description));
                }
            }
        },
        RawEvent::NoticeWrite { .. } => {},
        RawEvent::NoticeRemove { .. } => {},
        RawEvent::Chmod { .. } => {},
        RawEvent::Rescan => {},
    }
    assert(events_view(out@) =~= before + translate_event(root@, *raw));
}

/// The semantic events that a batch of raw events yields for a watch on
/// `root`, in the order of the batch.
pub fn translate(root: &String, raws: &Vec<RawEvent>) -> (r: Vec<Event>)
    ensures
        events_view(r@) == translate_batch(root@, raws@),
{
    let mut out: Vec<Event> = Vec::new();
    let mut i: usize = 0;
    while i < raws.len()
        invariant
            i <= raws.len(),
            events_view(out@) == translate_batch(root@, raws@.subrange(0, i as int)),
        decreases raws.len() - i,
    {
        assert(raws@.subrange(0, i + 1).drop_last() =~= raws@.subrange(0, i as int));
        translate_into(root, &raws[i], &mut out);
        i += 1;
    }
    assert(raws@.subrange(0, raws.len() as int) =~= raws@);
    out
}

} // verus!
