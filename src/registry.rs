//! The registry of shared watches and the searches over it.

use vstd::prelude::*;

verus! {

/// One underlying recursive watch, shared by the client watch identifiers
/// that asked for the same canonical root.
pub struct WatchEntry {
    pub root: String,
    pub ids: Vec<usize>,
}

/// The abstract value of a [`WatchEntry`].
pub struct EntryView {
    pub root: Seq<char>,
    pub ids: Seq<usize>,
}

impl View for WatchEntry {
    type V = EntryView;

    open spec fn view(&self) -> EntryView {
        EntryView { root: self.root@, ids: self.ids@ }
    }
}

/// The abstract values of a sequence of entries.
pub open spec fn entries_view(entries: Seq<WatchEntry>) -> Seq<EntryView> {
    entries.map_values(|e: WatchEntry| e@)
}

/// Every entry has an identifier, and no two entries share a root.
pub open spec fn registry_wf(entries: Seq<EntryView>) -> bool {
    &&& forall|i: int| 0 <= i < entries.len() ==> #[trigger] entries[i].ids.len() > 0
    &&& forall|i: int, j: int|
        0 <= i < j < entries.len() ==> #[trigger] entries[i].root != #[trigger] entries[j].root
}

/// `i` is the index of the entry for `root`.
pub open spec fn root_at(entries: Seq<EntryView>, root: Seq<char>, i: int) -> bool {
    &&& 0 <= i < entries.len()
    &&& entries[i].root == root
    &&& forall|k: int| 0 <= k < i ==> #[trigger] entries[k].root != root
}

/// Whether some entry has `root`.
pub open spec fn has_root(entries: Seq<EntryView>, root: Seq<char>) -> bool {
    exists|i: int| 0 <= i < entries.len() && #[trigger] entries[i].root == root
}

/// `i` is the first entry that holds `id`.
pub open spec fn id_entry_at(entries: Seq<EntryView>, id: usize, i: int) -> bool {
    &&& 0 <= i < entries.len()
    &&& entries[i].ids.contains(id)
    &&& forall|k: int| 0 <= k < i ==> !(#[trigger] entries[k].ids.contains(id))
}

/// Whether some entry holds `id`.
pub open spec fn has_id(entries: Seq<EntryView>, id: usize) -> bool {
    exists|i: int| 0 <= i < entries.len() && #[trigger] entries[i].ids.contains(id)
}

/// `j` is the first position of `id` in `ids`.
pub open spec fn first_pos(ids: Seq<usize>, id: usize, j: int) -> bool {
    &&& 0 <= j < ids.len()
    &&& ids[j] == id
    &&& forall|k: int| 0 <= k < j ==> #[trigger] ids[k] != id
}

/// The roots of the entries, in order.
pub open spec fn roots_of(entries: Seq<EntryView>) -> Seq<Seq<char>> {
    entries.map_values(|e: EntryView| e.root)
}

/// Finds the entry for `root`.
pub fn find_root(entries: &Vec<WatchEntry>, root: &String) -> (r: Option<usize>)
    ensures
        match r {
            Some(i) => root_at(entries_view(entries@), root@, i as int),
            None => !has_root(entries_view(entries@), root@),
        },
{
    let ghost ev = entries_view(entries@);
    let mut i: usize = 0;
    while i < entries.len()
        invariant
            i <= entries.len(),
            ev == entries_view(entries@),
            forall|k: int| 0 <= k < i ==> #[trigger] ev[k].root != root@,
        decreases entries.len() - i,
    {
        if entries[i].root == *root {
            return Some(i);
        }
        i += 1;
    }
    None
}

/// Finds the first position of `id` in `ids`.
pub fn find_id(ids: &Vec<usize>, id: usize) -> (r: Option<usize>)
    ensures
        match r {
            Some(j) => first_pos(ids@, id, j as int),
            None => !ids@.contains(id),
        },
{
    let mut j: usize = 0;
    while j < ids.len()
        invariant
            j <= ids.len(),
            forall|k: int| 0 <= k < j ==> #[trigger] ids@[k] != id,
        decreases ids.len() - j,
    {
        if ids[j] == id {
            return Some(j);
        }
        j += 1;
    }
    None
}

/// Finds the first entry that holds `id`, and the position of `id` in it.
pub fn find_watch_id(entries: &Vec<WatchEntry>, id: usize) -> (r: Option<(usize, usize)>)
    ensures
        match r {
            Some((i, j)) => id_entry_at(entries_view(entries@), id, i as int) && first_pos(
                entries@[i as int].ids@,
                id,
                j as int,
            ),
            None => !has_id(entries_view(entries@), id),
        },
{
    let ghost ev = entries_view(entries@);
    let mut i: usize = 0;
    while i < entries.len()
        invariant
            i <= entries.len(),
            ev == entries_view(entries@),
            forall|k: int| 0 <= k < i ==> !(#[trigger] ev[k].ids.contains(id)),
        decreases entries.len() - i,
    {
        match find_id(&entries[i].ids, id) {
            Some(j) => {
                return Some((i, j));
            },
            None => {},
        }
        i += 1;
    }
    None
}

} // verus!
