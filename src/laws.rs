//! Properties of the supervisor that hold over whole requests and batches.

use vstd::prelude::*;
use crate::dispatch::{dispatch_messages, fan_out, registry_messages, unscoped_errors};
use crate::event::{is_metadata_only, translate_batch, EventView, RawEvent};
use crate::paths::path_starts_with;
use crate::registry::{first_pos, has_id, has_root, id_entry_at, root_at, roots_of, EntryView};
use crate::supervisor::{
    descendant_at, drive, no_watch_text, serve, CallOutcome, CommandView, OutgoingView, PendingView, Request,
    StepView, SupervisorView,
};

verus! {

/// An unwatch of an identifier that no entry holds is answered with an error,
/// asks for no call, and leaves the registry as it was.
pub proof fn unknown_id_unwatch_is_refused(
    s: SupervisorView,
    request_id: usize,
    watch_id: usize,
    outcomes: Seq<CallOutcome>,
)
    requires
        s.wf(),
        s.is_idle(),
        !has_id(s.entries, watch_id),
    ensures
        ({
            let run = serve(s, Request::Unwatch { request_id, watch_id }, outcomes);
            &&& run.0 == s
            &&& run.1 == Seq::<CommandView>::empty()
            &&& run.2 == Some(
                OutgoingView::ErrorResponse { request_id, description: no_watch_text(watch_id) },
            )
        }),
{
}

/// A watch whose root could not be resolved is answered with an error, asks
/// for no call, and registers nothing.
pub proof fn unresolved_watch_is_refused(
    s: SupervisorView,
    request_id: usize,
    watch_id: usize,
    description: String,
    outcomes: Seq<CallOutcome>,
)
    requires
        s.wf(),
        s.is_idle(),
    ensures
        ({
            let run = serve(
                s,
                Request::Watch { request_id, watch_id, root: Err(description) },
                outcomes,
            );
            &&& run.0 == s
            &&& run.1 == Seq::<CommandView>::empty()
            &&& run.2 == Some(OutgoingView::ErrorResponse { request_id, description: description@ })
        }),
{
}

/// Where some entry from `from` on lies under `removed`, a first such entry exists.
proof fn first_descendant_exists(entries: Seq<EntryView>, removed: Seq<char>, from: int, j0: int)
    requires
        from <= j0 < entries.len(),
        path_starts_with(entries[j0].root, removed),
    ensures
        exists|j: int| descendant_at(entries, removed, from, j),
    decreases j0 - from,
{
    if exists|k: int| from <= k < j0 && path_starts_with(#[trigger] entries[k].root, removed) {
        let k = choose|k: int| from <= k < j0 && path_starts_with(#[trigger] entries[k].root, removed);
        first_descendant_exists(entries, removed, from, k);
    } else {
        assert(descendant_at(entries, removed, from, j0));
    }
}

/// The re-watch phase of an unwatch keeps the registry as it is and asks only
/// for watch calls.
proof fn rewatch_run_only_watches(
    s: SupervisorView,
    request_id: usize,
    removed: Seq<char>,
    from: int,
    unwatch_error: Option<Seq<char>>,
    outcomes: Seq<CallOutcome>,
)
    requires
        0 <= from <= s.entries.len(),
    ensures
        ({
            let first = s.rewatch_from(request_id, removed, from, unwatch_error);
            let run = drive(first.0, first.1, outcomes);
            &&& run.0.entries == s.entries
            &&& forall|k: int| 0 <= k < run.1.len() ==> (#[trigger] run.1[k]) is Watch
        }),
    decreases outcomes.len(),
{
    let first = s.rewatch_from(request_id, removed, from, unwatch_error);
    if first.1 is Call && outcomes.len() > 0 {
        let j0 = choose|j: int| from <= j < s.entries.len() && path_starts_with(#[trigger] s.entries[j].root, removed);
        first_descendant_exists(s.entries, removed, from, j0);
        let j = choose|j: int| descendant_at(s.entries, removed, from, j);
        let next = first.0.resume_step(outcomes[0]);
        match outcomes[0] {
            Ok(()) => {
                rewatch_run_only_watches(first.0, request_id, removed, j + 1, unwatch_error, outcomes.drop_first());
            },
            Err(_) => {},
        }
        let rest = drive(next.0, next.1, outcomes.drop_first());
        assert forall|k: int| 0 <= k < 1 + rest.1.len() implies
            (#[trigger] (seq![first.1->command] + rest.1)[k]) is Watch by {
            if k > 0 {
                assert((seq![first.1->command] + rest.1)[k] == rest.1[k - 1]);
            }
        }
    }
}

/// Unwatching the last identifier of a root removes its entry and asks for
/// exactly one unwatch call, of that root, whatever the capability answers;
/// any further calls re-watch descendants.
pub proof fn last_id_unwatch_unwatches_once(
    s: SupervisorView,
    request_id: usize,
    watch_id: usize,
    i: int,
    outcomes: Seq<CallOutcome>,
)
    requires
        s.wf(),
        s.is_idle(),
        0 <= i < s.entries.len(),
        s.entries[i].ids == seq![watch_id],
        forall|k: int| 0 <= k < s.entries.len() && k != i ==> !(#[trigger] s.entries[k].ids.contains(watch_id)),
    ensures
        ({
            let run = serve(s, Request::Unwatch { request_id, watch_id }, outcomes);
            &&& run.0.entries == s.entries.remove(i)
            &&& run.1.len() >= 1
            &&& run.1[0] == (CommandView::Unwatch { root: s.entries[i].root })
            &&& forall|k: int| 1 <= k < run.1.len() ==> (#[trigger] run.1[k]) is Watch
        }),
{
    assert(s.entries[i].ids[0] == watch_id);
    assert(id_entry_at(s.entries, watch_id, i));
    assert(has_id(s.entries, watch_id));
    assert((choose|k: int| id_entry_at(s.entries, watch_id, k)) == i);
    assert(first_pos(s.entries[i].ids, watch_id, 0));
    assert((choose|k: int| first_pos(s.entries[i].ids, watch_id, k)) == 0);
    assert(s.entries[i].ids.remove(0).len() == 0);
    let first = s.request_step(Request::Unwatch { request_id, watch_id });
    if outcomes.len() > 0 {
        let after = first.0;
        let ue = match outcomes[0] {
            Ok(()) => None,
            Err((_, detail)) => Some(detail),
        };
        rewatch_run_only_watches(after, request_id, s.entries[i].root, 0, ue, outcomes.drop_first());
        let next = after.resume_step(outcomes[0]);
        let rest = drive(next.0, next.1, outcomes.drop_first());
        assert forall|k: int| 1 <= k < 1 + rest.1.len() implies
            (#[trigger] (seq![first.1->command] + rest.1)[k]) is Watch by {
            assert((seq![first.1->command] + rest.1)[k] == rest.1[k - 1]);
        }
    }
}

/// Unwatching an identifier that shares its root with others asks for no
/// call: the identifier leaves the entry and the response is Ok.
pub proof fn shared_id_unwatch_calls_nothing(
    s: SupervisorView,
    request_id: usize,
    watch_id: usize,
    i: int,
    j: int,
    outcomes: Seq<CallOutcome>,
)
    requires
        s.wf(),
        s.is_idle(),
        0 <= i < s.entries.len(),
        s.entries[i].ids.len() > 1,
        first_pos(s.entries[i].ids, watch_id, j),
        forall|k: int| 0 <= k < s.entries.len() && k != i ==> !(#[trigger] s.entries[k].ids.contains(watch_id)),
    ensures
        ({
            let run = serve(s, Request::Unwatch { request_id, watch_id }, outcomes);
            &&& run.0.entries == s.entries.update(
                i,
                EntryView { root: s.entries[i].root, ids: s.entries[i].ids.remove(j) },
            )
            &&& run.1 == Seq::<CommandView>::empty()
            &&& run.2 == Some(OutgoingView::OkResponse { request_id })
        }),
{
    assert(s.entries[i].ids[j] == watch_id);
    assert(id_entry_at(s.entries, watch_id, i));
    assert(has_id(s.entries, watch_id));
    assert((choose|k: int| id_entry_at(s.entries, watch_id, k)) == i);
    assert((choose|k: int| first_pos(s.entries[i].ids, watch_id, k)) == j);
}

/// Whether every call in `outcomes` succeeded.
pub open spec fn all_succeed(outcomes: Seq<CallOutcome>) -> bool {
    forall|k: int| 0 <= k < outcomes.len() ==> (#[trigger] outcomes[k]) is Ok
}

/// The unwatch calls of `roots`, in order.
pub open spec fn unwatch_calls(roots: Seq<Seq<char>>) -> Seq<CommandView> {
    roots.map_values(|r: Seq<char>| CommandView::Unwatch { root: r })
}

/// The tail of an unwatch of all, from the call on `roots[current]` on.
proof fn unwatch_all_tail(
    s: SupervisorView,
    request_id: usize,
    roots: Seq<Seq<char>>,
    current: int,
    outcomes: Seq<CallOutcome>,
)
    requires
        s.pending == (PendingView::UnwatchingAll { request_id, roots, current }),
        s.entries.len() == 0,
        0 <= current < roots.len(),
    ensures
        ({
            let run = drive(
                s,
                StepView::Call { command: CommandView::Unwatch { root: roots[current] } },
                outcomes,
            );
            &&& run.0.entries.len() == 0
            &&& all_succeed(outcomes) && outcomes.len() >= roots.len() - current ==> {
                &&& run.1 == unwatch_calls(roots.subrange(current, roots.len() as int))
                &&& run.2 == Some(OutgoingView::OkResponse { request_id })
            }
        }),
    decreases outcomes.len(),
{
    let cmd = CommandView::Unwatch { root: roots[current] };
    if outcomes.len() > 0 {
        let next = s.resume_step(outcomes[0]);
        let rest = drive(next.0, next.1, outcomes.drop_first());
        assert(drive(s, StepView::Call { command: cmd }, outcomes) == (
            rest.0,
            seq![cmd] + rest.1,
            rest.2,
        ));
        if outcomes[0] is Ok && current + 1 < roots.len() {
            assert(next.0.entries.len() == 0);
            assert(next.0.pending == (PendingView::UnwatchingAll { request_id, roots, current: current + 1 }));
            assert(next.1 == StepView::Call { command: CommandView::Unwatch { root: roots[current + 1] } });
            unwatch_all_tail(next.0, request_id, roots, current + 1, outcomes.drop_first());
            if all_succeed(outcomes) && outcomes.len() >= roots.len() - current {
                assert(all_succeed(outcomes.drop_first())) by {
                    assert forall|k: int| 0 <= k < outcomes.drop_first().len() implies
                        (#[trigger] outcomes.drop_first()[k]) is Ok by {
                        assert(outcomes.drop_first()[k] == outcomes[k + 1]);
                    }
                }
                assert(unwatch_calls(roots.subrange(current, roots.len() as int)) =~= seq![
                    CommandView::Unwatch { root: roots[current] },
                ] + unwatch_calls(roots.subrange(current + 1, roots.len() as int)));
            }
        } else if all_succeed(outcomes) {
            assert(outcomes[0] is Ok);
            assert(unwatch_calls(roots.subrange(current, roots.len() as int)) =~= seq![
                CommandView::Unwatch { root: roots[current] },
            ]);
        }
    }
}

/// An unwatch of all empties the registry whatever the capability answers;
/// where every call succeeds, it asks for one unwatch call per root, in the
/// order of the registry, and responds Ok.
pub proof fn unwatch_all_unwatches_each_root(
    s: SupervisorView,
    request_id: usize,
    outcomes: Seq<CallOutcome>,
)
    requires
        s.wf(),
        s.is_idle(),
    ensures
        ({
            let run = serve(s, Request::UnwatchAll { request_id }, outcomes);
            &&& run.0.entries.len() == 0
            &&& all_succeed(outcomes) && outcomes.len() >= s.entries.len() ==> {
                &&& run.1 == unwatch_calls(roots_of(s.entries))
                &&& run.2 == Some(OutgoingView::OkResponse { request_id })
            }
        }),
{
    if s.entries.len() > 0 {
        let first = s.request_step(Request::UnwatchAll { request_id });
        let roots = roots_of(s.entries);
        unwatch_all_tail(first.0, request_id, roots, 0, outcomes);
        assert(roots.subrange(0, roots.len() as int) =~= roots);
    } else {
        assert(unwatch_calls(roots_of(s.entries)) =~= Seq::<CommandView>::empty());
    }
}

/// Watches of `root` for each of `ids` in turn, each under `request_id`, with
/// the capability accepting every watch call: the state reached and how many
/// watch calls were asked for.
pub open spec fn watch_each(
    s: SupervisorView,
    request_id: usize,
    root: Seq<char>,
    ids: Seq<usize>,
) -> (SupervisorView, nat)
    decreases ids.len(),
{
    if ids.len() == 0 {
        (s, 0)
    } else {
        let before = watch_each(s, request_id, root, ids.drop_last());
        let first = before.0.watch_step(request_id, ids.last(), Ok(root));
        match first.1 {
            StepView::Call { .. } => (first.0.resume_step(Ok(())).0, before.1 + 1),
            StepView::Reply { .. } => (first.0, before.1),
        }
    }
}

/// Watching one absent root for several identifiers builds one entry with
/// all of them, after a single watch call.
proof fn watch_each_shares_one_entry(
    s: SupervisorView,
    request_id: usize,
    root: Seq<char>,
    ids: Seq<usize>,
)
    requires
        s.is_idle(),
        !has_root(s.entries, root),
        ids.len() > 0,
    ensures
        ({
            let w = watch_each(s, request_id, root, ids);
            &&& w.1 == 1
            &&& w.0.entries == s.entries.push(EntryView { root, ids })
            &&& w.0.is_idle()
        }),
    decreases ids.len(),
{
    if ids.len() == 1 {
        assert(ids.drop_last() =~= Seq::<usize>::empty());
        assert(seq![ids.last()] =~= ids);
    } else {
        watch_each_shares_one_entry(s, request_id, root, ids.drop_last());
        let before = watch_each(s, request_id, root, ids.drop_last());
        let n = s.entries.len() as int;
        assert(before.0.entries[n].root == root);
        assert(root_at(before.0.entries, root, n));
        assert(has_root(before.0.entries, root));
        assert((choose|k: int| root_at(before.0.entries, root, k)) == n);
        assert(ids.drop_last().push(ids.last()) =~= ids);
        assert(before.0.entries.update(n, EntryView { root, ids }) =~= s.entries.push(
            EntryView { root, ids },
        ));
    }
}

/// Watches of one root for several identifiers ask for exactly one watch
/// call, share one entry, and each identifier then gets its own message
/// with every event of a batch that concerns the root.
pub proof fn shared_root_is_watched_once(
    s: SupervisorView,
    request_id: usize,
    root: Seq<char>,
    ids: Seq<usize>,
    raws: Seq<RawEvent>,
)
    requires
        s.wf(),
        s.is_idle(),
        !has_root(s.entries, root),
        ids.len() > 0,
    ensures
        ({
            let w = watch_each(s, request_id, root, ids);
            let batch = translate_batch(root, raws);
            &&& w.1 == 1
            &&& w.0.entries == s.entries.push(EntryView { root, ids })
            &&& batch.len() > 0 ==> dispatch_messages(w.0.entries, raws) == registry_messages(
                s.entries,
                raws,
            ) + fan_out(ids, batch) + unscoped_errors(raws)
            &&& forall|k: int|
                0 <= k < ids.len() && batch.len() > 0 ==> dispatch_messages(
                    w.0.entries,
                    raws,
                ).contains(OutgoingView::WatchEvents { watch_id: #[trigger] ids[k], events: batch })
        }),
{
    watch_each_shares_one_entry(s, request_id, root, ids);
    let w = watch_each(s, request_id, root, ids);
    let batch = translate_batch(root, raws);
    let e = EntryView { root, ids };
    assert(s.entries.push(e).drop_last() =~= s.entries);
    if batch.len() > 0 {
        let all = dispatch_messages(w.0.entries, raws);
        let base = registry_messages(s.entries, raws).len();
        assert forall|k: int| 0 <= k < ids.len() implies all.contains(
            OutgoingView::WatchEvents { watch_id: #[trigger] ids[k], events: batch },
        ) by {
            assert(all[base + k] == fan_out(ids, batch)[k]);
        }
    }
}

/// Metadata-only raw events translate to nothing and carry no process-wide error.
proof fn metadata_batch_yields_nothing(root: Seq<char>, raws: Seq<RawEvent>)
    requires
        forall|k: int| 0 <= k < raws.len() ==> is_metadata_only(#[trigger] raws[k]),
    ensures
        translate_batch(root, raws) == Seq::<EventView>::empty(),
        unscoped_errors(raws) == Seq::<OutgoingView>::empty(),
    decreases raws.len(),
{
    if raws.len() > 0 {
        metadata_batch_yields_nothing(root, raws.drop_last());
        assert(is_metadata_only(raws[raws.len() - 1]));
        assert(translate_batch(root, raws) =~= Seq::<EventView>::empty());
        assert(unscoped_errors(raws) =~= Seq::<OutgoingView>::empty());
    }
}

/// Metadata-only raw events give no entry any message.
proof fn metadata_registry_is_silent(entries: Seq<EntryView>, raws: Seq<RawEvent>)
    requires
        forall|k: int| 0 <= k < raws.len() ==> is_metadata_only(#[trigger] raws[k]),
    ensures
        registry_messages(entries, raws) == Seq::<OutgoingView>::empty(),
    decreases entries.len(),
{
    if entries.len() > 0 {
        metadata_registry_is_silent(entries.drop_last(), raws);
        metadata_batch_yields_nothing(entries.last().root, raws);
        assert(registry_messages(entries, raws) =~= Seq::<OutgoingView>::empty());
    }
}

/// A batch of metadata-only raw events (pending notices, attribute changes,
/// rescan markers) yields no semantic event for any root, and no message.
pub proof fn metadata_only_events_are_silent(
    entries: Seq<EntryView>,
    root: Seq<char>,
    raws: Seq<RawEvent>,
)
    requires
        forall|k: int| 0 <= k < raws.len() ==> is_metadata_only(#[trigger] raws[k]),
    ensures
        translate_batch(root, raws) == Seq::<EventView>::empty(),
        dispatch_messages(entries, raws) == Seq::<OutgoingView>::empty(),
{
    metadata_batch_yields_nothing(root, raws);
    metadata_registry_is_silent(entries, raws);
    assert(dispatch_messages(entries, raws) =~= Seq::<OutgoingView>::empty());
}

} // verus!
