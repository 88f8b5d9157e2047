//! The request state machine: which calls the watching capability must make
//! for each request, and what the client is told.

use vstd::prelude::*;
use crate::dispatch::{dispatch, dispatch_messages, outgoing_view};
use crate::event::{events_view, Event, EventView, RawEvent};
use crate::paths::{path_starts_with, starts_with};
use crate::registry::{
    entries_view, find_root, find_watch_id, first_pos, has_id, has_root, id_entry_at,
    registry_wf, root_at, roots_of, EntryView, WatchEntry,
};
use crate::text::{decimal, joined, push_decimal};

verus! {

/// A client request, with the root of a watch already resolved to its
/// canonical form (or the reason it could not be resolved).
#[derive(Debug, PartialEq, Eq)]
pub enum Request {
    Watch { request_id: usize, watch_id: usize, root: Result<String, String> },
    Unwatch { request_id: usize, watch_id: usize },
    UnwatchAll { request_id: usize },
}

/// A message to the client.
#[derive(Clone, Debug, PartialEq, Eq)]
pub enum Outgoing {
    OkResponse { request_id: usize },
    ErrorResponse { request_id: usize, description: String },
    WatchEvents { watch_id: usize, events: Vec<Event> },
    WatcherError { description: String },
}

/// The abstract value of an [`Outgoing`] message.
pub enum OutgoingView {
    OkResponse { request_id: usize },
    ErrorResponse { request_id: usize, description: Seq<char> },
    WatchEvents { watch_id: usize, events: Seq<EventView> },
    WatcherError { description: Seq<char> },
}

impl View for Outgoing {
    type V = OutgoingView;

    open spec fn view(&self) -> OutgoingView {
        match self {
            Outgoing::OkResponse { request_id } => OutgoingView::OkResponse {
                request_id: *request_id,
            },
            Outgoing::ErrorResponse { request_id, description } => OutgoingView::ErrorResponse {
                request_id: *request_id,
                description: description@,
            },
            Outgoing::WatchEvents { watch_id, events } => OutgoingView::WatchEvents {
                watch_id: *watch_id,
                events: events_view(events@),
            },
            Outgoing::WatcherError { description } => OutgoingView::WatcherError {
                description: description@,
            },
        }
    }
}

/// A call that the supervisor asks of the watching capability.
#[derive(Clone, Debug, PartialEq, Eq)]
pub enum Command {
    /// Begin watching a canonical root recursively.
    Watch { root: String },
    /// Stop watching a canonical root.
    Unwatch { root: String },
}

/// The abstract value of a [`Command`].
pub enum CommandView {
    Watch { root: Seq<char> },
    Unwatch { root: Seq<char> },
}

impl View for Command {
    type V = CommandView;

    open spec fn view(&self) -> CommandView {
        match self {
            Command::Watch { root } => CommandView::Watch { root: root@ },
            Command::Unwatch { root } => CommandView::Unwatch { root: root@ },
        }
    }
}

/// What the supervisor does next while it serves a request: a call to the
/// watching capability, whose outcome it then awaits, or the response.
#[derive(Clone, Debug, PartialEq, Eq)]
pub enum Step {
    Call { command: Command },
    Reply { message: Outgoing },
}

/// The abstract value of a [`Step`].
pub enum StepView {
    Call { command: CommandView },
    Reply { message: OutgoingView },
}

impl View for Step {
    type V = StepView;

    open spec fn view(&self) -> StepView {
        match self {
            Step::Call { command } => StepView::Call { command: command@ },
            Step::Reply { message } => StepView::Reply { message: message@ },
        }
    }
}

/// How a call to the watching capability failed: its short description and
/// its detailed rendering.
#[derive(Clone, Debug, PartialEq, Eq)]
pub struct Failure {
    pub description: String,
    pub detail: String,
}

/// The abstract value of a call's outcome.
pub open spec fn outcome_view(outcome: Result<(), Failure>) -> CallOutcome {
    match outcome {
        Ok(()) => Ok(()),
        Err(f) => Err((f.description@, f.detail@)),
    }
}

/// The abstract value of a resolved root.
pub open spec fn resolution_view(root: Result<String, String>) -> Result<Seq<char>, Seq<char>> {
    match root {
        Ok(r) => Ok(r@),
        Err(d) => Err(d@),
    }
}

/// The abstract value of an optional text.
pub open spec fn text_view(t: Option<String>) -> Option<Seq<char>> {
    match t {
        Some(t) => Some(t@),
        None => None,
    }
}

/// The request that the supervisor is serving, and how far it has come.
pub enum Pending {
    Idle,
    /// Awaiting the outcome of watching a new root.
    Watching { request_id: usize, watch_id: usize, root: String },
    /// Awaiting the outcome of unwatching a root whose last identifier left.
    Unwatching { request_id: usize, root: String },
    /// Awaiting the outcome of re-watching the entry at `current`, a
    /// descendant of the root `removed`.
    Rewatching {
        request_id: usize,
        removed: String,
        current: usize,
        unwatch_error: Option<String>,
    },
    /// Awaiting the outcome of unwatching `roots[current]`.
    UnwatchingAll { request_id: usize, roots: Vec<String>, current: usize },
}

/// The abstract value of a [`Pending`] state.
pub enum PendingView {
    Idle,
    Watching { request_id: usize, watch_id: usize, root: Seq<char> },
    Unwatching { request_id: usize, root: Seq<char> },
    Rewatching {
        request_id: usize,
        removed: Seq<char>,
        current: int,
        unwatch_error: Option<Seq<char>>,
    },
    UnwatchingAll { request_id: usize, roots: Seq<Seq<char>>, current: int },
}

impl View for Pending {
    type V = PendingView;

    open spec fn view(&self) -> PendingView {
        match self {
            Pending::Idle => PendingView::Idle,
            Pending::Watching { request_id, watch_id, root } => PendingView::Watching {
                request_id: *request_id,
                watch_id: *watch_id,
                root: root@,
            },
            Pending::Unwatching { request_id, root } => PendingView::Unwatching {
                request_id: *request_id,
                root: root@,
            },
            Pending::Rewatching { request_id, removed, current, unwatch_error } =>
                PendingView::Rewatching {
                request_id: *request_id,
                removed: removed@,
                current: *current as int,
                unwatch_error: text_view(*unwatch_error),
            },
            Pending::UnwatchingAll { request_id, roots, current } => PendingView::UnwatchingAll {
                request_id: *request_id,
                roots: roots@.map_values(|r: String| r@),
                current: *current as int,
            },
        }
    }
}

/// The abstract state of a [`Supervisor`].
pub struct SupervisorView {
    pub entries: Seq<EntryView>,
    pub rewatch_descendants: bool,
    pub pending: PendingView,
}

/// Owns the registry of watches and decides, request by request, which calls
/// the watching capability must make and what the client is told.
pub struct Supervisor {
    entries: Vec<WatchEntry>,
    rewatch_descendants: bool,
    pending: Pending,
}

impl View for Supervisor {
    type V = SupervisorView;

    closed spec fn view(&self) -> SupervisorView {
        SupervisorView {
            entries: entries_view(self.entries@),
            rewatch_descendants: self.rewatch_descendants,
            pending: self.pending@,
        }
    }
}

/// The text of the response to an unwatch of an identifier that no entry holds.
pub open spec fn no_watch_text(id: usize) -> Seq<char> {
    "No watch found for id: "@ + decimal(id as nat)
}

/// The text of the response when unwatching a root failed.
pub open spec fn unwatch_error_text(detail: Seq<char>) -> Seq<char> {
    "Error unwatching: "@ + detail
}

/// The text of the response when re-watching a descendant root failed.
pub open spec fn rewatch_error_text(detail: Seq<char>) -> Seq<char> {
    "Error re-watching descendant of unwatched directory: "@ + detail
}

/// The text of the response when unwatching `root` failed during an unwatch of all.
pub open spec fn unwatch_all_error_text(root: Seq<char>, detail: Seq<char>) -> Seq<char> {
    "Error unwatching \""@ + root + "\": "@ + detail
}

/// Whether `entries` and `pending` agree with each other.
pub open spec fn pending_wf(entries: Seq<EntryView>, pending: PendingView) -> bool {
    match pending {
        PendingView::Watching { root, .. } => !has_root(entries, root),
        PendingView::Rewatching { current, .. } => 0 <= current < entries.len(),
        PendingView::UnwatchingAll { roots, current, .. } => {
            &&& entries.len() == 0
            &&& 0 <= current < roots.len()
        },
        _ => true,
    }
}

/// `j` is the first entry at or after `from` whose root lies under `removed`.
pub open spec fn descendant_at(entries: Seq<EntryView>, removed: Seq<char>, from: int, j: int) -> bool {
    &&& from <= j < entries.len()
    &&& path_starts_with(entries[j].root, removed)
    &&& forall|k: int| from <= k < j ==> !path_starts_with(#[trigger] entries[k].root, removed)
}

/// Whether some entry at or after `from` has a root under `removed`.
pub open spec fn has_descendant(entries: Seq<EntryView>, removed: Seq<char>, from: int) -> bool {
    exists|j: int| from <= j < entries.len() && path_starts_with(#[trigger] entries[j].root, removed)
}

impl SupervisorView {
    pub open spec fn wf(self) -> bool {
        &&& registry_wf(self.entries)
        &&& pending_wf(self.entries, self.pending)
    }

    pub open spec fn is_idle(self) -> bool {
        self.pending is Idle
    }

    pub open spec fn with(self, entries: Seq<EntryView>, pending: PendingView) -> SupervisorView {
        SupervisorView { entries, rewatch_descendants: self.rewatch_descendants, pending }
    }

    pub open spec fn reply(self, entries: Seq<EntryView>, message: OutgoingView) -> (SupervisorView, StepView) {
        (self.with(entries, PendingView::Idle), StepView::Reply { message })
    }

    pub open spec fn call(self, entries: Seq<EntryView>, pending: PendingView, command: CommandView) -> (SupervisorView, StepView) {
        (self.with(entries, pending), StepView::Call { command })
    }

    /// Serving a watch of `watch_id` on the canonical `root`: an identifier
    /// joins an existing entry, or the capability is asked to watch the root.
    pub open spec fn watch_step(self, request_id: usize, watch_id: usize, root: Result<Seq<char>, Seq<char>>) -> (SupervisorView, StepView) {
        match root {
            Err(description) => self.reply(
                self.entries,
                OutgoingView::ErrorResponse { request_id, description },
            ),
            Ok(root) => if has_root(self.entries, root) {
                let i = choose|i: int| root_at(self.entries, root, i);
                let e = self.entries[i];
                self.reply(
                    self.entries.update(i, EntryView { root: e.root, ids: e.ids.push(watch_id) }),
                    OutgoingView::OkResponse { request_id },
                )
            } else {
                self.call(
                    self.entries,
                    PendingView::Watching { request_id, watch_id, root },
                    CommandView::Watch { root },
                )
            },
        }
    }

    /// Serving an unwatch of `watch_id`: the identifier leaves its entry, and
    /// an entry left without identifiers goes, with a call to unwatch its root.
    pub open spec fn unwatch_step(self, request_id: usize, watch_id: usize) -> (SupervisorView, StepView) {
        if has_id(self.entries, watch_id) {
            let i = choose|i: int| id_entry_at(self.entries, watch_id, i);
            let e = self.entries[i];
            let j = choose|j: int| first_pos(e.ids, watch_id, j);
            let ids = e.ids.remove(j);
            if ids.len() > 0 {
                self.reply(
                    self.entries.update(i, EntryView { root: e.root, ids }),
                    OutgoingView::OkResponse { request_id },
                )
            } else {
                self.call(
                    self.entries.remove(i),
                    PendingView::Unwatching { request_id, root: e.root },
                    CommandView::Unwatch { root: e.root },
                )
            }
        } else {
            self.reply(
                self.entries,
                OutgoingView::ErrorResponse { request_id, description: no_watch_text(watch_id) },
            )
        }
    }

    /// Serving an unwatch of all: the registry empties, and the capability is
    /// asked to unwatch each root in turn.
    pub open spec fn unwatch_all_step(self, request_id: usize) -> (SupervisorView, StepView) {
        if self.entries.len() == 0 {
            self.reply(self.entries, OutgoingView::OkResponse { request_id })
        } else {
            let roots = roots_of(self.entries);
            self.call(
                seq![],
                PendingView::UnwatchingAll { request_id, roots, current: 0 },
                CommandView::Unwatch { root: roots[0] },
            )
        }
    }

    /// How the supervisor starts to serve `request`.
    pub open spec fn request_step(self, request: Request) -> (SupervisorView, StepView) {
        match request {
            Request::Watch { request_id, watch_id, root } => self.watch_step(
                request_id,
                watch_id,
                resolution_view(root),
            ),
            Request::Unwatch { request_id, watch_id } => self.unwatch_step(request_id, watch_id),
            Request::UnwatchAll { request_id } => self.unwatch_all_step(request_id),
        }
    }

    /// After the root `removed` went: re-watch the next descendant at or after
    /// `from` where descendants need it, or else respond.
    pub open spec fn rewatch_from(self, request_id: usize, removed: Seq<char>, from: int, unwatch_error: Option<Seq<char>>) -> (SupervisorView, StepView) {
        if self.rewatch_descendants && has_descendant(self.entries, removed, from) {
            let j = choose|j: int| descendant_at(self.entries, removed, from, j);
            self.call(
                self.entries,
                PendingView::Rewatching { request_id, removed, current: j, unwatch_error },
                CommandView::Watch { root: self.entries[j].root },
            )
        } else {
            match unwatch_error {
                Some(detail) => self.reply(
                    self.entries,
                    OutgoingView::ErrorResponse {
                        request_id,
                        description: unwatch_error_text(detail),
                    },
                ),
                None => self.reply(self.entries, OutgoingView::OkResponse { request_id }),
            }
        }
    }

    /// How the supervisor goes on once the capability reports `outcome` for
    /// the call it asked for.
    pub open spec fn resume_step(self, outcome: CallOutcome) -> (SupervisorView, StepView) {
        match self.pending {
            PendingView::Idle => (self, StepView::Reply { message: OutgoingView::WatcherError { description: seq![] } }),
            PendingView::Watching { request_id, watch_id, root } => match outcome {
                Ok(()) => self.reply(
                    self.entries.push(EntryView { root, ids: seq![watch_id] }),
                    OutgoingView::OkResponse { request_id },
                ),
                Err((description, _)) => self.reply(
                    self.entries,
                    OutgoingView::ErrorResponse { request_id, description },
                ),
            },
            PendingView::Unwatching { request_id, root } => self.rewatch_from(
                request_id,
                root,
                0,
                match outcome {
                    Ok(()) => None,
                    Err((_, detail)) => Some(detail),
                },
            ),
            PendingView::Rewatching { request_id, removed, current, unwatch_error } => match outcome {
                Ok(()) => self.rewatch_from(request_id, removed, current + 1, unwatch_error),
                Err((_, detail)) => self.reply(
                    self.entries,
                    OutgoingView::ErrorResponse { request_id, description: rewatch_error_text(detail) },
                ),
            },
            PendingView::UnwatchingAll { request_id, roots, current } => match outcome {
                Ok(()) => if current + 1 < roots.len() {
                    self.call(
                        self.entries,
                        PendingView::UnwatchingAll { request_id, roots, current: current + 1 },
                        CommandView::Unwatch { root: roots[current + 1] },
                    )
                } else {
                    self.reply(self.entries, OutgoingView::OkResponse { request_id })
                },
                Err((_, detail)) => self.reply(
                    self.entries,
                    OutgoingView::ErrorResponse {
                        request_id,
                        description: unwatch_all_error_text(roots[current], detail),
                    },
                ),
            },
        }
    }
}

/// The outcome of a call to the watching capability, as the state machine sees it.
pub type CallOutcome = Result<(), (Seq<char>, Seq<char>)>;

/// The run of a request from `step` on, when the capability answers the
/// calls with `outcomes` in turn: the state reached, the calls asked for, and
/// the response, once the outcomes suffice to reach it.
pub open spec fn drive(s: SupervisorView, step: StepView, outcomes: Seq<CallOutcome>) -> (
    SupervisorView,
    Seq<CommandView>,
    Option<OutgoingView>,
)
    decreases outcomes.len(),
{
    match step {
        StepView::Reply { message } => (s, seq![], Some(message)),
        StepView::Call { command } => if outcomes.len() == 0 {
            (s, seq![command], None)
        } else {
            let next = s.resume_step(outcomes[0]);
            let rest = drive(next.0, next.1, outcomes.drop_first());
            (rest.0, seq![command] + rest.1, rest.2)
        },
    }
}

/// The whole run of `request` from the idle state `s`, when the capability
/// answers the calls with `outcomes` in turn.
pub open spec fn serve(s: SupervisorView, request: Request, outcomes: Seq<CallOutcome>) -> (
    SupervisorView,
    Seq<CommandView>,
    Option<OutgoingView>,
) {
    let first = s.request_step(request);
    drive(first.0, first.1, outcomes)
}

impl Supervisor {
    /// A supervisor with an empty registry. `rewatch_descendants` says
    /// whether removing a watch may silently end the watches on descendant
    /// roots, so that they must be re-established.
    pub fn new(rewatch_descendants: bool) -> (r: Supervisor)
        ensures
            r@.wf(),
            r@.is_idle(),
            r@.entries == Seq::<EntryView>::empty(),
            r@.rewatch_descendants == rewatch_descendants,
    {
        let r = Supervisor { entries: Vec::new(), rewatch_descendants, pending: Pending::Idle };
        assert(r@.entries =~= Seq::<EntryView>::empty());
        r
    }

    /// Whether no request is being served.
    pub fn is_idle(&self) -> (r: bool)
        ensures
            r == self@.is_idle(),
    {
        match self.pending {
            Pending::Idle => true,
            _ => false,
        }
    }

    /// Starts to serve a watch of `watch_id` on the resolved `root`.
    pub fn watch(&mut self, request_id: usize, watch_id: usize, root: Result<String, String>) -> (r: Step)
        requires
            old(self)@.wf(),
            old(self)@.is_idle(),
        ensures
            final(self)@.wf(),
            (final(self)@, r@) == old(self)@.watch_step(request_id, watch_id, resolution_view(root)),
    {
        let ghost s0 = self@;
        match root {
            Err(description) => Step::Reply {
                message: Outgoing::ErrorResponse { request_id, description },
            },
            Ok(root) => match find_root(&self.entries, &root) {
                Some(i) => {
                    assert(root_at(s0.entries, root@, i as int));
                    assert(has_root(s0.entries, root@));
                    assert((choose|k: int| root_at(s0.entries, root@, k)) == i as int);
                    let mut e = self.entries.remove(i);
                    e.ids.push(watch_id);
                    self.entries.insert(i, e);
                    assert(self@.entries =~= s0.entries.update(
                        i as int,
                        EntryView { root: s0.entries[i as int].root, ids: s0.entries[i as int].ids.push(watch_id) },
                    ));
                    Step::Reply { message: Outgoing::OkResponse { request_id } }
                },
                None => {
                    let command = Command::Watch { root: root.clone() };
                    self.pending = Pending::Watching { request_id, watch_id, root };
                    Step::Call { command }
                },
            },
        }
    }

    /// Starts to serve an unwatch of `watch_id`.
    pub fn unwatch(&mut self, request_id: usize, watch_id: usize) -> (r: Step)
        requires
            old(self)@.wf(),
            old(self)@.is_idle(),
        ensures
            final(self)@.wf(),
            (final(self)@, r@) == old(self)@.unwatch_step(request_id, watch_id),
    {
        let ghost s0 = self@;
        match find_watch_id(&self.entries, watch_id) {
            Some((i, j)) => {
                assert(id_entry_at(s0.entries, watch_id, i as int));
                assert(has_id(s0.entries, watch_id));
                assert((choose|k: int| id_entry_at(s0.entries, watch_id, k)) == i as int);
                let ghost e0 = s0.entries[i as int];
                assert(first_pos(e0.ids, watch_id, j as int));
                assert((choose|k: int| first_pos(e0.ids, watch_id, k)) == j as int);
                let mut e = self.entries.remove(i);
                e.ids.remove(j);
                if e.ids.len() > 0 {
                    self.entries.insert(i, e);
                    assert(self@.entries =~= s0.entries.update(
                        i as int,
                        EntryView { root: e0.root, ids: e0.ids.remove(j as int) },
                    ));
                    Step::Reply { message: Outgoing::OkResponse { request_id } }
                } else {
                    assert(self@.entries =~= s0.entries.remove(i as int));
                    assert(registry_wf(self@.entries)) by {
                        assert forall|a: int, b: int|
                            0 <= a < b < self@.entries.len() implies
                            #[trigger] self@.entries[a].root != #[trigger] self@.entries[b].root by {
                            let a0 = if a < i { a } else { a + 1 };
                            let b0 = if b < i { b } else { b + 1 };
                            assert(s0.entries[a0].root != s0.entries[b0].root);
                        }
                        assert forall|a: int| 0 <= a < self@.entries.len() implies
                            #[trigger] self@.entries[a].ids.len() > 0 by {
                            let a0 = if a < i { a } else { a + 1 };
                            assert(s0.entries[a0].ids.len() > 0);
                        }
                    }
                    let root = e.root;
                    let command = Command::Unwatch { root: root.clone() };
                    self.pending = Pending::Unwatching { request_id, root };
                    Step::Call { command }
                }
            },
            None => {
                let mut description = String::from_str("No watch found for id: ");
                push_decimal(&mut description, watch_id);
                Step::Reply { message: Outgoing::ErrorResponse { request_id, description } }
            },
        }
    }

    /// Starts to serve an unwatch of every root: the registry empties at once.
    pub fn unwatch_all(&mut self, request_id: usize) -> (r: Step)
        requires
            old(self)@.wf(),
            old(self)@.is_idle(),
        ensures
            final(self)@.wf(),
            (final(self)@, r@) == old(self)@.unwatch_all_step(request_id),
    {
        let ghost s0 = self@;
        if self.entries.len() == 0 {
            return Step::Reply { message: Outgoing::OkResponse { request_id } };
        }
        let mut roots: Vec<String> = Vec::new();
        let mut i: usize = 0;
        while i < self.entries.len()
            invariant
                i <= self.entries.len(),
                self@ == s0,
                roots@.map_values(|r: String| r@) =~= roots_of(s0.entries).subrange(0, i as int),
            decreases self.entries.len() - i,
        {
            let ghost prev = roots@;
            roots.push(self.entries[i].root.clone());
            assert(roots@.map_values(|r: String| r@) =~= prev.map_values(|r: String| r@).push(
                s0.entries[i as int].root,
            ));
            i += 1;
        }
        assert(roots_of(s0.entries).subrange(0, i as int) =~= roots_of(s0.entries));
        assert(roots@.map_values(|r: String| r@)[0] == roots@[0]@);
        self.entries = Vec::new();
        let command = Command::Unwatch { root: roots[0].clone() };
        self.pending = Pending::UnwatchingAll { request_id, roots, current: 0 };
        assert(self@.entries =~= Seq::<EntryView>::empty());
        Step::Call { command }
    }

    /// Starts to serve `request`.
    pub fn handle_request(&mut self, request: Request) -> (r: Step)
        requires
            old(self)@.wf(),
            old(self)@.is_idle(),
        ensures
            final(self)@.wf(),
            (final(self)@, r@) == old(self)@.request_step(request),
    {
        match request {
            Request::Watch { request_id, watch_id, root } => self.watch(request_id, watch_id, root),
            Request::Unwatch { request_id, watch_id } => self.unwatch(request_id, watch_id),
            Request::UnwatchAll { request_id } => self.unwatch_all(request_id),
        }
    }

    /// After the root `removed` went, re-watches the next descendant at or
    /// after `from` where descendants need it, or else responds.
    fn rewatch_from(
        &mut self,
        request_id: usize,
        removed: String,
        from: usize,
        unwatch_error: Option<String>,
    ) -> (r: Step)
        requires
            registry_wf(old(self)@.entries),
            from <= old(self)@.entries.len(),
        ensures
            final(self)@.wf(),
            (final(self)@, r@) == old(self)@.rewatch_from(
                request_id,
                removed@,
                from as int,
                text_view(unwatch_error),
            ),
    {
        let ghost s0 = self@;
        if self.rewatch_descendants {
            let mut j: usize = from;
            while j < self.entries.len()
                invariant
                    from <= j <= self.entries.len(),
                    self@ == s0,
                    s0 == old(self)@,
                    s0.rewatch_descendants,
                    registry_wf(s0.entries),
                    forall|k: int|
                        from <= k < j ==> !path_starts_with(#[trigger] s0.entries[k].root, removed@),
                decreases self.entries.len() - j,
            {
                if starts_with(&self.entries[j].root, &removed) {
                    assert(descendant_at(s0.entries, removed@, from as int, j as int));
                    assert(has_descendant(s0.entries, removed@, from as int));
                    assert((choose|k: int| descendant_at(s0.entries, removed@, from as int, k))
                        == j as int);
                    let command = Command::Watch { root: self.entries[j].root.clone() };
                    self.pending = Pending::Rewatching {
                        request_id,
                        removed,
                        current: j,
                        unwatch_error,
                    };
                    return Step::Call { command };
                }
                j += 1;
            }
        }
        self.pending = Pending::Idle;
        match unwatch_error {
            Some(detail) => Step::Reply {
                message: Outgoing::ErrorResponse {
                    request_id,
                    description: joined("Error unwatching: ", &detail),
                },
            },
            None => Step::Reply { message: Outgoing::OkResponse { request_id } },
        }
    }

    /// Goes on serving the current request, given the outcome of the call it
    /// asked for last.
    pub fn resume(&mut self, outcome: Result<(), Failure>) -> (r: Step)
        requires
            old(self)@.wf(),
            !old(self)@.is_idle(),
        ensures
            final(self)@.wf(),
            (final(self)@, r@) == old(self)@.resume_step(outcome_view(outcome)),
    {
        let ghost s0 = self@;
        let mut pending = Pending::Idle;
        std::mem::swap(&mut self.pending, &mut pending);
        assert(pending@ == s0.pending);
        match pending {
            Pending::Idle => {
                self.pending = Pending::Idle;
                Step::Reply { message: Outgoing::WatcherError { description: String::new() } }
            },
            Pending::Watching { request_id, watch_id, root } => match outcome {
                Ok(()) => {
                    let ghost root_view = root@;
                    let ids = vec![watch_id];
                    assert(ids@ =~= seq![watch_id]);
                    self.entries.push(WatchEntry { root, ids });
                    assert(self@.entries =~= s0.entries.push(
                        EntryView { root: root_view, ids: seq![watch_id] },
                    ));
                    Step::Reply { message: Outgoing::OkResponse { request_id } }
                },
                Err(failure) => Step::Reply {
                    message: Outgoing::ErrorResponse {
                        request_id,
                        description: failure.description,
                    },
                },
            },
            Pending::Unwatching { request_id, root } => {
                let unwatch_error = match outcome {
                    Ok(()) => None,
                    Err(failure) => Some(failure.detail),
                };
                self.rewatch_from(request_id, root, 0, unwatch_error)
            },
            Pending::Rewatching { request_id, removed, current, unwatch_error } => match outcome {
                Ok(()) => {
                    assert(current < self@.entries.len());
                    assert(self@.entries.len() == self.entries.len());
                    self.rewatch_from(request_id, removed, current + 1, unwatch_error)
                },
                Err(failure) => Step::Reply {
                    message: Outgoing::ErrorResponse {
                        request_id,
                        description: joined(
                            "Error re-watching descendant of unwatched directory: ",
                            &failure.detail,
                        ),
                    },
                },
            },
            Pending::UnwatchingAll { request_id, roots, current } => match outcome {
                Ok(()) => if current < roots.len() - 1 {
                    let command = Command::Unwatch { root: roots[current + 1].clone() };
                    self.pending = Pending::UnwatchingAll { request_id, roots, current: current + 1 };
                    Step::Call { command }
                } else {
                    Step::Reply { message: Outgoing::OkResponse { request_id } }
                },
                Err(failure) => {
                    let mut description = String::from_str("Error unwatching \"");
                    description.append(roots[current].as_str());
                    description.append("\": ");
                    description.append(failure.detail.as_str());
                    Step::Reply { message: Outgoing::ErrorResponse { request_id, description } }
                },
            },
        }
    }

    /// The messages that one batch of raw events yields: for each entry whose
    /// root the batch concerns, one message per identifier, then one
    /// process-wide message per raw error that names no path.
    pub fn notify(&self, raws: &Vec<RawEvent>) -> (r: Vec<Outgoing>)
        ensures
            outgoing_view(r@) == dispatch_messages(self@.entries, raws@),
    {
        dispatch(&self.entries, raws)
    }

    /// The canonical roots currently watched, in the order they were added.
    pub fn roots(&self) -> (r: Vec<String>)
        ensures
            r@.map_values(|s: String| s@) == roots_of(self@.entries),
    {
        let ghost ev = self@.entries;
        let mut out: Vec<String> = Vec::new();
        let mut i: usize = 0;
        while i < self.entries.len()
            invariant
                i <= self.entries.len(),
                ev == entries_view(self.entries@),
                out@.map_values(|s: String| s@) =~= roots_of(ev).subrange(0, i as int),
            decreases self.entries.len() - i,
        {
            let ghost prev = out@;
            out.push(self.entries[i].root.clone());
            assert(out@.map_values(|s: String| s@) =~= prev.map_values(|s: String| s@).push(
                ev[i as int].root,
            ));
            i += 1;
        }
        assert(roots_of(ev).subrange(0, i as int) =~= roots_of(ev));
        out
    }

    /// The identifiers that share the watch on `root`, if it is watched.
    pub fn ids_for(&self, root: &String) -> (r: Option<Vec<usize>>)
        ensures
            match r {
                Some(ids) => exists|i: int|
                    root_at(self@.entries, root@, i) && #[trigger] self@.entries[i].ids == ids@,
                None => !has_root(self@.entries, root@),
            },
    {
        match find_root(&self.entries, root) {
            Some(i) => {
                let ids = self.entries[i].ids.clone();
                assert(ids@ =~= self@.entries[i as int].ids);
                Some(ids)
            },
            None => None,
        }
    }
}

} // verus!
