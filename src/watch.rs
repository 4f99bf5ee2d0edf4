//! The decisions of the filesystem watcher: which events trigger a rebuild,
//! when watching ends, and how a trigger is shown. Subscribing to the
//! platform's notifications and waiting on them stays with the caller, which
//! hands each received item to [`step`].
use vstd::prelude::*;

verus! {

/// The kind of a filesystem event, as the platform reports it.
#[derive(Clone, Copy, Debug, PartialEq, Eq, Structural)]
pub enum EventKind {
    Any,
    Access,
    Create,
    Modify,
    Remove,
    Other,
}

/// The kind of change that a trigger reports.
#[derive(Clone, Copy, Debug, PartialEq, Eq, Structural)]
pub enum TriggerKind {
    Any,
    Create,
    Modify,
    Remove,
    Other,
}

/// The label of a trigger kind.
pub open spec fn kind_label(kind: TriggerKind) -> Seq<char> {
    match kind {
        TriggerKind::Any => "any"@,
        TriggerKind::Create => "create"@,
        TriggerKind::Modify => "modify"@,
        TriggerKind::Remove => "remove"@,
        TriggerKind::Other => "other"@,
    }
}

/// The trigger kind of an event kind; none for access, which mutates nothing.
pub open spec fn classification(kind: EventKind) -> Option<TriggerKind> {
    match kind {
        EventKind::Any => Some(TriggerKind::Any),
        EventKind::Access => None,
        EventKind::Create => Some(TriggerKind::Create),
        EventKind::Modify => Some(TriggerKind::Modify),
        EventKind::Remove => Some(TriggerKind::Remove),
        EventKind::Other => Some(TriggerKind::Other),
    }
}

impl TriggerKind {
    /// The label: `any`, `create`, `modify`, `remove` or `other`.
    pub fn as_str(&self) -> (r: &'static str)
        ensures
            r@ == kind_label(*self),
    {
        match self {
            TriggerKind::Any => "any",
            TriggerKind::Create => "create",
            TriggerKind::Modify => "modify",
            TriggerKind::Remove => "remove",
            TriggerKind::Other => "other",
        }
    }
}

/// The trigger kind of an event kind, or `None` for an access event.
pub fn classify(kind: EventKind) -> (r: Option<TriggerKind>)
    ensures
        r == classification(kind),
{
    match kind {
        EventKind::Any => Some(TriggerKind::Any),
        EventKind::Access => None,
        EventKind::Create => Some(TriggerKind::Create),
        EventKind::Modify => Some(TriggerKind::Modify),
        EventKind::Remove => Some(TriggerKind::Remove),
        EventKind::Other => Some(TriggerKind::Other),
    }
}

/// Whether the watcher still receives events.
#[derive(Clone, Copy, Debug, PartialEq, Eq, Structural)]
pub enum WatchState {
    Active,
    Closed,
}

/// What the watcher took from its event channel.
#[derive(Clone, Copy, Debug, PartialEq, Eq, Structural)]
pub enum Received {
    /// The channel is closed: no event will come.
    Closed,
    /// The platform reported an error instead of an event.
    Failed,
    /// An event of this kind.
    Event(EventKind),
}

/// What the watcher does with what it received.
#[derive(Clone, Copy, Debug, PartialEq, Eq, Structural)]
pub enum Action {
    /// Watching has ended; report that to the caller.
    End,
    /// Report the platform's error to the caller.
    Fail,
    /// Ignore the event and wait for the next one.
    Skip,
    /// Report a trigger of this kind to the caller.
    Emit(TriggerKind),
}

/// The next state and the action, given the state and what was received.
pub open spec fn next(state: WatchState, received: Received) -> (WatchState, Action) {
    match state {
        WatchState::Closed => (WatchState::Closed, Action::End),
        WatchState::Active => match received {
            Received::Closed => (WatchState::Closed, Action::End),
            Received::Failed => (WatchState::Active, Action::Fail),
            Received::Event(kind) => match classification(kind) {
                None => (WatchState::Active, Action::Skip),
                Some(t) => (WatchState::Active, Action::Emit(t)),
            },
        },
    }
}

/// One step of the watch loop: a closed channel ends watching for good, a
/// platform error is reported, an access event is skipped and any other
/// event is reported as a trigger of its kind.
pub fn step(state: WatchState, received: Received) -> (r: (WatchState, Action))
    ensures
        r == next(state, received),
{
    match state {
        WatchState::Closed => (WatchState::Closed, Action::End),
        WatchState::Active => match received {
            Received::Closed => (WatchState::Closed, Action::End),
            Received::Failed => (WatchState::Active, Action::Fail),
            Received::Event(kind) => match classify(kind) {
                None => (WatchState::Active, Action::Skip),
                Some(t) => (WatchState::Active, Action::Emit(t)),
            },
        },
    }
}

/// Once the channel has been seen closed, every later step ends watching
/// again, whatever is received later.
pub proof fn lemma_closed_channel_ends_watching(
    state: WatchState,
    later: Seq<Received>,
)
    ensures
        ({
            let closed = next(state, Received::Closed).0;
            &&& next(state, Received::Closed).1 == Action::End
            &&& forall|i: int|
                0 <= i < later.len() ==> #[trigger] next(closed, later[i]) == (
                    WatchState::Closed,
                    Action::End,
                )
        }),
{
}

/// What one call of the watch loop reports, given the state and the items
/// that the channel hands out in order: the first action that is not a
/// skip, or none where every item is skipped.
pub open spec fn watch_outcome(state: WatchState, items: Seq<Received>) -> Option<Action>
    decreases items.len(),
{
    if items.len() == 0 {
        None
    } else {
        let (s, a) = next(state, items[0]);
        if a == Action::Skip {
            watch_outcome(s, items.subrange(1, items.len() as int))
        } else {
            Some(a)
        }
    }
}

/// Access events on an active watcher yield no trigger: where only access
/// events come before the channel closes, the watch loop consumes them all
/// and then reports that watching has ended.
pub proof fn lemma_access_events_end_without_trigger(events: Seq<Received>)
    requires
        forall|i: int| 0 <= i < events.len() ==> #[trigger] events[i] == Received::Event(
            EventKind::Access,
        ),
    ensures
        watch_outcome(WatchState::Active, events.push(Received::Closed)) == Some(Action::End),
    decreases events.len(),
{
    let items = events.push(Received::Closed);
    if events.len() > 0 {
        let rest = events.subrange(1, events.len() as int);
        assert(items.subrange(1, items.len() as int) =~= rest.push(Received::Closed));
        assert(items[0] == events[0]);
        lemma_access_events_end_without_trigger(rest);
    }
}

/// What `std::path::Path::strip_prefix` makes of `path` and `prefix`: the
/// rest of `path` after the components of `prefix`, or none where `prefix`
/// does not begin it.
pub uninterp spec fn stripped_path(path: Seq<char>, prefix: Seq<char>) -> Option<Seq<char>>;

/// Relies on `std::path::Path::strip_prefix`, which depends on the two paths
/// alone, and on `to_string_lossy`, which is lossless on what comes from a
/// `str`.
#[verifier::external_body]
fn strip_prefix(path: &str, prefix: &str) -> (r: Option<String>)
    ensures
        match r {
            Some(rest) => stripped_path(path@, prefix@) == Some(rest@),
            None => stripped_path(path@, prefix@) is None,
        },
{
    match std::path::Path::new(path).strip_prefix(prefix) {
        Ok(rest) => Some(rest.to_string_lossy().into_owned()),
        Err(_) => None,
    }
}

/// How a path is shown: relative to `prefix` where it lies under it, else
/// as it is.
pub open spec fn shown_path(path: Seq<char>, prefix: Seq<char>) -> Seq<char> {
    match stripped_path(path, prefix) {
        Some(rest) => rest,
        None => path,
    }
}

/// The paths, each shown relative to `prefix`, separated by `, `.
pub open spec fn shown_paths(paths: Seq<String>, prefix: Seq<char>) -> Seq<char>
    decreases paths.len(),
{
    if paths.len() == 0 {
        Seq::empty()
    } else if paths.len() == 1 {
        shown_path(paths[0]@, prefix)
    } else {
        shown_path(paths[0]@, prefix) + ", "@ + shown_paths(
            paths.subrange(1, paths.len() as int),
            prefix,
        )
    }
}

/// How a path is shown, given what stripping the watched directory from it
/// gave: the rest where there was one, else the path as it is.
pub fn show_path(path: &str, stripped: Option<String>) -> (r: String)
    ensures
        r@ == match stripped {
            Some(rest) => rest@,
            None => path@,
        },
{
    match stripped {
        Some(rest) => rest,
        None => String::from_str(path),
    }
}

/// A change under the watched directory that is worth a rebuild: its kind,
/// the paths it concerns, and the canonical watched directory, against which
/// the paths are shown.
#[derive(Debug)]
pub struct Trigger {
    pub kind: TriggerKind,
    pub paths: Vec<String>,
    pub prefix: String,
}

/// How a trigger is shown: its kind's label, a space, and its paths.
pub open spec fn trigger_text(t: Trigger) -> Seq<char> {
    kind_label(t.kind) + " "@ + shown_paths(t.paths@, t.prefix@)
}

impl Trigger {
    /// The trigger for an event of kind `kind` on `paths` under the
    /// canonical directory `prefix`; none for an access event.
    pub fn new(kind: EventKind, paths: Vec<String>, prefix: String) -> (r: Option<Trigger>)
        ensures
            match classification(kind) {
                None => r is None,
                Some(k) => r matches Some(t) && t.kind == k && t.paths == paths && t.prefix
                    == prefix,
            },
    {
        match classify(kind) {
            None => None,
            Some(k) => Some(Trigger { kind: k, paths, prefix }),
        }
    }

    /// The trigger as text: its kind's label, a space, then its paths,
    /// separated by `, `, each relative to the prefix where it lies under
    /// it and as it is otherwise.
    pub fn render(&self) -> (r: String)
        ensures
            r@ == trigger_text(*self),
    {
        let mut text = String::from_str(self.kind.as_str());
        text.append(" ");
        let ghost head = text@;
        let n = self.paths.len();
        assert(self.paths@.subrange(0, n as int) =~= self.paths@);
        let mut i: usize = 0;
        while i < n
            invariant
                n == self.paths@.len(),
                i <= n,
                head == kind_label(self.kind) + " "@,
                text@ + shown_paths(self.paths@.subrange(i as int, n as int), self.prefix@) == head
                    + shown_paths(self.paths@, self.prefix@),
            decreases n - i,
        {
            let ghost rest = self.paths@.subrange(i as int, n as int);
            assert(rest.subrange(1, rest.len() as int) =~= self.paths@.subrange(i + 1, n as int));
            let path = self.paths[i].as_str();
            let shown = show_path(path, strip_prefix(path, self.prefix.as_str()));
            text.append(shown.as_str());
            if i < n - 1 {
                text.append(", ");
            }
            i = i + 1;
        }
        assert(self.paths@.subrange(i as int, n as int) =~= Seq::<String>::empty());
        assert(text@ =~= head + shown_paths(self.paths@, self.prefix@));
        text
    }
}

} // verus!
