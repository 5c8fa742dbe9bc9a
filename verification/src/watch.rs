//! The decisions of the change watcher.
//!
//! The watcher waits for changes to the watched files. Changes that follow
//! each other closely are collected into one batch. A batch that holds a
//! modification starts a rebuild, and a rebuild that succeeds publishes one
//! refresh signal. The loop that waits, builds and publishes is the caller's:
//! it hands each thing that happened to [`step`] and does what comes back.

use vstd::prelude::*;

verus! {

/// The window in which changes are collected into one batch, in milliseconds.
pub const DEBOUNCE_MILLIS: u64 = 20;

/// What happened to a watched file.
#[derive(Debug, Clone, Copy, PartialEq, Eq, Structural)]
pub enum ChangeKind {
    /// The file was read or opened.
    Access,
    /// The file was created.
    Create,
    /// The content of the file was written.
    Write,
    /// The metadata of the file changed.
    Metadata,
    /// The file was renamed.
    Rename,
    /// The file was modified in another way.
    Modify,
    /// The file was removed.
    Remove,
    /// Anything else.
    Other,
}

/// Whether a change is a modification, which calls for a rebuild. Access,
/// removal and unknown changes are none.
pub open spec fn is_modification(kind: ChangeKind) -> bool {
    kind is Create || kind is Write || kind is Metadata || kind is Rename || kind is Modify
}

/// Whether a batch holds at least one modification.
pub open spec fn batch_modifies(kinds: Seq<ChangeKind>) -> bool {
    exists|i: int| 0 <= i < kinds.len() && is_modification(#[trigger] kinds[i])
}

/// Whether the change is a modification.
pub fn modifies(kind: ChangeKind) -> (modification: bool)
    ensures
        modification == is_modification(kind),
{
    match kind {
        ChangeKind::Create
        | ChangeKind::Write
        | ChangeKind::Metadata
        | ChangeKind::Rename
        | ChangeKind::Modify => true,
        ChangeKind::Access | ChangeKind::Remove | ChangeKind::Other => false,
    }
}

/// Whether the batch holds a modification and so calls for a rebuild.
pub fn calls_for_rebuild(kinds: &Vec<ChangeKind>) -> (rebuild: bool)
    ensures
        rebuild == batch_modifies(kinds@),
{
    let mut i: usize = 0;
    while i < kinds.len()
        invariant
            0 <= i <= kinds.len(),
            forall|j: int| 0 <= j < i ==> !is_modification(#[trigger] kinds@[j]),
        decreases kinds.len() - i,
    {
        if modifies(kinds[i]) {
            return true;
        }
        i = i + 1;
    }
    false
}

/// Where the watcher stands.
#[derive(Debug, Clone, Copy, PartialEq, Eq, Structural)]
pub enum WatchState {
    /// Waiting for the next change.
    Idle,
    /// Changes were seen and are being collected into a batch.
    Debouncing,
    /// A rebuild is under way.
    Rebuilding,
}

/// What happened.
#[derive(Debug, Clone, Copy, PartialEq, Eq, Structural)]
pub enum WatchEvent {
    /// A watched file changed. A caller that sees batches only never hands
    /// this in.
    Change,
    /// A batch of changes arrived; `modified` says whether it holds a
    /// modification.
    Batch { modified: bool },
    /// The watcher reported an error in place of a batch.
    Failure,
    /// The rebuild ended; `ok` says whether it succeeded.
    BuildFinished { ok: bool },
}

/// What the caller is to do.
#[derive(Debug, Clone, Copy, PartialEq, Eq, Structural)]
pub enum WatchAction {
    /// Nothing: wait for what happens next.
    Wait,
    /// Run a build and report how it ended.
    Rebuild,
    /// Publish one refresh signal.
    PublishRefresh,
    /// Report that the build failed, and publish nothing.
    ReportBuildFailure,
    /// Report the watcher's error.
    ReportWatchFailure,
    /// Hand the event in again when the rebuild has ended.
    Defer,
}

/// The state that follows `state` on `event`.
pub open spec fn next_state(state: WatchState, event: WatchEvent) -> WatchState {
    match (state, event) {
        (WatchState::Rebuilding, WatchEvent::BuildFinished { .. }) => WatchState::Idle,
        (WatchState::Rebuilding, _) => WatchState::Rebuilding,
        (_, WatchEvent::Change) => WatchState::Debouncing,
        (_, WatchEvent::Batch { modified: true }) => WatchState::Rebuilding,
        (_, WatchEvent::Batch { modified: false }) => WatchState::Idle,
        (_, WatchEvent::Failure) => WatchState::Idle,
        (_, WatchEvent::BuildFinished { .. }) => state,
    }
}

/// What is to be done in `state` on `event`.
pub open spec fn action_on(state: WatchState, event: WatchEvent) -> WatchAction {
    match (state, event) {
        (WatchState::Rebuilding, WatchEvent::BuildFinished { ok: true }) => {
            WatchAction::PublishRefresh
        },
        (WatchState::Rebuilding, WatchEvent::BuildFinished { ok: false }) => {
            WatchAction::ReportBuildFailure
        },
        (WatchState::Rebuilding, _) => WatchAction::Defer,
        (_, WatchEvent::Batch { modified: true }) => WatchAction::Rebuild,
        (_, WatchEvent::Failure) => WatchAction::ReportWatchFailure,
        (_, _) => WatchAction::Wait,
    }
}

/// One step of the watcher: the state that follows and what is to be done.
///
/// A change opens a batch, and further changes join it. A batch with a
/// modification starts a rebuild; other batches are passed over. While a
/// rebuild is under way nothing else is taken up. When it ends the watcher is
/// idle again, and a refresh signal goes out if and only if the build
/// succeeded.
pub fn step(state: WatchState, event: WatchEvent) -> (next: (WatchState, WatchAction))
    ensures
        next.0 == next_state(state, event),
        next.1 == action_on(state, event),
{
    match state {
        WatchState::Rebuilding => match event {
            WatchEvent::BuildFinished { ok } => {
                if ok {
                    (WatchState::Idle, WatchAction::PublishRefresh)
                } else {
                    (WatchState::Idle, WatchAction::ReportBuildFailure)
                }
            },
            _ => (WatchState::Rebuilding, WatchAction::Defer),
        },
        WatchState::Idle | WatchState::Debouncing => match event {
            WatchEvent::Change => (WatchState::Debouncing, WatchAction::Wait),
            WatchEvent::Batch { modified } => {
                if modified {
                    (WatchState::Rebuilding, WatchAction::Rebuild)
                } else {
                    (WatchState::Idle, WatchAction::Wait)
                }
            },
            WatchEvent::Failure => (WatchState::Idle, WatchAction::ReportWatchFailure),
            WatchEvent::BuildFinished { .. } => (state, WatchAction::Wait),
        },
    }
}

/// The state of a watcher that started idle, after `events`.
pub open spec fn state_after(events: Seq<WatchEvent>) -> WatchState
    decreases events.len(),
{
    if events.len() == 0 {
        WatchState::Idle
    } else {
        next_state(state_after(events.drop_last()), events.last())
    }
}

/// What a watcher that started idle does on the event at position `i`.
pub open spec fn action_at(events: Seq<WatchEvent>, i: int) -> WatchAction {
    action_on(state_after(events.take(i)), events[i])
}

/// While a rebuild is under way, there is an event before that started it,
/// and no build has ended since.
proof fn lemma_rebuild_was_started(events: Seq<WatchEvent>) -> (j: int)
    requires
        state_after(events) == WatchState::Rebuilding,
    ensures
        0 <= j < events.len(),
        action_at(events, j) == WatchAction::Rebuild,
        forall|m: int| j < m < events.len() ==> !(#[trigger] events[m] is BuildFinished),
    decreases events.len(),
{
    let front = events.drop_last();
    if state_after(front) == WatchState::Rebuilding {
        let j = lemma_rebuild_was_started(front);
        assert(front.take(j) =~= events.take(j));
        assert(front[j] == events[j]);
        assert forall|m: int| j < m < events.len() implies !(#[trigger] events[m]
            is BuildFinished) by {
            if m < front.len() {
                assert(front[m] == events[m]);
            }
        }
        j
    } else {
        let j = events.len() - 1;
        assert(events.take(j) =~= front);
        j
    }
}

/// A refresh signal goes out only when a build has ended well: the event that
/// brings it is the successful end of a build, a rebuild was started before
/// it, and no other build ended in between.
pub proof fn lemma_refresh_follows_build(events: Seq<WatchEvent>, i: int) -> (j: int)
    requires
        0 <= i < events.len(),
        action_at(events, i) == WatchAction::PublishRefresh,
    ensures
        events[i] == (WatchEvent::BuildFinished { ok: true }),
        0 <= j < i,
        action_at(events, j) == WatchAction::Rebuild,
        forall|m: int| j < m < i ==> !(#[trigger] events[m] is BuildFinished),
{
    let before = events.take(i);
    assert(state_after(before) == WatchState::Rebuilding);
    let j = lemma_rebuild_was_started(before);
    assert(before.take(j) =~= events.take(j));
    assert(before[j] == events[j]);
    assert forall|m: int| j < m < i implies !(#[trigger] events[m] is BuildFinished) by {
        assert(before[m] == events[m]);
    }
    j
}

/// One event brings at most one rebuild, and only a batch that holds a
/// modification brings one.
pub proof fn lemma_rebuild_needs_modification(events: Seq<WatchEvent>, i: int)
    requires
        0 <= i < events.len(),
        action_at(events, i) == WatchAction::Rebuild,
    ensures
        events[i] == (WatchEvent::Batch { modified: true }),
        state_after(events.take(i)) != WatchState::Rebuilding,
{
}

/// A burst of changes is collected into one batch, and the batch brings at
/// most one rebuild: while the changes come in the watcher waits, and when
/// their batch arrives it rebuilds once if the batch holds a modification, and
/// not at all if it holds none.
pub proof fn lemma_burst_rebuilds_once(events: Seq<WatchEvent>, modified: bool)
    requires
        events.len() > 0,
        forall|j: int| 0 <= j < events.len() - 1 ==> #[trigger] events[j] == WatchEvent::Change,
        events.last() == (WatchEvent::Batch { modified }),
    ensures
        forall|j: int| 0 <= j < events.len() - 1 ==> action_at(events, j) == WatchAction::Wait,
        action_at(events, events.len() - 1) == if modified {
            WatchAction::Rebuild
        } else {
            WatchAction::Wait
        },
        state_after(events) == if modified {
            WatchState::Rebuilding
        } else {
            WatchState::Idle
        },
{
    assert forall|j: int| 0 <= j < events.len() implies state_after(#[trigger] events.take(j))
        != WatchState::Rebuilding by {
        lemma_changes_never_rebuild(events.take(j));
    }
    assert(events.take(events.len() - 1) =~= events.drop_last());
}

/// After nothing but changes no rebuild is under way.
proof fn lemma_changes_never_rebuild(events: Seq<WatchEvent>)
    requires
        forall|j: int| 0 <= j < events.len() ==> #[trigger] events[j] == WatchEvent::Change,
    ensures
        state_after(events) != WatchState::Rebuilding,
    decreases events.len(),
{
    if events.len() > 0 {
        lemma_changes_never_rebuild(events.drop_last());
    }
}

} // verus!
