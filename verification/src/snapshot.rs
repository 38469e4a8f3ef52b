//! Taking a snapshot of the working copy.
//!
//! The caller works on the disk; what comes next after each action is decided
//! here.

use vstd::prelude::*;

use crate::ids::OperationId;
use crate::setup::TestWorkspace;
use crate::text::unwrap_failed;
use crate::text::unwrap_message;
use crate::tree::MergedTreeId;

verus! {

/// How far a snapshot is, and so what the caller is to do next.
///
/// Saving the state of the working copy is the only action that leaves anything
/// behind: none makes an operation or a commit.
#[derive(Debug, PartialEq, Eq)]
pub enum SnapshotState {
    /// Lock the working copy.
    Lock {
        /// The operation to save the state under.
        op_id: OperationId,
    },
    /// Take the snapshot.
    Snapshot {
        /// The operation to save the state under.
        op_id: OperationId,
    },
    /// Save the state of the working copy, and unlock it.
    Finish {
        /// The tree of the snapshot, which the working copy is now at.
        tree: MergedTreeId,
        /// The operation to save the state under.
        op_id: OperationId,
    },
    /// Read the tree of the snapshot.
    ReadTree(MergedTreeId),
    /// The tree of the snapshot was read.
    Done(MergedTreeId),
    /// No snapshot was taken, for a reason that is handed to the caller; the
    /// working copy was unlocked without saving anything.
    Refused,
    /// Another action failed, and this is what to say.
    Failed(String),
}

/// How an action of the caller ended.
#[derive(Debug, PartialEq, Eq)]
pub enum SnapshotEvent {
    /// An action other than the snapshot was done.
    Done,
    /// The snapshot was taken, and has this tree.
    Snapshotted(MergedTreeId),
    /// The action failed, with an error that reads like this in debugging
    /// output.
    Failure(String),
}

/// What follows when the action that `before` asks for ends in `event`. An event
/// that cannot come in this state changes nothing.
pub open spec fn snapshot_step(
    before: SnapshotState,
    event: SnapshotEvent,
    after: SnapshotState,
) -> bool {
    match (before, event) {
        (SnapshotState::Lock { op_id }, SnapshotEvent::Done) => {
            after == (SnapshotState::Snapshot { op_id })
        },
        (SnapshotState::Snapshot { op_id }, SnapshotEvent::Snapshotted(tree)) => {
            after == (SnapshotState::Finish { tree, op_id })
        },
        (SnapshotState::Finish { tree, .. }, SnapshotEvent::Done) => {
            after == SnapshotState::ReadTree(tree)
        },
        (SnapshotState::ReadTree(tree), SnapshotEvent::Done) => after == SnapshotState::Done(tree),
        (SnapshotState::Snapshot { .. }, SnapshotEvent::Failure(_)) => {
            after == SnapshotState::Refused
        },
        (
            SnapshotState::Lock { .. } | SnapshotState::Finish { .. } | SnapshotState::ReadTree(_),
            SnapshotEvent::Failure(debug),
        ) => {
            &&& after matches SnapshotState::Failed(message)
            &&& message@ == unwrap_message(debug@)
        },
        _ => after == before,
    }
}

impl TestWorkspace {
    /// Starts to take a snapshot of the working copy, whose state is to be saved
    /// under the operation `op_id`, which the repository is at. The options
    /// matter to the snapshot alone, and so to the caller.
    pub fn snapshot_with_options(&self, op_id: OperationId) -> (res: SnapshotState)
        ensures
            res == (SnapshotState::Lock { op_id }),
    {
        SnapshotState::Lock { op_id }
    }
}

impl SnapshotState {
    /// Goes on after the action that this state asks for has ended.
    pub fn step(self, event: SnapshotEvent) -> (res: SnapshotState)
        ensures
            snapshot_step(self, event, res),
    {
        match (self, event) {
            (SnapshotState::Lock { op_id }, SnapshotEvent::Done) => SnapshotState::Snapshot {
                op_id,
            },
            (SnapshotState::Snapshot { op_id }, SnapshotEvent::Snapshotted(tree)) => {
                SnapshotState::Finish { tree, op_id }
            },
            (SnapshotState::Finish { tree, .. }, SnapshotEvent::Done) => {
                SnapshotState::ReadTree(tree)
            },
            (SnapshotState::ReadTree(tree), SnapshotEvent::Done) => SnapshotState::Done(tree),
            (SnapshotState::Snapshot { .. }, SnapshotEvent::Failure(_)) => SnapshotState::Refused,
            (
                SnapshotState::Lock { .. } | SnapshotState::Finish { .. } | SnapshotState::ReadTree(
                    _,
                ),
                SnapshotEvent::Failure(debug),
            ) => SnapshotState::Failed(unwrap_failed(debug.as_str())),
            (state, _) => state,
        }
    }
}

/// The actions come one after the other: lock, take the snapshot, save under the
/// given operation what the snapshot gave, and read that tree. A failure of the
/// snapshot is handed on, any other failure is said, and nothing else moves.
pub proof fn snapshot_goes_on_exactly(
    before: SnapshotState,
    event: SnapshotEvent,
    after: SnapshotState,
)
    requires
        snapshot_step(before, event, after),
    ensures
        before matches SnapshotState::Lock { op_id } ==> (event is Done ==> after == (
        SnapshotState::Snapshot { op_id })),
        before matches SnapshotState::Snapshot { op_id } ==> (
        event matches SnapshotEvent::Snapshotted(tree) ==> after == (SnapshotState::Finish {
            tree,
            op_id,
        })),
        before matches SnapshotState::Finish { tree, .. } ==> (event is Done ==> after
            == SnapshotState::ReadTree(tree)),
        before matches SnapshotState::ReadTree(tree) ==> (event is Done ==> after
            == SnapshotState::Done(tree)),
        before is Snapshot && event is Failure ==> after is Refused,
        (before is Lock || before is Finish || before is ReadTree) && event is Failure ==> {
            &&& after matches SnapshotState::Failed(message)
            &&& message@ == "called `Result::unwrap()` on an `Err` value: "@ + event->Failure_0@
        },
        before is Snapshot && event is Done ==> after == before,
        !(before is Snapshot) && event is Snapshotted ==> after == before,
        before is Done || before is Refused || before is Failed ==> after == before,
{
}

/// The tree that a state carries.
pub open spec fn carried_tree(state: SnapshotState) -> Option<MergedTreeId> {
    match state {
        SnapshotState::Finish { tree, .. } => Some(tree),
        SnapshotState::ReadTree(tree) => Some(tree),
        SnapshotState::Done(tree) => Some(tree),
        _ => None,
    }
}

/// What the action of `state`, ending in `event`, saves as the state of the
/// working copy: its tree and its operation, if it saves anything.
pub open spec fn saved(state: SnapshotState, event: SnapshotEvent) -> Option<
    (MergedTreeId, OperationId),
> {
    match (state, event) {
        (SnapshotState::Finish { tree, op_id }, SnapshotEvent::Done) => Some((tree, op_id)),
        _ => None,
    }
}

/// Whether `states` are what a snapshot that is to be saved under `op_id` goes
/// through when its actions end in `events`.
pub open spec fn is_snapshot_run(
    op_id: OperationId,
    states: Seq<SnapshotState>,
    events: Seq<SnapshotEvent>,
) -> bool {
    &&& states.len() == events.len() + 1
    &&& states[0] == (SnapshotState::Lock { op_id })
    &&& forall|i: int|
        0 <= i < events.len() ==> snapshot_step(#[trigger] states[i], events[i], states[i + 1])
}

/// Whether nothing is saved in a run.
pub open spec fn saves_nothing(states: Seq<SnapshotState>, events: Seq<SnapshotEvent>) -> bool {
    forall|i: int| 0 <= i < events.len() ==> saved(#[trigger] states[i], events[i]) is None
}

proof fn nothing_saved_so_far(states: Seq<SnapshotState>, events: Seq<SnapshotEvent>)
    requires
        0 < events.len() < states.len(),
        saves_nothing(states.drop_last(), events.drop_last()),
        saved(states[events.len() - 1], events.last()) is None,
    ensures
        saves_nothing(states, events),
{
    assert forall|i: int| 0 <= i < events.len() implies saved(#[trigger] states[i], events[i]) is None by {
        if i < events.len() - 1 {
            assert(states.drop_last()[i] == states[i]);
        }
    }
}

/// A state is saved only after a snapshot was taken, and with the tree of that
/// snapshot.
pub proof fn finish_follows_snapshot(before: SnapshotState, event: SnapshotEvent, after: SnapshotState)
    requires
        snapshot_step(before, event, after),
        after is Finish,
        before != after,
    ensures
        before is Snapshot,
        event == SnapshotEvent::Snapshotted(after->tree),
{
}

/// Once a snapshot was taken, its tree stays the same to the end, unless an
/// action fails.
pub proof fn tree_is_kept(before: SnapshotState, event: SnapshotEvent, after: SnapshotState)
    requires
        snapshot_step(before, event, after),
        carried_tree(before) is Some,
    ensures
        after is Failed || carried_tree(after) == carried_tree(before),
        after is Failed ==> event is Failure,
{
}

/// A snapshot that is refused is refused by the snapshot itself, and ends
/// without anything being saved.
pub proof fn refused_saves_nothing(
    op_id: OperationId,
    states: Seq<SnapshotState>,
    events: Seq<SnapshotEvent>,
)
    requires
        is_snapshot_run(op_id, states, events),
        states.last() is Refused,
    ensures
        exists|i: int|
            0 <= i < events.len() && (#[trigger] states[i]) is Snapshot && events[i] is Failure,
        saves_nothing(states, events),
    decreases events.len(),
{
    let last = events.len() - 1;
    if last >= 0 {
        assert(snapshot_step(states[last], events[last], states[last + 1]));
        if states[last] is Refused {
            refused_saves_nothing(op_id, states.drop_last(), events.drop_last());
            let i = choose|i: int|
                0 <= i < events.drop_last().len() && (#[trigger] states.drop_last()[i]) is Snapshot
                    && events.drop_last()[i] is Failure;
            assert(states[i] is Snapshot);
            nothing_saved_so_far(states, events);
        } else {
            no_state_saved_before_snapshot(op_id, states.drop_last(), events.drop_last());
            nothing_saved_so_far(states, events);
        }
    }
}

/// Until the snapshot is taken nothing is saved, and the operation to save the
/// state under is the one that was given.
pub proof fn no_state_saved_before_snapshot(
    op_id: OperationId,
    states: Seq<SnapshotState>,
    events: Seq<SnapshotEvent>,
)
    requires
        is_snapshot_run(op_id, states, events),
        states.last() is Lock || states.last() is Snapshot || states.last() is Finish,
    ensures
        states.last() matches SnapshotState::Lock { op_id: kept } ==> kept == op_id,
        states.last() matches SnapshotState::Snapshot { op_id: kept } ==> kept == op_id,
        states.last() matches SnapshotState::Finish { op_id: kept, .. } ==> kept == op_id,
        saves_nothing(states, events),
    decreases events.len(),
{
    let last = events.len() - 1;
    if last >= 0 {
        assert(snapshot_step(states[last], events[last], states[last + 1]));
        no_state_saved_before_snapshot(op_id, states.drop_last(), events.drop_last());
        nothing_saved_so_far(states, events);
    }
}

/// A snapshot that ends with a tree has saved one state: that of this tree,
/// under the operation that the repository is at.
pub proof fn done_saves_once(
    op_id: OperationId,
    states: Seq<SnapshotState>,
    events: Seq<SnapshotEvent>,
)
    requires
        is_snapshot_run(op_id, states, events),
        states.last() is ReadTree || states.last() is Done,
    ensures
        exists|i: int|
            0 <= i < events.len() && saved(#[trigger] states[i], events[i]) == Some(
                (carried_tree(states.last())->0, op_id),
            ),
        forall|i: int, j: int|
            0 <= i < events.len() && 0 <= j < events.len() && saved(
                #[trigger] states[i],
                events[i],
            ) is Some && saved(#[trigger] states[j], events[j]) is Some ==> i == j,
    decreases events.len(),
{
    let last = events.len() - 1;
    assert(last >= 0);
    let fewer_states = states.drop_last();
    let fewer_events = events.drop_last();
    assert(snapshot_step(states[last], events[last], states[last + 1]));
    if states[last] is Finish {
        no_state_saved_before_snapshot(op_id, fewer_states, fewer_events);
        assert(saved(states[last], events[last]) == Some(
            (carried_tree(states.last())->0, op_id),
        ));
    } else {
        done_saves_once(op_id, fewer_states, fewer_events);
        let i = choose|i: int|
            0 <= i < fewer_events.len() && saved(#[trigger] fewer_states[i], fewer_events[i]) == Some(
                (carried_tree(fewer_states.last())->0, op_id),
            );
        assert(saved(states[i], events[i]) == Some((carried_tree(states.last())->0, op_id)));
    }
    assert forall|i: int, j: int|
        0 <= i < events.len() && 0 <= j < events.len() && saved(
            #[trigger] states[i],
            events[i],
        ) is Some && saved(#[trigger] states[j], events[j]) is Some implies i == j by {
        if i < last {
            assert(fewer_states[i] == states[i]);
        }
        if j < last {
            assert(fewer_states[j] == states[j]);
        }
    }
}

} // verus!
