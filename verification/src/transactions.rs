//! Committing several transactions that started from the same state.
//!
//! The caller commits, waits and loads; what is to be done next, and whether
//! the operations came out in order, is decided here.

use vstd::prelude::*;

use crate::ids::id_views;
use crate::ids::id_views_are_the_ids;
use crate::ids::same_ids;
use crate::ids::OperationId;

verus! {

/// How long to wait after each transaction, in milliseconds, so that no two
/// operations have the same time.
pub const COMMIT_PAUSE_MILLIS: u64 = 1;

/// The description of each operation.
pub const COMMIT_DESCRIPTION: &'static str = "test";

/// What the caller is to do next.
#[derive(Debug, PartialEq, Eq, Clone, Copy, Structural)]
pub enum TransactionAction {
    /// Commit the transaction with this index, under `COMMIT_DESCRIPTION`.
    Commit(usize),
    /// Wait for so many milliseconds.
    Pause(u64),
    /// Load the repository with all operations merged.
    LoadHead,
}

/// How far the transactions are committed.
#[derive(Debug)]
pub struct CommitRun {
    total: usize,
    op_ids: Vec<OperationId>,
    pausing: bool,
}

/// A `CommitRun` over views.
pub struct CommitRunView {
    /// How many transactions there are.
    pub total: nat,
    /// The operations of the committed ones, in order.
    pub op_ids: Seq<Seq<u8>>,
    /// Whether the pause after the last one is still to come.
    pub pausing: bool,
}

impl CommitRunView {
    /// What is to be done next.
    pub open spec fn action(self) -> TransactionAction {
        if self.pausing {
            TransactionAction::Pause(COMMIT_PAUSE_MILLIS)
        } else if self.op_ids.len() < self.total {
            TransactionAction::Commit(self.op_ids.len() as usize)
        } else {
            TransactionAction::LoadHead
        }
    }

    /// The state before any of `total` transactions is committed.
    pub open spec fn start(total: nat) -> Self {
        CommitRunView { total, op_ids: Seq::empty(), pausing: false }
    }

    /// The state after the next transaction was committed as the operation
    /// `op_id`.
    pub open spec fn committed(self, op_id: Seq<u8>) -> Self {
        CommitRunView { total: self.total, op_ids: self.op_ids.push(op_id), pausing: true }
    }

    /// The state after the pause.
    pub open spec fn paused(self) -> Self {
        CommitRunView { total: self.total, op_ids: self.op_ids, pausing: false }
    }

    /// No more transactions are committed than there are.
    pub open spec fn wf(self) -> bool {
        self.op_ids.len() <= self.total <= usize::MAX
    }
}

impl View for CommitRun {
    type V = CommitRunView;

    closed spec fn view(&self) -> CommitRunView {
        CommitRunView {
            total: self.total as nat,
            op_ids: id_views(self.op_ids@),
            pausing: self.pausing,
        }
    }
}

/// Starts to commit `total` transactions, of which there must be one.
pub fn commit_transactions(total: usize) -> (res: CommitRun)
    requires
        total > 0,
    ensures
        res@ == CommitRunView::start(total as nat),
        res@.total == total,
        res@.op_ids.len() == 0,
        !res@.pausing,
{
    let op_ids: Vec<OperationId> = Vec::new();
    assert(id_views(op_ids@) =~= Seq::<Seq<u8>>::empty());
    CommitRun { total, op_ids, pausing: false }
}

impl CommitRun {
    #[verifier::type_invariant]
    spec fn valid(self) -> bool {
        self@.wf()
    }

    /// What is to be done next.
    pub fn action(&self) -> (res: TransactionAction)
        ensures
            res == self@.action(),
            self@.wf(),
            self@.pausing ==> res == TransactionAction::Pause(1),
            !self@.pausing && self@.op_ids.len() < self@.total ==> res == TransactionAction::Commit(
                self@.op_ids.len() as usize,
            ),
            !self@.pausing && self@.op_ids.len() == self@.total ==> res
                == TransactionAction::LoadHead,
    {
        proof {
            use_type_invariant(self);
        }
        if self.pausing {
            TransactionAction::Pause(COMMIT_PAUSE_MILLIS)
        } else if self.op_ids.len() < self.total {
            TransactionAction::Commit(self.op_ids.len())
        } else {
            TransactionAction::LoadHead
        }
    }

    /// Goes on after a transaction was committed as the operation `op_id`.
    pub fn committed(&mut self, op_id: OperationId)
        requires
            old(self)@.action() is Commit,
        ensures
            final(self)@ == old(self)@.committed(op_id@),
            final(self)@.total == old(self)@.total,
            final(self)@.op_ids == old(self)@.op_ids.push(op_id@),
            final(self)@.pausing,
    {
        proof {
            use_type_invariant(&*self);
        }
        let mut op_ids: Vec<OperationId> = Vec::new();
        std::mem::swap(&mut op_ids, &mut self.op_ids);
        let ghost before = op_ids@;
        op_ids.push(op_id);
        assert(id_views(op_ids@) =~= id_views(before).push(op_id@));
        self.op_ids = op_ids;
        self.pausing = true;
    }

    /// Goes on after the pause.
    pub fn paused(&mut self)
        requires
            old(self)@.action() is Pause,
        ensures
            final(self)@ == old(self)@.paused(),
            final(self)@.total == old(self)@.total,
            final(self)@.op_ids == old(self)@.op_ids,
            !final(self)@.pausing,
    {
        proof {
            use_type_invariant(&*self);
        }
        self.pausing = false;
    }

    /// Whether the loaded repository merged the operations in the order in
    /// which they were committed: whether they are the parents of its operation
    /// in that order.
    pub fn merged_in_order(&self, parent_ids: &Vec<OperationId>) -> (res: bool)
        requires
            self@.action() is LoadHead,
        ensures
            res == (id_views(parent_ids@) == self@.op_ids),
            res <==> parent_ids@.len() == self@.op_ids.len() && forall|i: int|
                0 <= i < parent_ids@.len() ==> (#[trigger] parent_ids@[i])@ == self@.op_ids[i],
    {
        proof {
            order_is_checked_exactly(parent_ids@, self@.op_ids);
        }
        same_ids(parent_ids, &self.op_ids)
    }
}

/// The operations were merged in order if and only if there are as many parents
/// as operations, and each parent is the operation at its place.
pub proof fn order_is_checked_exactly(parent_ids: Seq<OperationId>, op_ids: Seq<Seq<u8>>)
    ensures
        id_views(parent_ids) == op_ids <==> parent_ids.len() == op_ids.len() && forall|i: int|
            0 <= i < parent_ids.len() ==> (#[trigger] parent_ids[i])@ == op_ids[i],
{
    id_views_are_the_ids(parent_ids);
    if id_views(parent_ids) == op_ids {
        assert forall|i: int| 0 <= i < parent_ids.len() implies (#[trigger] parent_ids[i])@
            == op_ids[i] by {
            assert(id_views(parent_ids)[i] == parent_ids[i]@);
        }
    } else if parent_ids.len() == op_ids.len() && forall|i: int|
        0 <= i < parent_ids.len() ==> (#[trigger] parent_ids[i])@ == op_ids[i] {
        assert(id_views(parent_ids) =~= op_ids);
    }
}

/// Each commit adds its operation at the end and calls for a pause of one
/// millisecond, each pause ends that and adds nothing, and the number of
/// transactions never changes. Every operation is described as `test`.
pub proof fn run_moves_exactly(run: CommitRunView, total: nat, op_id: Seq<u8>)
    ensures
        CommitRunView::start(total).total == total,
        CommitRunView::start(total).op_ids.len() == 0,
        !CommitRunView::start(total).pausing,
        run.committed(op_id).total == run.total,
        run.committed(op_id).op_ids == run.op_ids.push(op_id),
        run.committed(op_id).action() == TransactionAction::Pause(1),
        run.paused().total == run.total,
        run.paused().op_ids == run.op_ids,
        !(run.paused().action() is Pause),
        run.paused().action() is LoadHead <==> run.op_ids.len() >= run.total,
        COMMIT_DESCRIPTION@ == "test"@,
{
}

/// The state after the first transactions of `total` were committed as the
/// operations `op_ids`, with the pause after each.
pub open spec fn run_after(total: nat, op_ids: Seq<Seq<u8>>) -> CommitRunView
    decreases op_ids.len(),
{
    if op_ids.len() == 0 {
        CommitRunView::start(total)
    } else {
        run_after(total, op_ids.drop_last()).committed(op_ids.last()).paused()
    }
}

/// The transactions are committed one after the other in the order in which
/// they were given, with a pause after each, and only then is the repository
/// loaded. What its parents are compared with is the list of all operations in
/// that order.
pub proof fn transactions_in_order(total: nat, op_ids: Seq<Seq<u8>>, next: Seq<u8>)
    requires
        0 < total <= usize::MAX,
        op_ids.len() <= total,
    ensures
        run_after(total, op_ids).wf(),
        run_after(total, op_ids).total == total,
        run_after(total, op_ids).op_ids == op_ids,
        op_ids.len() < total ==> run_after(total, op_ids).action() == TransactionAction::Commit(
            op_ids.len() as usize,
        ),
        op_ids.len() < total ==> run_after(total, op_ids).committed(next).action()
            == TransactionAction::Pause(COMMIT_PAUSE_MILLIS),
        op_ids.len() == total ==> run_after(total, op_ids).action() == TransactionAction::LoadHead,
    decreases op_ids.len(),
{
    if op_ids.len() > 0 {
        transactions_in_order(total, op_ids.drop_last(), next);
        assert(op_ids.drop_last().push(op_ids.last()) =~= op_ids);
        assert(run_after(total, op_ids) == run_after(total, op_ids.drop_last()).committed(
            op_ids.last(),
        ).paused());
    } else {
        assert(run_after(total, op_ids).op_ids =~= op_ids);
    }
}

} // verus!
