//! Checks on what became of commits in a rebase.

use vstd::prelude::*;

use crate::commits::Commit;
use crate::ids::hex;
use crate::ids::id_views;
use crate::ids::id_views_agree;
use crate::ids::same_ids;
use crate::ids::CommitId;

verus! {

/// Which commit each rebased commit became.
#[derive(Debug)]
pub struct RebasedMap {
    /// Each old commit with its new one; of entries for the same old commit the
    /// last one counts.
    entries: Vec<(CommitId, CommitId)>,
}

/// The map that a list of entries stands for.
pub open spec fn entries_map(entries: Seq<(CommitId, CommitId)>) -> Map<Seq<u8>, Seq<u8>>
    decreases entries.len(),
{
    if entries.len() == 0 {
        Map::empty()
    } else {
        entries_map(entries.drop_last()).insert(entries.last().0@, entries.last().1@)
    }
}

impl View for RebasedMap {
    type V = Map<Seq<u8>, Seq<u8>>;

    closed spec fn view(&self) -> Map<Seq<u8>, Seq<u8>> {
        entries_map(self.entries@)
    }
}

impl RebasedMap {
    /// The map of a rebase that touched nothing.
    pub fn new() -> (res: Self)
        ensures
            res@ == Map::<Seq<u8>, Seq<u8>>::empty(),
    {
        RebasedMap { entries: Vec::new() }
    }

    /// Notes that the commit `old_id` became `new_id`.
    pub fn insert(&mut self, old_id: CommitId, new_id: CommitId)
        ensures
            final(self)@ == old(self)@.insert(old_id@, new_id@),
    {
        let ghost before = self.entries@;
        self.entries.push((old_id, new_id));
        assert(self.entries@.drop_last() =~= before);
    }

    /// What the commit `id` became, if it was rebased.
    pub fn get(&self, id: &CommitId) -> (res: Option<&CommitId>)
        ensures
            match res {
                Some(new_id) => self@.contains_key(id@) && self@[id@] == new_id@,
                None => !self@.contains_key(id@),
            },
    {
        let mut i: usize = self.entries.len();
        assert(self.entries@.take(i as int) =~= self.entries@);
        while i > 0
            invariant
                i <= self.entries.len(),
                self@.contains_key(id@) == entries_map(self.entries@.take(i as int)).contains_key(
                    id@,
                ),
                self@.contains_key(id@) ==> self@[id@] == entries_map(
                    self.entries@.take(i as int),
                )[id@],
            decreases i,
        {
            assert(self.entries@.take(i as int).drop_last() =~= self.entries@.take(i - 1));
            assert(self.entries@.take(i as int).last() == self.entries@[i - 1]);
            i = i - 1;
            if self.entries[i].0 == *id {
                return Some(&self.entries[i].1);
            }
        }
        None
    }
}

/// Whether the rebase turned the commit `old_id` into `new_id`.
pub open spec fn became(
    rebased: Map<Seq<u8>, Seq<u8>>,
    old_id: Seq<u8>,
    new_id: Seq<u8>,
) -> bool {
    rebased.contains_key(old_id) && rebased[old_id] == new_id
}

/// What is said of a commit that should have been rebased and was not.
pub open spec fn not_rebased_message(id: Seq<u8>) -> Seq<char> {
    "Expected commit to have been rebased: "@ + hex(id)
}

/// What the commit `expected_old_commit` became; it is an error if it was not
/// rebased.
pub fn assert_in_rebased_map(rebased: &RebasedMap, expected_old_commit: &Commit) -> (res: Result<
    CommitId,
    String,
>)
    ensures
        match res {
            Ok(new_id) => became(rebased@, expected_old_commit.id@, new_id@),
            Err(message) => {
                &&& !rebased@.contains_key(expected_old_commit.id@)
                &&& message@ == not_rebased_message(expected_old_commit.id@)
            },
        },
        res is Ok <==> rebased@.contains_key(expected_old_commit.id@),
        res matches Ok(new_id) ==> new_id@ == rebased@[expected_old_commit.id@],
        res matches Err(message) ==> message@ == "Expected commit to have been rebased: "@ + hex(
            expected_old_commit.id@,
        ),
{
    match rebased.get(&expected_old_commit.id) {
        Some(new_id) => Ok(new_id.clone()),
        None => {
            let mut message = "Expected commit to have been rebased: ".to_owned();
            message.append(expected_old_commit.id.hex().as_str());
            Err(message)
        },
    }
}

/// How a commit differs from what a rebase should have made.
#[derive(Debug, PartialEq, Eq)]
pub enum RebaseMismatch {
    /// The old commit was not rebased, and this is what to say.
    NotRebased(String),
    /// The old commit became another commit.
    Commit,
    /// The parents are others, or in another order.
    Parents,
    /// The change is another one.
    ChangeId,
}

/// Whether `new_commit` has these parents.
pub open spec fn has_parents(new_commit: Commit, parent_ids: Seq<Seq<u8>>) -> bool {
    id_views(new_commit.data.parents@) == parent_ids
}

/// Whether the two commits are of the same change.
pub open spec fn same_change(a: Commit, b: Commit) -> bool {
    a.data.change_id@ == b.data.change_id@
}

/// Whether `new_commit` is what `expected_old_commit` became when it was rebased
/// onto these parents.
pub open spec fn is_rebased_onto(
    rebased: Map<Seq<u8>, Seq<u8>>,
    new_commit: Commit,
    expected_old_commit: Commit,
    parent_ids: Seq<Seq<u8>>,
) -> bool {
    &&& became(rebased, expected_old_commit.id@, new_commit.id@)
    &&& has_parents(new_commit, parent_ids)
    &&& same_change(new_commit, expected_old_commit)
}

/// Whether `new_parent_commit` is the commit `parent_id`, to which the children
/// of the abandoned `expected_old_commit` went.
pub open spec fn is_abandoned_with_parent(
    rebased: Map<Seq<u8>, Seq<u8>>,
    new_parent_commit: Commit,
    expected_old_commit: Commit,
    parent_id: Seq<u8>,
) -> bool {
    &&& became(rebased, expected_old_commit.id@, new_parent_commit.id@)
    &&& new_parent_commit.id@ == parent_id
    &&& !same_change(new_parent_commit, expected_old_commit)
}

/// Checks that `new_commit` is what the old commit became, has the expected
/// parents and is of the same change, and hands it back.
pub fn assert_rebased_onto(
    rebased: &RebasedMap,
    new_commit: Commit,
    expected_old_commit: &Commit,
    expected_new_parent_ids: &Vec<CommitId>,
) -> (res: Result<Commit, RebaseMismatch>)
    ensures
        match res {
            Ok(commit) => {
                &&& is_rebased_onto(
                    rebased@,
                    new_commit,
                    *expected_old_commit,
                    id_views(expected_new_parent_ids@),
                )
                &&& commit == new_commit
            },
            Err(RebaseMismatch::NotRebased(message)) => {
                &&& !rebased@.contains_key(expected_old_commit.id@)
                &&& message@ == not_rebased_message(expected_old_commit.id@)
            },
            Err(RebaseMismatch::Commit) => {
                &&& rebased@.contains_key(expected_old_commit.id@)
                &&& rebased@[expected_old_commit.id@] != new_commit.id@
            },
            Err(RebaseMismatch::Parents) => {
                &&& became(rebased@, expected_old_commit.id@, new_commit.id@)
                &&& !has_parents(new_commit, id_views(expected_new_parent_ids@))
            },
            Err(RebaseMismatch::ChangeId) => {
                &&& became(rebased@, expected_old_commit.id@, new_commit.id@)
                &&& has_parents(new_commit, id_views(expected_new_parent_ids@))
                &&& !same_change(new_commit, *expected_old_commit)
            },
        },
        res is Ok <==> {
            &&& rebased@.contains_key(expected_old_commit.id@)
            &&& rebased@[expected_old_commit.id@] == new_commit.id@
            &&& new_commit.data.parents@.len() == expected_new_parent_ids@.len()
            &&& forall|i: int|
                0 <= i < expected_new_parent_ids@.len() ==> (
                #[trigger] new_commit.data.parents@[i])@ == expected_new_parent_ids@[i]@
            &&& new_commit.data.change_id@ == expected_old_commit.data.change_id@
        },
        res matches Ok(commit) ==> commit == new_commit,
        res == Err::<Commit, RebaseMismatch>(RebaseMismatch::ChangeId)
            ==> new_commit.data.change_id@ != expected_old_commit.data.change_id@,
        res == Err::<Commit, RebaseMismatch>(RebaseMismatch::Parents) <==> {
            &&& rebased@.contains_key(expected_old_commit.id@)
            &&& rebased@[expected_old_commit.id@] == new_commit.id@
            &&& !(new_commit.data.parents@.len() == expected_new_parent_ids@.len() && forall|i: int|
                0 <= i < expected_new_parent_ids@.len() ==> (
                #[trigger] new_commit.data.parents@[i])@ == expected_new_parent_ids@[i]@)
        },
        res == Err::<Commit, RebaseMismatch>(RebaseMismatch::Commit) <==> {
            &&& rebased@.contains_key(expected_old_commit.id@)
            &&& rebased@[expected_old_commit.id@] != new_commit.id@
        },
        res matches Err(RebaseMismatch::NotRebased(_)) <==> !rebased@.contains_key(
            expected_old_commit.id@,
        ),
        res matches Err(RebaseMismatch::NotRebased(message)) ==> message@
            == "Expected commit to have been rebased: "@ + hex(expected_old_commit.id@),
{
    proof {
        rebased_exactly_when(
            rebased@,
            new_commit,
            *expected_old_commit,
            expected_new_parent_ids@,
        );
        id_views_agree(new_commit.data.parents@, expected_new_parent_ids@);
    }
    match assert_in_rebased_map(rebased, expected_old_commit) {
        Ok(new_id) => {
            if new_id != new_commit.id {
                return Err(RebaseMismatch::Commit);
            }
        },
        Err(message) => {
            return Err(RebaseMismatch::NotRebased(message));
        },
    }
    if !same_ids(&new_commit.data.parents, expected_new_parent_ids) {
        return Err(RebaseMismatch::Parents);
    }
    if new_commit.data.change_id != expected_old_commit.data.change_id {
        return Err(RebaseMismatch::ChangeId);
    }
    Ok(new_commit)
}

/// How a commit differs from the one that the children of an abandoned commit
/// should have gone to.
#[derive(Debug, PartialEq, Eq)]
pub enum AbandonMismatch {
    /// The old commit was not touched, and this is what to say.
    NotRebased(String),
    /// The children went to another commit.
    Commit,
    /// It is another commit than the expected one.
    Parent,
    /// It is of the abandoned change.
    ChangeId,
}

/// Checks that `new_parent_commit` is where the children of the old commit went,
/// is the expected one and is of another change, and hands it back.
pub fn assert_abandoned_with_parent(
    rebased: &RebasedMap,
    new_parent_commit: Commit,
    expected_old_commit: &Commit,
    expected_new_parent_id: &CommitId,
) -> (res: Result<Commit, AbandonMismatch>)
    ensures
        match res {
            Ok(commit) => {
                &&& is_abandoned_with_parent(
                    rebased@,
                    new_parent_commit,
                    *expected_old_commit,
                    expected_new_parent_id@,
                )
                &&& commit == new_parent_commit
            },
            Err(AbandonMismatch::NotRebased(message)) => {
                &&& !rebased@.contains_key(expected_old_commit.id@)
                &&& message@ == not_rebased_message(expected_old_commit.id@)
            },
            Err(AbandonMismatch::Commit) => {
                &&& rebased@.contains_key(expected_old_commit.id@)
                &&& rebased@[expected_old_commit.id@] != new_parent_commit.id@
            },
            Err(AbandonMismatch::Parent) => {
                &&& became(rebased@, expected_old_commit.id@, new_parent_commit.id@)
                &&& new_parent_commit.id@ != expected_new_parent_id@
            },
            Err(AbandonMismatch::ChangeId) => {
                &&& became(rebased@, expected_old_commit.id@, new_parent_commit.id@)
                &&& new_parent_commit.id@ == expected_new_parent_id@
                &&& same_change(new_parent_commit, *expected_old_commit)
            },
        },
        res is Ok <==> {
            &&& rebased@.contains_key(expected_old_commit.id@)
            &&& rebased@[expected_old_commit.id@] == new_parent_commit.id@
            &&& new_parent_commit.id@ == expected_new_parent_id@
            &&& new_parent_commit.data.change_id@ != expected_old_commit.data.change_id@
        },
        res matches Ok(commit) ==> commit == new_parent_commit,
        res == Err::<Commit, AbandonMismatch>(AbandonMismatch::Parent) <==> {
            &&& rebased@.contains_key(expected_old_commit.id@)
            &&& rebased@[expected_old_commit.id@] == new_parent_commit.id@
            &&& new_parent_commit.id@ != expected_new_parent_id@
        },
        res == Err::<Commit, AbandonMismatch>(AbandonMismatch::Commit) <==> {
            &&& rebased@.contains_key(expected_old_commit.id@)
            &&& rebased@[expected_old_commit.id@] != new_parent_commit.id@
        },
        res matches Err(AbandonMismatch::NotRebased(_)) <==> !rebased@.contains_key(
            expected_old_commit.id@,
        ),
        res == Err::<Commit, AbandonMismatch>(AbandonMismatch::ChangeId)
            ==> new_parent_commit.data.change_id@ == expected_old_commit.data.change_id@,
        res matches Err(AbandonMismatch::NotRebased(message)) ==> message@
            == "Expected commit to have been rebased: "@ + hex(expected_old_commit.id@),
{
    match assert_in_rebased_map(rebased, expected_old_commit) {
        Ok(new_id) => {
            if new_id != new_parent_commit.id {
                return Err(AbandonMismatch::Commit);
            }
        },
        Err(message) => {
            return Err(AbandonMismatch::NotRebased(message));
        },
    }
    if new_parent_commit.id != *expected_new_parent_id {
        return Err(AbandonMismatch::Parent);
    }
    if new_parent_commit.data.change_id == expected_old_commit.data.change_id {
        return Err(AbandonMismatch::ChangeId);
    }
    Ok(new_parent_commit)
}

/// A commit was rebased as expected if and only if it is what the old commit
/// became, has the expected parents in their order, and is of the same change.
pub proof fn rebased_exactly_when(
    rebased: Map<Seq<u8>, Seq<u8>>,
    new_commit: Commit,
    old_commit: Commit,
    parent_ids: Seq<CommitId>,
)
    ensures
        is_rebased_onto(rebased, new_commit, old_commit, id_views(parent_ids)) <==> {
            &&& rebased.contains_key(old_commit.id@)
            &&& rebased[old_commit.id@] == new_commit.id@
            &&& new_commit.data.parents@.len() == parent_ids.len()
            &&& forall|i: int|
                0 <= i < parent_ids.len() ==> (#[trigger] new_commit.data.parents@[i])@
                    == parent_ids[i]@
            &&& new_commit.data.change_id@ == old_commit.data.change_id@
        },
{
    id_views_agree(new_commit.data.parents@, parent_ids);
}

/// The children of an abandoned commit went where they should if and only if
/// that is the commit which the rebase names and which is expected, and it is of
/// another change.
pub proof fn abandoned_exactly_when(
    rebased: Map<Seq<u8>, Seq<u8>>,
    new_parent_commit: Commit,
    old_commit: Commit,
    parent_id: Seq<u8>,
)
    ensures
        is_abandoned_with_parent(rebased, new_parent_commit, old_commit, parent_id) <==> {
            &&& rebased.contains_key(old_commit.id@)
            &&& rebased[old_commit.id@] == new_parent_commit.id@
            &&& new_parent_commit.id@ == parent_id
            &&& new_parent_commit.data.change_id@ != old_commit.data.change_id@
        },
{
}

/// Whether a commit counts as rebased or as abandoned rests on the identifiers,
/// the parents and the changes alone. Its tree, its description and its
/// signatures may be any.
pub proof fn rebase_looks_at_nothing_else(
    rebased: Map<Seq<u8>, Seq<u8>>,
    new_commit: Commit,
    other_new: Commit,
    old_commit: Commit,
    other_old: Commit,
    parent_ids: Seq<Seq<u8>>,
    parent_id: Seq<u8>,
)
    requires
        new_commit.id@ == other_new.id@,
        new_commit.data.parents@ == other_new.data.parents@,
        new_commit.data.change_id@ == other_new.data.change_id@,
        old_commit.id@ == other_old.id@,
        old_commit.data.change_id@ == other_old.data.change_id@,
    ensures
        is_rebased_onto(rebased, new_commit, old_commit, parent_ids) == is_rebased_onto(
            rebased,
            other_new,
            other_old,
            parent_ids,
        ),
        is_abandoned_with_parent(rebased, new_commit, old_commit, parent_id)
            == is_abandoned_with_parent(rebased, other_new, other_old, parent_id),
{
}

/// A commit was rebased or abandoned, never both: what it became is of its own
/// change in the one case and of another in the other.
pub proof fn rebased_excludes_abandoned(
    rebased: Map<Seq<u8>, Seq<u8>>,
    new_commit: Commit,
    old_commit: Commit,
    parent_ids: Seq<Seq<u8>>,
    parent_id: Seq<u8>,
)
    requires
        is_rebased_onto(rebased, new_commit, old_commit, parent_ids),
    ensures
        !is_abandoned_with_parent(rebased, new_commit, old_commit, parent_id),
{
}

/// A rebased commit has one list of parents: no other list passes.
pub proof fn rebased_onto_one_list(
    rebased: Map<Seq<u8>, Seq<u8>>,
    new_commit: Commit,
    old_commit: Commit,
    first: Seq<Seq<u8>>,
    second: Seq<Seq<u8>>,
)
    requires
        is_rebased_onto(rebased, new_commit, old_commit, first),
        is_rebased_onto(rebased, new_commit, old_commit, second),
    ensures
        first == second,
{
}

} // verus!
