//! Commits: what they hold, and commits to make for a test.

use vstd::prelude::*;

use crate::ids::id_views;
use crate::ids::id_views_are_the_ids;
use crate::ids::unhex;
use crate::ids::ChangeId;
use crate::ids::CommitId;
use crate::text::decimal;
use crate::text::decimal_injective;
use crate::text::decimal_text;
use crate::tree::is_random_tree;
use crate::tree::numbered_tree;
use crate::tree::random_tree_is_one_file;
use crate::tree::FileEntry;
use crate::tree::MergedTreeId;
use crate::upstream::random_number;

verus! {

/// A point in time, and the time zone that it was noted in.
#[derive(Debug, PartialEq, Eq, Clone, Copy, Structural)]
pub struct Timestamp {
    /// Milliseconds since the epoch.
    pub millis: i64,
    /// Minutes that the time zone is ahead of UTC.
    pub tz_offset: i32,
}

/// Who did something, and when.
#[derive(Debug, PartialEq, Eq)]
pub struct Signature {
    /// The name of the person.
    pub name: String,
    /// The address of the person.
    pub email: String,
    /// When it was done.
    pub timestamp: Timestamp,
}

/// A cryptographic signature and the data that it is for.
#[derive(Debug, PartialEq, Eq)]
pub struct SecureSig {
    /// The signed data.
    pub data: Vec<u8>,
    /// The signature.
    pub sig: Vec<u8>,
}

/// What a commit holds.
#[derive(Debug, PartialEq, Eq)]
pub struct CommitData {
    /// The commits that this one follows.
    pub parents: Vec<CommitId>,
    /// The commits that this one is a rewrite of.
    pub predecessors: Vec<CommitId>,
    /// The tree.
    pub root_tree: MergedTreeId,
    /// The change, which rewrites keep.
    pub change_id: ChangeId,
    /// The description.
    pub description: String,
    /// Who wrote the change.
    pub author: Signature,
    /// Who made the commit.
    pub committer: Signature,
    /// The cryptographic signature, if there is one.
    pub secure_sig: Option<SecureSig>,
}

/// A commit that is stored.
#[derive(Debug, PartialEq, Eq)]
pub struct Commit {
    /// The identifier that it is stored under.
    pub id: CommitId,
    /// What it holds.
    pub data: CommitData,
}

/// Whether `signature` is the made-up one, at the epoch.
pub open spec fn is_test_signature(signature: Signature) -> bool {
    &&& signature.name@ == "Some One"@
    &&& signature.email@ == "someone@example.com"@
    &&& signature.timestamp == Timestamp { millis: 0, tz_offset: 0 }
}

fn test_signature() -> (res: Signature)
    ensures
        is_test_signature(res),
{
    Signature {
        name: "Some One".to_owned(),
        email: "someone@example.com".to_owned(),
        timestamp: Timestamp { millis: 0, tz_offset: 0 },
    }
}

/// A commit of the tree `tree_id` on the root commit. The caller stores it.
pub fn commit_with_tree(root_commit_id: &CommitId, tree_id: MergedTreeId) -> (res: CommitData)
    ensures
        id_views(res.parents@) == seq![root_commit_id@],
        res.predecessors@.len() == 0,
        res.root_tree == tree_id,
        res.change_id@ == seq![0xabu8, 0xcdu8],
        res.description@ == "description"@,
        is_test_signature(res.author),
        is_test_signature(res.committer),
        res.secure_sig is None,
        res.parents@.len() == 1,
        res.parents@[0]@ == root_commit_id@,
        res.author.name@ == "Some One"@,
        res.author.email@ == "someone@example.com"@,
        res.author.timestamp.millis == 0,
        res.author.timestamp.tz_offset == 0,
        res.committer.name@ == "Some One"@,
        res.committer.email@ == "someone@example.com"@,
        res.committer.timestamp.millis == 0,
        res.committer.timestamp.tz_offset == 0,
{
    let mut parents: Vec<CommitId> = Vec::new();
    parents.push(root_commit_id.clone());
    assert(id_views(parents@) =~= seq![root_commit_id@]);
    proof {
        reveal_strlit("abcd");
        assert(unhex("abcd"@) =~= seq![0xabu8, 0xcdu8]);
    }
    CommitData {
        parents,
        predecessors: Vec::new(),
        root_tree: tree_id,
        change_id: ChangeId::from_hex("abcd"),
        description: "description".to_owned(),
        author: test_signature(),
        committer: test_signature(),
        secure_sig: None,
    }
}

/// A commit to make: its parents, the files of its tree, and its description.
#[derive(Debug, PartialEq, Eq)]
pub struct CommitPlan {
    /// The commits that it follows.
    pub parents: Vec<CommitId>,
    /// The files of its tree.
    pub files: Vec<FileEntry>,
    /// Its description.
    pub description: String,
}

/// The description of the commit made for `number`.
pub open spec fn random_description(number: nat) -> Seq<char> {
    "random commit "@ + decimal(number)
}

/// Whether `plan` is the commit on `parents` made for the two numbers.
pub open spec fn is_random_commit(
    plan: CommitPlan,
    parents: Seq<Seq<u8>>,
    tree_number: u32,
    number: u32,
) -> bool {
    &&& id_views(plan.parents@) == parents
    &&& is_random_tree(plan.files@, tree_number as nat)
    &&& plan.description@ == random_description(number as nat)
}

/// Whether `plan` is the commit on `parents` made for some two numbers.
pub open spec fn is_some_random_commit(plan: CommitPlan, parents: Seq<Seq<u8>>) -> bool {
    exists|tree_number: u32, number: u32|
        is_random_commit(plan, parents, tree_number, number)
}

/// Whether `plan` has a tree of one file named after some number, and a
/// description that ends in some number.
pub open spec fn has_random_tree_and_description(plan: CommitPlan) -> bool {
    &&& plan.files@.len() == 1
    &&& plan.files@[0].contents@ == "contents"@
    &&& exists|n: u32| plan.files@[0].path@ == "file"@ + #[trigger] decimal(n as nat)
    &&& exists|n: u32| plan.description@ == "random commit "@ + #[trigger] decimal(n as nat)
}

/// A commit made for numbers has the parents that it was made for, as many and
/// in that order.
pub proof fn random_commit_stands_on(plan: CommitPlan, parents: Seq<Seq<u8>>)
    requires
        is_some_random_commit(plan, parents),
    ensures
        plan.parents@.len() == parents.len(),
        forall|i: int| 0 <= i < parents.len() ==> (#[trigger] plan.parents@[i])@ == parents[i],
        plan.files@.len() == 1,
        plan.files@[0].contents@ == "contents"@,
        exists|n: u32| plan.files@[0].path@ == "file"@ + #[trigger] decimal(n as nat),
        exists|n: u32| plan.description@ == "random commit "@ + #[trigger] decimal(n as nat),
{
    let (tree_number, number) = choose|tree_number: u32, number: u32|
        is_random_commit(plan, parents, tree_number, number);
    id_views_are_the_ids(plan.parents@);
    assert forall|i: int| 0 <= i < parents.len() implies (#[trigger] plan.parents@[i])@
        == parents[i] by {
        assert(id_views(plan.parents@)[i] == plan.parents@[i]@);
    }
    random_tree_is_one_file(plan.files@, tree_number as nat);
    assert(plan.description@ == "random commit "@ + decimal(number as nat));
}

/// Different numbers give different descriptions.
pub proof fn random_description_unique(a: nat, b: nat)
    requires
        random_description(a) == random_description(b),
    ensures
        a == b,
{
    let whole = random_description(a);
    let start = "random commit "@.len() as int;
    assert(decimal(a) =~= whole.skip(start));
    assert(decimal(b) =~= whole.skip(start));
    decimal_injective(a, b);
}

/// The commit on `parents` made for the two numbers. Every commit but the root
/// has a parent.
pub fn numbered_commit(parents: Vec<CommitId>, tree_number: u32, number: u32) -> (res: CommitPlan)
    requires
        parents@.len() > 0,
    ensures
        is_random_commit(res, id_views(parents@), tree_number, number),
        res.parents == parents,
        res.files@.len() == 1,
        res.files@[0].path@ == "file"@ + decimal(tree_number as nat),
        res.files@[0].contents@ == "contents"@,
        res.description@ == "random commit "@ + decimal(number as nat),
{
    let mut description = "random commit ".to_owned();
    description.append(decimal_text(number as u128).as_str());
    CommitPlan { parents, files: numbered_tree(tree_number), description }
}

/// A commit on the root commit, made for random numbers.
pub fn create_random_commit(root_commit_id: &CommitId) -> (res: CommitPlan)
    ensures
        is_some_random_commit(res, seq![root_commit_id@]),
        res.parents@.len() == 1,
        res.parents@[0]@ == root_commit_id@,
        has_random_tree_and_description(res),
{
    let tree_number = random_number();
    let number = random_number();
    let mut parents: Vec<CommitId> = Vec::new();
    parents.push(root_commit_id.clone());
    assert(id_views(parents@) =~= seq![root_commit_id@]);
    let res = numbered_commit(parents, tree_number, number);
    assert(is_random_commit(res, seq![root_commit_id@], tree_number, number));
    proof {
        random_commit_stands_on(res, seq![root_commit_id@]);
    }
    res
}

impl CommitPlan {
    /// The same commit on other parents, of which there must be one.
    pub fn set_parents(self, parents: Vec<CommitId>) -> (res: CommitPlan)
        requires
            parents@.len() > 0,
        ensures
            res.parents == parents,
            res.files == self.files,
            res.description == self.description,
    {
        CommitPlan { parents, files: self.files, description: self.description }
    }
}

/// Makes commits for the graph of a test.
#[derive(Debug)]
pub struct CommitGraphBuilder {
    root_commit_id: CommitId,
}

impl View for CommitGraphBuilder {
    type V = Seq<u8>;

    /// The root commit of the repository.
    closed spec fn view(&self) -> Seq<u8> {
        self.root_commit_id@
    }
}

/// The identifiers of the commits.
pub open spec fn commit_ids(commits: Seq<&Commit>) -> Seq<Seq<u8>> {
    commits.map_values(|commit: &Commit| commit.id@)
}

/// There is one identifier for each commit, its own, in order.
pub proof fn commit_ids_are_their_own(commits: Seq<&Commit>)
    ensures
        commit_ids(commits).len() == commits.len(),
        forall|i: int| 0 <= i < commits.len() ==> #[trigger] commit_ids(commits)[i]
            == commits[i].id@,
{
}

/// A commit made on given parents is a child of each of them: it has as many
/// parents as were given, and each is the given commit itself.
pub proof fn graph_commit_is_child(plan: CommitPlan, parents: Seq<&Commit>)
    requires
        is_some_random_commit(plan, commit_ids(parents)),
    ensures
        plan.parents@.len() == parents.len(),
        forall|i: int| 0 <= i < parents.len() ==> (#[trigger] plan.parents@[i])@ == parents[i].id@,
{
    random_commit_stands_on(plan, commit_ids(parents));
    commit_ids_are_their_own(parents);
}

impl CommitGraphBuilder {
    /// A builder for the repository with this root commit.
    pub fn new(root_commit_id: CommitId) -> (res: Self)
        ensures
            res@ == root_commit_id@,
    {
        CommitGraphBuilder { root_commit_id }
    }

    /// A commit on the root commit.
    pub fn initial_commit(&mut self) -> (res: CommitPlan)
        ensures
            final(self)@ == old(self)@,
            is_some_random_commit(res, seq![old(self)@]),
            res.parents@.len() == 1,
            res.parents@[0]@ == old(self)@,
            has_random_tree_and_description(res),
    {
        create_random_commit(&self.root_commit_id)
    }

    /// A commit on the given parents, in that order. There must be one.
    pub fn commit_with_parents(&mut self, parents: &[&Commit]) -> (res: CommitPlan)
        requires
            parents@.len() > 0,
        ensures
            final(self)@ == old(self)@,
            is_some_random_commit(res, commit_ids(parents@)),
            res.parents@.len() == parents@.len(),
            forall|i: int|
                0 <= i < parents@.len() ==> (#[trigger] res.parents@[i])@ == parents@[i].id@,
            has_random_tree_and_description(res),
    {
        let mut parent_ids: Vec<CommitId> = Vec::new();
        let mut i: usize = 0;
        while i < parents.len()
            invariant
                i <= parents.len(),
                parent_ids.len() == i,
                forall|j: int| 0 <= j < i ==> (#[trigger] parent_ids@[j])@ == parents@[j].id@,
            decreases parents.len() - i,
        {
            parent_ids.push(parents[i].id.clone());
            i = i + 1;
        }
        assert(id_views(parent_ids@) =~= commit_ids(parents@));
        let plan = create_random_commit(&self.root_commit_id);
        let ghost (tree_number, number) = choose|tree_number: u32, number: u32|
            is_random_commit(plan, seq![self.root_commit_id@], tree_number, number);
        let res = plan.set_parents(parent_ids);
        assert(is_random_commit(res, commit_ids(parents@), tree_number, number));
        proof {
            graph_commit_is_child(res, parents@);
            random_commit_stands_on(res, commit_ids(parents@));
        }
        res
    }
}

} // verus!
