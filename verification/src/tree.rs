//! Trees: what stands at a path, and filling a tree builder.

use jj_lib::store::Store;
use jj_lib::tree_builder::TreeBuilder;
use std::sync::Arc;
use vstd::prelude::*;

use crate::ids::id_views;
use crate::ids::id_views_are_the_ids;
use crate::ids::same_ids;
use crate::ids::CommitId;
use crate::ids::ConflictId;
use crate::ids::FileId;
use crate::ids::SymlinkId;
use crate::ids::TreeId;
use crate::repo_path::is_repo_path;
use crate::repo_path::RepoPath;
use crate::text::decimal;
use crate::text::decimal_injective;
use crate::text::decimal_is_digits;
use crate::text::decimal_text;
use crate::upstream::base_tree;
use crate::upstream::merge_terms;
use crate::upstream::new_tree_builder;
use crate::upstream::overrides;
use crate::upstream::random_number;
use crate::upstream::set_entry;

verus! {

/// What stands at a path of a tree.
#[derive(Debug, PartialEq, Eq)]
pub enum TreeValue {
    /// A file.
    File {
        /// The contents.
        id: FileId,
        /// Whether the file can be executed.
        executable: bool,
    },
    /// A symbolic link.
    Symlink(SymlinkId),
    /// A directory.
    Tree(TreeId),
    /// Another repository, at one of its commits.
    GitSubmodule(CommitId),
    /// A conflict that is stored as an object.
    Conflict(ConflictId),
}

/// A `TreeValue` with each identifier as its bytes.
pub enum TreeValueView {
    File { id: Seq<u8>, executable: bool },
    Symlink(Seq<u8>),
    Tree(Seq<u8>),
    GitSubmodule(Seq<u8>),
    Conflict(Seq<u8>),
}

impl View for TreeValue {
    type V = TreeValueView;

    open spec fn view(&self) -> TreeValueView {
        match self {
            TreeValue::File { id, executable } => TreeValueView::File {
                id: id@,
                executable: *executable,
            },
            TreeValue::Symlink(id) => TreeValueView::Symlink(id@),
            TreeValue::Tree(id) => TreeValueView::Tree(id@),
            TreeValue::GitSubmodule(id) => TreeValueView::GitSubmodule(id@),
            TreeValue::Conflict(id) => TreeValueView::Conflict(id@),
        }
    }
}

/// The tree of a commit: one tree, or a merge of an odd number of trees in
/// which added and removed ones alternate.
#[derive(Debug)]
pub enum MergedTreeId {
    /// One tree, which may hold stored conflicts.
    Legacy(TreeId),
    /// The terms of the merge.
    Merge(Vec<TreeId>),
}

impl View for MergedTreeId {
    type V = Seq<Seq<u8>>;

    /// The terms of the merge; one tree is a merge of one term.
    open spec fn view(&self) -> Seq<Seq<u8>> {
        match self {
            MergedTreeId::Legacy(id) => seq![id@],
            MergedTreeId::Merge(ids) => id_views(ids@),
        }
    }
}

/// The kind of what stands at a path, its identifier, and whether it can be
/// executed, are all that is seen of it, and all of them are.
pub proof fn tree_value_view_is_exact(value: TreeValue)
    ensures
        match value {
            TreeValue::File { id, executable } => {
                value@ == (TreeValueView::File { id: id@, executable })
            },
            TreeValue::Symlink(id) => value@ == TreeValueView::Symlink(id@),
            TreeValue::Tree(id) => value@ == TreeValueView::Tree(id@),
            TreeValue::GitSubmodule(id) => value@ == TreeValueView::GitSubmodule(id@),
            TreeValue::Conflict(id) => value@ == TreeValueView::Conflict(id@),
        },
{
}

/// One tree is its own only term, and a merge has the terms that it lists, in
/// order.
pub proof fn merged_tree_terms(tree: MergedTreeId)
    ensures
        match tree {
            MergedTreeId::Legacy(id) => tree@.len() == 1 && tree@[0] == id@,
            MergedTreeId::Merge(ids) => tree@.len() == ids@.len() && forall|i: int|
                0 <= i < ids@.len() ==> #[trigger] tree@[i] == ids@[i]@,
        },
        tree.wf() <==> tree@.len() % 2 == 1,
{
}

impl MergedTreeId {
    /// Whether the number of terms is odd, as in every merge.
    pub open spec fn wf(&self) -> bool {
        self@.len() % 2 == 1
    }

    /// The terms of the merge.
    pub fn to_merge(&self) -> (res: Vec<TreeId>)
        requires
            self.wf(),
        ensures
            id_views(res@) == self@,
            match *self {
                MergedTreeId::Legacy(id) => res@.len() == 1 && res@[0]@ == id@,
                MergedTreeId::Merge(ids) => res@.len() == ids@.len() && forall|i: int|
                    0 <= i < ids@.len() ==> (#[trigger] res@[i])@ == ids@[i]@,
            },
    {
        let res = merge_terms(self);
        proof {
            merged_tree_terms(*self);
            id_views_are_the_ids(res@);
            assert forall|i: int| 0 <= i < res@.len() implies (#[trigger] res@[i])@ == self@[i] by {
                assert(id_views(res@)[i] == res@[i]@);
            }
        }
        res
    }
}

/// Two trees of commits are equal if they are merges of the same trees.
impl PartialEq for MergedTreeId {
    fn eq(&self, other: &Self) -> (res: bool) {
        match (self, other) {
            (MergedTreeId::Legacy(a), MergedTreeId::Legacy(b)) => {
                assert(self@ == other@ <==> self@[0] == other@[0]);
                *a == *b
            },
            (MergedTreeId::Merge(a), MergedTreeId::Merge(b)) => same_ids(a, b),
            (MergedTreeId::Legacy(one), MergedTreeId::Merge(terms)) => is_one_term(one, terms),
            (MergedTreeId::Merge(terms), MergedTreeId::Legacy(one)) => is_one_term(one, terms),
        }
    }
}

impl vstd::std_specs::cmp::PartialEqSpecImpl for MergedTreeId {
    open spec fn obeys_eq_spec() -> bool {
        true
    }

    open spec fn eq_spec(&self, other: &Self) -> bool {
        self@ == other@
    }
}

impl Eq for MergedTreeId {

}

fn is_one_term(one: &TreeId, terms: &Vec<TreeId>) -> (res: bool)
    ensures
        res == (id_views(terms@) == seq![one@]),
{
    if terms.len() != 1 {
        assert(id_views(terms@).len() != seq![one@].len());
        return false;
    }
    if terms[0] != *one {
        assert(id_views(terms@)[0] != seq![one@][0]);
        return false;
    }
    assert(id_views(terms@) =~= seq![one@]);
    true
}

/// The tree of a commit that has the one tree `tree_id`.
pub fn create_tree(tree_id: TreeId) -> (res: MergedTreeId)
    ensures
        res.wf(),
        res@ == seq![tree_id@],
        res is Merge,
        res matches MergedTreeId::Merge(terms) && terms@.len() == 1 && terms@[0]@ == tree_id@,
{
    let mut terms: Vec<TreeId> = Vec::new();
    terms.push(tree_id);
    assert(id_views(terms@) =~= seq![tree_id@]);
    MergedTreeId::Merge(terms)
}

/// A file for a tree: where it stands, and what it holds.
#[derive(Debug, PartialEq, Eq)]
pub struct FileEntry {
    /// Where the file stands.
    pub path: RepoPath,
    /// What the file holds.
    pub contents: String,
}

/// A file for a tree whose contents are stored.
#[derive(Debug, PartialEq, Eq)]
pub struct StoredFile {
    /// Where the file stands.
    pub path: RepoPath,
    /// The stored contents.
    pub id: FileId,
}

/// Puts a file that cannot be executed at `path`, with the stored contents
/// `id`, and returns `id`.
pub fn write_normal_file(tree_builder: &mut TreeBuilder, path: &RepoPath, id: FileId) -> (res: FileId)
    requires
        path@.len() > 0,
    ensures
        res@ == id@,
        overrides(*final(tree_builder)) == overrides(*old(tree_builder)).insert(
            path@,
            Some(TreeValueView::File { id: id@, executable: false }),
        ),
        base_tree(*final(tree_builder)) == base_tree(*old(tree_builder)),
{
    set_entry(
        tree_builder,
        path.as_internal_file_string(),
        TreeValue::File { id: id.clone(), executable: false },
    );
    id
}

/// Puts a file that can be executed at `path`, with the stored contents `id`.
pub fn write_executable_file(tree_builder: &mut TreeBuilder, path: &RepoPath, id: FileId)
    requires
        path@.len() > 0,
    ensures
        overrides(*final(tree_builder)) == overrides(*old(tree_builder)).insert(
            path@,
            Some(TreeValueView::File { id: id@, executable: true }),
        ),
        base_tree(*final(tree_builder)) == base_tree(*old(tree_builder)),
{
    set_entry(
        tree_builder,
        path.as_internal_file_string(),
        TreeValue::File { id, executable: true },
    );
}

/// Puts a symbolic link at `path`, with the stored target `id`.
pub fn write_symlink(tree_builder: &mut TreeBuilder, path: &RepoPath, id: SymlinkId)
    requires
        path@.len() > 0,
    ensures
        overrides(*final(tree_builder)) == overrides(*old(tree_builder)).insert(
            path@,
            Some(TreeValueView::Symlink(id@)),
        ),
        base_tree(*final(tree_builder)) == base_tree(*old(tree_builder)),
{
    set_entry(tree_builder, path.as_internal_file_string(), TreeValue::Symlink(id));
}

/// No path is overridden.
pub open spec fn no_overrides() -> Map<Seq<char>, Option<TreeValueView>> {
    Map::empty()
}

/// The path and the stored contents of each file.
pub open spec fn stored_views(files: Seq<StoredFile>) -> Seq<(Seq<char>, Seq<u8>)> {
    files.map_values(|file: StoredFile| (file.path@, file.id@))
}

/// There is one path and one identifier for each file, in order.
pub proof fn stored_views_are_the_files(files: Seq<StoredFile>)
    ensures
        stored_views(files).len() == files.len(),
        forall|i: int|
            0 <= i < files.len() ==> #[trigger] stored_views(files)[i] == (
                files[i].path@,
                files[i].id@,
            ),
{
}

/// `before`, with each file in its place, in order.
pub open spec fn with_files(
    before: Map<Seq<char>, Option<TreeValueView>>,
    files: Seq<(Seq<char>, Seq<u8>)>,
) -> Map<Seq<char>, Option<TreeValueView>>
    decreases files.len(),
{
    if files.len() == 0 {
        before
    } else {
        with_files(before, files.drop_last()).insert(
            files.last().0,
            Some(TreeValueView::File { id: files.last().1, executable: false }),
        )
    }
}

/// A builder for the tree that holds exactly the given files, all of them not
/// executable. The caller writes the tree.
pub fn create_single_tree(store: &Arc<Store>, empty_tree_id: &TreeId, files: &Vec<StoredFile>) -> (res:
    TreeBuilder)
    requires
        forall|i: int| 0 <= i < files.len() ==> (#[trigger] files@[i]).path@.len() > 0,
    ensures
        base_tree(res) == empty_tree_id@,
        overrides(res) == with_files(no_overrides(), stored_views(files@)),
        forall|i: int|
            0 <= i < files.len() && (forall|j: int|
                i < j < files.len() ==> (#[trigger] files@[j]).path@ != files@[i].path@)
                ==> overrides(res).contains_key((#[trigger] files@[i]).path@) && overrides(
                res,
            )[files@[i].path@] == Some(
                TreeValueView::File { id: files@[i].id@, executable: false },
            ),
        forall|path: Seq<char>|
            overrides(res).contains_key(path) ==> exists|i: int|
                0 <= i < files.len() && (#[trigger] files@[i]).path@ == path,
{
    let mut tree_builder = new_tree_builder(store, empty_tree_id.as_bytes());
    let ghost all = stored_views(files@);
    let mut i: usize = 0;
    while i < files.len()
        invariant
            i <= files.len(),
            forall|k: int| 0 <= k < files.len() ==> (#[trigger] files@[k]).path@.len() > 0,
            all == stored_views(files@),
            base_tree(tree_builder) == empty_tree_id@,
            overrides(tree_builder) == with_files(no_overrides(), all.take(i as int)),
        decreases files.len() - i,
    {
        let _ = write_normal_file(&mut tree_builder, &files[i].path, files[i].id.clone());
        i = i + 1;
        assert(all.take(i as int).drop_last() =~= all.take(i - 1));
    }
    assert(all.take(i as int) =~= all);
    proof {
        single_tree_holds_the_files(files@, overrides(tree_builder));
    }
    tree_builder
}

/// A tree made from files holds every given file whose path no later file has,
/// not executable and with its own contents, however many files there are; and
/// it holds nothing at a path that no given file has.
pub proof fn single_tree_holds_the_files(
    files: Seq<StoredFile>,
    held: Map<Seq<char>, Option<TreeValueView>>,
)
    requires
        held == with_files(no_overrides(), stored_views(files)),
    ensures
        forall|i: int|
            0 <= i < files.len() && (forall|j: int|
                i < j < files.len() ==> (#[trigger] files[j]).path@ != files[i].path@)
                ==> held.contains_key((#[trigger] files[i]).path@) && held[files[i].path@] == Some(
                TreeValueView::File { id: files[i].id@, executable: false },
            ),
        forall|path: Seq<char>|
            held.contains_key(path) ==> exists|i: int|
                0 <= i < files.len() && (#[trigger] files[i]).path@ == path,
{
    let all = stored_views(files);
    stored_views_are_the_files(files);
    assert forall|i: int|
        0 <= i < files.len() && (forall|j: int|
            i < j < files.len() ==> (#[trigger] files[j]).path@
                != files[i].path@) implies held.contains_key((#[trigger] files[i]).path@)
        && held[files[i].path@] == Some(
        TreeValueView::File { id: files[i].id@, executable: false },
    ) by {
        assert forall|j: int| i < j < all.len() implies (#[trigger] all[j]).0 != all[i].0 by {
            assert(files[j].path@ != files[i].path@);
        }
        last_file_wins(no_overrides(), all, i);
    }
    assert forall|path: Seq<char>| held.contains_key(path) implies exists|i: int|
        0 <= i < files.len() && (#[trigger] files[i]).path@ == path by {
        if forall|i: int| 0 <= i < files.len() ==> (#[trigger] files[i]).path@ != path {
            assert forall|i: int| 0 <= i < all.len() implies (#[trigger] all[i]).0 != path by {
                assert(files[i].path@ != path);
            }
            other_paths_unchanged(no_overrides(), all, path);
        }
    }
}

/// One more file changes what stands at its own path, and nothing else.
pub proof fn one_more_file(
    before: Map<Seq<char>, Option<TreeValueView>>,
    files: Seq<(Seq<char>, Seq<u8>)>,
    path: Seq<char>,
    id: Seq<u8>,
)
    ensures
        with_files(before, Seq::empty()) == before,
        with_files(before, files.push((path, id))) == with_files(before, files).insert(
            path,
            Some(TreeValueView::File { id, executable: false }),
        ),
        no_overrides() == Map::<Seq<char>, Option<TreeValueView>>::empty(),
{
    assert(files.push((path, id)).drop_last() =~= files);
}

/// Of files put at the same path the last one stays, and it stays whatever was
/// there before.
pub proof fn last_file_wins(
    before: Map<Seq<char>, Option<TreeValueView>>,
    files: Seq<(Seq<char>, Seq<u8>)>,
    i: int,
)
    requires
        0 <= i < files.len(),
        forall|j: int| i < j < files.len() ==> (#[trigger] files[j]).0 != files[i].0,
    ensures
        with_files(before, files).contains_key(files[i].0),
        with_files(before, files)[files[i].0] == Some(
            TreeValueView::File { id: files[i].1, executable: false },
        ),
    decreases files.len(),
{
    if i < files.len() - 1 {
        let shorter = files.drop_last();
        assert(shorter[i] == files[i]);
        assert(files[files.len() - 1].0 != files[i].0);
        last_file_wins(before, shorter, i);
    }
}

/// What stands at a path that none of the files has stays as it was.
pub proof fn other_paths_unchanged(
    before: Map<Seq<char>, Option<TreeValueView>>,
    files: Seq<(Seq<char>, Seq<u8>)>,
    path: Seq<char>,
)
    requires
        forall|i: int| 0 <= i < files.len() ==> (#[trigger] files[i]).0 != path,
    ensures
        with_files(before, files).contains_key(path) == before.contains_key(path),
        before.contains_key(path) ==> with_files(before, files)[path] == before[path],
    decreases files.len(),
{
    if files.len() > 0 {
        assert(files[files.len() - 1].0 != path);
        other_paths_unchanged(before, files.drop_last(), path);
    }
}

/// Whether no two files stand at the same path.
pub open spec fn distinct_paths(files: Seq<(Seq<char>, Seq<u8>)>) -> bool {
    forall|i: int, j: int|
        0 <= i < j < files.len() ==> (#[trigger] files[i]).0 != (#[trigger] files[j]).0
}

/// Files at different paths make the same tree in whatever order they are put
/// there.
pub proof fn order_of_files_is_irrelevant(
    before: Map<Seq<char>, Option<TreeValueView>>,
    first: Seq<(Seq<char>, Seq<u8>)>,
    second: Seq<(Seq<char>, Seq<u8>)>,
)
    requires
        distinct_paths(first),
        distinct_paths(second),
        forall|file: (Seq<char>, Seq<u8>)| first.contains(file) <==> second.contains(file),
    ensures
        with_files(before, first) == with_files(before, second),
{
    let a = with_files(before, first);
    let b = with_files(before, second);
    assert forall|path: Seq<char>|
        #![trigger a.dom().contains(path)]
        #![trigger b.dom().contains(path)]
        a.dom().contains(path) == b.dom().contains(path) && (a.dom().contains(path) ==> a[path]
            == b[path]) by {
        if exists|i: int| 0 <= i < first.len() && (#[trigger] first[i]).0 == path {
            let i = choose|i: int| 0 <= i < first.len() && (#[trigger] first[i]).0 == path;
            assert(first.contains(first[i]));
            let j = choose|j: int| 0 <= j < second.len() && second[j] == first[i];
            last_file_wins(before, first, i);
            last_file_wins(before, second, j);
        } else {
            assert forall|j: int| 0 <= j < second.len() implies (#[trigger] second[j]).0 != path by {
                assert(second.contains(second[j]));
                let i = choose|i: int| 0 <= i < first.len() && first[i] == second[j];
                assert(first[i].0 != path);
            }
            other_paths_unchanged(before, first, path);
            other_paths_unchanged(before, second, path);
        }
    }
    assert(a =~= b);
}

/// The name of the file in the tree made for `number`.
pub open spec fn random_file_name(number: nat) -> Seq<char> {
    "file"@ + decimal(number)
}

/// Whether `files` is the one file of the tree made for `number`.
pub open spec fn is_random_tree(files: Seq<FileEntry>, number: nat) -> bool {
    &&& files.len() == 1
    &&& files[0].path@ == random_file_name(number)
    &&& files[0].contents@ == "contents"@
}

/// A file name made from a number is the path of a file at the top of the tree.
pub proof fn random_file_name_valid(number: nat)
    ensures
        is_repo_path(random_file_name(number)),
        random_file_name(number).len() > 0,
        !random_file_name(number).contains('/'),
{
    reveal_strlit("file");
    decimal_is_digits(number);
    let name = random_file_name(number);
    assert forall|i: int| 0 <= i < name.len() implies #[trigger] name[i] != '/' by {
        if i >= 4 {
            assert(name[i] == decimal(number)[i - 4]);
        }
    }
}

/// The tree made for a number has one file, whose name is `file` and the number.
pub proof fn random_tree_is_one_file(files: Seq<FileEntry>, number: nat)
    requires
        is_random_tree(files, number),
    ensures
        files.len() == 1,
        files[0].path@ == "file"@ + decimal(number),
        files[0].contents@ == "contents"@,
{
}

/// Different numbers give trees with different file names.
pub proof fn random_file_name_unique(a: nat, b: nat)
    requires
        random_file_name(a) == random_file_name(b),
    ensures
        a == b,
{
    reveal_strlit("file");
    let whole = random_file_name(a);
    assert(decimal(a) =~= whole.skip(4));
    assert(decimal(b) =~= whole.skip(4));
    decimal_injective(a, b);
}

/// The one file of the tree made for `number`.
pub fn numbered_tree(number: u32) -> (res: Vec<FileEntry>)
    ensures
        is_random_tree(res@, number as nat),
        res@.len() == 1,
        res@[0].path@ == "file"@ + decimal(number as nat),
        res@[0].contents@ == "contents"@,
{
    proof {
        random_file_name_valid(number as nat);
    }
    let mut name = "file".to_owned();
    name.append(decimal_text(number as u128).as_str());
    let path = RepoPath::from_valid(name);
    let mut files: Vec<FileEntry> = Vec::new();
    files.push(FileEntry { path, contents: "contents".to_owned() });
    files
}

/// The one file of a tree made for a random number.
#[must_use]
pub fn create_random_tree() -> (res: Vec<FileEntry>)
    ensures
        exists|number: u32| is_random_tree(res@, number as nat),
        res@.len() == 1,
        exists|number: u32| res@[0].path@ == "file"@ + #[trigger] decimal(number as nat),
        res@[0].contents@ == "contents"@,
{
    numbered_tree(random_number())
}

} // verus!
