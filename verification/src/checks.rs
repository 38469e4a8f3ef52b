//! Checks: on the modules of a test runner, and on a new workspace.

use jj_lib::settings::UserSettings;
use vstd::prelude::*;

use crate::commits::CommitData;
use crate::ids::id_views;
use crate::ids::id_views_are_the_ids;
use crate::ids::CommitId;
use crate::text::contains_text;
use crate::text::occurs_in;
use crate::text::occurs_in_extended;
use crate::text::same_text;
use crate::tree::MergedTreeId;
use crate::upstream::configured_text;
use crate::upstream::settings_layers;
use crate::upstream::settings_user_email;
use crate::upstream::settings_user_name;

verus! {

/// The name of the module in the file `name` of a directory of tests, if it is
/// one: what stands before `.rs`, where that is not empty. The runner is none.
pub open spec fn test_module(name: Seq<char>) -> Option<Seq<char>> {
    let end = name.len() - 3;
    if end > 0 && name.skip(end) == ".rs"@ && name.take(end) != "runner"@ {
        Some(name.take(end))
    } else {
        None
    }
}

/// The declaration of a module.
pub open spec fn declaration(module: Seq<char>) -> Seq<char> {
    "mod "@ + module + ";"@
}

/// Whether the file `name` is forgotten: it holds a module of tests that the
/// text of the runner does not declare.
pub open spec fn is_forgotten(runner: Seq<char>, name: Seq<char>) -> bool {
    test_module(name) is Some && !occurs_in(runner, declaration(test_module(name)->0))
}

/// What is said of a forgotten file.
pub open spec fn forgotten_message(runner_path: Seq<char>, name: Seq<char>) -> Seq<char> {
    "missing `"@ + declaration(test_module(name)->0) + "` declaration in "@ + runner_path
}

/// The file of a module is its name with `.rs` behind it; the runner's is none.
pub proof fn module_of_its_file(stem: Seq<char>)
    requires
        stem.len() > 0,
    ensures
        stem != "runner"@ ==> test_module(stem + ".rs"@) == Some(stem),
        stem == "runner"@ ==> test_module(stem + ".rs"@) is None,
{
    reveal_strlit(".rs");
    let name = stem + ".rs"@;
    let end = name.len() - 3;
    assert(name.skip(end) =~= ".rs"@);
    assert(name.take(end) =~= stem);
}

/// A file is forgotten if and only if it is that of a module, other than the
/// runner, whose declaration stands nowhere in the text of the runner.
pub proof fn forgotten_exactly(runner: Seq<char>, name: Seq<char>)
    ensures
        is_forgotten(runner, name) <==> exists|stem: Seq<char>|
            {
                &&& stem.len() > 0
                &&& stem != "runner"@
                &&& name == #[trigger] (stem + ".rs"@)
                &&& !occurs_in(runner, "mod "@ + stem + ";"@)
            },
{
    reveal_strlit(".rs");
    if is_forgotten(runner, name) {
        let stem = name.take(name.len() - 3);
        assert(name =~= stem + ".rs"@);
        module_of_its_file(stem);
        assert(!occurs_in(runner, "mod "@ + stem + ";"@));
    }
    if exists|stem: Seq<char>|
        {
            &&& stem.len() > 0
            &&& stem != "runner"@
            &&& name == #[trigger] (stem + ".rs"@)
            &&& !occurs_in(runner, "mod "@ + stem + ";"@)
        } {
        let stem = choose|stem: Seq<char>|
            {
                &&& stem.len() > 0
                &&& stem != "runner"@
                &&& name == #[trigger] (stem + ".rs"@)
                &&& !occurs_in(runner, "mod "@ + stem + ";"@)
            };
        module_of_its_file(stem);
    }
}

/// What is said of a forgotten file names the declaration that is missing and
/// where it is missing.
pub proof fn forgotten_message_names_module(runner_path: Seq<char>, stem: Seq<char>)
    requires
        stem.len() > 0,
        stem != "runner"@,
    ensures
        forgotten_message(runner_path, stem + ".rs"@) == "missing `mod "@ + stem
            + ";` declaration in "@ + runner_path,
{
    module_of_its_file(stem);
    reveal_strlit("missing `");
    reveal_strlit("mod ");
    reveal_strlit(";");
    reveal_strlit("` declaration in ");
    reveal_strlit("missing `mod ");
    reveal_strlit(";` declaration in ");
    assert(forgotten_message(runner_path, stem + ".rs"@) =~= "missing `mod "@ + stem
        + ";` declaration in "@ + runner_path);
}

fn module_of(name: &str) -> (res: Option<String>)
    ensures
        match res {
            Some(module) => test_module(name@) == Some(module@),
            None => test_module(name@) is None,
        },
{
    let len = name.unicode_len();
    if len <= 3 {
        return None;
    }
    let end = len - 3;
    let module = name.substring_char(0, end);
    let extension = name.substring_char(end, len);
    assert(extension@ =~= name@.skip(end as int));
    assert(module@ =~= name@.take(end as int));
    if same_text(extension, ".rs") && !same_text(module, "runner") {
        Some(module.to_owned())
    } else {
        None
    }
}

/// Checks that every module of tests among the files of a directory is declared
/// in the text `runner`, which stands at `runner_path`. Says which is the first
/// one that is not.
pub fn assert_no_forgotten_test_files(
    runner: &str,
    runner_path: &str,
    file_names: &Vec<String>,
) -> (res: Result<(), String>)
    ensures
        match res {
            Ok(_) => forall|i: int|
                0 <= i < file_names.len() ==> !is_forgotten(runner@, (#[trigger] file_names@[i])@),
            Err(message) => exists|i: int|
                {
                    &&& 0 <= i < file_names.len()
                    &&& is_forgotten(runner@, (#[trigger] file_names@[i])@)
                    &&& forall|j: int|
                        0 <= j < i ==> !is_forgotten(runner@, (#[trigger] file_names@[j])@)
                    &&& message@ == forgotten_message(runner_path@, file_names@[i]@)
                },
        },
{
    let mut i: usize = 0;
    while i < file_names.len()
        invariant
            i <= file_names.len(),
            forall|j: int| 0 <= j < i ==> !is_forgotten(runner@, (#[trigger] file_names@[j])@),
        decreases file_names.len() - i,
    {
        match module_of(file_names[i].as_str()) {
            Some(module) => {
                let mut search = "mod ".to_owned();
                search.append(module.as_str());
                search.append(";");
                if !contains_text(runner, search.as_str()) {
                    let mut message = "missing `".to_owned();
                    message.append(search.as_str());
                    message.append("` declaration in ");
                    message.append(runner_path);
                    assert(is_forgotten(runner@, file_names@[i as int]@));
                    assert(message@ =~= forgotten_message(runner_path@, file_names@[i as int]@));
                    return Err(message);
                }
            },
            None => {},
        }
        i = i + 1;
    }
    Ok(())
}

/// A file that the runner does not forget stays so when more is written around
/// what the runner holds.
pub proof fn longer_runner_forgets_no_more(
    runner: Seq<char>,
    before: Seq<char>,
    after: Seq<char>,
    name: Seq<char>,
)
    requires
        !is_forgotten(runner, name),
    ensures
        !is_forgotten(before + runner + after, name),
{
    if test_module(name) is Some {
        occurs_in_extended(runner, before, after, declaration(test_module(name)->0));
    }
}

/// The runner itself is never forgotten.
pub proof fn runner_is_not_forgotten(runner: Seq<char>)
    ensures
        !is_forgotten(runner, "runner.rs"@),
{
    reveal_strlit("runner.rs");
    reveal_strlit("runner");
    assert("runner.rs"@.take(6) =~= "runner"@);
}

/// A file of another kind is never forgotten: one without the extension `rs`.
pub proof fn other_files_are_not_forgotten(runner: Seq<char>, name: Seq<char>)
    requires
        name.len() < 3 || name.skip(name.len() - 3) != ".rs"@,
    ensures
        !is_forgotten(runner, name),
{
}

/// What is wrong with the first commit of a workspace.
#[derive(Debug, PartialEq, Eq, Clone, Copy, Structural)]
pub enum InitMismatch {
    /// The tree is not empty.
    Tree,
    /// The root commit is not the one parent.
    Parents,
    /// There is a predecessor.
    Predecessors,
    /// The description is not empty.
    Description,
    /// The author has another name than the user.
    AuthorName,
    /// The author has another address than the user.
    AuthorEmail,
    /// The committer has another name than the user.
    CommitterName,
    /// The committer has another address than the user.
    CommitterEmail,
}

/// The first thing that is wrong with `commit` as the first commit of a
/// workspace of the user with this name and address, if anything is.
pub open spec fn init_mismatch(
    commit: CommitData,
    empty_tree: Seq<Seq<u8>>,
    root_commit: Seq<u8>,
    user_name: Seq<char>,
    user_email: Seq<char>,
) -> Option<InitMismatch> {
    if commit.root_tree@ != empty_tree {
        Some(InitMismatch::Tree)
    } else if id_views(commit.parents@) != seq![root_commit] {
        Some(InitMismatch::Parents)
    } else if commit.predecessors@.len() > 0 {
        Some(InitMismatch::Predecessors)
    } else if commit.description@.len() > 0 {
        Some(InitMismatch::Description)
    } else if commit.author.name@ != user_name {
        Some(InitMismatch::AuthorName)
    } else if commit.author.email@ != user_email {
        Some(InitMismatch::AuthorEmail)
    } else if commit.committer.name@ != user_name {
        Some(InitMismatch::CommitterName)
    } else if commit.committer.email@ != user_email {
        Some(InitMismatch::CommitterEmail)
    } else {
        None
    }
}

/// The first commit of a workspace is right if and only if its tree is the empty
/// one, the root commit is its only parent, it has no predecessor and no
/// description, and both author and committer are the user. What is named as
/// wrong is wrong, and all that comes before it is right.
pub proof fn initial_commit_exactly(
    commit: CommitData,
    empty_tree: Seq<Seq<u8>>,
    root_commit: Seq<u8>,
    user_name: Seq<char>,
    user_email: Seq<char>,
)
    ensures
        ({
            let wrong = init_mismatch(commit, empty_tree, root_commit, user_name, user_email);
            let tree = commit.root_tree@ == empty_tree;
            let parents = commit.parents@.len() == 1 && commit.parents@[0]@ == root_commit;
            let predecessors = commit.predecessors@.len() == 0;
            let description = commit.description@.len() == 0;
            let author_name = commit.author.name@ == user_name;
            let author_email = commit.author.email@ == user_email;
            let committer_name = commit.committer.name@ == user_name;
            let committer_email = commit.committer.email@ == user_email;
            let upto_parents = tree && parents;
            let upto_description = upto_parents && predecessors && description;
            let upto_author = upto_description && author_name && author_email;
            &&& wrong is None <==> upto_author && committer_name && committer_email
            &&& wrong == Some(InitMismatch::Tree) <==> !tree
            &&& wrong == Some(InitMismatch::Parents) <==> tree && !parents
            &&& wrong == Some(InitMismatch::Predecessors) <==> upto_parents && !predecessors
            &&& wrong == Some(InitMismatch::Description) <==> upto_parents && predecessors
                && !description
            &&& wrong == Some(InitMismatch::AuthorName) <==> upto_description && !author_name
            &&& wrong == Some(InitMismatch::AuthorEmail) <==> upto_description && author_name
                && !author_email
            &&& wrong == Some(InitMismatch::CommitterName) <==> upto_author && !committer_name
            &&& wrong == Some(InitMismatch::CommitterEmail) <==> upto_author && committer_name
                && !committer_email
        }),
{
    id_views_are_the_ids(commit.parents@);
    if commit.parents@.len() == 1 {
        assert(id_views(commit.parents@)[0] == commit.parents@[0]@);
        if commit.parents@[0]@ == root_commit {
            assert(id_views(commit.parents@) =~= seq![root_commit]);
        } else {
            assert(id_views(commit.parents@)[0] != seq![root_commit][0]);
        }
    } else {
        assert(id_views(commit.parents@).len() != seq![root_commit].len());
    }
}

/// Checks the first commit of a workspace of the user with this name and
/// address.
pub fn check_initial_commit(
    commit: &CommitData,
    empty_tree_id: &MergedTreeId,
    root_commit_id: &CommitId,
    user_name: &str,
    user_email: &str,
) -> (res: Result<(), InitMismatch>)
    ensures
        match init_mismatch(*commit, empty_tree_id@, root_commit_id@, user_name@, user_email@) {
            Some(mismatch) => res == Err::<(), InitMismatch>(mismatch),
            None => res is Ok,
        },
        res is Ok <==> {
            &&& commit.root_tree@ == empty_tree_id@
            &&& commit.parents@.len() == 1
            &&& commit.parents@[0]@ == root_commit_id@
            &&& commit.predecessors@.len() == 0
            &&& commit.description@.len() == 0
            &&& commit.author.name@ == user_name@
            &&& commit.author.email@ == user_email@
            &&& commit.committer.name@ == user_name@
            &&& commit.committer.email@ == user_email@
        },
{
    proof {
        initial_commit_exactly(
            *commit,
            empty_tree_id@,
            root_commit_id@,
            user_name@,
            user_email@,
        );
    }
    if commit.root_tree != *empty_tree_id {
        return Err(InitMismatch::Tree);
    }
    if commit.parents.len() != 1 {
        assert(id_views(commit.parents@).len() != seq![root_commit_id@].len());
        return Err(InitMismatch::Parents);
    }
    if commit.parents[0] != *root_commit_id {
        assert(id_views(commit.parents@)[0] != seq![root_commit_id@][0]);
        return Err(InitMismatch::Parents);
    }
    assert(id_views(commit.parents@) =~= seq![root_commit_id@]);
    if commit.predecessors.len() > 0 {
        return Err(InitMismatch::Predecessors);
    }
    if !commit.description.as_str().is_empty() {
        return Err(InitMismatch::Description);
    }
    if !same_text(commit.author.name.as_str(), user_name) {
        return Err(InitMismatch::AuthorName);
    }
    if !same_text(commit.author.email.as_str(), user_email) {
        return Err(InitMismatch::AuthorEmail);
    }
    if !same_text(commit.committer.name.as_str(), user_name) {
        return Err(InitMismatch::CommitterName);
    }
    if !same_text(commit.committer.email.as_str(), user_email) {
        return Err(InitMismatch::CommitterEmail);
    }
    Ok(())
}

/// Checks the first commit of a workspace that was made with `settings`: it is
/// empty, lies on the root commit, and is by the configured user.
pub fn test_init(
    commit: &CommitData,
    empty_tree_id: &MergedTreeId,
    root_commit_id: &CommitId,
    settings: &UserSettings,
) -> (res: Result<(), InitMismatch>)
    ensures
        configured_text(settings_layers(*settings), "user.name"@) is Some,
        configured_text(settings_layers(*settings), "user.email"@) is Some,
        match init_mismatch(
            *commit,
            empty_tree_id@,
            root_commit_id@,
            configured_text(settings_layers(*settings), "user.name"@)->0,
            configured_text(settings_layers(*settings), "user.email"@)->0,
        ) {
            Some(mismatch) => res == Err::<(), InitMismatch>(mismatch),
            None => res is Ok,
        },
        res is Ok <==> {
            &&& commit.root_tree@ == empty_tree_id@
            &&& commit.parents@.len() == 1
            &&& commit.parents@[0]@ == root_commit_id@
            &&& commit.predecessors@.len() == 0
            &&& commit.description@.len() == 0
            &&& Some(commit.author.name@) == configured_text(
                settings_layers(*settings),
                "user.name"@,
            )
            &&& Some(commit.author.email@) == configured_text(
                settings_layers(*settings),
                "user.email"@,
            )
            &&& Some(commit.committer.name@) == configured_text(
                settings_layers(*settings),
                "user.name"@,
            )
            &&& Some(commit.committer.email@) == configured_text(
                settings_layers(*settings),
                "user.email"@,
            )
        },
{
    check_initial_commit(
        commit,
        empty_tree_id,
        root_commit_id,
        settings_user_name(settings),
        settings_user_email(settings),
    )
}

} // verus!
