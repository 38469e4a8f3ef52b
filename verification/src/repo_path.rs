//! Paths inside a repository, and where they lie in a file system.

use vstd::prelude::*;

use crate::environment::join_path;
use crate::environment::join_path_exactly;
use crate::text::chars_of;
use crate::upstream::debug_repo_path;
use crate::upstream::debug_text;
use crate::upstream::repo_path_to_fs;

verus! {

/// Whether `path` is the text of a path in a repository: components that are
/// not empty, with a slash between neighbours. The root is the empty text.
pub open spec fn is_repo_path(path: Seq<char>) -> bool {
    &&& path.len() > 0 ==> path[0] != '/' && path.last() != '/'
    &&& forall|i: int, j: int|
        0 <= i && j == i + 1 && j < path.len() ==> !(#[trigger] path[i] == '/' && #[trigger] path[j] == '/')
}

/// A text is a path in a repository if and only if each of its slashes has a
/// component on either side.
pub proof fn repo_path_exactly(path: Seq<char>)
    ensures
        is_repo_path(path) <==> forall|i: int|
            0 <= i < path.len() && #[trigger] path[i] == '/' ==> 0 < i < path.len() - 1 && path[i
                + 1] != '/',
{
    if is_repo_path(path) {
        assert forall|i: int| 0 <= i < path.len() && #[trigger] path[i] == '/' implies 0 < i
            < path.len() - 1 && path[i + 1] != '/' by {
            let j = i + 1;
            if j < path.len() {
                assert(!(path[i] == '/' && path[j] == '/'));
            }
        }
    }
}

/// Whether the text from `from` to `to` is a whole component of `path`.
pub open spec fn is_component(path: Seq<char>, from: int, to: int) -> bool {
    &&& 0 <= from < to <= path.len()
    &&& from == 0 || path[from - 1] == '/'
    &&& to == path.len() || path[to] == '/'
    &&& forall|i: int| from <= i < to ==> path[i] != '/'
}

/// Whether a component of `path` is one that no file can have as its name: `.`
/// or `..`.
pub open spec fn has_dots(path: Seq<char>) -> bool {
    exists|from: int, to: int|
        #[trigger] is_component(path, from, to) && (path.subrange(from, to) == seq!['.']
            || path.subrange(from, to) == seq!['.', '.'])
}

/// The place in the file system of the repository path `path` under the
/// directory `base`.
pub open spec fn fs_path(base: Seq<char>, path: Seq<char>) -> Seq<char> {
    if path.len() > 0 {
        join_path(base, path)
    } else if base.len() > 0 {
        base
    } else {
        seq!['.']
    }
}

/// Whether `a` comes before `b` where paths are ordered by their components: at
/// the first place where they differ, `a` ends, or its component does, or it has
/// the smaller character.
pub open spec fn path_precedes(a: Seq<char>, b: Seq<char>) -> bool {
    exists|i: int| #[trigger] precedes_at(a, b, i)
}

/// Whether `a` and `b` first differ at `i`, and `a` comes before `b`.
pub open spec fn precedes_at(a: Seq<char>, b: Seq<char>, i: int) -> bool {
    &&& 0 <= i <= a.len()
    &&& i < b.len()
    &&& a.take(i) == b.take(i)
    &&& i == a.len() || b[i] != '/' && (a[i] == '/' || a[i] < b[i])
}

/// Whether each path comes before all that follow it.
pub open spec fn paths_ascend(paths: Seq<Seq<char>>) -> bool {
    forall|i: int, j: int|
        0 <= i < j < paths.len() ==> path_precedes(#[trigger] paths[i], #[trigger] paths[j])
}

/// Of two paths at most one comes before the other, and no path before itself.
pub proof fn path_order_is_strict(a: Seq<char>, b: Seq<char>)
    requires
        path_precedes(a, b),
    ensures
        !path_precedes(b, a),
        a != b,
{
    let i = choose|i: int| #[trigger] precedes_at(a, b, i);
    assert forall|j: int| !(#[trigger] precedes_at(b, a, j)) by {
        if precedes_at(b, a, j) {
            if j < i {
                assert(a.take(i)[j] == b.take(i)[j]);
            } else if i < j {
                assert(b.take(j)[i] == a.take(j)[i]);
            }
        }
    }
    if a == b {
        assert(precedes_at(b, a, i));
    }
}

/// The same paths can be put in ascending order in one way only.
pub proof fn ascending_paths_are_unique(a: Seq<Seq<char>>, b: Seq<Seq<char>>)
    requires
        paths_ascend(a),
        paths_ascend(b),
        forall|path: Seq<char>| a.contains(path) <==> b.contains(path),
    ensures
        a == b,
    decreases a.len(),
{
    if a.len() == 0 {
        if b.len() > 0 {
            assert(b.contains(b[0]));
        }
    } else {
        assert(a.contains(a[0]));
        let j = choose|j: int| 0 <= j < b.len() && b[j] == a[0];
        assert(b.contains(b[0]));
        let i = choose|i: int| 0 <= i < a.len() && a[i] == b[0];
        if j > 0 {
            path_order_is_strict(b[0], b[j]);
            if i > 0 {
                path_order_is_strict(a[0], a[i]);
            }
        }
        let rest_a = a.drop_first();
        let rest_b = b.drop_first();
        assert forall|path: Seq<char>| rest_a.contains(path) <==> rest_b.contains(path) by {
            if rest_a.contains(path) {
                let k = choose|k: int| 0 <= k < rest_a.len() && rest_a[k] == path;
                assert(a[k + 1] == path);
                path_order_is_strict(a[0], a[k + 1]);
                assert(b.contains(path));
                let l = choose|l: int| 0 <= l < b.len() && b[l] == path;
                assert(rest_b[l - 1] == path);
            }
            if rest_b.contains(path) {
                let k = choose|k: int| 0 <= k < rest_b.len() && rest_b[k] == path;
                assert(b[k + 1] == path);
                path_order_is_strict(b[0], b[k + 1]);
                assert(a.contains(path));
                let l = choose|l: int| 0 <= l < a.len() && a[l] == path;
                assert(rest_a[l - 1] == path);
            }
        }
        assert(paths_ascend(rest_a)) by {
            assert forall|k: int, l: int| 0 <= k < l < rest_a.len() implies path_precedes(
                #[trigger] rest_a[k],
                #[trigger] rest_a[l],
            ) by {
                assert(path_precedes(a[k + 1], a[l + 1]));
            }
        }
        assert(paths_ascend(rest_b)) by {
            assert forall|k: int, l: int| 0 <= k < l < rest_b.len() implies path_precedes(
                #[trigger] rest_b[k],
                #[trigger] rest_b[l],
            ) by {
                assert(path_precedes(b[k + 1], b[l + 1]));
            }
        }
        ascending_paths_are_unique(rest_a, rest_b);
        assert(a =~= seq![a[0]] + rest_a);
        assert(b =~= seq![b[0]] + rest_b);
    }
}

/// A file lies under the workspace root at its path, with one slash between
/// them, and the root of the repository is the workspace root.
pub proof fn fs_path_exactly(base: Seq<char>, path: Seq<char>)
    requires
        is_repo_path(path),
    ensures
        path.len() == 0 && base.len() > 0 ==> fs_path(base, path) == base,
        path.len() == 0 && base.len() == 0 ==> fs_path(base, path) == "."@,
        path.len() > 0 && (base.len() == 0 || base.last() == '/') ==> fs_path(base, path) == base
            + path,
        path.len() > 0 && base.len() > 0 && base.last() != '/' ==> fs_path(base, path) == base
            + "/"@ + path,
{
    reveal_strlit(".");
    assert("."@ =~= seq!['.']);
    join_path_exactly(base, path);
}

/// A single component is refused if and only if it is `.` or `..`.
pub proof fn dots_of_component(name: Seq<char>)
    requires
        name.len() > 0,
        !name.contains('/'),
    ensures
        has_dots(name) <==> name == seq!['.'] || name == seq!['.', '.'],
{
    assert forall|i: int| 0 <= i < name.len() implies name[i] != '/' by {
        if name[i] == '/' {
            assert(name.contains('/'));
        }
    }
    assert(name.subrange(0, name.len() as int) =~= name);
    if name == seq!['.'] || name == seq!['.', '.'] {
        assert(is_component(name, 0, name.len() as int));
    }
    if has_dots(name) {
        let (from, to) = choose|from: int, to: int|
            #[trigger] is_component(name, from, to) && (name.subrange(from, to) == seq!['.']
                || name.subrange(from, to) == seq!['.', '.']);
        assert(from == 0);
        assert(to == name.len());
    }
}

/// A path of several components is refused if and only if one of its two parts
/// at a slash is.
pub proof fn dots_of_parts(first: Seq<char>, second: Seq<char>)
    ensures
        has_dots(first + "/"@ + second) <==> has_dots(first) || has_dots(second),
{
    reveal_strlit("/");
    let whole = first + "/"@ + second;
    let at = first.len() as int;
    assert(whole[at] == '/');
    assert forall|i: int| 0 <= i < second.len() implies #[trigger] second[i] == whole[at + 1 + i] by {
    }
    if has_dots(first) {
        let (from, to) = choose|from: int, to: int|
            #[trigger] is_component(first, from, to) && (first.subrange(from, to) == seq!['.']
                || first.subrange(from, to) == seq!['.', '.']);
        assert(whole.subrange(from, to) =~= first.subrange(from, to));
        assert(is_component(whole, from, to)) by {
            assert forall|i: int| from <= i < to implies whole[i] != '/' by {
                assert(first[i] != '/');
            }
        }
    }
    if has_dots(second) {
        let (from, to) = choose|from: int, to: int|
            #[trigger] is_component(second, from, to) && (second.subrange(from, to) == seq!['.']
                || second.subrange(from, to) == seq!['.', '.']);
        let start = at + 1 + from;
        let end = at + 1 + to;
        assert(whole.subrange(start, end) =~= second.subrange(from, to));
        assert(is_component(whole, start, end)) by {
            if from > 0 {
                assert(second[from - 1] == '/');
            }
            assert forall|i: int| start <= i < end implies whole[i] != '/' by {
                assert(second[i - at - 1] != '/');
            }
        }
    }
    if has_dots(whole) {
        let (from, to) = choose|from: int, to: int|
            #[trigger] is_component(whole, from, to) && (whole.subrange(from, to) == seq!['.']
                || whole.subrange(from, to) == seq!['.', '.']);
        assert(!(from <= at < to));
        if to <= at {
            assert(first.subrange(from, to) =~= whole.subrange(from, to));
            assert(is_component(first, from, to)) by {
                assert forall|i: int| from <= i < to implies first[i] != '/' by {
                    assert(whole[i] != '/');
                }
            }
        } else {
            let start = from - at - 1;
            let end = to - at - 1;
            assert(second.subrange(start, end) =~= whole.subrange(from, to));
            assert(is_component(second, start, end)) by {
                assert forall|i: int| start <= i < end implies second[i] != '/' by {
                    assert(whole[at + 1 + i] != '/');
                }
                if start > 0 {
                    assert(second[start - 1] == whole[from - 1]);
                }
                if end < second.len() {
                    assert(second[end] == whole[to]);
                }
            }
        }
    }
}

/// A path inside a repository.
#[derive(Debug, PartialEq, Eq)]
pub struct RepoPath {
    value: String,
}

impl View for RepoPath {
    type V = Seq<char>;

    closed spec fn view(&self) -> Seq<char> {
        self.value@
    }
}

/// The repository path has a component that cannot be the name of a file.
#[derive(Debug, PartialEq, Eq)]
pub struct InvalidRepoPath {
    /// The path, as text.
    pub path: String,
}

impl RepoPath {
    #[verifier::type_invariant]
    spec fn valid(self) -> bool {
        is_repo_path(self.value@)
    }

    /// The path that `value` is the text of, or `None` if it holds an empty
    /// component.
    pub fn from_internal_string(value: String) -> (res: Option<Self>)
        ensures
            res is Some <==> is_repo_path(value@),
            res matches Some(path) ==> path@ == value@,
            res is Some <==> forall|i: int|
                0 <= i < value@.len() && #[trigger] value@[i] == '/' ==> 0 < i < value@.len() - 1
                    && value@[i + 1] != '/',
    {
        proof {
            repo_path_exactly(value@);
        }
        let chars = chars_of(value.as_str());
        if chars.len() > 0 {
            if chars[0] == '/' || chars[chars.len() - 1] == '/' {
                return None;
            }
        }
        let mut i: usize = 1;
        while i < chars.len()
            invariant
                1 <= i,
                chars@ == value@,
                forall|k: int, j: int|
                    0 <= k && j == k + 1 && j < chars@.len() && j < i ==> !(#[trigger] chars@[k] == '/'
                        && #[trigger] chars@[j] == '/'),
            decreases chars.len() - i,
        {
            if chars[i - 1] == '/' && chars[i] == '/' {
                return None;
            }
            i = i + 1;
        }
        Some(RepoPath { value })
    }

    /// The path `value`, which is known to be well formed.
    pub(crate) fn from_valid(value: String) -> (res: Self)
        requires
            is_repo_path(value@),
        ensures
            res@ == value@,
    {
        RepoPath { value }
    }

    /// The text of the path.
    pub fn as_internal_file_string(&self) -> (res: &str)
        ensures
            res@ == self@,
            is_repo_path(self@),
    {
        proof {
            use_type_invariant(self);
        }
        self.value.as_str()
    }

    /// Whether this is the root of the repository.
    pub fn is_root(&self) -> (res: bool)
        ensures
            res == (self@.len() == 0),
    {
        self.value.as_str().is_empty()
    }

    /// The path in quotes, as in debugging output, which takes no line break.
    pub fn debug(&self) -> (res: String)
        ensures
            res@ == debug_text(self@),
            !res@.contains('\n'),
    {
        proof {
            use_type_invariant(self);
        }
        debug_repo_path(self.value.as_str())
    }
}

impl Clone for RepoPath {
    fn clone(&self) -> (res: Self)
        ensures
            res@ == self@,
    {
        proof {
            use_type_invariant(self);
        }
        RepoPath { value: self.value.clone() }
    }
}

/// Where a file at `path` lies in the working copy at `workspace_root`.
pub fn working_copy_path(workspace_root: &str, path: &RepoPath) -> (res: Result<String, InvalidRepoPath>)
    ensures
        match res {
            Ok(place) => !has_dots(path@) && place@ == fs_path(workspace_root@, path@),
            Err(err) => has_dots(path@) && err.path@ == path@,
        },
        res matches Ok(place) ==> {
            &&& path@.len() == 0 && workspace_root@.len() > 0 ==> place@ == workspace_root@
            &&& path@.len() == 0 && workspace_root@.len() == 0 ==> place@ == "."@
            &&& path@.len() > 0 && (workspace_root@.len() == 0 || workspace_root@.last() == '/')
                ==> place@ == workspace_root@ + path@
            &&& path@.len() > 0 && workspace_root@.len() > 0 && workspace_root@.last() != '/'
                ==> place@ == workspace_root@ + "/"@ + path@
        },
{
    proof {
        use_type_invariant(path);
        fs_path_exactly(workspace_root@, path@);
    }
    match repo_path_to_fs(path.as_internal_file_string(), workspace_root) {
        Ok(place) => Ok(place),
        Err(_) => Err(InvalidRepoPath { path: path.as_internal_file_string().to_owned() }),
    }
}

/// The place of a path in the working copy begins with the workspace root, and
/// what follows ends with the path.
pub proof fn working_copy_path_stays_inside(base: Seq<char>, path: Seq<char>)
    requires
        is_repo_path(path),
        base.len() > 0,
    ensures
        base.is_prefix_of(fs_path(base, path)),
        path.is_suffix_of(fs_path(base, path)),
        fs_path(base, path).len() <= base.len() + 1 + path.len(),
{
}

/// Two different files of a repository have different places in the working
/// copy.
pub proof fn working_copy_path_injective(base: Seq<char>, a: Seq<char>, b: Seq<char>)
    requires
        is_repo_path(a),
        is_repo_path(b),
        a.len() > 0,
        b.len() > 0,
        fs_path(base, a) == fs_path(base, b),
    ensures
        a == b,
{
    let whole = fs_path(base, a);
    let start = whole.len() - a.len();
    assert(a =~= whole.subrange(start, whole.len() as int));
    assert(b =~= whole.subrange(start, whole.len() as int));
}

} // verus!
