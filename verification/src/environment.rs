//! Scratch directories and the environment that a test runs in.

use vstd::prelude::*;

use crate::text::decimal;
use crate::text::decimal_injective;
use crate::text::decimal_text;

verus! {

/// The path `name` taken from the directory `base`, with a slash as the
/// separator: an absolute `name` stands for itself.
pub open spec fn join_path(base: Seq<char>, name: Seq<char>) -> Seq<char> {
    if name.len() > 0 && name[0] == '/' {
        name
    } else if base.len() == 0 || base.last() == '/' {
        base + name
    } else {
        base.push('/') + name
    }
}

/// A relative name goes behind its directory with one slash between them, and an
/// absolute name stands for itself.
pub proof fn join_path_exactly(base: Seq<char>, name: Seq<char>)
    ensures
        name.len() > 0 && name[0] == '/' ==> join_path(base, name) == name,
        !(name.len() > 0 && name[0] == '/') && base.len() > 0 && base.last() != '/' ==> join_path(
            base,
            name,
        ) == base + "/"@ + name,
        !(name.len() > 0 && name[0] == '/') && (base.len() == 0 || base.last() == '/') ==> join_path(
            base,
            name,
        ) == base + name,
{
    reveal_strlit("/");
    assert(base + "/"@ =~= base.push('/'));
}

/// Takes the path `name` from the directory `base`.
pub fn join_paths(base: &str, name: &str) -> (res: String)
    ensures
        res@ == join_path(base@, name@),
        name@.len() > 0 && name@[0] == '/' ==> res@ == name@,
        !(name@.len() > 0 && name@[0] == '/') && base@.len() > 0 && base@.last() != '/' ==> res@
            == base@ + "/"@ + name@,
        !(name@.len() > 0 && name@[0] == '/') && (base@.len() == 0 || base@.last() == '/') ==> res@
            == base@ + name@,
{
    proof {
        join_path_exactly(base@, name@);
    }
    let name_len = name.unicode_len();
    if name_len > 0 && name.get_char(0) == '/' {
        return name.to_owned();
    }
    let base_len = base.unicode_len();
    let mut res = base.to_owned();
    if base_len > 0 && base.get_char(base_len - 1) != '/' {
        proof {
            reveal_strlit("/");
        }
        res.append("/");
        assert(res@ =~= base@.push('/'));
    }
    res.append(name);
    res
}

/// The name of the scratch directory made `nanos` nanoseconds after the epoch.
pub open spec fn temp_dir_path(nanos: nat) -> Seq<char> {
    join_path("/tmp"@, "jj-test-"@ + decimal(nanos))
}

/// A scratch directory.
#[derive(Debug)]
pub struct TempDir {
    path: String,
}

impl View for TempDir {
    type V = Seq<char>;

    closed spec fn view(&self) -> Seq<char> {
        self.path@
    }
}

impl TempDir {
    /// The scratch directory at `path`.
    pub fn from_path(path: String) -> (res: Self)
        ensures
            res@ == path@,
    {
        TempDir { path }
    }

    /// Where the directory lies.
    pub fn path(&self) -> (res: &str)
        ensures
            res@ == self@,
    {
        self.path.as_str()
    }
}

/// The scratch directory for the time `nanos`, in nanoseconds after the epoch.
/// The caller creates it.
pub fn new_temp_dir(nanos: u128) -> (res: TempDir)
    ensures
        res@ == temp_dir_path(nanos as nat),
        res@ == "/tmp/jj-test-"@ + decimal(nanos as nat),
{
    proof {
        temp_dir_in_tmp(nanos as nat);
    }
    let mut unique_dir = "jj-test-".to_owned();
    unique_dir.append(decimal_text(nanos).as_str());
    TempDir::from_path(join_paths("/tmp", unique_dir.as_str()))
}

/// A scratch directory made at another time is another directory.
pub proof fn temp_dir_unique(a: nat, b: nat)
    requires
        temp_dir_path(a) == temp_dir_path(b),
    ensures
        a == b,
{
    reveal_strlit("/tmp");
    reveal_strlit("jj-test-");
    let whole = temp_dir_path(a);
    assert("jj-test-"@ + decimal(a) =~= whole.skip(5));
    assert("jj-test-"@ + decimal(b) =~= whole.skip(5));
    assert(decimal(a) =~= whole.skip(13));
    assert(decimal(b) =~= whole.skip(13));
    decimal_injective(a, b);
}

/// A scratch directory lies directly in `/tmp`.
pub proof fn temp_dir_in_tmp(nanos: nat)
    ensures
        temp_dir_path(nanos) == "/tmp/jj-test-"@ + decimal(nanos),
{
    reveal_strlit("/tmp");
    reveal_strlit("jj-test-");
    reveal_strlit("/tmp/jj-test-");
    assert(temp_dir_path(nanos) =~= "/tmp/jj-test-"@ + decimal(nanos));
}

/// What a test has of its own: a scratch directory.
#[derive(Debug)]
pub struct TestEnvironment {
    temp_dir: TempDir,
}

impl View for TestEnvironment {
    type V = Seq<char>;

    closed spec fn view(&self) -> Seq<char> {
        self.temp_dir@
    }
}

impl TestEnvironment {
    /// The environment of a test that starts `nanos` nanoseconds after the
    /// epoch.
    pub fn init(nanos: u128) -> (res: Self)
        ensures
            res@ == temp_dir_path(nanos as nat),
            res@ == "/tmp/jj-test-"@ + decimal(nanos as nat),
    {
        TestEnvironment { temp_dir: new_temp_dir(nanos) }
    }

    /// The directory that everything of the test lies in.
    pub fn root(&self) -> (res: &str)
        ensures
            res@ == self@,
    {
        self.temp_dir.path()
    }
}

/// Where a repository keeps its objects.
#[derive(Debug, PartialEq, Eq, Clone, Copy, Structural)]
pub enum TestRepoBackend {
    /// In files of its own.
    Local,
    /// In a backend made for tests.
    Test,
}

} // verus!
