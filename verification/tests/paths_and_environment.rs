use jj_testkit::environment::join_paths;
use jj_testkit::environment::new_temp_dir;
use jj_testkit::environment::TempDir;
use jj_testkit::environment::TestEnvironment;
use jj_testkit::repo_path::working_copy_path;
use jj_testkit::repo_path::InvalidRepoPath;
use jj_testkit::repo_path::RepoPath;

fn path(text: &str) -> RepoPath {
    RepoPath::from_internal_string(text.to_string()).unwrap()
}

#[test]
fn joins_like_std() {
    for (base, name) in [
        ("/tmp", "x"),
        ("/tmp/", "x"),
        ("", "x"),
        ("a", ""),
        ("/tmp", "/abs"),
        ("/", "x/y"),
        ("", ""),
        ("/tmp/repo", ".."),
    ] {
        let expected = std::path::Path::new(base).join(name);
        assert_eq!(join_paths(base, name), expected.to_str().unwrap());
    }
}

#[test]
fn temp_dir_is_named_after_the_time() {
    assert_eq!(new_temp_dir(0).path(), "/tmp/jj-test-0");
    assert_eq!(new_temp_dir(1_700_000_000_000_000_001).path(), "/tmp/jj-test-1700000000000000001");
}

#[test]
fn temp_dirs_differ_from_moment_to_moment() {
    assert_ne!(new_temp_dir(10).path(), new_temp_dir(11).path());
    assert_ne!(new_temp_dir(1).path(), new_temp_dir(11).path());
}

#[test]
fn temp_dir_from_path_keeps_the_path() {
    assert_eq!(TempDir::from_path("/var/x".to_string()).path(), "/var/x");
}

#[test]
fn environment_root_is_its_temp_dir() {
    assert_eq!(TestEnvironment::init(7).root(), "/tmp/jj-test-7");
}

#[test]
fn repo_paths_have_no_empty_components() {
    for text in ["", "a", "a/b", "a/b.c/d", ".", "a/../b"] {
        assert_eq!(path(text).as_internal_file_string(), text);
    }
    for text in ["/", "/foo", "foo/", "foo//bar", "//"] {
        assert_eq!(RepoPath::from_internal_string(text.to_string()), None);
    }
    assert!(path("").is_root());
    assert!(!path("a").is_root());
}

#[test]
fn repo_path_debug_is_quoted() {
    assert_eq!(path("dir/file").debug(), "\"dir/file\"");
    assert_eq!(path("tab\there").debug(), "\"tab\\there\"");
}

#[test]
fn working_copy_paths() {
    assert_eq!(working_copy_path("/ws", &path("dir/file")), Ok("/ws/dir/file".to_string()));
    assert_eq!(working_copy_path("/ws/", &path("file")), Ok("/ws/file".to_string()));
    assert_eq!(working_copy_path("", &path("file")), Ok("file".to_string()));
    assert_eq!(working_copy_path("/ws", &path("")), Ok("/ws".to_string()));
    assert_eq!(working_copy_path("", &path("")), Ok(".".to_string()));
    assert_eq!(working_copy_path("/ws", &path(".hidden/a...")), Ok("/ws/.hidden/a...".to_string()));
    assert_eq!(working_copy_path("/ws", &path("...")), Ok("/ws/...".to_string()));
}

#[test]
fn working_copy_paths_refuse_dots() {
    for text in [".", "..", "a/..", "../a", "a/./b", "a/../b"] {
        assert_eq!(
            working_copy_path("/ws", &path(text)),
            Err(InvalidRepoPath { path: text.to_string() })
        );
    }
}

#[test]
fn different_files_have_different_places() {
    assert_ne!(
        working_copy_path("/ws", &path("a/b")),
        working_copy_path("/ws", &path("a/c"))
    );
}
