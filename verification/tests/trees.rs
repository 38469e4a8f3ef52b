use jj_lib::local_backend::LocalBackend;
use jj_lib::signing::Signer;
use jj_lib::store::Store;
use jj_testkit::dump::dump_tree;
use jj_testkit::dump::entry_line;
use jj_testkit::dump::file_to_read;
use jj_testkit::dump::is_supported;
use jj_testkit::dump::DumpEntry;
use jj_testkit::dump::UnsupportedEntry;
use jj_testkit::ids::ObjectId;
use jj_testkit::repo_path::RepoPath;
use jj_testkit::tree::create_random_tree;
use jj_testkit::tree::create_single_tree;
use jj_testkit::tree::create_tree;
use jj_testkit::tree::numbered_tree;
use jj_testkit::tree::write_executable_file;
use jj_testkit::tree::write_normal_file;
use jj_testkit::tree::write_symlink;
use jj_testkit::tree::MergedTreeId;
use jj_testkit::tree::StoredFile;
use jj_testkit::tree::TreeValue;
use std::sync::Arc;

fn path(text: &str) -> RepoPath {
    RepoPath::from_internal_string(text.to_string()).unwrap()
}

fn id<K>(byte: u8) -> ObjectId<K> {
    ObjectId::new(vec![byte])
}

fn store() -> Arc<Store> {
    let backend = LocalBackend::load(std::path::Path::new("/nowhere"));
    Store::new(Box::new(backend), Signer::new(None, vec![]))
}

fn stored(text: &str, byte: u8) -> StoredFile {
    StoredFile { path: path(text), id: id(byte) }
}

#[test]
fn builder_starts_from_the_given_tree() {
    let builder = create_single_tree(&store(), &id(0xee), &vec![]);
    let shown = format!("{builder:?}");
    assert!(shown.contains("base_tree_id: TreeId(\"ee\")"), "{shown}");
    assert!(shown.contains("overrides: {}"), "{shown}");
}

#[test]
fn files_of_a_single_tree() {
    let builder = create_single_tree(
        &store(),
        &id(0xee),
        &vec![stored("b", 1), stored("a/x", 2), stored("b", 3)],
    );
    let shown = format!("{builder:?}");
    assert!(
        shown.contains("\"a/x\": Replace(File { id: FileId(\"02\"), executable: false })"),
        "{shown}"
    );
    assert!(
        shown.contains("\"b\": Replace(File { id: FileId(\"03\"), executable: false })"),
        "{shown}"
    );
    assert!(!shown.contains("\"01\""), "{shown}");
}

#[test]
fn files_make_the_same_tree_in_any_order() {
    let overrides = |files: Vec<StoredFile>| {
        let shown = format!("{:?}", create_single_tree(&store(), &id(0xee), &files));
        let start = shown.find("overrides:").unwrap();
        shown[start..].to_string()
    };
    let forward = overrides(vec![stored("a", 1), stored("b/c", 2), stored("d", 3)]);
    let backward = overrides(vec![stored("d", 3), stored("b/c", 2), stored("a", 1)]);
    assert_eq!(forward, backward);
    assert_ne!(forward, overrides(vec![stored("a", 3), stored("b/c", 2), stored("d", 1)]));
}

#[test]
fn each_kind_of_entry() {
    let mut builder = create_single_tree(&store(), &id(0), &vec![]);
    let back = write_normal_file(&mut builder, &path("normal"), id(0xa1));
    assert_eq!(back, id(0xa1));
    write_executable_file(&mut builder, &path("run"), id(0xa2));
    write_symlink(&mut builder, &path("link"), id(0xa3));
    let shown = format!("{builder:?}");
    assert!(
        shown.contains("\"normal\": Replace(File { id: FileId(\"a1\"), executable: false })"),
        "{shown}"
    );
    assert!(
        shown.contains("\"run\": Replace(File { id: FileId(\"a2\"), executable: true })"),
        "{shown}"
    );
    assert!(shown.contains("\"link\": Replace(Symlink(SymlinkId(\"a3\")))"), "{shown}");
}

#[test]
fn numbered_tree_has_one_file() {
    let files = numbered_tree(4_294_967_295);
    assert_eq!(files.len(), 1);
    assert_eq!(files[0].path.as_internal_file_string(), "file4294967295");
    assert_eq!(files[0].contents, "contents");
    assert_eq!(numbered_tree(0)[0].path.as_internal_file_string(), "file0");
    assert_ne!(numbered_tree(1), numbered_tree(11));
}

#[test]
fn random_tree_is_a_numbered_tree() {
    let files = create_random_tree();
    let name = files[0].path.as_internal_file_string();
    let number: u32 = name.strip_prefix("file").unwrap().parse().unwrap();
    assert_eq!(files, numbered_tree(number));
}

#[test]
fn merged_trees_compare_by_terms() {
    assert_eq!(MergedTreeId::Legacy(id(1)), MergedTreeId::Merge(vec![id(1)]));
    assert_eq!(MergedTreeId::Merge(vec![id(1)]), MergedTreeId::Legacy(id(1)));
    assert_eq!(create_tree(id(1)), MergedTreeId::Legacy(id(1)));
    assert_ne!(MergedTreeId::Legacy(id(1)), MergedTreeId::Legacy(id(2)));
    assert_ne!(
        MergedTreeId::Merge(vec![id(1), id(2), id(3)]),
        MergedTreeId::Merge(vec![id(3), id(2), id(1)])
    );
    assert_ne!(MergedTreeId::Merge(vec![id(1), id(2), id(3)]), MergedTreeId::Legacy(id(1)));
}

#[test]
fn terms_of_merged_trees() {
    assert_eq!(MergedTreeId::Legacy(id(5)).to_merge(), vec![id(5)]);
    let merge = MergedTreeId::Merge(vec![id(1), id(2), id(3)]);
    assert_eq!(merge.to_merge(), vec![id(1), id(2), id(3)]);
}

fn entry(text: &str, value: Option<TreeValue>, contents: &[u8]) -> DumpEntry {
    DumpEntry { path: path(text), terms: vec![value], contents: contents.to_vec() }
}

fn file(byte: u8) -> Option<TreeValue> {
    Some(TreeValue::File { id: id(byte), executable: false })
}

#[test]
fn dump_of_an_empty_tree() {
    assert_eq!(dump_tree(&MergedTreeId::Legacy(id(0xab)), vec![]), Ok("tree ab\n".to_string()));
}

#[test]
fn dump_joins_the_trees() {
    let tree = MergedTreeId::Merge(vec![id(1), id(2), id(3)]);
    assert_eq!(dump_tree(&tree, vec![]), Ok("tree 01&02&03\n".to_string()));
}

#[test]
fn dump_of_each_kind() {
    let entries = vec![
        entry("dir/file", file(0x11), b"say \"hi\"\n"),
        entry("link", Some(TreeValue::Symlink(id(0x22))), b""),
        entry("module", Some(TreeValue::GitSubmodule(id(0x33))), b""),
    ];
    let expected = "tree 99\n  file \"dir/file\" (11): \"say \\\"hi\\\"\\n\"\n  symlink \"link\" (22)\n  submodule \"module\" (33)\n";
    assert_eq!(dump_tree(&MergedTreeId::Legacy(id(0x99)), entries), Ok(expected.to_string()));
}

#[test]
fn dump_does_not_show_whether_a_file_can_be_executed() {
    let run = Some(TreeValue::File { id: id(1), executable: true });
    assert_eq!(
        dump_tree(&MergedTreeId::Legacy(id(0)), vec![entry("f", run, b"x")]),
        dump_tree(&MergedTreeId::Legacy(id(0)), vec![entry("f", file(1), b"x")])
    );
}

#[test]
fn dump_of_bytes_that_are_not_text() {
    let entries = vec![entry("raw", file(1), &[b'a', 0xff, b'b'])];
    assert_eq!(
        dump_tree(&MergedTreeId::Legacy(id(0)), entries),
        Ok("tree 00\n  file \"raw\" (01): \"a\u{fffd}b\"\n".to_string())
    );
}

#[test]
fn dump_shows_text_as_written() {
    let entries = vec![entry("product_metadata.json", file(1), "{\"id\": \"ü\"}".as_bytes())];
    assert_eq!(
        dump_tree(&MergedTreeId::Legacy(id(0)), entries),
        Ok("tree 00\n  file \"product_metadata.json\" (01): \"{\\\"id\\\": \\\"ü\\\"}\"\n".to_string())
    );
}

#[test]
fn dump_refuses_what_it_cannot_list() {
    let tree = MergedTreeId::Legacy(id(0));
    for value in [
        None,
        Some(TreeValue::Tree(id(1))),
        Some(TreeValue::Conflict(id(1))),
    ] {
        let entries = vec![entry("a", file(1), b""), entry("b", value, b""), entry("c", None, b"")];
        assert_eq!(dump_tree(&tree, entries), Err(UnsupportedEntry { index: 1 }));
    }
    let conflict = DumpEntry {
        path: path("c"),
        terms: vec![file(1), file(2), file(1)],
        contents: vec![],
    };
    assert_eq!(dump_tree(&tree, vec![conflict]), Err(UnsupportedEntry { index: 0 }));
}

#[test]
fn dump_of_more_entries_appends() {
    let tree = MergedTreeId::Legacy(id(0));
    let first = dump_tree(&tree, vec![entry("a", file(1), b"1")]).unwrap();
    let both = dump_tree(&tree, vec![entry("a", file(1), b"1"), entry("b", file(2), b"2")]).unwrap();
    assert_eq!(both, first + "  file \"b\" (02): \"2\"\n");
}

#[test]
fn each_entry_takes_one_line() {
    let entries = vec![
        entry("a\nb", file(1), b"one\ntwo\r\n\nthree\n"),
        entry("c", file(2), b"\n"),
        entry("d\n", Some(TreeValue::Symlink(id(3))), b""),
    ];
    let text = dump_tree(&MergedTreeId::Merge(vec![id(1), id(2), id(3)]), entries).unwrap();
    assert_eq!(text.matches('\n').count(), 4);
    assert!(text.ends_with('\n'));
    assert_eq!(text.lines().nth(2), Some("  file \"c\" (02): \"\\n\""));
}

#[test]
fn lines_from_quoted_text() {
    let value = TreeValue::File { id: id(0xf0), executable: true };
    assert_eq!(entry_line(&value, "<p>", "<c>"), Some("  file <p> (f0): <c>\n".to_string()));
    let value = TreeValue::Symlink(id(0xf1));
    assert_eq!(entry_line(&value, "<p>", "<c>"), Some("  symlink <p> (f1)\n".to_string()));
    let value = TreeValue::GitSubmodule(id(0xf2));
    assert_eq!(entry_line(&value, "<p>", "<c>"), Some("  submodule <p> (f2)\n".to_string()));
    assert_eq!(entry_line(&TreeValue::Tree(id(1)), "<p>", "<c>"), None);
    assert_eq!(entry_line(&TreeValue::Conflict(id(1)), "<p>", "<c>"), None);
}

#[test]
fn listing_of_a_tree_made_from_files() {
    let files = || vec![stored("b", 2), stored("a/x", 1)];
    let builder = create_single_tree(&store(), &id(0xee), &files());
    let shown = format!("{builder:?}");
    let entries: Vec<DumpEntry> = vec![entry("a/x", file(1), b"X\n"), entry("b", file(2), b"B")];
    for (given, listed) in files().iter().rev().zip(&entries) {
        assert_eq!(given.path, listed.path);
        let held = format!("{:?}: Replace(File", listed.path.as_internal_file_string());
        assert!(shown.contains(&held), "{shown}");
    }
    assert_eq!(
        dump_tree(&create_tree(id(0x77)), entries),
        Ok("tree 77\n  file \"a/x\" (01): \"X\\n\"\n  file \"b\" (02): \"B\"\n".to_string())
    );
}

#[test]
fn files_links_and_submodules_are_supported() {
    assert!(is_supported(&vec![file(7)]));
    assert!(is_supported(&vec![Some(TreeValue::Symlink(id(7)))]));
    assert!(is_supported(&vec![Some(TreeValue::GitSubmodule(id(7)))]));
    assert!(!is_supported(&vec![None]));
    assert!(!is_supported(&vec![Some(TreeValue::Tree(id(7)))]));
    assert!(!is_supported(&vec![Some(TreeValue::Conflict(id(7)))]));
    assert!(!is_supported(&vec![file(7), file(7), file(7)]));
}

#[test]
fn only_resolved_files_are_read() {
    assert_eq!(file_to_read(&vec![file(7)]), Some(id(7)));
    assert_eq!(file_to_read(&vec![None]), None);
    assert_eq!(file_to_read(&vec![Some(TreeValue::Symlink(id(7)))]), None);
    assert_eq!(file_to_read(&vec![file(7), None, file(8)]), None);
}
