//! A readable listing of a tree.

use vstd::prelude::*;
use vstd::set_lib::lemma_int_range;
use vstd::set_lib::set_int_range;
use vstd::utf8::decode_utf8;
use vstd::utf8::encode_utf8;
use vstd::utf8::encode_utf8_decode_utf8;
use vstd::utf8::encode_utf8_valid_utf8;
use vstd::utf8::valid_utf8;

use crate::ids::hex;
use crate::ids::id_views;
use crate::ids::FileId;
use crate::ids::ObjectId;
use crate::repo_path::ascending_paths_are_unique;
use crate::repo_path::paths_ascend;
use crate::repo_path::RepoPath;
use crate::text::concatenated;
use crate::text::joined;
use crate::text::line_breaks;
use crate::text::line_breaks_add;
use crate::text::line_breaks_none;
use crate::text::views;
use crate::tree::distinct_paths;
use crate::tree::last_file_wins;
use crate::tree::no_overrides;
use crate::tree::other_paths_unchanged;
use crate::tree::with_files;
use crate::tree::MergedTreeId;
use crate::tree::TreeValue;
use crate::tree::TreeValueView;
use crate::upstream::debug_str;
use crate::upstream::debug_text;
use crate::upstream::into_resolved;
use crate::upstream::join_texts;
use crate::upstream::lossy_text;
use crate::upstream::lossy_utf8;

verus! {

/// An entry of a tree: where it stands and what stands there, as the terms of a
/// merge. Of a file it also has the contents.
#[derive(Debug, PartialEq, Eq)]
pub struct DumpEntry {
    /// Where the entry stands.
    pub path: RepoPath,
    /// The terms of the merge, of which there is an odd number; one term is a
    /// resolved entry, and `None` stands for nothing.
    pub terms: Vec<Option<TreeValue>>,
    /// The contents, if the entry is a file.
    pub contents: Vec<u8>,
}

/// A `DumpEntry` over views.
pub struct DumpEntryView {
    pub path: Seq<char>,
    pub terms: Seq<Option<TreeValueView>>,
    pub contents: Seq<u8>,
}

/// The views of the terms of a merge.
pub open spec fn term_views(terms: Seq<Option<TreeValue>>) -> Seq<Option<TreeValueView>> {
    terms.map_values(
        |term: Option<TreeValue>|
            match term {
                Some(value) => Some(value@),
                None => None,
            },
    )
}

impl View for DumpEntry {
    type V = DumpEntryView;

    open spec fn view(&self) -> DumpEntryView {
        DumpEntryView { path: self.path@, terms: term_views(self.terms@), contents: self.contents@ }
    }
}

/// The views of a list of entries.
pub open spec fn entry_views(entries: Seq<DumpEntry>) -> Seq<DumpEntryView> {
    entries.map_values(|entry: DumpEntry| entry@)
}

/// What stands at an entry, if it is resolved and there is something.
pub open spec fn resolved_value(terms: Seq<Option<TreeValueView>>) -> Option<TreeValueView> {
    if terms.len() == 1 {
        terms[0]
    } else {
        None
    }
}

/// Whether an entry can be listed: files, symbolic links and submodules can,
/// and nothing else.
pub open spec fn can_dump(terms: Seq<Option<TreeValueView>>) -> bool {
    match resolved_value(terms) {
        Some(TreeValueView::File { .. }) => true,
        Some(TreeValueView::Symlink(_)) => true,
        Some(TreeValueView::GitSubmodule(_)) => true,
        _ => false,
    }
}

/// The first line: the trees that are merged.
pub open spec fn dump_header(trees: Seq<Seq<u8>>) -> Seq<char> {
    "tree "@ + joined(trees.map_values(|id: Seq<u8>| hex(id)), "&"@) + "\n"@
}

/// The path and the identifier of an entry of the given kind.
pub open spec fn dump_label(kind: Seq<char>, quoted_path: Seq<char>, id: Seq<u8>) -> Seq<char> {
    "  "@ + kind + " "@ + quoted_path + " ("@ + hex(id) + ")"@
}

/// The line of a file.
pub open spec fn file_line(
    quoted_path: Seq<char>,
    id: Seq<u8>,
    quoted_contents: Seq<char>,
) -> Seq<char> {
    dump_label("file"@, quoted_path, id) + ": "@ + quoted_contents + "\n"@
}

/// The line of an entry where `value` stands, if it can be listed. Of anything
/// but a file the contents are not shown.
pub open spec fn value_line(
    value: TreeValueView,
    quoted_path: Seq<char>,
    quoted_contents: Seq<char>,
) -> Option<Seq<char>> {
    match value {
        TreeValueView::File { id, .. } => Some(file_line(quoted_path, id, quoted_contents)),
        TreeValueView::Symlink(id) => Some(dump_label("symlink"@, quoted_path, id) + "\n"@),
        TreeValueView::GitSubmodule(id) => Some(
            dump_label("submodule"@, quoted_path, id) + "\n"@,
        ),
        _ => None,
    }
}

/// The line of an entry that can be listed.
pub open spec fn dump_line(entry: DumpEntryView) -> Seq<char>
    recommends
        can_dump(entry.terms),
{
    value_line(
        resolved_value(entry.terms)->0,
        debug_text(entry.path),
        debug_text(lossy_text(entry.contents)),
    )->0
}

/// The line of an entry, written out: its kind, its path in quotes, its
/// identifier, and for a file the whole of its contents in quotes, however long.
/// Nothing else has a line.
pub proof fn value_line_written_out(
    value: TreeValueView,
    quoted_path: Seq<char>,
    quoted_contents: Seq<char>,
)
    ensures
        match value {
            TreeValueView::File { id, .. } => value_line(value, quoted_path, quoted_contents)
                == Some(
                "  file "@ + quoted_path + " ("@ + hex(id) + "): "@ + quoted_contents + "\n"@,
            ),
            TreeValueView::Symlink(id) => value_line(value, quoted_path, quoted_contents) == Some(
                "  symlink "@ + quoted_path + " ("@ + hex(id) + ")\n"@,
            ),
            TreeValueView::GitSubmodule(id) => value_line(value, quoted_path, quoted_contents)
                == Some("  submodule "@ + quoted_path + " ("@ + hex(id) + ")\n"@),
            TreeValueView::Tree(_) | TreeValueView::Conflict(_) => value_line(
                value,
                quoted_path,
                quoted_contents,
            ) is None,
        },
{
    reveal_strlit("  ");
    reveal_strlit(" ");
    reveal_strlit(" (");
    reveal_strlit(")");
    reveal_strlit(": ");
    reveal_strlit("\n");
    reveal_strlit("file");
    reveal_strlit("symlink");
    reveal_strlit("submodule");
    reveal_strlit("  file ");
    reveal_strlit("  symlink ");
    reveal_strlit("  submodule ");
    reveal_strlit("): ");
    reveal_strlit(")\n");
    match value {
        TreeValueView::File { id, .. } => {
            assert(value_line(value, quoted_path, quoted_contents)->0 =~= "  file "@ + quoted_path
                + " ("@ + hex(id) + "): "@ + quoted_contents + "\n"@);
        },
        TreeValueView::Symlink(id) => {
            assert(value_line(value, quoted_path, quoted_contents)->0 =~= "  symlink "@
                + quoted_path + " ("@ + hex(id) + ")\n"@);
        },
        TreeValueView::GitSubmodule(id) => {
            assert(value_line(value, quoted_path, quoted_contents)->0 =~= "  submodule "@
                + quoted_path + " ("@ + hex(id) + ")\n"@);
        },
        _ => {},
    }
}

/// The line of a file ends in the whole of its contents in quotes and a line
/// break.
pub proof fn file_line_ends_in_contents(
    id: Seq<u8>,
    executable: bool,
    quoted_path: Seq<char>,
    quoted_contents: Seq<char>,
)
    ensures
        ({
            let file = TreeValueView::File { id, executable };
            let line = value_line(file, quoted_path, quoted_contents);
            line is Some && (quoted_contents + "\n"@).is_suffix_of(line->0)
        }),
{
    let file = TreeValueView::File { id, executable };
    value_line_written_out(file, quoted_path, quoted_contents);
    let line = value_line(file, quoted_path, quoted_contents)->0;
    let tail = quoted_contents + "\n"@;
    assert(line =~= ("  file "@ + quoted_path + " ("@ + hex(id) + "): "@) + tail);
    assert(line.subrange(line.len() - tail.len(), line.len() as int) =~= tail);
}

/// Files that stand at one path and differ in what is shown of their contents
/// have different lines.
pub proof fn file_lines_tell_contents_apart(
    id: Seq<u8>,
    first_executable: bool,
    second_executable: bool,
    quoted_path: Seq<char>,
    first: Seq<char>,
    second: Seq<char>,
)
    requires
        value_line(
            TreeValueView::File { id, executable: first_executable },
            quoted_path,
            first,
        ) == value_line(
            TreeValueView::File { id, executable: second_executable },
            quoted_path,
            second,
        ),
    ensures
        first == second,
{
    let one = TreeValueView::File { id, executable: first_executable };
    let two = TreeValueView::File { id, executable: second_executable };
    value_line_written_out(one, quoted_path, first);
    value_line_written_out(two, quoted_path, second);
    let line = value_line(one, quoted_path, first)->0;
    let start = ("  file "@ + quoted_path + " ("@ + hex(id) + "): "@).len() as int;
    reveal_strlit("\n");
    assert(first =~= line.subrange(start, line.len() - 1));
    assert(second =~= line.subrange(start, line.len() - 1));
}

/// An entry can be listed if and only if it is resolved, to a file, a symbolic
/// link or a submodule.
pub proof fn can_dump_exactly(terms: Seq<Option<TreeValue>>)
    ensures
        can_dump(term_views(terms)) <==> terms.len() == 1 && terms[0] is Some && (
        terms[0]->0 is File || terms[0]->0 is Symlink || terms[0]->0 is GitSubmodule),
{
    if terms.len() == 1 {
        assert(term_views(terms)[0] == match terms[0] {
            Some(value) => Some(value@),
            None => None,
        });
    }
}

/// The views of a list of entries are those of its entries, one by one.
pub proof fn entry_views_are_the_entries(entries: Seq<DumpEntry>)
    ensures
        entry_views(entries).len() == entries.len(),
        forall|i: int|
            0 <= i < entries.len() ==> {
                let view = #[trigger] entry_views(entries)[i];
                &&& view.path == entries[i].path@
                &&& view.contents == entries[i].contents@
                &&& view.terms.len() == entries[i].terms@.len()
                &&& forall|j: int|
                    0 <= j < view.terms.len() ==> #[trigger] view.terms[j]
                        == match entries[i].terms@[j] {
                        Some(value) => Some(value@),
                        None => None,
                    }
            },
{
}

/// The first line: the word `tree`, and the identifiers of the trees in
/// hexadecimal with `&` between neighbours.
pub proof fn dump_header_written_out(trees: Seq<Seq<u8>>, hexes: Seq<Seq<char>>)
    requires
        hexes.len() == trees.len(),
        forall|i: int| 0 <= i < trees.len() ==> #[trigger] hexes[i] == hex(trees[i]),
    ensures
        dump_header(trees) == "tree "@ + joined(hexes, "&"@) + "\n"@,
{
    assert(hexes =~= trees.map_values(|id: Seq<u8>| hex(id)));
}

/// Whether `line` is the line of `entry`, written out. A file of text in UTF-8
/// shows that very text.
pub open spec fn is_line_of(line: Seq<char>, entry: DumpEntry) -> bool {
    entry.terms@.len() == 1 && match entry.terms@[0] {
        Some(TreeValue::File { id, .. }) => {
            let text = if valid_utf8(entry.contents@) {
                decode_utf8(entry.contents@)
            } else {
                lossy_text(entry.contents@)
            };
            line == "  file "@ + debug_text(entry.path@) + " ("@ + hex(id@) + "): "@ + debug_text(
                text,
            ) + "\n"@
        },
        Some(TreeValue::Symlink(id)) => {
            line == "  symlink "@ + debug_text(entry.path@) + " ("@ + hex(id@) + ")\n"@
        },
        Some(TreeValue::GitSubmodule(id)) => {
            line == "  submodule "@ + debug_text(entry.path@) + " ("@ + hex(id@) + ")\n"@
        },
        _ => false,
    }
}

/// The line of an entry that can be listed is the one written out.
pub proof fn dump_line_written_out(entry: DumpEntry)
    requires
        can_dump(entry@.terms),
        shows_text(entry@),
    ensures
        entry.terms@.len() == 1,
        entry.terms@[0] matches Some(TreeValue::File { id, .. }) ==> dump_line(entry@) == "  file "@
            + debug_text(entry.path@) + " ("@ + hex(id@) + "): "@ + debug_text(
            if valid_utf8(entry.contents@) {
                decode_utf8(entry.contents@)
            } else {
                lossy_text(entry.contents@)
            },
        ) + "\n"@,
        entry.terms@[0] matches Some(TreeValue::Symlink(id)) ==> dump_line(entry@)
            == "  symlink "@ + debug_text(entry.path@) + " ("@ + hex(id@) + ")\n"@,
        entry.terms@[0] matches Some(TreeValue::GitSubmodule(id)) ==> dump_line(entry@)
            == "  submodule "@ + debug_text(entry.path@) + " ("@ + hex(id@) + ")\n"@,
        is_line_of(dump_line(entry@), entry),
{
    can_dump_exactly(entry.terms@);
    assert(entry@.terms[0] == Some(entry.terms@[0]->0@));
    value_line_written_out(
        entry.terms@[0]->0@,
        debug_text(entry.path@),
        debug_text(lossy_text(entry.contents@)),
    );
}

/// If the entry is a file of text in UTF-8, its line shows that very text.
pub open spec fn shows_text(entry: DumpEntryView) -> bool {
    resolved_value(entry.terms) is Some && resolved_value(entry.terms)->0 is File && valid_utf8(
        entry.contents,
    ) ==> lossy_text(entry.contents) == decode_utf8(entry.contents)
}

/// The lines of the entries, in order.
pub open spec fn dump_lines(entries: Seq<DumpEntryView>) -> Seq<char> {
    concatenated(entries.map_values(|entry: DumpEntryView| dump_line(entry)))
}

/// An entry that cannot be listed: a conflict, a directory, or nothing at all.
#[derive(Debug, PartialEq, Eq)]
pub struct UnsupportedEntry {
    /// The index of the entry.
    pub index: usize,
}

/// The stored contents that the line of an entry shows, if it is a file.
pub fn file_to_read(terms: &Vec<Option<TreeValue>>) -> (res: Option<FileId>)
    ensures
        match resolved_value(term_views(terms@)) {
            Some(TreeValueView::File { id, .. }) => res is Some && res->0@ == id,
            _ => res is None,
        },
        res is Some <==> terms@.len() == 1 && terms@[0] is Some && terms@[0]->0 is File,
        terms@.len() == 1 ==> (terms@[0] matches Some(TreeValue::File { id, .. }) ==> res is Some
            && res->0@ == id@),
{
    if terms.len() != 1 {
        return None;
    }
    match &terms[0] {
        Some(TreeValue::File { id, .. }) => Some(id.clone()),
        _ => None,
    }
}

/// Whether an entry can be listed.
pub fn is_supported(terms: &Vec<Option<TreeValue>>) -> (res: bool)
    ensures
        res == can_dump(term_views(terms@)),
        res <==> terms@.len() == 1 && terms@[0] is Some && (terms@[0]->0 is File
            || terms@[0]->0 is Symlink || terms@[0]->0 is GitSubmodule),
{
    proof {
        can_dump_exactly(terms@);
    }
    if terms.len() != 1 {
        return false;
    }
    match &terms[0] {
        Some(TreeValue::File { .. }) => true,
        Some(TreeValue::Symlink(_)) => true,
        Some(TreeValue::GitSubmodule(_)) => true,
        _ => false,
    }
}

fn label<K>(kind: &str, quoted_path: &str, id: &ObjectId<K>) -> (res: String)
    ensures
        res@ == dump_label(kind@, quoted_path@, id@),
{
    let mut res = "  ".to_owned();
    res.append(kind);
    res.append(" ");
    res.append(quoted_path);
    res.append(" (");
    res.append(id.hex().as_str());
    res.append(")");
    res
}

/// The line of an entry where `value` stands, if it can be listed, from its path
/// and its contents in quotes.
pub fn entry_line(value: &TreeValue, quoted_path: &str, quoted_contents: &str) -> (res: Option<
    String,
>)
    ensures
        match value_line(value@, quoted_path@, quoted_contents@) {
            Some(line) => res is Some && res->0@ == line,
            None => res is None,
        },
        match *value {
            TreeValue::File { id, .. } => res is Some && res->0@ == "  file "@ + quoted_path@
                + " ("@ + hex(id@) + "): "@ + quoted_contents@ + "\n"@,
            TreeValue::Symlink(id) => res is Some && res->0@ == "  symlink "@ + quoted_path@
                + " ("@ + hex(id@) + ")\n"@,
            TreeValue::GitSubmodule(id) => res is Some && res->0@ == "  submodule "@
                + quoted_path@ + " ("@ + hex(id@) + ")\n"@,
            TreeValue::Tree(_) | TreeValue::Conflict(_) => res is None,
        },
{
    proof {
        value_line_written_out(value@, quoted_path@, quoted_contents@);
    }
    match value {
        TreeValue::File { id, executable: _ } => {
            let mut line = label("file", quoted_path, id);
            line.append(": ");
            line.append(quoted_contents);
            line.append("\n");
            Some(line)
        },
        TreeValue::Symlink(id) => {
            let mut line = label("symlink", quoted_path, id);
            line.append("\n");
            Some(line)
        },
        TreeValue::GitSubmodule(id) => {
            let mut line = label("submodule", quoted_path, id);
            line.append("\n");
            Some(line)
        },
        _ => None,
    }
}

fn line_of(entry: DumpEntry) -> (res: Option<String>)
    requires
        entry.terms.len() % 2 == 1,
    ensures
        res is Some <==> can_dump(entry@.terms),
        res matches Some(line) ==> {
            &&& line@ == dump_line(entry@)
            &&& line_breaks(line@) == 1
            &&& shows_text(entry@)
        },
{
    let DumpEntry { path, terms, contents } = entry;
    let ghost given = terms@;
    match into_resolved(terms) {
        Ok(Some(value)) => {
            assert(term_views(given)[0] == Some(value@));
            let quoted_path = path.debug();
            let quoted_contents = debug_str(lossy_utf8(contents.as_slice()).as_str());
            proof {
                if can_dump(term_views(given)) {
                    value_line_is_one_line(value@, quoted_path@, quoted_contents@);
                }
            }
            entry_line(&value, quoted_path.as_str(), quoted_contents.as_str())
        },
        _ => None,
    }
}

/// Lists a tree: a line with the trees that are merged, and then one line for
/// each entry, whatever its path and its contents hold. The first entry that cannot be listed is an error.
pub fn dump_tree(tree_id: &MergedTreeId, entries: Vec<DumpEntry>) -> (res: Result<
    String,
    UnsupportedEntry,
>)
    requires
        tree_id.wf(),
        forall|i: int| 0 <= i < entries.len() ==> (#[trigger] entries@[i]).terms.len() % 2 == 1,
    ensures
        match res {
            Ok(text) => {
                &&& forall|i: int| 0 <= i < entries.len() ==> can_dump((#[trigger] entries@[i])@.terms)
                &&& text@ == dump_header(tree_id@) + dump_lines(entry_views(entries@))
                &&& forall|i: int| 0 <= i < entries.len() ==> shows_text((#[trigger] entries@[i])@)
                &&& forall|i: int|
                    0 <= i < entries.len() ==> line_breaks(dump_line((#[trigger] entries@[i])@)) == 1
                &&& line_breaks(text@) == entries.len() + 1
                &&& text@.last() == '\n'
            },
            Err(err) => {
                &&& err.index < entries.len()
                &&& !can_dump(entries@[err.index as int]@.terms)
                &&& forall|i: int|
                    0 <= i < err.index ==> can_dump((#[trigger] entries@[i])@.terms)
            },
        },
        res matches Ok(text) ==> exists|hexes: Seq<Seq<char>>, lines: Seq<Seq<char>>|
            {
                &&& text@ == "tree "@ + #[trigger] joined(hexes, "&"@) + "\n"@
                    + #[trigger] concatenated(lines)
                &&& hexes.len() == tree_id@.len()
                &&& forall|i: int|
                    0 <= i < hexes.len() ==> #[trigger] hexes[i] == hex(tree_id@[i])
                &&& lines.len() == entries.len()
                &&& forall|i: int|
                    0 <= i < lines.len() ==> is_line_of(#[trigger] lines[i], entries@[i])
            },
        res is Ok <==> forall|i: int|
            0 <= i < entries.len() ==> (#[trigger] entries@[i]).terms@.len() == 1
                && entries@[i].terms@[0] is Some && (entries@[i].terms@[0]->0 is File
                || entries@[i].terms@[0]->0 is Symlink || entries@[i].terms@[0]->0 is GitSubmodule),
{
    let ids = tree_id.to_merge();
    let mut hexes: Vec<String> = Vec::new();
    let mut i: usize = 0;
    while i < ids.len()
        invariant
            i <= ids.len(),
            hexes.len() == i,
            forall|j: int| 0 <= j < i ==> (#[trigger] hexes@[j])@ == hex(ids@[j]@),
        decreases ids.len() - i,
    {
        hexes.push(ids[i].hex());
        i = i + 1;
    }
    assert(views(hexes@) =~= tree_id@.map_values(|id: Seq<u8>| hex(id))) by {
        assert(id_views(ids@) == tree_id@);
        assert forall|j: int| 0 <= j < hexes.len() implies #[trigger] views(hexes@)[j] == hex(
            tree_id@[j],
        ) by {
            assert(hexes@[j]@ == hex(ids@[j]@));
            assert(id_views(ids@)[j] == ids@[j]@);
        }
    }
    let mut buf = "tree ".to_owned();
    buf.append(join_texts(&hexes, "&").as_str());
    buf.append("\n");
    assert(buf@ =~= dump_header(tree_id@));

    let ghost all = entries@;
    let ghost seen = entry_views(all);
    let ghost lines = seen.map_values(|entry: DumpEntryView| dump_line(entry));
    let total = entries.len();
    let mut index: usize = 0;
    for entry in it: entries
        invariant
            it.seq() == all,
            index == it.index(),
            all.len() == total,
            seen == entry_views(all),
            lines == seen.map_values(|entry: DumpEntryView| dump_line(entry)),
            forall|k: int| 0 <= k < all.len() ==> (#[trigger] all[k]).terms.len() % 2 == 1,
            forall|k: int| 0 <= k < index ==> can_dump((#[trigger] all[k])@.terms),
            forall|k: int| 0 <= k < index ==> shows_text((#[trigger] all[k])@),
            forall|k: int| 0 <= k < index ==> line_breaks(dump_line((#[trigger] all[k])@)) == 1,
            buf@ == dump_header(tree_id@) + concatenated(lines.take(index as int)),
    {
        assert(entry == all[index as int]);
        proof {
            can_dump_exactly(entry.terms@);
        }
        match line_of(entry) {
            Some(line) => buf.append(line.as_str()),
            None => {
                return Err(UnsupportedEntry { index });
            },
        }
        proof {
            assert(lines[index as int] == dump_line(all[index as int]@));
            assert(lines.take(index + 1).drop_last() =~= lines.take(index as int));
            assert(buf@ =~= dump_header(tree_id@) + concatenated(lines.take(index + 1)));
        }
        index = index + 1;
    }
    assert(lines.take(index as int) =~= lines);
    proof {
        dump_header_is_one_line(tree_id@);
        assert forall|k: int| 0 <= k < seen.len() implies line_breaks(dump_line(#[trigger] seen[k]))
            == 1 && can_dump(seen[k].terms) by {
            assert(seen[k] == all[k]@);
        }
        dump_lines_are_lines(seen);
        line_breaks_add(dump_header(tree_id@), dump_lines(seen));
        assert forall|k: int| 0 <= k < lines.len() implies is_line_of(#[trigger] lines[k], all[k]) by {
            assert(seen[k] == all[k]@);
            dump_line_written_out(all[k]);
        }
        assert forall|k: int| 0 <= k < all.len() implies (#[trigger] all[k]).terms@.len() == 1
            && all[k].terms@[0] is Some && (all[k].terms@[0]->0 is File
            || all[k].terms@[0]->0 is Symlink || all[k].terms@[0]->0 is GitSubmodule) by {
            can_dump_exactly(all[k].terms@);
        }
        dump_header_written_out(tree_id@, views(hexes@));
        assert(buf@ =~= "tree "@ + joined(views(hexes@), "&"@) + "\n"@ + concatenated(lines));
    }
    Ok(buf)
}

/// A listing of no entries has no lines, and each further entry adds its own line
/// at the end, whole.
pub proof fn dump_lines_grow(entries: Seq<DumpEntryView>, entry: DumpEntryView)
    ensures
        dump_lines(Seq::empty()) == Seq::<char>::empty(),
        dump_lines(entries.push(entry)) == dump_lines(entries) + dump_line(entry),
{
    let line = |entry: DumpEntryView| dump_line(entry);
    assert(Seq::<DumpEntryView>::empty().map_values(line) =~= Seq::<Seq<char>>::empty());
    assert(entries.push(entry).map_values(line).drop_last() =~= entries.map_values(line));
}

/// Listing more entries only adds their lines at the end.
pub proof fn dump_lines_append(first: Seq<DumpEntryView>, second: Seq<DumpEntryView>)
    ensures
        dump_lines(first + second) == dump_lines(first) + dump_lines(second),
    decreases second.len(),
{
    let line = |entry: DumpEntryView| dump_line(entry);
    if second.len() == 0 {
        assert(first + second =~= first);
        assert(dump_lines(first) + dump_lines(second) =~= dump_lines(first));
    } else {
        let shorter = second.drop_last();
        dump_lines_append(first, shorter);
        assert((first + second).map_values(line).drop_last() =~= (first + shorter).map_values(line));
        assert(second.map_values(line).drop_last() =~= shorter.map_values(line));
        assert(dump_lines(first + second) =~= dump_lines(first) + dump_lines(second));
    }
}

/// The line of a file that was written as text shows the text.
pub proof fn dump_line_of_text(entry: DumpEntryView, id: Seq<u8>, executable: bool, text: Seq<char>)
    requires
        resolved_value(entry.terms) == Some(TreeValueView::File { id, executable }),
        entry.contents == encode_utf8(text),
        shows_text(entry),
    ensures
        dump_line(entry) == file_line(debug_text(entry.path), id, debug_text(text)),
        dump_line(entry) == "  file "@ + debug_text(entry.path) + " ("@ + hex(id) + "): "@
            + debug_text(text) + "\n"@,
        (debug_text(text) + "\n"@).is_suffix_of(dump_line(entry)),
{
    value_line_written_out(
        TreeValueView::File { id, executable },
        debug_text(entry.path),
        debug_text(text),
    );
    file_line_ends_in_contents(id, executable, debug_text(entry.path), debug_text(text));
    encode_utf8_valid_utf8(text);
    encode_utf8_decode_utf8(text);
}

/// The line of each entry that can be listed ends with a line break.
pub proof fn dump_line_ends(entry: DumpEntryView)
    requires
        can_dump(entry.terms),
    ensures
        dump_line(entry).len() > 0,
        dump_line(entry).last() == '\n',
{
    reveal_strlit("\n");
}

/// An identifier in hexadecimal holds no line break.
proof fn hex_is_one_word(id: Seq<u8>)
    ensures
        line_breaks(hex(id)) == 0,
{
    assert forall|i: int| 0 <= i < hex(id).len() implies hex(id)[i] != '\n' by {
        assert(0 <= id[i / 2] as int / 16 < 16);
    }
    line_breaks_none(hex(id));
}

proof fn label_is_one_line(kind: Seq<char>, quoted_path: Seq<char>, id: Seq<u8>)
    requires
        line_breaks(kind) == 0,
        line_breaks(quoted_path) == 0,
    ensures
        line_breaks(dump_label(kind, quoted_path, id)) == 0,
{
    reveal_strlit("  ");
    reveal_strlit(" ");
    reveal_strlit(" (");
    reveal_strlit(")");
    line_breaks_none("  "@);
    line_breaks_none(" "@);
    line_breaks_none(" ("@);
    line_breaks_none(")"@);
    hex_is_one_word(id);
    line_breaks_add("  "@, kind);
    line_breaks_add("  "@ + kind, " "@);
    line_breaks_add("  "@ + kind + " "@, quoted_path);
    line_breaks_add("  "@ + kind + " "@ + quoted_path, " ("@);
    line_breaks_add("  "@ + kind + " "@ + quoted_path + " ("@, hex(id));
    line_breaks_add("  "@ + kind + " "@ + quoted_path + " ("@ + hex(id), ")"@);
}

proof fn line_break_is_one()
    ensures
        line_breaks("\n"@) == 1,
{
    reveal_strlit("\n");
    assert("\n"@.drop_last() =~= Seq::<char>::empty());
    assert(line_breaks(Seq::<char>::empty()) == 0);
}

/// The line of an entry is one line, whatever stands there, where neither the
/// path nor the contents in quotes hold a line break.
pub proof fn value_line_is_one_line(
    value: TreeValueView,
    quoted_path: Seq<char>,
    quoted_contents: Seq<char>,
)
    requires
        !quoted_path.contains('\n'),
        !quoted_contents.contains('\n'),
        value_line(value, quoted_path, quoted_contents) is Some,
    ensures
        line_breaks(value_line(value, quoted_path, quoted_contents)->0) == 1,
        value_line(value, quoted_path, quoted_contents)->0.last() == '\n',
{
    reveal_strlit("file");
    reveal_strlit("symlink");
    reveal_strlit("submodule");
    reveal_strlit(": ");
    reveal_strlit("\n");
    line_breaks_none("file"@);
    line_breaks_none("symlink"@);
    line_breaks_none("submodule"@);
    line_breaks_none(": "@);
    line_breaks_none(quoted_path);
    line_breaks_none(quoted_contents);
    line_break_is_one();
    match value {
        TreeValueView::File { id, .. } => {
            let label = dump_label("file"@, quoted_path, id);
            label_is_one_line("file"@, quoted_path, id);
            line_breaks_add(label, ": "@);
            line_breaks_add(label + ": "@, quoted_contents);
            line_breaks_add(label + ": "@ + quoted_contents, "\n"@);
        },
        TreeValueView::Symlink(id) => {
            label_is_one_line("symlink"@, quoted_path, id);
            line_breaks_add(dump_label("symlink"@, quoted_path, id), "\n"@);
        },
        TreeValueView::GitSubmodule(id) => {
            label_is_one_line("submodule"@, quoted_path, id);
            line_breaks_add(dump_label("submodule"@, quoted_path, id), "\n"@);
        },
        _ => {},
    }
}

proof fn joined_is_one_line(parts: Seq<Seq<char>>, sep: Seq<char>)
    requires
        forall|i: int| 0 <= i < parts.len() ==> line_breaks(#[trigger] parts[i]) == 0,
        line_breaks(sep) == 0,
    ensures
        line_breaks(joined(parts, sep)) == 0,
    decreases parts.len(),
{
    if parts.len() > 1 {
        let fewer = parts.drop_last();
        joined_is_one_line(fewer, sep);
        line_breaks_add(joined(fewer, sep), sep);
        line_breaks_add(joined(fewer, sep) + sep, parts.last());
    }
}

/// The first line is one line.
pub proof fn dump_header_is_one_line(trees: Seq<Seq<u8>>)
    ensures
        line_breaks(dump_header(trees)) == 1,
        dump_header(trees).last() == '\n',
{
    let hexes = trees.map_values(|id: Seq<u8>| hex(id));
    reveal_strlit("tree ");
    reveal_strlit("&");
    reveal_strlit("\n");
    line_breaks_none("tree "@);
    line_breaks_none("&"@);
    line_break_is_one();
    assert forall|i: int| 0 <= i < hexes.len() implies line_breaks(#[trigger] hexes[i]) == 0 by {
        hex_is_one_word(trees[i]);
    }
    joined_is_one_line(hexes, "&"@);
    line_breaks_add("tree "@, joined(hexes, "&"@));
    line_breaks_add("tree "@ + joined(hexes, "&"@), "\n"@);
}

/// Entries that take one line each take as many lines as there are entries.
pub proof fn dump_lines_are_lines(entries: Seq<DumpEntryView>)
    requires
        forall|i: int|
            0 <= i < entries.len() ==> line_breaks(dump_line(#[trigger] entries[i])) == 1
                && can_dump(entries[i].terms),
    ensures
        line_breaks(dump_lines(entries)) == entries.len(),
        entries.len() > 0 ==> dump_lines(entries).last() == '\n',
    decreases entries.len(),
{
    if entries.len() > 0 {
        let line = |entry: DumpEntryView| dump_line(entry);
        let fewer = entries.drop_last();
        let last = entries[entries.len() - 1];
        assert forall|i: int| 0 <= i < fewer.len() implies line_breaks(dump_line(#[trigger] fewer[i]))
            == 1 && can_dump(fewer[i].terms) by {
            assert(fewer[i] == entries[i]);
        }
        dump_lines_are_lines(fewer);
        assert(entries.map_values(line).drop_last() =~= fewer.map_values(line));
        assert(dump_lines(entries) == dump_lines(fewer) + dump_line(last));
        line_breaks_add(dump_lines(fewer), dump_line(last));
        dump_line_ends(last);
    }
}

/// Whether `entries` are those of a tree that holds at each path what `held`
/// says: one entry for each path where something stands.
pub open spec fn lists_tree(
    entries: Seq<DumpEntryView>,
    held: Map<Seq<char>, Option<TreeValueView>>,
) -> bool {
    &&& forall|i: int, j: int|
        0 <= i < j < entries.len() ==> (#[trigger] entries[i]).path != (#[trigger] entries[j]).path
    &&& forall|i: int|
        0 <= i < entries.len() ==> {
            let path = (#[trigger] entries[i]).path;
            held.contains_key(path) && held[path] is Some && entries[i].terms == seq![held[path]]
        }
    &&& forall|path: Seq<char>| #[trigger]
        held.contains_key(path) && held[path] is Some ==> exists|i: int|
            0 <= i < entries.len() && (#[trigger] entries[i]).path == path
}

/// Where the entries stand.
pub open spec fn entry_paths(entries: Seq<DumpEntryView>) -> Seq<Seq<char>> {
    entries.map_values(|entry: DumpEntryView| entry.path)
}

/// Whether `order` holds each of the first `n` indices once.
pub open spec fn is_order(order: Seq<int>, n: nat) -> bool {
    &&& order.len() == n
    &&& order.no_duplicates()
    &&& forall|k: int| 0 <= k < n ==> 0 <= #[trigger] order[k] < n
}

/// The place in `files` of the file at `path`.
pub open spec fn file_at(files: Seq<(Seq<char>, Seq<u8>)>, path: Seq<char>) -> int {
    choose|i: int| 0 <= i < files.len() && (#[trigger] files[i]).0 == path
}

/// The places in `files` of the files that the entries stand for.
pub open spec fn file_order(
    files: Seq<(Seq<char>, Seq<u8>)>,
    entries: Seq<DumpEntryView>,
) -> Seq<int> {
    entries.map_values(|entry: DumpEntryView| file_at(files, entry.path))
}

/// Listing a tree that was made from text files at different paths gives one
/// line for each file, with its path, its identifier and its text, in the order
/// in which the entries of the tree come: by path, where the tree is walked so.
pub proof fn listing_shows_each_file(
    files: Seq<(Seq<char>, Seq<u8>)>,
    texts: Seq<Seq<char>>,
    entries: Seq<DumpEntryView>,
)
    requires
        distinct_paths(files),
        texts.len() == files.len(),
        lists_tree(entries, with_files(no_overrides(), files)),
        forall|i: int, k: int|
            0 <= i < files.len() && 0 <= k < entries.len() && (#[trigger] entries[k]).path == (
            #[trigger] files[i]).0 ==> entries[k].contents == encode_utf8(texts[i]),
        forall|k: int| 0 <= k < entries.len() ==> shows_text(#[trigger] entries[k]),
    ensures
        is_order(file_order(files, entries), files.len()),
        forall|k: int|
            0 <= k < entries.len() ==> files[#[trigger] file_order(files, entries)[k]].0
                == entries[k].path,
        paths_ascend(entry_paths(entries)) ==> paths_ascend(
            file_order(files, entries).map_values(|i: int| files[i].0),
        ),
        dump_lines(entries) == concatenated(
            file_order(files, entries).map_values(
                |i: int| file_line(debug_text(files[i].0), files[i].1, debug_text(texts[i])),
            ),
        ),
        forall|k: int|
            0 <= k < entries.len() ==> {
                let i = #[trigger] file_order(files, entries)[k];
                dump_line(entries[k]) == "  file "@ + debug_text(files[i].0) + " ("@ + hex(
                    files[i].1,
                ) + "): "@ + debug_text(texts[i]) + "\n"@
            },
{
    let held = with_files(no_overrides(), files);
    let order = file_order(files, entries);
    let line = |i: int| file_line(debug_text(files[i].0), files[i].1, debug_text(texts[i]));
    assert forall|k: int| 0 <= k < entries.len() implies {
        &&& dump_line(entries[k]) == "  file "@ + debug_text(files[order[k]].0) + " ("@ + hex(
            files[order[k]].1,
        ) + "): "@ + debug_text(texts[order[k]]) + "\n"@
        &&& 0 <= #[trigger] order[k] < files.len()
        &&& files[order[k]].0 == entries[k].path
        &&& dump_line(entries[k]) == line(order[k])
    } by {
        let path = entries[k].path;
        if forall|i: int| 0 <= i < files.len() ==> (#[trigger] files[i]).0 != path {
            other_paths_unchanged(no_overrides(), files, path);
        }
        let i = order[k];
        assert(files[i].0 == path);
        last_file_wins(no_overrides(), files, i);
        dump_line_of_text(entries[k], files[i].1, false, texts[i]);
    }
    assert(order.no_duplicates()) by {
        assert forall|j: int, k: int|
            0 <= j < order.len() && 0 <= k < order.len() && j != k implies order[j] != order[k] by {
            assert(files[order[j]].0 == entries[j].path);
            assert(files[order[k]].0 == entries[k].path);
            if j < k {
                assert(entries[j].path != entries[k].path);
            } else {
                assert(entries[k].path != entries[j].path);
            }
        }
    }
    assert(order.to_set() =~= set_int_range(0, files.len() as int)) by {
        assert forall|i: int| 0 <= i < files.len() implies order.contains(i) by {
            last_file_wins(no_overrides(), files, i);
            assert(held.contains_key(files[i].0));
            let k = choose|k: int|
                0 <= k < entries.len() && (#[trigger] entries[k]).path == files[i].0;
            assert(files[order[k]].0 == files[i].0);
            assert(order[k] == i);
        }
    }
    order.unique_seq_to_set();
    lemma_int_range(0, files.len() as int);
    assert(entry_paths(entries) =~= order.map_values(|i: int| files[i].0));
    assert(entries.map_values(|entry: DumpEntryView| dump_line(entry)) =~= order.map_values(line));
}

/// Listing a tree twice gives the same text, where it is walked by path and the
/// files hold the same both times.
pub proof fn listing_is_determined(
    first: Seq<DumpEntryView>,
    second: Seq<DumpEntryView>,
    held: Map<Seq<char>, Option<TreeValueView>>,
)
    requires
        lists_tree(first, held),
        lists_tree(second, held),
        paths_ascend(entry_paths(first)),
        paths_ascend(entry_paths(second)),
        forall|j: int, k: int|
            0 <= j < first.len() && 0 <= k < second.len() && (#[trigger] first[j]).path == (
            #[trigger] second[k]).path ==> first[j].contents == second[k].contents,
    ensures
        dump_lines(first) == dump_lines(second),
{
    let a = entry_paths(first);
    let b = entry_paths(second);
    assert forall|path: Seq<char>| a.contains(path) <==> b.contains(path) by {
        if a.contains(path) {
            let j = choose|j: int| 0 <= j < a.len() && a[j] == path;
            assert(held.contains_key(first[j].path));
            let k = choose|k: int| 0 <= k < second.len() && (#[trigger] second[k]).path == path;
            assert(b[k] == path);
        }
        if b.contains(path) {
            let j = choose|j: int| 0 <= j < b.len() && b[j] == path;
            assert(held.contains_key(second[j].path));
            let k = choose|k: int| 0 <= k < first.len() && (#[trigger] first[k]).path == path;
            assert(a[k] == path);
        }
    }
    ascending_paths_are_unique(a, b);
    assert forall|k: int| 0 <= k < first.len() implies #[trigger] first[k] == second[k] by {
        assert(a[k] == first[k].path);
        assert(b[k] == second[k].path);
    }
    assert(first =~= second);
}

} // verus!
