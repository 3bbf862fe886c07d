//! The archiver: which entries of a directory tree go into an archive, and
//! under which names.
//!
//! The caller walks the tree and hands over what it found; nothing here
//! touches the filesystem.  A path is the list of its components.  An entry
//! is left out if its path relative to the root of the tree begins with a
//! name on the blacklist, whole components compared; the root itself is
//! left out too.  Regular files are stored with their content, everything
//! else as an explicit directory entry.

use vstd::prelude::*;
use vstd::string::StringExecFns;
use crate::error::RelayError;
use crate::zip_writer::{
    accepted, add_directory, archive_image, closes, closes_last, directory_name, finish,
    open_writer, ready, recorded, start_file, takes, writable, write_content, StoredEntry,
    ENTRY_SIZE_LIMIT,
};

verus! {

/// The permission bits that every entry is stored with.
pub const ENTRY_MODE: u32 = 0o755;

/// How the content of a file is stored in the archive.
#[derive(Clone, Copy, Debug, PartialEq, Eq, Structural)]
pub enum CompressionMethod {
    /// As it is.
    Stored,
    /// Compressed with Deflate.
    Deflated,
}

/// One entry that a walk of a directory tree came across.
#[derive(Clone, Debug, PartialEq, Eq)]
pub struct TreeEntry {
    /// The components of the entry's path, as walked: those of the root of
    /// the walk first.
    pub path: Vec<String>,
    /// Whether the entry is a regular file, links followed.  Whatever is
    /// not, is stored as a directory.
    pub is_file: bool,
    /// The content of a regular file; empty for anything else.
    pub content: Vec<u8>,
}

/// A directory tree as a walk found it.
#[derive(Clone, Debug, PartialEq, Eq)]
pub struct SourceTree {
    /// The components of the path that the walk started at.
    pub root: Vec<String>,
    /// Whether that path exists and is a directory.
    pub is_directory: bool,
    /// The entries in the order of the walk, the root among them.
    pub entries: Vec<TreeEntry>,
}

/// A path as the contracts speak of it: its components, each a sequence of
/// characters.
pub open spec fn names(path: Seq<String>) -> Seq<Seq<char>> {
    Seq::new(path.len(), |i: int| path[i]@)
}

/// A [`TreeEntry`] as the contracts speak of it.
pub struct EntryView {
    pub path: Seq<Seq<char>>,
    pub is_file: bool,
    pub content: Seq<u8>,
}

impl View for TreeEntry {
    type V = EntryView;

    open spec fn view(&self) -> EntryView {
        EntryView { path: names(self.path@), is_file: self.is_file, content: self.content@ }
    }
}

/// A [`SourceTree`] as the contracts speak of it.
pub struct TreeView {
    pub root: Seq<Seq<char>>,
    pub is_directory: bool,
    pub entries: Seq<EntryView>,
}

impl View for SourceTree {
    type V = TreeView;

    open spec fn view(&self) -> TreeView {
        TreeView {
            root: names(self.root@),
            is_directory: self.is_directory,
            entries: Seq::new(self.entries@.len(), |i: int| self.entries@[i]@),
        }
    }
}

/// An entry that goes into the archive.
pub struct Selected {
    /// The entry's path relative to the root of the tree.
    pub path: Seq<Seq<char>>,
    /// Whether it is stored as a directory.
    pub directory: bool,
    /// What it holds; empty for a directory.
    pub content: Seq<u8>,
}

/// Whether `path` lies at or below `root`: the components of `root` are the
/// first components of `path`.
pub open spec fn is_under(path: Seq<Seq<char>>, root: Seq<Seq<char>>) -> bool {
    root.len() <= path.len() && path.take(root.len() as int) == root
}

/// The path that leads from `root` to `path`.
pub open spec fn relative(path: Seq<Seq<char>>, root: Seq<Seq<char>>) -> Seq<Seq<char>> {
    path.skip(root.len() as int)
}

/// Whether the relative path `path` begins with a name on `blacklist`.
pub open spec fn blacklisted(path: Seq<Seq<char>>, blacklist: Seq<Seq<char>>) -> bool {
    path.len() > 0 && blacklist.contains(path[0])
}

/// The names that are left out of every archive unless the caller says
/// otherwise: version-control metadata, CI and editor configuration, the
/// output directory, and a platform's metadata file.
pub open spec fn default_names() -> Seq<Seq<char>> {
    seq![".git"@, ".github"@, ".vscode"@, "out"@, ".DS_Store"@]
}

/// The components of `path` with a slash between each two.
pub open spec fn joined(path: Seq<Seq<char>>) -> Seq<char>
    decreases path.len(),
{
    if path.len() == 0 {
        Seq::empty()
    } else if path.len() == 1 {
        path[0]
    } else {
        joined(path.drop_last()) + seq!['/'] + path.last()
    }
}

/// Whether `entry` goes into the archive: it is not blacklisted, and it is
/// not the root directory.
pub open spec fn keeps(entry: EntryView, root: Seq<Seq<char>>, blacklist: Seq<Seq<char>>) -> bool {
    !blacklisted(relative(entry.path, root), blacklist) && (entry.is_file || relative(
        entry.path,
        root,
    ).len() > 0)
}

/// What `entry` goes into the archive as.
pub open spec fn selected(entry: EntryView, root: Seq<Seq<char>>) -> Selected {
    Selected {
        path: relative(entry.path, root),
        directory: !entry.is_file,
        content: if entry.is_file {
            entry.content
        } else {
            Seq::empty()
        },
    }
}

/// The entries of a walk that go into the archive, in the order of the
/// walk.
pub open spec fn selection(
    entries: Seq<EntryView>,
    root: Seq<Seq<char>>,
    blacklist: Seq<Seq<char>>,
) -> Seq<Selected>
    decreases entries.len(),
{
    if entries.len() == 0 {
        Seq::empty()
    } else if keeps(entries.last(), root, blacklist) {
        selection(entries.drop_last(), root, blacklist).push(selected(entries.last(), root))
    } else {
        selection(entries.drop_last(), root, blacklist)
    }
}

/// Whether a tree can be packed: its root is a directory and every entry
/// of the walk lies at or below it.
pub open spec fn packable(tree: TreeView) -> bool {
    tree.is_directory && all_under(tree)
}

/// Whether `item` is what one of `entries` goes into the archive as.
pub open spec fn stems_from(
    item: Selected,
    entries: Seq<EntryView>,
    root: Seq<Seq<char>>,
    blacklist: Seq<Seq<char>>,
) -> bool {
    exists|i: int|
        0 <= i < entries.len() && keeps(#[trigger] entries[i], root, blacklist) && selected(
            entries[i],
            root,
        ) == item
}

/// Whether `items` holds `first` at an earlier place than `second`.
pub open spec fn holds_in_order(items: Seq<Selected>, first: Selected, second: Selected) -> bool {
    exists|k: int, l: int|
        0 <= k < l < items.len() && #[trigger] items[k] == first && #[trigger] items[l] == second
}

/// Nothing that is blacklisted goes into the archive, whatever the tree and
/// the blacklist: the relative path of every selected entry begins with no
/// blacklisted name, and every selected entry stems from an entry of the
/// walk.  And everything else does go in: every regular file and every
/// directory but the root that is not blacklisted is selected, a file with
/// its content, and the selection follows the order of the walk.
pub proof fn lemma_selection_exact(
    entries: Seq<EntryView>,
    root: Seq<Seq<char>>,
    blacklist: Seq<Seq<char>>,
)
    ensures
        forall|k: int|
            0 <= k < selection(entries, root, blacklist).len() ==> !blacklisted(
                (#[trigger] selection(entries, root, blacklist)[k]).path,
                blacklist,
            ) && stems_from(selection(entries, root, blacklist)[k], entries, root, blacklist),
        forall|i: int|
            0 <= i < entries.len() && keeps(#[trigger] entries[i], root, blacklist)
                ==> selection(entries, root, blacklist).contains(selected(entries[i], root)),
        forall|i: int, j: int|
            0 <= i < j < entries.len() && keeps(#[trigger] entries[i], root, blacklist) && keeps(
                #[trigger] entries[j],
                root,
                blacklist,
            ) ==> holds_in_order(
                selection(entries, root, blacklist),
                selected(entries[i], root),
                selected(entries[j], root),
            ),
    decreases entries.len(),
{
    let all = selection(entries, root, blacklist);
    if entries.len() > 0 {
        let earlier = entries.drop_last();
        let before = selection(earlier, root, blacklist);
        let last = entries.len() - 1;
        lemma_selection_exact(earlier, root, blacklist);
        assert forall|k: int| 0 <= k < all.len() implies !blacklisted(
            (#[trigger] all[k]).path,
            blacklist,
        ) && stems_from(all[k], entries, root, blacklist) by {
            if k < before.len() {
                assert(all[k] == before[k]);
                let i = choose|i: int|
                    0 <= i < earlier.len() && keeps(#[trigger] earlier[i], root, blacklist)
                        && selected(earlier[i], root) == before[k];
                assert(entries[i] == earlier[i]);
            } else {
                assert(all[k] == selected(entries[last], root));
            }
        }
        assert forall|i: int|
            0 <= i < entries.len() && keeps(#[trigger] entries[i], root, blacklist) implies all.contains(
            selected(entries[i], root),
        ) by {
            if i < earlier.len() {
                assert(earlier[i] == entries[i]);
                let k = choose|k: int|
                    0 <= k < before.len() && before[k] == selected(earlier[i], root);
                assert(all[k] == before[k]);
            } else {
                assert(all[all.len() - 1] == selected(entries[i], root));
            }
        }
        assert forall|i: int, j: int|
            0 <= i < j < entries.len() && keeps(#[trigger] entries[i], root, blacklist) && keeps(
                #[trigger] entries[j],
                root,
                blacklist,
            ) implies holds_in_order(all, selected(entries[i], root), selected(entries[j], root)) by {
            assert(earlier[i] == entries[i]);
            if j < earlier.len() {
                assert(earlier[j] == entries[j]);
                let (k, l) = choose|k: int, l: int|
                    0 <= k < l < before.len() && #[trigger] before[k] == selected(earlier[i], root)
                        && #[trigger] before[l] == selected(earlier[j], root);
                assert(all[k] == before[k] && all[l] == before[l]);
            } else {
                let k = choose|k: int|
                    0 <= k < before.len() && before[k] == selected(earlier[i], root);
                assert(all[k] == before[k]);
                assert(all[all.len() - 1] == selected(entries[j], root));
            }
        }
    }
}

/// What a selected entry is recorded as by the archive's writer: a file
/// under its joined path with its content, stored by `method`; a directory
/// under its joined path with a slash behind it.
pub open spec fn stored_entry(item: Selected, method: CompressionMethod, mode: u32) -> StoredEntry {
    if item.directory {
        StoredEntry {
            name: directory_name(joined(item.path)),
            directory: true,
            method: CompressionMethod::Stored,
            mode,
            content: Seq::empty(),
        }
    } else {
        StoredEntry { name: joined(item.path), directory: false, method, mode, content: item.content }
    }
}

/// What the archive of a tree holds: its selected entries, in the order of
/// the walk, each as the writer records it.
pub open spec fn listing(
    tree: TreeView,
    blacklist: Seq<Seq<char>>,
    method: CompressionMethod,
) -> Seq<StoredEntry> {
    selection(tree.entries, tree.root, blacklist).map_values(
        |item: Selected| stored_entry(item, method, ENTRY_MODE),
    )
}

/// Whether every entry of the walk lies at or below the root.
pub open spec fn all_under(tree: TreeView) -> bool {
    forall|i: int| 0 <= i < tree.entries.len() ==> is_under((#[trigger] tree.entries[i]).path, tree.root)
}

/// What is to be done with one entry of a walk.
#[derive(Clone, Debug, PartialEq, Eq)]
pub enum Decision {
    /// The entry does not lie at or below the root: the walk is malformed.
    Outside,
    /// The entry is left out.
    Skip,
    /// The entry is stored as a file under this name.
    File(String),
    /// The entry is stored as a directory under this name.
    Directory(String),
}

/// The names that are left out of every archive unless the caller says
/// otherwise.
pub fn default_blacklist() -> (blacklist: Vec<String>)
    ensures
        names(blacklist@) == default_names(),
{
    let mut blacklist: Vec<String> = Vec::new();
    blacklist.push(String::from_str(".git"));
    blacklist.push(String::from_str(".github"));
    blacklist.push(String::from_str(".vscode"));
    blacklist.push(String::from_str("out"));
    blacklist.push(String::from_str(".DS_Store"));
    assert(names(blacklist@) =~= default_names());
    blacklist
}

/// Whether `path` lies at or below `root`.
pub fn lies_under(path: &Vec<String>, root: &Vec<String>) -> (under: bool)
    ensures
        under == is_under(names(path@), names(root@)),
{
    if root.len() > path.len() {
        return false;
    }
    let mut at: usize = 0;
    while at < root.len()
        invariant
            at <= root@.len() <= path@.len(),
            forall|k: int| 0 <= k < at ==> path@[k]@ == root@[k]@,
        decreases root@.len() - at,
    {
        if path[at] != root[at] {
            assert(names(path@).take(root@.len() as int)[at as int] == path@[at as int]@);
            assert(names(root@)[at as int] == root@[at as int]@);
            return false;
        }
        at += 1;
    }
    assert(names(path@).take(root@.len() as int) =~= names(root@));
    true
}

/// Whether `name` is on `blacklist`.
fn is_listed(blacklist: &Vec<String>, name: &String) -> (found: bool)
    ensures
        found == names(blacklist@).contains(name@),
{
    let mut at: usize = 0;
    while at < blacklist.len()
        invariant
            at <= blacklist@.len(),
            forall|k: int| 0 <= k < at ==> blacklist@[k]@ != name@,
        decreases blacklist@.len() - at,
    {
        if blacklist[at] == *name {
            assert(names(blacklist@)[at as int] == name@);
            return true;
        }
        at += 1;
    }
    assert forall|k: int| 0 <= k < names(blacklist@).len() implies names(blacklist@)[k]
        != name@ by {
        assert(names(blacklist@)[k] == blacklist@[k]@);
    }
    false
}

/// The components of `path` from the one at `from` on, with a slash
/// between each two.
fn join(path: &Vec<String>, from: usize) -> (name: String)
    requires
        from <= path@.len(),
    ensures
        name@ == joined(names(path@).skip(from as int)),
{
    let mut name = String::new();
    let mut at: usize = from;
    let ghost all = names(path@);
    assert(all.subrange(from as int, from as int) =~= Seq::empty());
    while at < path.len()
        invariant
            from <= at <= path@.len(),
            all == names(path@),
            name@ == joined(all.subrange(from as int, at as int)),
        decreases path@.len() - at,
    {
        let ghost before = all.subrange(from as int, at as int);
        let ghost after = all.subrange(from as int, at + 1);
        assert(after.drop_last() =~= before);
        assert(after.last() == path@[at as int]@);
        if at > from {
            proof {
                reveal_strlit("/");
            }
            name.append("/");
            assert("/"@ =~= seq!['/']);
        } else {
            assert(name@ + path@[at as int]@ =~= path@[at as int]@);
        }
        name.append(path[at].as_str());
        at += 1;
    }
    assert(all.subrange(from as int, path@.len() as int) =~= all.skip(from as int));
    name
}

/// Decides what is to be done with `entry` of a walk that started at
/// `root`.
pub fn decide(entry: &TreeEntry, root: &Vec<String>, blacklist: &Vec<String>) -> (decision:
    Decision)
    ensures
        match decision {
            Decision::Outside => !is_under(entry@.path, names(root@)),
            Decision::Skip => is_under(entry@.path, names(root@)) && !keeps(
                entry@,
                names(root@),
                names(blacklist@),
            ),
            Decision::File(name) => is_under(entry@.path, names(root@)) && keeps(
                entry@,
                names(root@),
                names(blacklist@),
            ) && entry.is_file && name@ == joined(relative(entry@.path, names(root@))),
            Decision::Directory(name) => is_under(entry@.path, names(root@)) && keeps(
                entry@,
                names(root@),
                names(blacklist@),
            ) && !entry.is_file && name@ == joined(relative(entry@.path, names(root@))),
        },
{
    if !lies_under(&entry.path, root) {
        return Decision::Outside;
    }
    let depth = root.len();
    let ghost inner = relative(entry@.path, names(root@));
    if entry.path.len() > depth {
        assert(inner[0] == entry.path@[depth as int]@);
        if is_listed(blacklist, &entry.path[depth]) {
            return Decision::Skip;
        }
    }
    if entry.is_file {
        Decision::File(join(&entry.path, depth))
    } else if entry.path.len() > depth {
        Decision::Directory(join(&entry.path, depth))
    } else {
        Decision::Skip
    }
}

/// The selection of a walk that grew by one entry.
proof fn lemma_selection_step(
    entries: Seq<EntryView>,
    count: int,
    root: Seq<Seq<char>>,
    blacklist: Seq<Seq<char>>,
)
    requires
        0 <= count < entries.len(),
    ensures
        selection(entries.take(count + 1), root, blacklist) == if keeps(
            entries[count],
            root,
            blacklist,
        ) {
            selection(entries.take(count), root, blacklist).push(selected(entries[count], root))
        } else {
            selection(entries.take(count), root, blacklist)
        },
{
    assert(entries.take(count + 1).drop_last() =~= entries.take(count));
    assert(entries.take(count + 1).last() == entries[count]);
}

/// What a call on the archive's writer amounts to: its value if it went
/// well, and an I/O error if it did not, whatever the writer's own error
/// says.
pub fn writer_result<T>(outcome: Result<T, zip::result::ZipError>) -> (result: Result<
    T,
    RelayError,
>)
    ensures
        outcome matches Ok(value) ==> result == Ok::<T, RelayError>(value),
        outcome is Err ==> result == Err::<T, RelayError>(RelayError::Io),
{
    match outcome {
        Ok(value) => Ok(value),
        Err(_) => Err(RelayError::Io),
    }
}

/// The selection of the first entries of a walk is the beginning of the
/// selection of the whole walk.
proof fn lemma_selection_prefix(
    entries: Seq<EntryView>,
    count: int,
    root: Seq<Seq<char>>,
    blacklist: Seq<Seq<char>>,
)
    requires
        0 <= count <= entries.len(),
    ensures
        selection(entries.take(count), root, blacklist).len() <= selection(
            entries,
            root,
            blacklist,
        ).len(),
        forall|k: int|
            0 <= k < selection(entries.take(count), root, blacklist).len() ==> #[trigger] selection(
                entries.take(count),
                root,
                blacklist,
            )[k] == selection(entries, root, blacklist)[k],
    decreases entries.len() - count,
{
    if count == entries.len() {
        assert(entries.take(count) =~= entries);
    } else {
        lemma_selection_step(entries, count, root, blacklist);
        lemma_selection_prefix(entries, count + 1, root, blacklist);
        let part = selection(entries.take(count), root, blacklist);
        let more = selection(entries.take(count + 1), root, blacklist);
        assert forall|k: int| 0 <= k < part.len() implies #[trigger] part[k] == selection(
            entries,
            root,
            blacklist,
        )[k] by {
            assert(part[k] == more[k]);
        }
    }
}

/// An archive whose files are stored as they are is written whenever no
/// file is larger than an entry may be.  So is every archive without
/// files.
pub proof fn lemma_stored_is_writable(tree: TreeView, blacklist: Seq<Seq<char>>)
    requires
        forall|i: int|
            0 <= i < tree.entries.len() ==> (#[trigger] tree.entries[i]).content.len()
                <= ENTRY_SIZE_LIMIT,
    ensures
        writable(listing(tree, blacklist, CompressionMethod::Stored)),
        (forall|i: int| 0 <= i < tree.entries.len() ==> !(#[trigger] tree.entries[i]).is_file)
            ==> writable(listing(tree, blacklist, CompressionMethod::Deflated)),
{
    let items = selection(tree.entries, tree.root, blacklist);
    lemma_selection_exact(tree.entries, tree.root, blacklist);
    assert forall|k: int| 0 <= k < items.len() implies accepted(
        stored_entry(#[trigger] items[k], CompressionMethod::Stored, ENTRY_MODE),
    ) by {
        assert(stems_from(items[k], tree.entries, tree.root, blacklist));
    }
    assert forall|k: int|
        0 <= k < listing(tree, blacklist, CompressionMethod::Stored).len() implies accepted(
        #[trigger] listing(tree, blacklist, CompressionMethod::Stored)[k],
    ) by {
        assert(accepted(stored_entry(items[k], CompressionMethod::Stored, ENTRY_MODE)));
    }
    if forall|i: int| 0 <= i < tree.entries.len() ==> !(#[trigger] tree.entries[i]).is_file {
        assert forall|k: int|
            0 <= k < listing(tree, blacklist, CompressionMethod::Deflated).len() implies accepted(
            #[trigger] listing(tree, blacklist, CompressionMethod::Deflated)[k],
        ) by {
            assert(stems_from(items[k], tree.entries, tree.root, blacklist));
            let i = choose|i: int|
                0 <= i < tree.entries.len() && keeps(
                    #[trigger] tree.entries[i],
                    tree.root,
                    blacklist,
                ) && selected(tree.entries[i], tree.root) == items[k];
            assert(!tree.entries[i].is_file);
        }
    }
}

/// Packs a tree into an archive and leaves out what begins with a name on
/// `blacklist`.
///
/// A walk with an entry that does not lie at or below its root is refused
/// as invalid input, and nothing else is.  Otherwise the archive is
/// written if and only if the writer takes every selected entry, and is
/// then the one that holds exactly the selected entries in the order of
/// the walk.  An entry that the writer does not take is an I/O error.
pub fn pack(tree: &SourceTree, blacklist: &Vec<String>, method: CompressionMethod) -> (result:
    Result<Vec<u8>, RelayError>)
    ensures
        result is Ok <==> all_under(tree@) && writable(listing(tree@, names(blacklist@), method)),
        result == Err::<Vec<u8>, RelayError>(RelayError::InvalidInput) <==> !all_under(tree@),
        result matches Ok(bytes) ==> bytes@ == archive_image(
            listing(tree@, names(blacklist@), method),
        ),
        result matches Err(error) ==> error == RelayError::InvalidInput || error
            == RelayError::Io,
{
    let count = tree.entries.len();
    let mut at: usize = 0;
    while at < count
        invariant
            at <= count == tree.entries@.len(),
            forall|k: int| 0 <= k < at ==> is_under((#[trigger] tree@.entries[k]).path, tree@.root),
        decreases count - at,
    {
        if !lies_under(&tree.entries[at].path, &tree.root) {
            assert(!is_under(tree@.entries[at as int].path, tree@.root));
            return Err(RelayError::InvalidInput);
        }
        at += 1;
    }
    let ghost root = tree@.root;
    let ghost banned = names(blacklist@);
    let ghost all = listing(tree@, banned, method);
    let mut writer = open_writer();
    at = 0;
    assert(tree@.entries.take(0) =~= Seq::empty());
    while at < count
        invariant
            at <= count == tree.entries@.len(),
            all_under(tree@),
            root == tree@.root,
            banned == names(blacklist@),
            all == listing(tree@, banned, method),
            ready(writer),
            recorded(writer) == selection(tree@.entries.take(at as int), root, banned).map_values(
                |item: Selected| stored_entry(item, method, ENTRY_MODE),
            ),
            forall|k: int| 0 <= k < recorded(writer).len() ==> takes(#[trigger] recorded(writer)[k]),
            forall|k: int|
                0 <= k < recorded(writer).len() - 1 ==> closes(#[trigger] recorded(writer)[k]),
        decreases count - at,
    {
        let entry = &tree.entries[at];
        let ghost before = selection(tree@.entries.take(at as int), root, banned);
        let ghost held = recorded(writer);
        let ghost item = selected(entry@, root);
        let ghost next = stored_entry(item, method, ENTRY_MODE);
        proof {
            lemma_selection_step(tree@.entries, at as int, root, banned);
            lemma_selection_prefix(tree@.entries, at as int, root, banned);
            lemma_selection_prefix(tree@.entries, at + 1, root, banned);
            assert(tree@.entries[at as int] == entry@);
            if held.len() > 0 {
                assert(before[held.len() - 1] == selection(tree@.entries, root, banned)[held.len()
                    - 1]);
                assert(all[held.len() - 1] == held.last());
            }
            if keeps(entry@, root, banned) {
                let grown = selection(tree@.entries.take(at + 1), root, banned);
                assert(grown[held.len() as int] == item);
                assert(all[held.len() as int] == next);
            }
        }
        match decide(entry, &tree.root, blacklist) {
            Decision::Outside => {
                // The walk was found to lie below the root, so no entry
                // is outside of it.
                assert(is_under(tree@.entries[at as int].path, tree@.root));
                return Err(RelayError::InvalidInput);
            },
            Decision::Skip => {},
            Decision::File(name) => {
                let started = start_file(&mut writer, name.as_str(), method, ENTRY_MODE);
                if let Err(error) = writer_result(started) {
                    assert(!accepted(all[held.len() - 1]));
                    return Err(error);
                }
                let written = write_content(&mut writer, entry.content.as_slice());
                if let Err(error) = writer_result(written) {
                    assert(!accepted(all[held.len() as int]));
                    return Err(error);
                }
                assert(recorded(writer) =~= held.push(next));
                assert(before.push(item).map_values(
                    |item: Selected| stored_entry(item, method, ENTRY_MODE),
                ) =~= held.push(next));
            },
            Decision::Directory(name) => {
                let added = add_directory(&mut writer, name.as_str(), ENTRY_MODE);
                if let Err(error) = writer_result(added) {
                    assert(!accepted(all[held.len() - 1]));
                    return Err(error);
                }
                assert(before.push(item).map_values(
                    |item: Selected| stored_entry(item, method, ENTRY_MODE),
                ) =~= held.push(next));
            },
        }
        at += 1;
    }
    assert(tree@.entries.take(count as int) =~= tree@.entries);
    proof {
        if !closes_last(all) {
            assert(!accepted(all[all.len() - 1]));
        }
    }
    writer_result(finish(writer))
}

/// Packs a tree into an archive and leaves out what begins with one of the
/// names that [`default_blacklist`] gives.
pub fn zip_dir(tree: &SourceTree, method: CompressionMethod) -> (result: Result<
    Vec<u8>,
    RelayError,
>)
    ensures
        result is Ok <==> all_under(tree@) && writable(listing(tree@, default_names(), method)),
        result == Err::<Vec<u8>, RelayError>(RelayError::InvalidInput) <==> !all_under(tree@),
        result matches Ok(bytes) ==> bytes@ == archive_image(
            listing(tree@, default_names(), method),
        ),
        result matches Err(error) ==> error == RelayError::InvalidInput || error
            == RelayError::Io,
{
    let blacklist = default_blacklist();
    pack(tree, &blacklist, method)
}

/// Packs a directory into an archive.
///
/// A tree whose root does not exist or is no directory is refused as
/// invalid input, and so is a walk with an entry that does not lie at or
/// below the root.  Every other tree is packed if and only if the writer
/// takes every selected entry.
pub fn compress_folder(tree: &SourceTree, method: CompressionMethod) -> (result: Result<
    Vec<u8>,
    RelayError,
>)
    ensures
        result is Ok <==> packable(tree@) && writable(listing(tree@, default_names(), method)),
        result == Err::<Vec<u8>, RelayError>(RelayError::InvalidInput) <==> !packable(tree@),
        result matches Ok(bytes) ==> bytes@ == archive_image(
            listing(tree@, default_names(), method),
        ),
        result matches Err(error) ==> error == RelayError::InvalidInput || error
            == RelayError::Io,
{
    if !tree.is_directory {
        return Err(RelayError::InvalidInput);
    }
    zip_dir(tree, method)
}

} // verus!
