//! Walking a workspace: for lockfiles, and for repositories on GitHub.

use vstd::prelude::*;

use crate::text::chars;
use crate::text::chars::same_text;

verus! {

/// An entry of a directory.
#[derive(Debug, PartialEq, Eq)]
pub struct DirectoryEntry {
    pub name: String,
    pub path: String,
    pub is_file: bool,
    pub is_dir: bool,
}

/// Whether an entry is the file that is looked for.
pub open spec fn is_wanted(entry: DirectoryEntry, file_name: Seq<char>) -> bool {
    entry.is_file && entry.name@ == file_name
}

/// The paths of the directories among entries.
pub open spec fn directories_in(entries: Seq<DirectoryEntry>) -> Seq<Seq<char>>
    decreases entries.len(),
{
    if entries.len() == 0 {
        Seq::empty()
    } else {
        let before = directories_in(entries.drop_last());
        if entries.last().is_dir {
            before.push(entries.last().path@)
        } else {
            before
        }
    }
}

/// A search for a file in a directory tree. Directories are read one at a
/// time, the one found last first.
#[derive(Debug)]
pub struct LockfileSearch {
    file_name: String,
    directories: Vec<String>,
}

/// What is looked for, and the directories that are still to be read.
#[verifier::ext_equal]
pub struct SearchView {
    pub file_name: Seq<char>,
    pub directories: Seq<Seq<char>>,
}

impl View for LockfileSearch {
    type V = SearchView;

    closed spec fn view(&self) -> SearchView {
        SearchView { file_name: self.file_name@, directories: chars::texts(self.directories@) }
    }
}

fn pop_text(stack: &mut Vec<String>) -> (top: Option<String>)
    ensures
        match top {
            Some(top) => old(stack)@.len() > 0 && top@ == chars::texts(old(stack)@).last()
                && chars::texts(final(stack)@) == chars::texts(old(stack)@).drop_last(),
            None => old(stack)@.len() == 0 && final(stack)@ == old(stack)@,
        },
{
    let top = stack.pop();
    assert(top is Some ==> chars::texts(stack@) =~= chars::texts(old(stack)@).drop_last());
    top
}

impl LockfileSearch {
    /// A search from a directory downwards.
    pub fn new(root: &str, file_name: &str) -> (search: Self)
        ensures
            search@ == (SearchView { file_name: file_name@, directories: seq![root@] }),
    {
        let mut directories: Vec<String> = Vec::new();
        directories.push(root.to_owned());
        assert(chars::texts(directories@) =~= seq![root@]);
        LockfileSearch { file_name: file_name.to_owned(), directories }
    }

    /// The directory to read next. Nothing is left once it is `None`: the file
    /// is not there.
    pub fn next_directory(&mut self) -> (directory: Option<String>)
        ensures
            match directory {
                Some(directory) => old(self)@.directories.len() > 0 && directory@ == old(self)@.directories.last() && final(self)@ == (SearchView {
                    directories: old(self)@.directories.drop_last(),
                    ..old(self)@
                }),
                None => old(self)@.directories.len() == 0 && final(self)@ == old(self)@,
            },
    {
        assert(chars::texts(self.directories@).len() == self.directories@.len());
        pop_text(&mut self.directories)
    }

    /// Takes the entries of a directory. The search ends with the path of the
    /// first that is the file; else the directories among them are yet to be
    /// read.
    pub fn take_entries(&mut self, entries: &Vec<DirectoryEntry>) -> (found: Option<String>)
        ensures
            match found {
                Some(path) => exists|i: int|
                    0 <= i < entries@.len() && is_wanted(
                        #[trigger] entries@[i],
                        old(self)@.file_name,
                    ) && entries@[i].path@ == path@ && forall|k: int|
                        0 <= k < i ==> !is_wanted(#[trigger] entries@[k], old(self)@.file_name),
                None => {
                    &&& forall|i: int|
                        0 <= i < entries@.len() ==> !is_wanted(
                            #[trigger] entries@[i],
                            old(self)@.file_name,
                        )
                    &&& final(self)@ == (SearchView {
                        directories: old(self)@.directories + directories_in(entries@),
                        ..old(self)@
                    })
                },
            },
    {
        let ghost start = chars::texts(self.directories@);
        let mut i: usize = 0;
        assert(start + directories_in(entries@.take(0)) =~= start);
        while i < entries.len()
            invariant
                i <= entries.len(),
                self.file_name == old(self).file_name,
                chars::texts(self.directories@) == start + directories_in(entries@.take(i as int)),
                forall|k: int|
                    0 <= k < i ==> !is_wanted(#[trigger] entries@[k], old(self)@.file_name),
            decreases entries.len() - i,
        {
            assert(entries@.take(i + 1).drop_last() =~= entries@.take(i as int));
            let entry = &entries[i];
            if entry.is_file && same_text(entry.name.as_str(), self.file_name.as_str()) {
                assert(is_wanted(entries@[i as int], old(self)@.file_name));
                return Some(entry.path.clone());
            }
            if entry.is_dir {
                let path = entry.path.clone();
                proof {
                    chars::lemma_texts_push(self.directories@, path);
                    let found = directories_in(entries@.take(i as int));
                    assert((start + found).push(path@) =~= start + found.push(path@));
                }
                self.directories.push(path);
            }
            i = i + 1;
        }
        assert(entries@.take(entries@.len() as int) =~= entries@);
        None
    }
}

/// Whether a directory is a repository: it holds an entry for Git.
pub open spec fn is_repository(entries: Seq<DirectoryEntry>) -> bool {
    exists|i: int| 0 <= i < entries.len() && (#[trigger] entries[i]).name@ == ".git"@
}

/// Whether a directory is looked into: build outputs and installed packages
/// are not.
pub open spec fn is_scanned(entry: DirectoryEntry) -> bool {
    entry.is_dir && entry.name@ != "target"@ && entry.name@ != "node_modules"@
}

/// The paths of the directories among entries that are looked into.
pub open spec fn scanned_in(entries: Seq<DirectoryEntry>) -> Seq<Seq<char>>
    decreases entries.len(),
{
    if entries.len() == 0 {
        Seq::empty()
    } else {
        let before = scanned_in(entries.drop_last());
        if is_scanned(entries.last()) {
            before.push(entries.last().path@)
        } else {
            before
        }
    }
}

/// A search for a repository on GitHub in a directory tree. Directories are
/// read one at a time, the one found last first; one that cannot be read is
/// passed over.
#[derive(Debug)]
pub struct RepositoryScan {
    directories: Vec<String>,
}

impl View for RepositoryScan {
    type V = Seq<Seq<char>>;

    /// The directories that are still to be read.
    closed spec fn view(&self) -> Seq<Seq<char>> {
        chars::texts(self.directories@)
    }
}

/// What is to be done about a directory that was read.
#[derive(Debug, Clone, Copy, PartialEq, Eq, Structural)]
pub enum ScanStep {
    /// It is a repository: look at its remotes, and do not look into it.
    CheckRemotes,
    /// Go on with the next one.
    Continue,
}

impl RepositoryScan {
    /// A scan from a directory downwards.
    pub fn new(root: &str) -> (scan: Self)
        ensures
            scan@ == seq![root@],
    {
        let mut directories: Vec<String> = Vec::new();
        directories.push(root.to_owned());
        assert(chars::texts(directories@) =~= seq![root@]);
        RepositoryScan { directories }
    }

    /// The directory to read next. Nothing is left once it is `None`: there is
    /// no such repository.
    pub fn next_directory(&mut self) -> (directory: Option<String>)
        ensures
            match directory {
                Some(directory) => old(self)@.len() > 0 && directory@ == old(self)@.last() && final(self)@ == old(self)@.drop_last(),
                None => old(self)@.len() == 0 && final(self)@ == old(self)@,
            },
    {
        assert(chars::texts(self.directories@).len() == self.directories@.len());
        pop_text(&mut self.directories)
    }

    /// Takes the entries of a directory. A directory containing a `.git` entry
    /// (repository root or worktree) is never descended into.
    pub fn take_entries(&mut self, entries: &Vec<DirectoryEntry>) -> (step: ScanStep)
        ensures
            step == (if is_repository(entries@) {
                ScanStep::CheckRemotes
            } else {
                ScanStep::Continue
            }),
            final(self)@ == (if is_repository(entries@) {
                old(self)@
            } else {
                old(self)@ + scanned_in(entries@)
            }),
    {
        let mut i: usize = 0;
        while i < entries.len()
            invariant
                i <= entries.len(),
                forall|k: int| 0 <= k < i ==> (#[trigger] entries@[k]).name@ != ".git"@,
                self.directories@ == old(self).directories@,
            decreases entries.len() - i,
        {
            if same_text(entries[i].name.as_str(), ".git") {
                assert(entries@[i as int].name@ == ".git"@);
                return ScanStep::CheckRemotes;
            }
            i = i + 1;
        }
        let ghost start = chars::texts(self.directories@);
        i = 0;
        assert(start + scanned_in(entries@.take(0)) =~= start);
        while i < entries.len()
            invariant
                i <= entries.len(),
                chars::texts(self.directories@) == start + scanned_in(entries@.take(i as int)),
            decreases entries.len() - i,
        {
            assert(entries@.take(i + 1).drop_last() =~= entries@.take(i as int));
            let entry = &entries[i];
            if entry.is_dir && !same_text(entry.name.as_str(), "target") && !same_text(
                entry.name.as_str(),
                "node_modules",
            ) {
                let path = entry.path.clone();
                proof {
                    chars::lemma_texts_push(self.directories@, path);
                    let found = scanned_in(entries@.take(i as int));
                    assert((start + found).push(path@) =~= start + found.push(path@));
                }
                self.directories.push(path);
            }
            i = i + 1;
        }
        assert(entries@.take(entries@.len() as int) =~= entries@);
        ScanStep::Continue
    }
}

/// Each directory among entries is yet to be read, and nothing else: in a search
/// for a file all of them are, in a scan for repositories those that are neither
/// build outputs nor installed packages.
pub proof fn every_directory_is_read(entries: Seq<DirectoryEntry>, path: Seq<char>)
    ensures
        directories_in(entries).contains(path) <==> exists|i: int|
            0 <= i < entries.len() && (#[trigger] entries[i]).is_dir && entries[i].path@ == path,
        scanned_in(entries).contains(path) <==> exists|i: int|
            0 <= i < entries.len() && (#[trigger] entries[i]).is_dir && entries[i].path@ == path
                && entries[i].name@ != "target"@ && entries[i].name@ != "node_modules"@,
    decreases entries.len(),
{
    if entries.len() > 0 {
        let head = entries.drop_last();
        let last = entries.last();
        every_directory_is_read(head, path);
        assert(entries =~= head.push(last));
        assert(entries[entries.len() - 1] == last);
        let all = directories_in(entries);
        let before = directories_in(head);
        if all.contains(path) {
            let k = choose|k: int| 0 <= k < all.len() && all[k] == path;
            if k < before.len() {
                assert(before[k] == path);
                let i = choose|i: int|
                    0 <= i < head.len() && (#[trigger] head[i]).is_dir && head[i].path@ == path;
                assert(entries[i] == head[i]);
            }
        }
        if exists|i: int|
            0 <= i < entries.len() && (#[trigger] entries[i]).is_dir && entries[i].path@ == path {
            let i = choose|i: int|
                0 <= i < entries.len() && (#[trigger] entries[i]).is_dir && entries[i].path@ == path;
            if i < head.len() {
                assert(head[i] == entries[i]);
                let k = choose|k: int| 0 <= k < before.len() && before[k] == path;
                assert(all[k] == path);
            } else {
                assert(all[before.len() as int] == path);
            }
        }
        let scanned = scanned_in(entries);
        let known = scanned_in(head);
        if scanned.contains(path) {
            let k = choose|k: int| 0 <= k < scanned.len() && scanned[k] == path;
            if k < known.len() {
                assert(known[k] == path);
                let i = choose|i: int|
                    0 <= i < head.len() && (#[trigger] head[i]).is_dir && head[i].path@ == path
                        && head[i].name@ != "target"@ && head[i].name@ != "node_modules"@;
                assert(entries[i] == head[i]);
            }
        }
        if exists|i: int|
            0 <= i < entries.len() && (#[trigger] entries[i]).is_dir && entries[i].path@ == path
                && entries[i].name@ != "target"@ && entries[i].name@ != "node_modules"@ {
            let i = choose|i: int|
                0 <= i < entries.len() && (#[trigger] entries[i]).is_dir && entries[i].path@ == path
                    && entries[i].name@ != "target"@ && entries[i].name@ != "node_modules"@;
            if i < head.len() {
                assert(head[i] == entries[i]);
                let k = choose|k: int| 0 <= k < known.len() && known[k] == path;
                assert(scanned[k] == path);
            } else {
                assert(scanned[known.len() as int] == path);
            }
        }
    }
}

/// The file that is looked for is a file with its name: no directory is, and no
/// file with another name.
pub proof fn only_files_are_wanted(entry: DirectoryEntry, file_name: Seq<char>)
    ensures
        !entry.is_file ==> !is_wanted(entry, file_name),
        entry.name@ != file_name ==> !is_wanted(entry, file_name),
        entry.is_file ==> is_wanted(entry, entry.name@),
{
}

} // verus!
