//! The lister: which of the children found in a directory are its files.

use crate::entry::{entry_views, FileEntry, FileEntryView};
use vstd::prelude::*;

verus! {

/// Why a directory could not be listed.
#[derive(Clone, Copy, Debug, PartialEq, Eq, Structural)]
pub enum DirectoryError {
    /// The path does not exist or is no directory.
    NotADirectory,
    /// The path is a directory, but enumerating it could not begin.
    Unreadable,
}

/// One child of a directory, as the enumeration gave it.
#[derive(Debug, PartialEq, Eq)]
pub enum Child {
    /// A regular file.
    File(FileEntry),
    /// A subdirectory, or anything else that is no regular file.
    Other,
    /// The enumeration failed on this child.
    Unreadable,
}

/// What was found at a path that is to be listed.
#[derive(Debug, PartialEq, Eq)]
pub enum Probe {
    /// The path does not exist or is no directory.
    NotADirectory,
    /// The path is a directory, but enumerating it could not begin.
    Unreadable,
    /// The path is a directory with these direct children, in the order of
    /// the enumeration.
    Directory(Vec<Child>),
}

/// The regular files among `children`, in order.
pub open spec fn files_among(children: Seq<Child>) -> Seq<FileEntryView>
    decreases children.len(),
{
    if children.len() == 0 {
        Seq::empty()
    } else {
        let before = files_among(children.drop_last());
        match children.last() {
            Child::File(entry) => before.push(entry@),
            _ => before,
        }
    }
}

/// The listing that a probe stands for: an error where the path cannot be
/// listed, else its regular files. A child that is no regular file, or that
/// could not be read, is left out and is no error.
pub open spec fn listing_of(probe: Probe) -> Result<Seq<FileEntryView>, DirectoryError> {
    match probe {
        Probe::NotADirectory => Err(DirectoryError::NotADirectory),
        Probe::Unreadable => Err(DirectoryError::Unreadable),
        Probe::Directory(children) => Ok(files_among(children@)),
    }
}

/// What a list of files, or the error in its place, holds.
pub open spec fn paths_view(paths: Result<Vec<FileEntry>, DirectoryError>) -> Result<
    Seq<FileEntryView>,
    DirectoryError,
> {
    match paths {
        Ok(entries) => Ok(entry_views(entries@)),
        Err(error) => Err(error),
    }
}

/// The number of children on which the enumeration failed.
pub open spec fn unreadable_among(children: Seq<Child>) -> nat
    decreases children.len(),
{
    if children.len() == 0 {
        0
    } else {
        let before = unreadable_among(children.drop_last());
        match children.last() {
            Child::Unreadable => before + 1,
            _ => before,
        }
    }
}

/// A path that is no directory is not listed, and an empty directory is
/// listed as no files, which is no error.
pub proof fn lemma_listing_edges(children: Vec<Child>)
    requires
        children@.len() == 0,
    ensures
        listing_of(Probe::NotADirectory) == Err::<Seq<FileEntryView>, DirectoryError>(
            DirectoryError::NotADirectory,
        ),
        listing_of(Probe::Directory(children)) == Ok::<Seq<FileEntryView>, DirectoryError>(
            Seq::empty(),
        ),
{
}

/// Every listed file is a child that was found as a regular file, and no
/// more files are listed than children were found.
pub proof fn lemma_files_among_children(children: Seq<Child>)
    ensures
        files_among(children).len() + unreadable_among(children) <= children.len(),
        forall|e: FileEntryView| #[trigger]
            files_among(children).contains(e) ==> exists|i: int|
                0 <= i < children.len() && (#[trigger] children[i] matches Child::File(entry)
                    && entry@ == e),
    decreases children.len(),
{
    if children.len() > 0 {
        let shorter = children.drop_last();
        lemma_files_among_children(shorter);
        let before = files_among(shorter);
        assert forall|e: FileEntryView| #[trigger]
            files_among(children).contains(e) implies exists|i: int|
            0 <= i < children.len() && (#[trigger] children[i] matches Child::File(entry) && entry@
                == e) by {
            let k = choose|k: int|
                0 <= k < files_among(children).len() && files_among(children)[k] == e;
            if k < before.len() {
                assert(before[k] == e);
                assert(before.contains(e));
                let i = choose|i: int|
                    0 <= i < shorter.len() && (#[trigger] shorter[i] matches Child::File(entry)
                        && entry@ == e);
                assert(children[i] == shorter[i]);
            } else {
                assert(children[children.len() - 1] == children.last());
            }
        }
    }
}

/// Lists the files of a probed directory. Fails where the path is no
/// directory or could not be enumerated; an empty directory gives an empty
/// list.
pub fn file_paths_under(probe: &Probe) -> (listing: Result<Vec<FileEntry>, DirectoryError>)
    ensures
        paths_view(listing) == listing_of(*probe),
{
    match probe {
        Probe::NotADirectory => Err(DirectoryError::NotADirectory),
        Probe::Unreadable => Err(DirectoryError::Unreadable),
        Probe::Directory(children) => {
            let mut files: Vec<FileEntry> = Vec::new();
            let mut i: usize = 0;
            assert(entry_views(files@) =~= files_among(children@.take(0)));
            while i < children.len()
                invariant
                    i <= children.len(),
                    entry_views(files@) == files_among(children@.take(i as int)),
                decreases children.len() - i,
            {
                let ghost before = entry_views(files@);
                assert(children@.take(i + 1).drop_last() =~= children@.take(i as int));
                match &children[i] {
                    Child::File(entry) => {
                        files.push(entry.clone());
                        assert(entry_views(files@) =~= before.push(entry@));
                    },
                    _ => {},
                }
                i += 1;
            }
            assert(children@.take(children.len() as int) =~= children@);
            Ok(files)
        },
    }
}

/// Counts the children on which the enumeration failed, for the caller to
/// report.
pub fn unreadable_children(children: &Vec<Child>) -> (count: usize)
    ensures
        count == unreadable_among(children@),
{
    let mut count: usize = 0;
    let mut i: usize = 0;
    while i < children.len()
        invariant
            i <= children.len(),
            count <= i,
            count == unreadable_among(children@.take(i as int)),
        decreases children.len() - i,
    {
        assert(children@.take(i + 1).drop_last() =~= children@.take(i as int));
        match &children[i] {
            Child::Unreadable => {
                count += 1;
            },
            _ => {},
        }
        i += 1;
    }
    assert(children@.take(children.len() as int) =~= children@);
    count
}

} // verus!
