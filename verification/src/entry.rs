//! File entries: the regular files found directly inside a directory.

use crate::stem::{file_stem, stem_of, text_view};
use vstd::prelude::*;

verus! {

/// A regular file that was found as a direct child of a directory.
#[derive(Debug, PartialEq, Eq)]
pub struct FileEntry {
    /// Where the file lies: the directory's path joined with the file's name.
    pub path: String,
    /// The file's name, extension included, or `None` where the name is not
    /// valid text. Such an entry never matches and is never reported.
    pub name: Option<String>,
}

/// What the contracts say of a `FileEntry`.
pub struct FileEntryView {
    pub path: Seq<char>,
    pub name: Option<Seq<char>>,
}

impl FileEntryView {
    /// The entry's stem, where its name is text.
    pub open spec fn stem(self) -> Option<Seq<char>> {
        match self.name {
            Some(name) => Some(stem_of(name)),
            None => None,
        }
    }
}

impl View for FileEntry {
    type V = FileEntryView;

    open spec fn view(&self) -> FileEntryView {
        FileEntryView {
            path: self.path@,
            name: text_view(self.name),
        }
    }
}

/// The views of a sequence of entries, in order.
pub open spec fn entry_views(entries: Seq<FileEntry>) -> Seq<FileEntryView> {
    Seq::new(entries.len(), |i: int| entries[i]@)
}

impl FileEntry {
    /// An entry for the file at `path` whose name is `name`.
    pub fn new(path: String, name: Option<String>) -> (entry: FileEntry)
        ensures
            entry.path == path,
            entry.name == name,
    {
        FileEntry { path, name }
    }

    /// The entry's stem, or `None` where its name is not text.
    pub fn stem(&self) -> (stem: Option<String>)
        ensures
            text_view(stem) == self@.stem(),
    {
        match &self.name {
            Some(name) => Some(file_stem(name.as_str())),
            None => None,
        }
    }

}

impl Clone for FileEntry {
    /// A second entry for the same file.
    fn clone(&self) -> (copy: FileEntry)
        ensures
            copy@ == self@,
    {
        let name = match &self.name {
            Some(name) => Some(name.clone()),
            None => None,
        };
        FileEntry { path: self.path.clone(), name }
    }
}

} // verus!
