//! The configuration of one run: the three directories.

use crate::entry::{FileEntry, FileEntryView};
use crate::lister::{file_paths_under, listing_of, paths_view, DirectoryError, Probe};
use crate::matching::{selection, stem_set, MatchSet};
use vstd::prelude::*;

verus! {

/// The directories of one run. A configuration never changes.
#[derive(Debug, PartialEq, Eq)]
pub struct Config {
    comparing_directory: String,
    copying_directory: String,
    destination: String,
}

/// What the contracts say of a `Config`.
pub struct ConfigView {
    pub comparing_directory: Seq<char>,
    pub copying_directory: Seq<char>,
    pub destination: Seq<char>,
}

impl View for Config {
    type V = ConfigView;

    closed spec fn view(&self) -> ConfigView {
        ConfigView {
            comparing_directory: self.comparing_directory@,
            copying_directory: self.copying_directory@,
            destination: self.destination@,
        }
    }
}

/// What a comparison of two listings gives: the first listing's error, else
/// the second's, else the entries of the copying side whose stem is among
/// the stems of the comparing side (`present`) or is not among them.
pub open spec fn compared(
    comparing: Result<Seq<FileEntryView>, DirectoryError>,
    copying: Result<Seq<FileEntryView>, DirectoryError>,
    present: bool,
) -> Result<Seq<FileEntryView>, DirectoryError> {
    match (comparing, copying) {
        (Err(error), _) => Err(error),
        (Ok(_), Err(error)) => Err(error),
        (Ok(reference), Ok(candidates)) => Ok(selection(stem_set(reference), present, candidates)),
    }
}

impl Clone for Config {
    /// A configuration with the same three directories.
    fn clone(&self) -> (copy: Config)
        ensures
            copy@ == self@,
    {
        Config {
            comparing_directory: self.comparing_directory.clone(),
            copying_directory: self.copying_directory.clone(),
            destination: self.destination.clone(),
        }
    }
}

impl Config {
    /// A configuration with these three directories.
    pub fn new(comparing_directory: String, copying_directory: String, destination: String) -> (config:
        Config)
        ensures
            config@ == (ConfigView {
                comparing_directory: comparing_directory@,
                copying_directory: copying_directory@,
                destination: destination@,
            }),
    {
        Config { comparing_directory, copying_directory, destination }
    }

    /// The directory whose stems are the reference.
    pub fn comparing_directory(&self) -> (path: &String)
        ensures
            path@ == self@.comparing_directory,
    {
        &self.comparing_directory
    }

    /// The directory whose files are copied or reported.
    pub fn copying_directory(&self) -> (path: &String)
        ensures
            path@ == self@.copying_directory,
    {
        &self.copying_directory
    }

    /// The directory that the matching files are copied into.
    pub fn destination(&self) -> (path: &String)
        ensures
            path@ == self@.destination,
    {
        &self.destination
    }

    /// The files of the copying directory that have no namesake in the
    /// comparing directory, from what was found at the two directories.
    pub fn get_missing_paths(&self, comparing: &Probe, copying: &Probe) -> (paths: Result<
        Vec<FileEntry>,
        DirectoryError,
    >)
        ensures
            paths_view(paths) == compared(listing_of(*comparing), listing_of(*copying), false),
    {
        compare(comparing, copying, false)
    }

    /// The files of the copying directory that have a namesake in the
    /// comparing directory, from what was found at the two directories.
    pub fn get_matching_paths(&self, comparing: &Probe, copying: &Probe) -> (paths: Result<
        Vec<FileEntry>,
        DirectoryError,
    >)
        ensures
            paths_view(paths) == compared(listing_of(*comparing), listing_of(*copying), true),
    {
        compare(comparing, copying, true)
    }
}

/// Lists both sides and selects from the copying side.
fn compare(comparing: &Probe, copying: &Probe, present: bool) -> (paths: Result<
    Vec<FileEntry>,
    DirectoryError,
>)
    ensures
        paths_view(paths) == compared(listing_of(*comparing), listing_of(*copying), present),
{
    let reference = match file_paths_under(comparing) {
        Ok(files) => files,
        Err(error) => {
            return Err(error);
        },
    };
    let candidates = match file_paths_under(copying) {
        Ok(files) => files,
        Err(error) => {
            return Err(error);
        },
    };
    let stems = MatchSet::from_entries(&reference);
    Ok(stems.select(&candidates, present))
}

} // verus!
