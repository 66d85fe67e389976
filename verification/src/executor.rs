//! The copy run: in what order the two directories are listed, the
//! destination is created and the matching files are copied.
//!
//! Both directories are listed first. Only when both listings are there is
//! the destination created, also where no file matches; a directory that
//! cannot be listed ends the run with nothing created. The run itself
//! touches no file. It names the next action; the caller
//! performs it and reports what happened, and the run names the action
//! after that. A failed copy is recorded and the run goes on; only a
//! destination that cannot be created, or a directory that cannot be
//! listed, ends it in failure.

use crate::config::{Config, ConfigView};
use crate::entry::{entry_views, FileEntry, FileEntryView};
use crate::lister::{file_paths_under, listing_of, DirectoryError, Probe};
use crate::matching::{matching_of, missing_of, selection, stem_set, MatchSet};
use vstd::prelude::*;

verus! {

/// Why a run ended in failure.
#[derive(Clone, Copy, Debug, PartialEq, Eq, Structural)]
pub enum RunError {
    /// The destination directory could not be created.
    Setup,
    /// One of the two directories could not be listed.
    Directory(DirectoryError),
}

/// Where a run stands.
#[derive(Clone, Copy, Debug, PartialEq, Eq, Structural)]
pub enum Stage {
    /// The comparing directory is to be listed.
    ListingComparing,
    /// The copying directory is to be listed.
    ListingCopying,
    /// Both directories are listed, and the destination is to be created.
    Setup,
    /// A matching file is to be copied.
    Copying,
    /// Every matching file was tried.
    Succeeded,
    /// The run was given up.
    Failed(RunError),
}

/// What the caller reports back after an action.
#[derive(Debug, PartialEq, Eq)]
pub enum Event {
    /// The destination exists now, with all its ancestors.
    DestinationReady,
    /// The destination could not be created.
    DestinationFailed,
    /// What was found at the directory that was to be listed.
    Listed(Probe),
    /// The file was copied.
    Copied,
    /// The file could not be copied.
    CopyFailed,
}

/// What the contracts say of an `Event`.
pub enum EventView {
    DestinationReady,
    DestinationFailed,
    Listed(Result<Seq<FileEntryView>, DirectoryError>),
    Copied,
    CopyFailed,
}

impl View for Event {
    type V = EventView;

    open spec fn view(&self) -> EventView {
        match *self {
            Event::DestinationReady => EventView::DestinationReady,
            Event::DestinationFailed => EventView::DestinationFailed,
            Event::Listed(probe) => EventView::Listed(listing_of(probe)),
            Event::Copied => EventView::Copied,
            Event::CopyFailed => EventView::CopyFailed,
        }
    }
}

/// What the caller is to do next.
#[derive(Debug, PartialEq, Eq)]
pub enum Action {
    /// Create the directory at this path, and its missing ancestors.
    CreateDestination(String),
    /// Find what is at this path and report it.
    List(String),
    /// Copy this file into the destination, under its own file name.
    Copy(FileEntry),
    /// Nothing more: the run succeeded.
    Succeed,
    /// Nothing more: the run failed.
    Fail(RunError),
}

/// What the contracts say of an `Action`.
pub enum ActionView {
    CreateDestination(Seq<char>),
    List(Seq<char>),
    Copy(FileEntryView),
    Succeed,
    Fail(RunError),
}

impl View for Action {
    type V = ActionView;

    open spec fn view(&self) -> ActionView {
        match *self {
            Action::CreateDestination(path) => ActionView::CreateDestination(path@),
            Action::List(path) => ActionView::List(path@),
            Action::Copy(entry) => ActionView::Copy(entry@),
            Action::Succeed => ActionView::Succeed,
            Action::Fail(error) => ActionView::Fail(error),
        }
    }
}

/// What the contracts say of a `CopyRun`.
pub struct RunView {
    /// The directories of the run.
    pub config: ConfigView,
    /// Where the run stands.
    pub stage: Stage,
    /// The files of the comparing directory, once it is listed.
    pub reference: Seq<FileEntryView>,
    /// The files to copy, once both directories are listed.
    pub matching: Seq<FileEntryView>,
    /// The files of the copying directory that have a stem without a
    /// namesake, once both directories are listed.
    pub unmatched: Seq<FileEntryView>,
    /// How many of the matching files were tried.
    pub next: nat,
    /// The positions in `matching` of the files whose copy failed.
    pub skipped: Seq<usize>,
}

impl RunView {
    /// A run that has just begun.
    pub open spec fn fresh(config: ConfigView) -> RunView {
        RunView {
            config,
            stage: Stage::ListingComparing,
            reference: Seq::empty(),
            matching: Seq::empty(),
            unmatched: Seq::empty(),
            next: 0,
            skipped: Seq::empty(),
        }
    }

    /// What holds of every run: files are copied only while the run is
    /// copying, a run that succeeded has tried every file, and the skipped
    /// files are among those that were tried.
    pub open spec fn well_formed(self) -> bool {
        &&& self.next <= self.matching.len() <= usize::MAX
        &&& self.skipped.len() <= self.next
        &&& forall|k: int| 0 <= k < self.skipped.len() ==> #[trigger] self.skipped[k] < self.next
        &&& self.stage == Stage::Copying ==> self.next < self.matching.len()
        &&& self.stage == Stage::Succeeded ==> self.next == self.matching.len()
        &&& self.stage != Stage::Copying && self.stage != Stage::Succeeded ==> self.next == 0
    }

    /// Whether the run has not yet listed both directories, or was given up
    /// because one of them could not be listed.
    pub open spec fn before_setup(self) -> bool {
        self.stage == Stage::ListingComparing || self.stage == Stage::ListingCopying
            || self.stage matches Stage::Failed(RunError::Directory(_))
    }

    /// Whether the run has ended.
    pub open spec fn finished(self) -> bool {
        self.stage == Stage::Succeeded || self.stage is Failed
    }

    /// The run with one more file tried, of which `skipped` failed.
    pub open spec fn advanced(self, skipped: Seq<usize>) -> RunView {
        RunView {
            stage: if self.next + 1 == self.matching.len() {
                Stage::Succeeded
            } else {
                Stage::Copying
            },
            next: self.next + 1,
            skipped,
            ..self
        }
    }

    /// The run after `event`. An event that does not answer the pending
    /// action changes nothing.
    pub open spec fn after(self, event: EventView) -> RunView {
        match (self.stage, event) {
            (Stage::ListingComparing, EventView::Listed(Ok(files))) => RunView {
                stage: Stage::ListingCopying,
                reference: files,
                ..self
            },
            (Stage::ListingCopying, EventView::Listed(Ok(files))) => RunView {
                stage: Stage::Setup,
                matching: selection(stem_set(self.reference), true, files),
                unmatched: selection(stem_set(self.reference), false, files),
                ..self
            },
            (Stage::ListingComparing, EventView::Listed(Err(error))) => RunView {
                stage: Stage::Failed(RunError::Directory(error)),
                ..self
            },
            (Stage::ListingCopying, EventView::Listed(Err(error))) => RunView {
                stage: Stage::Failed(RunError::Directory(error)),
                ..self
            },
            (Stage::Setup, EventView::DestinationReady) => RunView {
                stage: if self.matching.len() == 0 {
                    Stage::Succeeded
                } else {
                    Stage::Copying
                },
                ..self
            },
            (Stage::Setup, EventView::DestinationFailed) => RunView {
                stage: Stage::Failed(RunError::Setup),
                ..self
            },
            (Stage::Copying, EventView::Copied) => self.advanced(self.skipped),
            (Stage::Copying, EventView::CopyFailed) => self.advanced(
                self.skipped.push(self.next as usize),
            ),
            _ => self,
        }
    }

    /// The run after each of `events` in turn.
    pub open spec fn after_all(self, events: Seq<EventView>) -> RunView
        decreases events.len(),
    {
        if events.len() == 0 {
            self
        } else {
            self.after_all(events.drop_last()).after(events.last())
        }
    }

    /// The action that the run waits for.
    pub open spec fn pending(self) -> ActionView {
        match self.stage {
            Stage::ListingComparing => ActionView::List(self.config.comparing_directory),
            Stage::ListingCopying => ActionView::List(self.config.copying_directory),
            Stage::Setup => ActionView::CreateDestination(self.config.destination),
            Stage::Copying => ActionView::Copy(self.matching[self.next as int]),
            Stage::Succeeded => ActionView::Succeed,
            Stage::Failed(error) => ActionView::Fail(error),
        }
    }
}

/// A run stays well formed whatever is reported to it.
pub proof fn lemma_after_keeps_well_formed(run: RunView, event: EventView)
    requires
        run.well_formed(),
        event matches EventView::Listed(Ok(files)) ==> files.len() <= usize::MAX,
    ensures
        run.after(event).well_formed(),
        run.after(event).config == run.config,
{
}

/// A run that has ended stays as it is: after a failure nothing more is
/// listed or copied.
pub proof fn lemma_finished_run_stays(run: RunView, event: EventView)
    requires
        run.finished(),
    ensures
        run.after(event) == run,
        !(run.pending() is Copy),
{
}

/// A run begins by listing the comparing directory, then the copying
/// directory. A directory that cannot be listed fails the run with that
/// error, and the run then asks for nothing more.
pub proof fn lemma_listing_comes_first(
    config: ConfigView,
    comparing: Seq<FileEntryView>,
    error: DirectoryError,
)
    ensures
        RunView::fresh(config).well_formed(),
        RunView::fresh(config).pending() == ActionView::List(config.comparing_directory),
        RunView::fresh(config).after(EventView::Listed(Err(error))).pending() == ActionView::Fail(
            RunError::Directory(error),
        ),
        RunView::fresh(config).after(EventView::Listed(Ok(comparing))).pending()
            == ActionView::List(config.copying_directory),
        RunView::fresh(config).after(EventView::Listed(Ok(comparing))).after(
            EventView::Listed(Err(error)),
        ).pending() == ActionView::Fail(RunError::Directory(error)),
{
}

/// Nothing is created unless both directories were listed: where a run,
/// after any events, still lists or was given up over a listing, it never
/// asked for the destination on the way, and it copied nothing.
pub proof fn lemma_nothing_created_before_both_listings(
    config: ConfigView,
    events: Seq<EventView>,
    k: int,
)
    requires
        0 <= k <= events.len(),
        RunView::fresh(config).after_all(events).before_setup(),
    ensures
        RunView::fresh(config).after_all(events.take(k)).before_setup(),
        !(RunView::fresh(config).after_all(events.take(k)).pending() is CreateDestination),
        !(RunView::fresh(config).after_all(events.take(k)).pending() is Copy),
    decreases events.len(),
{
    if k == events.len() {
        assert(events.take(k) =~= events);
    } else {
        let shorter = events.drop_last();
        assert(shorter.take(k) =~= events.take(k));
        lemma_nothing_created_before_both_listings(config, shorter, k);
    }
}

/// A listing that fails ends the run with that error, whichever of the two
/// directories it was, and the destination is not asked for.
pub proof fn lemma_listing_error_fails_the_run(run: RunView, error: DirectoryError)
    requires
        run.stage == Stage::ListingComparing || run.stage == Stage::ListingCopying,
    ensures
        run.after(EventView::Listed(Err(error))).stage == Stage::Failed(
            RunError::Directory(error),
        ),
        run.after(EventView::Listed(Err(error))).pending() == ActionView::Fail(
            RunError::Directory(error),
        ),
        run.after(EventView::Listed(Err(error))).finished(),
{
}

/// Once both directories are listed, the run holds the files of the
/// copying directory whose stem occurs in the comparing directory and asks
/// for the destination. Once that exists, it copies the first of them, or
/// succeeds where there is none.
pub proof fn lemma_run_copies_the_matching(
    config: ConfigView,
    comparing: Seq<FileEntryView>,
    copying: Seq<FileEntryView>,
)
    ensures
        ({
            let listed = RunView::fresh(config).after(EventView::Listed(Ok(comparing))).after(
                EventView::Listed(Ok(copying)),
            );
            let run = listed.after(EventView::DestinationReady);
            &&& listed.pending() == ActionView::CreateDestination(config.destination)
            &&& listed.matching == matching_of(comparing, copying)
            &&& listed.unmatched == missing_of(comparing, copying)
            &&& run.matching == listed.matching
            &&& run.next == 0
            &&& run.matching.len() > 0 ==> run.pending() == ActionView::Copy(run.matching[0])
            &&& run.matching.len() == 0 ==> run.pending() == ActionView::Succeed
        }),
{
}

/// Where no file of the copying directory matches, the destination is
/// still created, and the run then succeeds with no copy.
pub proof fn lemma_empty_matching_succeeds(run: RunView, files: Seq<FileEntryView>)
    requires
        run.stage == Stage::ListingCopying,
        selection(stem_set(run.reference), true, files).len() == 0,
    ensures
        run.after(EventView::Listed(Ok(files))).pending() == ActionView::CreateDestination(
            run.config.destination,
        ),
        run.after(EventView::Listed(Ok(files))).after(EventView::DestinationReady).stage
            == Stage::Succeeded,
        run.after(EventView::Listed(Ok(files))).after(EventView::DestinationReady).pending()
            == ActionView::Succeed,
{
}

/// Where the destination cannot be created, the run fails with
/// `RunError::Setup`, and no file was copied.
pub proof fn lemma_failed_setup_copies_nothing(run: RunView)
    requires
        run.well_formed(),
        run.stage == Stage::Setup,
    ensures
        run.after(EventView::DestinationFailed).stage == Stage::Failed(RunError::Setup),
        run.after(EventView::DestinationFailed).pending() == ActionView::Fail(RunError::Setup),
        run.after(EventView::DestinationFailed).next == 0,
        run.after(EventView::DestinationFailed).finished(),
{
}

/// A copy that fails does not end the run: the file is recorded as skipped,
/// and the run goes on to the next file, or succeeds where it was the last.
pub proof fn lemma_failed_copy_goes_on(run: RunView)
    requires
        run.well_formed(),
        run.stage == Stage::Copying,
    ensures
        run.after(EventView::CopyFailed).skipped == run.skipped.push(run.next as usize),
        run.after(EventView::CopyFailed).next == run.next + 1,
        run.after(EventView::CopyFailed).matching == run.matching,
        run.next + 1 < run.matching.len() ==> run.after(EventView::CopyFailed).pending()
            == ActionView::Copy(run.matching[run.next as int + 1]),
        run.next + 1 == run.matching.len() ==> run.after(EventView::CopyFailed).pending()
            == ActionView::Succeed,
{
}

/// One run of the copy: its directories, its stage, and what it has found
/// and tried so far.
pub struct CopyRun {
    config: Config,
    stage: Stage,
    reference: Vec<FileEntry>,
    matching: Vec<FileEntry>,
    unmatched: Vec<FileEntry>,
    next: usize,
    skipped: Vec<usize>,
}

impl View for CopyRun {
    type V = RunView;

    closed spec fn view(&self) -> RunView {
        RunView {
            config: self.config@,
            stage: self.stage,
            reference: entry_views(self.reference@),
            matching: entry_views(self.matching@),
            unmatched: entry_views(self.unmatched@),
            next: self.next as nat,
            skipped: self.skipped@,
        }
    }
}

impl CopyRun {
    /// A run over the directories of `config`, with nothing done yet.
    pub fn new(config: Config) -> (run: CopyRun)
        ensures
            run@ == RunView::fresh(config@),
            run@.well_formed(),
    {
        let run = CopyRun {
            config,
            stage: Stage::ListingComparing,
            reference: Vec::new(),
            matching: Vec::new(),
            unmatched: Vec::new(),
            next: 0,
            skipped: Vec::new(),
        };
        assert(run@.reference =~= Seq::<FileEntryView>::empty());
        assert(run@.unmatched =~= Seq::<FileEntryView>::empty());
        assert(run@.matching =~= Seq::<FileEntryView>::empty());
        run
    }

    /// Where the run stands.
    pub fn stage(&self) -> (stage: Stage)
        ensures
            stage == self@.stage,
    {
        self.stage
    }

    /// The action that the run waits for.
    pub fn pending(&self) -> (action: Action)
        requires
            self@.well_formed(),
        ensures
            action@ == self@.pending(),
    {
        match self.stage {
            Stage::ListingComparing => Action::List(self.config.comparing_directory().clone()),
            Stage::ListingCopying => Action::List(self.config.copying_directory().clone()),
            Stage::Setup => Action::CreateDestination(self.config.destination().clone()),
            Stage::Copying => Action::Copy(self.matching[self.next].clone()),
            Stage::Succeeded => Action::Succeed,
            Stage::Failed(error) => Action::Fail(error),
        }
    }

    /// Takes in what the caller reports and names the next action.
    pub fn step(&mut self, event: Event) -> (action: Action)
        requires
            old(self)@.well_formed(),
        ensures
            final(self)@ == old(self)@.after(event@),
            final(self)@.well_formed(),
            action@ == final(self)@.pending(),
    {
        match (self.stage, event) {
            (Stage::ListingComparing, Event::Listed(probe)) => {
                match file_paths_under(&probe) {
                    Ok(files) => {
                        self.reference = files;
                        self.stage = Stage::ListingCopying;
                    },
                    Err(error) => {
                        self.stage = Stage::Failed(RunError::Directory(error));
                    },
                }
            },
            (Stage::ListingCopying, Event::Listed(probe)) => {
                match file_paths_under(&probe) {
                    Ok(files) => {
                        let stems = MatchSet::from_entries(&self.reference);
                        self.matching = stems.select(&files, true);
                        self.unmatched = stems.select(&files, false);
                        self.stage = Stage::Setup;
                        assert(self@.matching.len() == self.matching.len());
                    },
                    Err(error) => {
                        self.stage = Stage::Failed(RunError::Directory(error));
                    },
                }
            },
            (Stage::Setup, Event::DestinationReady) => {
                assert(self@.matching.len() == self.matching.len());
                self.stage = if self.matching.len() == 0 {
                    Stage::Succeeded
                } else {
                    Stage::Copying
                };
            },
            (Stage::Setup, Event::DestinationFailed) => {
                self.stage = Stage::Failed(RunError::Setup);
            },
            (Stage::Copying, Event::Copied) => {
                self.advance();
            },
            (Stage::Copying, Event::CopyFailed) => {
                self.skipped.push(self.next);
                self.advance();
            },
            _ => {},
        }
        self.pending()
    }

    /// Moves on to the next file, or ends the run after the last.
    fn advance(&mut self)
        requires
            old(self).stage == Stage::Copying,
            old(self).next < old(self).matching.len(),
        ensures
            final(self)@ == old(self)@.advanced(old(self)@.skipped),
    {
        self.next = self.next + 1;
        self.stage = if self.next == self.matching.len() {
            Stage::Succeeded
        } else {
            Stage::Copying
        };
    }

    /// How many files were copied so far.
    pub fn copied(&self) -> (count: usize)
        requires
            self@.well_formed(),
        ensures
            count == self@.next - self@.skipped.len(),
    {
        self.next - self.skipped.len()
    }

    /// The files to copy, once both directories are listed.
    pub fn matching(&self) -> (files: &Vec<FileEntry>)
        ensures
            entry_views(files@) == self@.matching,
    {
        &self.matching
    }

    /// The files of the copying directory whose stem has no namesake, once
    /// both directories are listed.
    pub fn unmatched(&self) -> (files: &Vec<FileEntry>)
        ensures
            entry_views(files@) == self@.unmatched,
    {
        &self.unmatched
    }

    /// The files whose copy failed so far, in the order in which they were
    /// tried.
    pub fn skipped(&self) -> (files: Vec<FileEntry>)
        requires
            self@.well_formed(),
        ensures
            files.len() == self@.skipped.len(),
            forall|k: int|
                0 <= k < files.len() ==> (#[trigger] files[k])@ == self@.matching[self@.skipped[k] as int],
    {
        let mut files: Vec<FileEntry> = Vec::new();
        let mut k: usize = 0;
        while k < self.skipped.len()
            invariant
                self@.well_formed(),
                k <= self.skipped.len(),
                files.len() == k,
                forall|j: int|
                    0 <= j < k ==> (#[trigger] files[j])@ == self@.matching[self@.skipped[j] as int],
            decreases self.skipped.len() - k,
        {
            let at: usize = self.skipped[k];
            assert(self@.skipped[k as int] < self@.next);
            files.push(self.matching[at].clone());
            k += 1;
        }
        files
    }
}

impl Config {
    /// Begins the run that copies into the destination the files of the
    /// copying directory that have a namesake in the comparing directory.
    /// It begins by listing the comparing directory.
    pub fn copy_matching_with_comparing(&self) -> (run: CopyRun)
        ensures
            run@ == RunView::fresh(self@),
            run@.well_formed(),
            run@.pending() == ActionView::List(self@.comparing_directory),
    {
        CopyRun::new(self.clone())
    }
}

} // verus!
