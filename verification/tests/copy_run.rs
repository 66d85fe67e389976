use copy_matching_name_contents::config::Config;
use copy_matching_name_contents::entry::FileEntry;
use copy_matching_name_contents::executor::{Action, CopyRun, Event, RunError, Stage};
use copy_matching_name_contents::lister::{Child, DirectoryError, Probe};

fn entry(dir: &str, name: &str) -> FileEntry {
    FileEntry::new(format!("{}/{}", dir, name), Some(name.to_string()))
}

fn directory(dir: &str, names: &[&str]) -> Probe {
    Probe::Directory(names.iter().map(|n| Child::File(entry(dir, n))).collect())
}

fn config() -> Config {
    Config::new("cmp".to_string(), "cpy".to_string(), "out/deep".to_string())
}

fn create() -> Action {
    Action::CreateDestination("out/deep".to_string())
}

/// A run with both directories listed, which waits for the destination.
fn listed_run(comparing: &[&str], copying: &[&str]) -> CopyRun {
    let mut run = config().copy_matching_with_comparing();
    assert_eq!(run.pending(), Action::List("cmp".to_string()));
    assert_eq!(
        run.step(Event::Listed(directory("cmp", comparing))),
        Action::List("cpy".to_string())
    );
    assert_eq!(run.step(Event::Listed(directory("cpy", copying))), create());
    assert_eq!(run.stage(), Stage::Setup);
    run
}

#[test]
fn a_run_begins_with_the_comparing_directory() {
    let run = config().copy_matching_with_comparing();
    assert_eq!(run.stage(), Stage::ListingComparing);
    assert_eq!(run.pending(), Action::List("cmp".to_string()));
    assert_eq!(run.matching(), &Vec::new());
    assert_eq!(run.unmatched(), &Vec::new());
    let same = CopyRun::new(config());
    assert_eq!(same.pending(), Action::List("cmp".to_string()));
}

#[test]
fn the_destination_is_asked_for_after_both_listings() {
    let mut run = config().copy_matching_with_comparing();
    assert_eq!(run.step(Event::Listed(directory("cmp", &["a.x"]))), Action::List("cpy".to_string()));
    assert_eq!(run.stage(), Stage::ListingCopying);
    assert_eq!(run.step(Event::Listed(directory("cpy", &["a.y"]))), create());
    assert_eq!(run.stage(), Stage::Setup);
    assert_eq!(run.copied(), 0);
}

#[test]
fn empty_matching_set_creates_the_destination_and_succeeds() {
    let mut run = config().copy_matching_with_comparing();
    assert_eq!(
        run.step(Event::Listed(Probe::Directory(Vec::new()))),
        Action::List("cpy".to_string())
    );
    assert_eq!(run.step(Event::Listed(directory("cpy", &["a.txt"]))), create());
    assert_eq!(run.matching(), &Vec::new());
    assert_eq!(run.step(Event::DestinationReady), Action::Succeed);
    assert_eq!(run.stage(), Stage::Succeeded);
    assert_eq!(run.copied(), 0);
    assert_eq!(run.skipped(), Vec::new());
}

#[test]
fn two_empty_directories_create_the_destination_and_succeed() {
    let mut run = listed_run(&[], &[]);
    assert_eq!(run.step(Event::DestinationReady), Action::Succeed);
    assert_eq!(run.copied(), 0);
}

#[test]
fn destination_that_cannot_be_created_fails_the_run_before_any_copy() {
    let mut run = listed_run(&["x.txt"], &["x.csv"]);
    assert_eq!(run.step(Event::DestinationFailed), Action::Fail(RunError::Setup));
    assert_eq!(run.stage(), Stage::Failed(RunError::Setup));
    assert_eq!(
        run.step(Event::Listed(directory("cmp", &["x.txt"]))),
        Action::Fail(RunError::Setup)
    );
    assert_eq!(run.step(Event::DestinationReady), Action::Fail(RunError::Setup));
    assert_eq!(run.step(Event::Copied), Action::Fail(RunError::Setup));
    assert_eq!(run.copied(), 0);
    assert_eq!(run.skipped(), Vec::new());
}

#[test]
fn one_failed_copy_is_skipped_and_the_rest_still_copy() {
    let mut run = listed_run(&["a.x", "b.x", "c.x"], &["a.y", "b.y", "n.y", "c.y"]);
    assert_eq!(run.step(Event::DestinationReady), Action::Copy(entry("cpy", "a.y")));
    assert_eq!(run.step(Event::Copied), Action::Copy(entry("cpy", "b.y")));
    assert_eq!(run.step(Event::CopyFailed), Action::Copy(entry("cpy", "c.y")));
    assert_eq!(run.stage(), Stage::Copying);
    assert_eq!(run.step(Event::Copied), Action::Succeed);
    assert_eq!(run.stage(), Stage::Succeeded);
    assert_eq!(run.copied(), 2);
    assert_eq!(run.skipped(), vec![entry("cpy", "b.y")]);
}

#[test]
fn every_copy_may_fail_and_the_run_still_succeeds() {
    let mut run = listed_run(&["a.x", "b.x"], &["a.y", "b.y"]);
    assert_eq!(run.step(Event::DestinationReady), Action::Copy(entry("cpy", "a.y")));
    assert_eq!(run.step(Event::CopyFailed), Action::Copy(entry("cpy", "b.y")));
    assert_eq!(run.step(Event::CopyFailed), Action::Succeed);
    assert_eq!(run.copied(), 0);
    assert_eq!(run.skipped(), vec![entry("cpy", "a.y"), entry("cpy", "b.y")]);
}

#[test]
fn two_small_directories_copy_the_one_match() {
    let mut run = listed_run(&["x.txt", "y.png"], &["x.csv", "z.txt"]);
    assert_eq!(run.matching(), &vec![entry("cpy", "x.csv")]);
    assert_eq!(run.unmatched(), &vec![entry("cpy", "z.txt")]);
    assert_eq!(run.step(Event::DestinationReady), Action::Copy(entry("cpy", "x.csv")));
    assert_eq!(run.step(Event::Copied), Action::Succeed);
    assert_eq!(run.copied(), 1);
}

#[test]
fn a_comparing_directory_that_cannot_be_listed_fails_with_nothing_created() {
    let failed = Action::Fail(RunError::Directory(DirectoryError::NotADirectory));
    let mut run = config().copy_matching_with_comparing();
    assert_eq!(run.pending(), Action::List("cmp".to_string()));
    assert_eq!(run.step(Event::Listed(Probe::NotADirectory)), failed);
    assert_eq!(run.stage(), Stage::Failed(RunError::Directory(DirectoryError::NotADirectory)));
    assert_eq!(run.step(Event::Listed(directory("cpy", &["a.y"]))), failed);
    assert_eq!(run.step(Event::DestinationReady), failed);
    assert_eq!(run.step(Event::Copied), failed);
    assert_eq!(run.copied(), 0);
}

#[test]
fn a_copying_directory_that_cannot_be_listed_fails_with_nothing_created() {
    let failed = Action::Fail(RunError::Directory(DirectoryError::NotADirectory));
    let mut run = config().copy_matching_with_comparing();
    assert_eq!(
        run.step(Event::Listed(directory("cmp", &["a.x"]))),
        Action::List("cpy".to_string())
    );
    assert_eq!(run.step(Event::Listed(Probe::NotADirectory)), failed);
    assert_eq!(run.step(Event::DestinationReady), failed);
    assert_eq!(run.copied(), 0);

    let mut run = config().copy_matching_with_comparing();
    run.step(Event::Listed(directory("cmp", &["a.x"])));
    assert_eq!(
        run.step(Event::Listed(Probe::Unreadable)),
        Action::Fail(RunError::Directory(DirectoryError::Unreadable))
    );
}

#[test]
fn an_event_that_answers_nothing_changes_nothing() {
    let mut run = config().copy_matching_with_comparing();
    assert_eq!(run.step(Event::Copied), Action::List("cmp".to_string()));
    assert_eq!(run.step(Event::CopyFailed), Action::List("cmp".to_string()));
    assert_eq!(run.step(Event::DestinationReady), Action::List("cmp".to_string()));
    assert_eq!(run.step(Event::DestinationFailed), Action::List("cmp".to_string()));
    assert_eq!(run.stage(), Stage::ListingComparing);
    assert_eq!(run.step(Event::Listed(directory("cmp", &["a.x"]))), Action::List("cpy".to_string()));
    assert_eq!(run.step(Event::DestinationFailed), Action::List("cpy".to_string()));
    assert_eq!(run.step(Event::Copied), Action::List("cpy".to_string()));

    let mut run = listed_run(&["a.x"], &["a.y"]);
    assert_eq!(run.step(Event::Listed(Probe::NotADirectory)), create());
    assert_eq!(run.step(Event::Copied), create());
    assert_eq!(run.step(Event::DestinationReady), Action::Copy(entry("cpy", "a.y")));
    assert_eq!(run.step(Event::Listed(Probe::NotADirectory)), Action::Copy(entry("cpy", "a.y")));
    assert_eq!(run.step(Event::DestinationFailed), Action::Copy(entry("cpy", "a.y")));
    assert_eq!(run.step(Event::Copied), Action::Succeed);
    assert_eq!(run.step(Event::CopyFailed), Action::Succeed);
    assert_eq!(run.copied(), 1);
    assert_eq!(run.skipped(), Vec::new());
}
