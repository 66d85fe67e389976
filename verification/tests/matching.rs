use copy_matching_name_contents::entry::FileEntry;
use copy_matching_name_contents::matching::{compute_matching, compute_missing, MatchSet};

fn entry(dir: &str, name: &str) -> FileEntry {
    FileEntry::new(format!("{}/{}", dir, name), Some(name.to_string()))
}

fn nameless(dir: &str) -> FileEntry {
    FileEntry::new(format!("{}/\u{fffd}", dir), None)
}

#[test]
fn matching_and_missing_of_two_small_directories() {
    let comparing = vec![entry("cmp", "x.txt"), entry("cmp", "y.png")];
    let copying = vec![entry("cpy", "x.csv"), entry("cpy", "z.txt")];
    assert_eq!(compute_matching(&comparing, &copying), vec![entry("cpy", "x.csv")]);
    assert_eq!(compute_missing(&comparing, &copying), vec![entry("cpy", "z.txt")]);
}

#[test]
fn matching_keeps_the_copying_side_entry_with_its_extension() {
    let comparing = vec![entry("cmp", "photo.raw")];
    let copying = vec![entry("cpy", "photo.jpg")];
    let matching = compute_matching(&comparing, &copying);
    assert_eq!(matching.len(), 1);
    assert_eq!(matching[0].path, "cpy/photo.jpg");
    assert_eq!(matching[0].name, Some("photo.jpg".to_string()));
}

#[test]
fn copying_entries_that_share_a_stem_are_all_kept() {
    let comparing = vec![entry("cmp", "x.txt"), entry("cmp", "x.md")];
    let copying = vec![entry("cpy", "x.png"), entry("cpy", "w.png"), entry("cpy", "x.jpg")];
    assert_eq!(
        compute_matching(&comparing, &copying),
        vec![entry("cpy", "x.png"), entry("cpy", "x.jpg")]
    );
    assert_eq!(compute_missing(&comparing, &copying), vec![entry("cpy", "w.png")]);
}

#[test]
fn entries_without_a_textual_name_are_in_neither_result() {
    let comparing = vec![nameless("cmp"), entry("cmp", "a.txt")];
    let copying = vec![nameless("cpy"), entry("cpy", "a.bin"), entry("cpy", "b.bin")];
    assert_eq!(compute_matching(&comparing, &copying), vec![entry("cpy", "a.bin")]);
    assert_eq!(compute_missing(&comparing, &copying), vec![entry("cpy", "b.bin")]);
}

#[test]
fn results_keep_the_order_of_the_copying_side() {
    let comparing = vec![entry("cmp", "c.x"), entry("cmp", "a.x"), entry("cmp", "b.x")];
    let copying = vec![
        entry("cpy", "b.y"),
        entry("cpy", "q.y"),
        entry("cpy", "a.y"),
        entry("cpy", "p.y"),
        entry("cpy", "c.y"),
    ];
    assert_eq!(
        compute_matching(&comparing, &copying),
        vec![entry("cpy", "b.y"), entry("cpy", "a.y"), entry("cpy", "c.y")]
    );
    assert_eq!(
        compute_missing(&comparing, &copying),
        vec![entry("cpy", "q.y"), entry("cpy", "p.y")]
    );
}

#[test]
fn matching_lies_within_copying_and_its_stems_within_comparing() {
    let comparing = vec![entry("cmp", "one.a"), entry("cmp", "two.b"), entry("cmp", "three")];
    let copying = vec![
        entry("cpy", "two.z"),
        entry("cpy", "four.z"),
        entry("cpy", "three.z"),
        nameless("cpy"),
    ];
    let stems = MatchSet::from_entries(&comparing);
    let matching = compute_matching(&comparing, &copying);
    assert!(matching.len() <= copying.len());
    for e in &matching {
        assert!(copying.contains(e));
        assert!(stems.contains(&e.stem().unwrap()));
    }
}

#[test]
fn matching_and_missing_part_the_entries_that_have_a_stem() {
    let comparing = vec![entry("cmp", "one.a"), entry("cmp", "two.b")];
    let copying = vec![
        entry("cpy", "two.z"),
        nameless("cpy"),
        entry("cpy", "four.z"),
        entry("cpy", "one"),
        entry("cpy", "five.a.b"),
    ];
    let matching = compute_matching(&comparing, &copying);
    let missing = compute_missing(&comparing, &copying);
    let with_stem: Vec<&FileEntry> = copying.iter().filter(|e| e.name.is_some()).collect();
    assert_eq!(matching.len() + missing.len(), with_stem.len());
    for e in &with_stem {
        assert!(matching.contains(e) != missing.contains(e));
    }
    for e in &matching {
        assert!(!missing.contains(e));
    }
    assert_eq!(matching, vec![entry("cpy", "two.z"), entry("cpy", "one")]);
    assert_eq!(missing, vec![entry("cpy", "four.z"), entry("cpy", "five.a.b")]);
}

#[test]
fn empty_sides() {
    let some = vec![entry("d", "a.txt")];
    let none: Vec<FileEntry> = Vec::new();
    assert_eq!(compute_matching(&none, &some), none);
    assert_eq!(compute_missing(&none, &some), some);
    assert_eq!(compute_matching(&some, &none), none);
    assert_eq!(compute_missing(&some, &none), none);
}

#[test]
fn select_by_presence() {
    let mut set = MatchSet::new();
    set.insert("a".to_string());
    let copying = vec![entry("d", "a.1"), entry("d", "b.1"), nameless("d")];
    assert_eq!(set.select(&copying, true), vec![entry("d", "a.1")]);
    assert_eq!(set.select(&copying, false), vec![entry("d", "b.1")]);
}
