//! The matcher: which files of the copying side have a namesake, by stem,
//! on the comparing side, and which have none.

use crate::entry::{entry_views, FileEntry, FileEntryView};
use crate::stem::text_view;
use vstd::prelude::*;

verus! {

/// The stems that occur among `entries`. An entry whose name is not text
/// adds nothing.
pub open spec fn stem_set(entries: Seq<FileEntryView>) -> Set<Seq<char>> {
    Set::new(
        |s: Seq<char>|
            exists|i: int| 0 <= i < entries.len() && #[trigger] entries[i].stem() == Some(s),
    )
}

/// The stems of `entries`, one for each entry, in order.
pub open spec fn stems_of(entries: Seq<FileEntryView>) -> Seq<Option<Seq<char>>> {
    Seq::new(entries.len(), |i: int| entries[i].stem())
}

/// What a sequence of optional texts holds, in order.
pub open spec fn text_views(texts: Seq<Option<String>>) -> Seq<Option<Seq<char>>> {
    Seq::new(texts.len(), |i: int| text_view(texts[i]))
}

/// Whether `entry` is picked: it has a stem, and that stem is in `stems`
/// exactly if `present` says so.
pub open spec fn selected(stems: Set<Seq<char>>, present: bool, entry: FileEntryView) -> bool {
    entry.stem() is Some && stems.contains(entry.stem().unwrap()) == present
}

/// The picked entries of `copying`, in their order and as often as they occur.
pub open spec fn selection(stems: Set<Seq<char>>, present: bool, copying: Seq<FileEntryView>) -> Seq<
    FileEntryView,
> {
    copying.filter(|entry: FileEntryView| selected(stems, present, entry))
}

/// The entries of `copying` whose stem occurs among `comparing`.
pub open spec fn matching_of(comparing: Seq<FileEntryView>, copying: Seq<FileEntryView>) -> Seq<
    FileEntryView,
> {
    selection(stem_set(comparing), true, copying)
}

/// The entries of `copying` that have a stem which does not occur among
/// `comparing`.
pub open spec fn missing_of(comparing: Seq<FileEntryView>, copying: Seq<FileEntryView>) -> Seq<
    FileEntryView,
> {
    selection(stem_set(comparing), false, copying)
}

/// The entries of `copying` that have a stem at all.
pub open spec fn reducible_of(copying: Seq<FileEntryView>) -> Seq<FileEntryView> {
    copying.filter(|entry: FileEntryView| entry.stem() is Some)
}

/// Filtering a sequence with one more element at its end.
pub proof fn lemma_filter_push<A>(s: Seq<A>, x: A, pred: spec_fn(A) -> bool)
    ensures
        s.push(x).filter(pred) == if pred(x) {
            s.filter(pred).push(x)
        } else {
            s.filter(pred)
        },
{
    reveal(Seq::filter);
    assert(s.push(x).drop_last() =~= s);
}

/// An entry is in a selection exactly if it is in `copying` and is picked;
/// the two selections of one stem set hold together what the entries of
/// `copying` that have a stem hold, each as often.
pub proof fn lemma_selection_members(stems: Set<Seq<char>>, copying: Seq<FileEntryView>)
    ensures
        forall|present: bool, e: FileEntryView|
            #[trigger] selection(stems, present, copying).contains(e) <==> copying.contains(e)
                && selected(stems, present, e),
        selection(stems, true, copying).len() + selection(stems, false, copying).len()
            == reducible_of(copying).len(),
        selection(stems, true, copying).to_multiset().add(
            selection(stems, false, copying).to_multiset(),
        ) == reducible_of(copying).to_multiset(),
    decreases copying.len(),
{
    reveal(Seq::filter);
    if copying.len() == 0 {
        selection(stems, true, copying).to_multiset_ensures();
        selection(stems, false, copying).to_multiset_ensures();
        reducible_of(copying).to_multiset_ensures();
        assert(selection(stems, true, copying).to_multiset().add(
            selection(stems, false, copying).to_multiset(),
        ) =~= reducible_of(copying).to_multiset());
    } else {
        let init = copying.drop_last();
        let last = copying.last();
        lemma_selection_members(stems, init);
        assert(init.push(last) =~= copying);
        assert forall|present: bool, e: FileEntryView|
            #[trigger] selection(stems, present, copying).contains(e) <==> copying.contains(e)
                && selected(stems, present, e) by {
            let pred = |entry: FileEntryView| selected(stems, present, entry);
            let sub = selection(stems, present, init);
            let all = selection(stems, present, copying);
            lemma_filter_push(init, last, pred);
            if all.contains(e) {
                let i = choose|i: int| 0 <= i < all.len() && all[i] == e;
                if pred(last) && i == sub.len() {
                    assert(copying[copying.len() - 1] == e);
                } else {
                    assert(sub[i] == e);
                    assert(sub.contains(e));
                    let j = choose|j: int| 0 <= j < init.len() && init[j] == e;
                    assert(copying[j] == e);
                }
            }
            if copying.contains(e) && selected(stems, present, e) {
                let j = choose|j: int| 0 <= j < copying.len() && copying[j] == e;
                if j == copying.len() - 1 {
                    assert(all[sub.len() as int] == e);
                } else {
                    assert(init[j] == e);
                    assert(init.contains(e));
                    assert(selection(stems, present, init).contains(e));
                    let i = choose|i: int| 0 <= i < sub.len() && sub[i] == e;
                    assert(all[i] == e);
                }
            }
        }
        lemma_filter_push(init, last, |entry: FileEntryView| selected(stems, true, entry));
        lemma_filter_push(init, last, |entry: FileEntryView| selected(stems, false, entry));
        lemma_filter_push(init, last, |entry: FileEntryView| entry.stem() is Some);
        selection(stems, true, init).to_multiset_ensures();
        selection(stems, false, init).to_multiset_ensures();
        reducible_of(init).to_multiset_ensures();
        assert(selection(stems, true, copying).to_multiset().add(
            selection(stems, false, copying).to_multiset(),
        ) =~= reducible_of(copying).to_multiset());
    }
}

/// Whether `part` is `whole` with some entries left out: `places` gives, for
/// each entry of `part`, where it stands in `whole`, and these places rise.
pub open spec fn is_subsequence_at(
    part: Seq<FileEntryView>,
    whole: Seq<FileEntryView>,
    places: Seq<int>,
) -> bool {
    &&& places.len() == part.len()
    &&& forall|k: int|
        0 <= k < places.len() ==> 0 <= #[trigger] places[k] < whole.len() && part[k]
            == whole[places[k]]
    &&& forall|j: int, k: int|
        0 <= j < k < places.len() ==> #[trigger] places[j] < #[trigger] places[k]
}

/// A selection is a subsequence of the copying side: it keeps the order of
/// the entries and invents none. The result gives the places.
pub proof fn lemma_selection_is_subsequence(
    stems: Set<Seq<char>>,
    present: bool,
    copying: Seq<FileEntryView>,
) -> (places: Seq<int>)
    ensures
        is_subsequence_at(selection(stems, present, copying), copying, places),
    decreases copying.len(),
{
    reveal(Seq::filter);
    if copying.len() == 0 {
        Seq::empty()
    } else {
        let init = copying.drop_last();
        let last = copying.last();
        let before = lemma_selection_is_subsequence(stems, present, init);
        assert(init.push(last) =~= copying);
        lemma_filter_push(init, last, |entry: FileEntryView| selected(stems, present, entry));
        if selected(stems, present, last) {
            let places = before.push(copying.len() - 1);
            assert forall|k: int| 0 <= k < places.len() implies 0 <= #[trigger] places[k]
                < copying.len() && selection(stems, present, copying)[k] == copying[places[k]] by {
                if k < before.len() {
                    assert(places[k] == before[k]);
                    assert(copying[before[k]] == init[before[k]]);
                }
            }
            assert forall|j: int, k: int| 0 <= j < k < places.len() implies #[trigger] places[j]
                < #[trigger] places[k] by {
                assert(places[j] == before[j]);
                if k < before.len() {
                    assert(places[k] == before[k]);
                }
            }
            places
        } else {
            assert forall|k: int| 0 <= k < before.len() implies 0 <= #[trigger] before[k]
                < copying.len() && selection(stems, present, copying)[k] == copying[before[k]] by {
                assert(copying[before[k]] == init[before[k]]);
            }
            before
        }
    }
}

/// What `compute_matching` returns lies within the copying side, and the
/// stem of each of its entries occurs on the comparing side.
pub proof fn lemma_matching_within_copying(
    comparing: Seq<FileEntryView>,
    copying: Seq<FileEntryView>,
)
    ensures
        matching_of(comparing, copying).len() <= copying.len(),
        forall|e: FileEntryView| #[trigger]
            matching_of(comparing, copying).contains(e) ==> copying.contains(e) && e.stem() is Some
                && stem_set(comparing).contains(e.stem().unwrap()),
{
    lemma_selection_members(stem_set(comparing), copying);
    copying.lemma_filter_len(|entry: FileEntryView| selected(stem_set(comparing), true, entry));
}

/// The matching and the missing entries part the entries of the copying
/// side that have a stem: no entry is in both, each such entry is in one of
/// them, and together they hold each such entry as often as the copying
/// side does.
pub proof fn lemma_matching_and_missing_partition(
    comparing: Seq<FileEntryView>,
    copying: Seq<FileEntryView>,
)
    ensures
        forall|e: FileEntryView|
            !(#[trigger] matching_of(comparing, copying).contains(e) && #[trigger] missing_of(
                comparing,
                copying,
            ).contains(e)),
        forall|e: FileEntryView|
            (copying.contains(e) && e.stem() is Some) <==> (#[trigger] matching_of(
                comparing,
                copying,
            ).contains(e) || #[trigger] missing_of(comparing, copying).contains(e)),
        matching_of(comparing, copying).len() + missing_of(comparing, copying).len()
            == reducible_of(copying).len(),
        matching_of(comparing, copying).to_multiset().add(
            missing_of(comparing, copying).to_multiset(),
        ) == reducible_of(copying).to_multiset(),
{
    lemma_selection_members(stem_set(comparing), copying);
}

/// The stems of the comparing side: a set, so a stem that several files
/// share is kept once.
pub struct MatchSet {
    stems: Vec<String>,
}

impl View for MatchSet {
    type V = Set<Seq<char>>;

    closed spec fn view(&self) -> Set<Seq<char>> {
        Set::new(|s: Seq<char>| exists|i: int| 0 <= i < self.stems.len() && #[trigger] self.stems[i]@ == s)
    }
}

impl MatchSet {
    /// No stem is kept twice.
    pub closed spec fn well_formed(&self) -> bool {
        forall|i: int, j: int|
            0 <= i < j < self.stems.len() ==> #[trigger] self.stems[i]@ != #[trigger] self.stems[j]@
    }

    /// The empty set.
    pub fn new() -> (set: MatchSet)
        ensures
            set.well_formed(),
            set@ == Set::<Seq<char>>::empty(),
    {
        let set = MatchSet { stems: Vec::new() };
        assert(set@ =~= Set::<Seq<char>>::empty());
        set
    }

    /// The number of stems in the set.
    pub fn len(&self) -> (count: usize)
        requires
            self.well_formed(),
        ensures
            self@.finite(),
            count == self@.len(),
    {
        proof {
            let texts = Seq::new(self.stems@.len(), |i: int| self.stems[i]@);
            assert forall|i: int, j: int|
                0 <= i < texts.len() && 0 <= j < texts.len() && i != j implies texts[i]
                != texts[j] by {
                if i < j {
                    assert(self.stems[i]@ != self.stems[j]@);
                } else {
                    assert(self.stems[j]@ != self.stems[i]@);
                }
            }
            assert forall|s: Seq<char>| texts.to_set().contains(s) <==> self@.contains(s) by {
                if texts.to_set().contains(s) {
                    let i = choose|i: int| 0 <= i < texts.len() && texts[i] == s;
                    assert(self.stems[i]@ == s);
                }
                if self@.contains(s) {
                    let i = choose|i: int|
                        0 <= i < self.stems.len() && #[trigger] self.stems[i]@ == s;
                    assert(texts[i] == s);
                    assert(texts.contains(s));
                }
            }
            assert(texts.to_set() =~= self@);
            texts.unique_seq_to_set();
        }
        self.stems.len()
    }

    /// Whether `stem` is in the set.
    pub fn contains(&self, stem: &String) -> (found: bool)
        ensures
            found == self@.contains(stem@),
    {
        let mut i: usize = 0;
        while i < self.stems.len()
            invariant
                i <= self.stems.len(),
                forall|k: int| 0 <= k < i ==> #[trigger] self.stems[k]@ != stem@,
            decreases self.stems.len() - i,
        {
            if self.stems[i] == *stem {
                return true;
            }
            i += 1;
        }
        false
    }

    /// Adds `stem`; a stem that is already there is not added again.
    pub fn insert(&mut self, stem: String)
        requires
            old(self).well_formed(),
        ensures
            final(self).well_formed(),
            final(self)@ == old(self)@.insert(stem@),
    {
        if !self.contains(&stem) {
            let ghost before = self.stems@;
            self.stems.push(stem);
            assert forall|s: Seq<char>| self@.contains(s) <==> old(self)@.insert(stem@).contains(
                s,
            ) by {
                if self@.contains(s) {
                    let i = choose|i: int| 0 <= i < self.stems.len() && #[trigger] self.stems[i]@ == s;
                    if i < before.len() {
                        assert(before[i]@ == s);
                    }
                }
                if old(self)@.contains(s) {
                    let i = choose|i: int| 0 <= i < before.len() && #[trigger] before[i]@ == s;
                    assert(self.stems[i]@ == s);
                }
                assert(self.stems[before.len() as int]@ == stem@);
            }
            assert(self@ =~= old(self)@.insert(stem@));
        } else {
            assert(self@ =~= old(self)@.insert(stem@));
        }
    }

    /// The stems of `entries`, each once.
    pub fn from_entries(entries: &Vec<FileEntry>) -> (set: MatchSet)
        ensures
            set.well_formed(),
            set@ == stem_set(entry_views(entries@)),
    {
        let mut set = MatchSet::new();
        let ghost views = entry_views(entries@);
        let mut i: usize = 0;
        while i < entries.len()
            invariant
                i <= entries.len(),
                views == entry_views(entries@),
                set.well_formed(),
                set@ == stem_set(views.take(i as int)),
            decreases entries.len() - i,
        {
            let ghost before = set@;
            match entries[i].stem() {
                Some(stem) => {
                    set.insert(stem);
                },
                None => {},
            }
            proof {
                let shorter = views.take(i as int);
                let longer = views.take(i + 1);
                assert(longer[i as int] == entries[i as int]@);
                assert forall|s: Seq<char>| set@.contains(s) <==> stem_set(longer).contains(s) by {
                    if before.contains(s) {
                        let k = choose|k: int|
                            0 <= k < shorter.len() && #[trigger] shorter[k].stem() == Some(s);
                        assert(longer[k].stem() == Some(s));
                    }
                    if stem_set(longer).contains(s) {
                        let k = choose|k: int|
                            0 <= k < longer.len() && #[trigger] longer[k].stem() == Some(s);
                        if k < i {
                            assert(shorter[k].stem() == Some(s));
                        }
                    }
                    if views[i as int].stem() == Some(s) {
                        assert(longer[i as int].stem() == Some(s));
                    }
                }
                assert(set@ =~= stem_set(longer));
            }
            i += 1;
        }
        assert(views.take(entries.len() as int) =~= views);
        set
    }

    /// The entries of `copying` that have a stem which is in the set, where
    /// `present` holds, or is not in it, where it does not.
    pub fn select(&self, copying: &Vec<FileEntry>, present: bool) -> (picked: Vec<FileEntry>)
        ensures
            entry_views(picked@) == selection(self@, present, entry_views(copying@)),
    {
        let mut picked: Vec<FileEntry> = Vec::new();
        let ghost views = entry_views(copying@);
        let ghost pred = |entry: FileEntryView| selected(self@, present, entry);
        let mut i: usize = 0;
        assert(views.take(0).filter(pred) =~= Seq::<FileEntryView>::empty()) by {
            reveal(Seq::filter);
        }
        assert(entry_views(picked@) =~= Seq::<FileEntryView>::empty());
        while i < copying.len()
            invariant
                i <= copying.len(),
                views == entry_views(copying@),
                pred == |entry: FileEntryView| selected(self@, present, entry),
                entry_views(picked@) == views.take(i as int).filter(pred),
            decreases copying.len() - i,
        {
            let ghost before = entry_views(picked@);
            proof {
                lemma_filter_push(views.take(i as int), views[i as int], pred);
                assert(views.take(i as int).push(views[i as int]) =~= views.take(i + 1));
            }
            let entry = &copying[i];
            let keep = match entry.stem() {
                Some(stem) => self.contains(&stem) == present,
                None => false,
            };
            if keep {
                picked.push(entry.clone());
                assert(entry_views(picked@) =~= before.push(views[i as int]));
            }
            i += 1;
        }
        assert(views.take(copying.len() as int) =~= views);
        picked
    }
}

/// Reduces each entry to its stem: one result for each entry, in order,
/// `None` where the entry's name is not text.
pub fn paths_to_file_names(list: &Vec<FileEntry>) -> (names: Vec<Option<String>>)
    ensures
        text_views(names@) == stems_of(entry_views(list@)),
{
    let mut names: Vec<Option<String>> = Vec::new();
    let mut i: usize = 0;
    while i < list.len()
        invariant
            i <= list.len(),
            names.len() == i,
            forall|k: int| 0 <= k < i ==> text_view(#[trigger] names[k]) == list[k]@.stem(),
        decreases list.len() - i,
    {
        names.push(list[i].stem());
        i += 1;
    }
    assert(text_views(names@) =~= stems_of(entry_views(list@)));
    names
}

/// The entries of `copying_entries` whose stem occurs among the stems of
/// `comparing_entries`, in the order of `copying_entries`. Two entries with
/// one stem are both kept.
pub fn compute_matching(comparing_entries: &Vec<FileEntry>, copying_entries: &Vec<FileEntry>) -> (matching:
    Vec<FileEntry>)
    ensures
        entry_views(matching@) == matching_of(
            entry_views(comparing_entries@),
            entry_views(copying_entries@),
        ),
{
    let stems = MatchSet::from_entries(comparing_entries);
    stems.select(copying_entries, true)
}

/// The entries of `copying_entries` that have a stem which does not occur
/// among the stems of `comparing_entries`, in the order of
/// `copying_entries`.
pub fn compute_missing(comparing_entries: &Vec<FileEntry>, copying_entries: &Vec<FileEntry>) -> (missing:
    Vec<FileEntry>)
    ensures
        entry_views(missing@) == missing_of(
            entry_views(comparing_entries@),
            entry_views(copying_entries@),
        ),
{
    let stems = MatchSet::from_entries(comparing_entries);
    stems.select(copying_entries, false)
}

} // verus!
