//! The recommendation store: for each episode key the ordered list of its
//! recommendations.

use vstd::prelude::*;
use vstd::set_lib::lemma_subset_equality;
use crate::recommendation::{
    optional_text, recommendation_from_form, Recommendation, RecommendationView,
};

verus! {

/// The store as a mathematical value: each episode key with its list.
pub type StoreView = Map<Seq<char>, Seq<RecommendationView>>;

/// The list kept for `key`; empty where the key is absent.
pub open spec fn recommendations_of(m: StoreView, key: Seq<char>) -> Seq<RecommendationView> {
    if m.dom().contains(key) {
        m[key]
    } else {
        Seq::empty()
    }
}

/// The store after `rec` was appended to the list of `key`.
pub open spec fn with_added(m: StoreView, key: Seq<char>, rec: RecommendationView) -> StoreView {
    m.insert(key, recommendations_of(m, key).push(rec))
}

/// Whether `index` names an element of the list of `key`.
pub open spec fn can_delete(m: StoreView, key: Seq<char>, index: int) -> bool {
    m.dom().contains(key) && 0 <= index < m[key].len()
}

/// The store after the element at `index` left the list of `key`.
pub open spec fn with_deleted(m: StoreView, key: Seq<char>, index: int) -> StoreView {
    if can_delete(m, key, index) {
        m.insert(key, m[key].remove(index))
    } else {
        m
    }
}

/// One episode key with the recommendations attached to it.
#[derive(Debug, PartialEq, Eq)]
pub struct EpisodeEntry {
    pub key: String,
    pub recommendations: Vec<Recommendation>,
}

/// The mapping that a sequence of entries stands for; of two entries with one key the later counts.
pub open spec fn entries_map(entries: Seq<EpisodeEntry>) -> StoreView
    decreases entries.len(),
{
    if entries.len() == 0 {
        Map::empty()
    } else {
        entries_map(entries.drop_last()).insert(
            entries.last().key@,
            entries.last().recommendations.deep_view(),
        )
    }
}

/// No two entries share a key.
pub open spec fn distinct_keys(entries: Seq<EpisodeEntry>) -> bool {
    forall|i: int, j: int|
        0 <= i < entries.len() && 0 <= j < entries.len() && i != j ==> entries[i].key@
            != entries[j].key@
}

/// The keys of the mapping are the keys of the entries.
pub proof fn lemma_entries_map_dom(entries: Seq<EpisodeEntry>, key: Seq<char>)
    ensures
        entries_map(entries).dom().contains(key) <==> exists|i: int|
            0 <= i < entries.len() && #[trigger] entries[i].key@ == key,
    decreases entries.len(),
{
    if entries.len() > 0 {
        let front = entries.drop_last();
        lemma_entries_map_dom(front, key);
        if exists|i: int| 0 <= i < entries.len() && #[trigger] entries[i].key@ == key {
            let i = choose|i: int| 0 <= i < entries.len() && #[trigger] entries[i].key@ == key;
            if i < front.len() {
                assert(front[i].key@ == key);
            }
        }
    }
}

/// Where no two entries share a key, the mapping gives each key the list of its entry.
pub proof fn lemma_entries_map_at(entries: Seq<EpisodeEntry>, i: int)
    requires
        distinct_keys(entries),
        0 <= i < entries.len(),
    ensures
        entries_map(entries).dom().contains(entries[i].key@),
        entries_map(entries)[entries[i].key@] == entries[i].recommendations.deep_view(),
    decreases entries.len(),
{
    if i < entries.len() - 1 {
        lemma_entries_map_at(entries.drop_last(), i);
    }
}

/// Replacing the list of one entry replaces the value of its key and nothing else.
proof fn lemma_entry_replaced(before: Seq<EpisodeEntry>, after: Seq<EpisodeEntry>, i: int)
    requires
        distinct_keys(before),
        0 <= i < before.len(),
        after.len() == before.len(),
        after[i].key@ == before[i].key@,
        forall|j: int| 0 <= j < before.len() && j != i ==> after[j] == before[j],
    ensures
        distinct_keys(after),
        entries_map(after) == entries_map(before).insert(
            before[i].key@,
            after[i].recommendations.deep_view(),
        ),
    decreases before.len(),
{
    if i == before.len() - 1 {
        assert(after.drop_last() =~= before.drop_last());
    } else {
        lemma_entry_replaced(before.drop_last(), after.drop_last(), i);
    }
}

/// Whether `entries` lists the mapping `m`: each key of `m` once, with its list, and
/// nothing else.
pub open spec fn lists(entries: Seq<EpisodeEntry>, m: StoreView) -> bool {
    &&& distinct_keys(entries)
    &&& forall|i: int|
        0 <= i < entries.len() ==> m.dom().contains(#[trigger] entries[i].key@)
            && m[entries[i].key@] == entries[i].recommendations.deep_view()
    &&& forall|key: Seq<char>|
        m.dom().contains(key) ==> exists|i: int|
            0 <= i < entries.len() && #[trigger] entries[i].key@ == key
}

/// Entries without a shared key list the mapping that they stand for.
proof fn lemma_entries_list_their_map(entries: Seq<EpisodeEntry>)
    requires
        distinct_keys(entries),
    ensures
        lists(entries, entries_map(entries)),
{
    let m = entries_map(entries);
    assert forall|i: int| 0 <= i < entries.len() implies m.dom().contains(
        #[trigger] entries[i].key@,
    ) && m[entries[i].key@] == entries[i].recommendations.deep_view() by {
        lemma_entries_map_at(entries, i);
    }
    assert forall|key: Seq<char>| m.dom().contains(key) implies exists|i: int|
        0 <= i < entries.len() && #[trigger] entries[i].key@ == key by {
        lemma_entries_map_dom(entries, key);
    }
}

/// The mapping of entries without a shared key has as many keys as there are entries.
proof fn lemma_entries_map_len(entries: Seq<EpisodeEntry>)
    requires
        distinct_keys(entries),
    ensures
        entries_map(entries).dom().finite(),
        entries_map(entries).dom().len() == entries.len(),
    decreases entries.len(),
{
    if entries.len() > 0 {
        let front = entries.drop_last();
        lemma_entries_map_len(front);
        lemma_entries_map_dom(front, entries.last().key@);
    }
}

/// What a store starts from: the entries that were loaded, or nothing.
pub open spec fn loaded_view(loaded: Option<Seq<EpisodeEntry>>) -> StoreView {
    match loaded {
        Some(entries) => entries_map(entries),
        None => Map::empty(),
    }
}

/// Where the entry of `key` stands among `entries`, if there is one.
fn position_in(entries: &Vec<EpisodeEntry>, key: &String) -> (found: Option<usize>)
    ensures
        match found {
            Some(i) => i < entries.len() && entries[i as int].key@ == key@,
            None => forall|j: int| 0 <= j < entries.len() ==> entries[j].key@ != key@,
        },
{
    let mut i: usize = 0;
    while i < entries.len()
        invariant
            i <= entries.len(),
            forall|j: int| 0 <= j < i ==> entries[j].key@ != key@,
        decreases entries.len() - i,
    {
        if entries[i].key == *key {
            return Some(i);
        }
        i += 1;
    }
    None
}

/// The recommendation lists of all episodes, by episode key.
#[derive(Debug)]
pub struct RecommendationStore {
    entries: Vec<EpisodeEntry>,
}

impl View for RecommendationStore {
    type V = StoreView;

    closed spec fn view(&self) -> StoreView {
        entries_map(self.entries@)
    }
}

impl RecommendationStore {
    /// What every store keeps: no two of its entries share a key.
    #[verifier::type_invariant]
    spec fn well_formed(self) -> bool {
        distinct_keys(self.entries@)
    }

    /// A store without any key.
    pub fn new() -> (store: Self)
        ensures
            store@ == Map::<Seq<char>, Seq<RecommendationView>>::empty(),
    {
        RecommendationStore { entries: Vec::new() }
    }

    /// Where the entry of `key` stands, if there is one.
    fn position(&self, key: &String) -> (found: Option<usize>)
        ensures
            match found {
                Some(i) => i < self.entries.len() && self.entries[i as int].key@ == key@,
                None => forall|j: int| 0 <= j < self.entries.len() ==> self.entries[j].key@ != key@,
            },
    {
        position_in(&self.entries, key)
    }

    /// Appends `rec` to the list of `key`, which is created where it is absent, and
    /// returns the position that `rec` took in that list.
    pub fn add_recommendation(&mut self, key: &str, rec: Recommendation) -> (index: usize)
        ensures
            final(self)@ == with_added(old(self)@, key@, rec@),
            index == recommendations_of(old(self)@, key@).len(),
    {
        proof {
            use_type_invariant(&*self);
        }
        let owned = String::from_str(key);
        let found = self.position(&owned);
        // The entries leave the store while they change and come back when they are
        // whole again.
        let mut entries: Vec<EpisodeEntry> = Vec::new();
        std::mem::swap(&mut self.entries, &mut entries);
        let ghost before = entries@;
        let index = match found {
            Some(i) => {
                proof {
                    lemma_entries_map_at(before, i as int);
                }
                let index = entries[i].recommendations.len();
                entries[i].recommendations.push(rec);
                proof {
                    lemma_entry_replaced(before, entries@, i as int);
                    assert(entries[i as int].recommendations.deep_view()
                        =~= before[i as int].recommendations.deep_view().push(rec@));
                }
                index
            },
            None => {
                proof {
                    lemma_entries_map_dom(before, key@);
                }
                let mut list: Vec<Recommendation> = Vec::new();
                list.push(rec);
                entries.push(EpisodeEntry { key: owned, recommendations: list });
                proof {
                    assert(entries@.drop_last() =~= before);
                    assert(list.deep_view() =~= Seq::<RecommendationView>::empty().push(rec@));
                }
                0
            },
        };
        self.entries = entries;
        index
    }

    /// Builds a recommendation from the fields of a submitted form, appends it to the
    /// list of `key` and returns it with the position that it took.
    pub fn add(
        &mut self,
        key: &str,
        chroniqueurs_raw: &str,
        titre: String,
        lien: Option<String>,
        type_media: String,
        description: String,
    ) -> (added: (Recommendation, usize))
        ensures
            added.0@ == recommendation_from_form(
                chroniqueurs_raw@,
                titre@,
                optional_text(lien),
                type_media@,
                description@,
            ),
            final(self)@ == with_added(old(self)@, key@, added.0@),
            added.1 == recommendations_of(old(self)@, key@).len(),
    {
        let rec = Recommendation::from_form(chroniqueurs_raw, titre, lien, type_media, description);
        let index = self.add_recommendation(key, rec.clone());
        (rec, index)
    }

    /// Removes the element at `index` from the list of `key` and says whether it did;
    /// where the key is absent or the index is past the end, nothing changes.
    pub fn delete_recommendation(&mut self, key: &str, index: usize) -> (removed: bool)
        ensures
            removed == can_delete(old(self)@, key@, index as int),
            final(self)@ == with_deleted(old(self)@, key@, index as int),
    {
        proof {
            use_type_invariant(&*self);
            lemma_entries_map_dom(self.entries@, key@);
        }
        let owned = String::from_str(key);
        match self.position(&owned) {
            Some(i) => {
                proof {
                    lemma_entries_map_at(self.entries@, i as int);
                }
                if index < self.entries[i].recommendations.len() {
                    let mut entries: Vec<EpisodeEntry> = Vec::new();
                    std::mem::swap(&mut self.entries, &mut entries);
                    let ghost before = entries@;
                    entries[i].recommendations.remove(index);
                    proof {
                        lemma_entry_replaced(before, entries@, i as int);
                        assert(entries[i as int].recommendations.deep_view()
                            =~= before[i as int].recommendations.deep_view().remove(index as int));
                    }
                    self.entries = entries;
                    true
                } else {
                    false
                }
            },
            None => false,
        }
    }

    /// The list of `key`, if the store has the key.
    pub fn get(&self, key: &str) -> (list: Option<&Vec<Recommendation>>)
        ensures
            match list {
                Some(l) => self@.dom().contains(key@) && l.deep_view() == self@[key@],
                None => !self@.dom().contains(key@),
            },
    {
        proof {
            use_type_invariant(self);
            lemma_entries_map_dom(self.entries@, key@);
        }
        let owned = String::from_str(key);
        match self.position(&owned) {
            Some(i) => {
                proof {
                    lemma_entries_map_at(self.entries@, i as int);
                }
                Some(&self.entries[i].recommendations)
            },
            None => None,
        }
    }

    /// An isolated copy of the whole mapping.
    pub fn snapshot(&self) -> (copy: Self)
        ensures
            copy@ == self@,
    {
        self.clone()
    }

    /// The store that holds the given entries; of two entries with one key the later counts.
    pub fn from_entries(entries: Vec<EpisodeEntry>) -> (store: Self)
        ensures
            store@ == entries_map(entries@),
    {
        let mut built: Vec<EpisodeEntry> = Vec::new();
        let ghost all = entries@;
        for entry in it: entries
            invariant
                it.seq() == all,
                distinct_keys(built@),
                entries_map(built@) == entries_map(all.take(it.index() as int)),
        {
            let ghost before = built@;
            let ghost k = it.index() as int;
            proof {
                assert(all.take(k + 1).drop_last() =~= all.take(k));
            }
            match position_in(&built, &entry.key) {
                Some(i) => {
                    built[i].recommendations = entry.recommendations;
                    proof {
                        lemma_entry_replaced(before, built@, i as int);
                    }
                },
                None => {
                    built.push(entry);
                    proof {
                        assert(built@.drop_last() =~= before);
                    }
                },
            }
        }
        proof {
            assert(all.take(all.len() as int) =~= all);
        }
        RecommendationStore { entries: built }
    }

    /// The store to start with: what was loaded, or an empty store where nothing usable was.
    pub fn restore(loaded: Option<Vec<EpisodeEntry>>) -> (store: Self)
        ensures
            store@ == loaded_view(
                match loaded {
                    Some(entries) => Some(entries@),
                    None => None,
                },
            ),
    {
        match loaded {
            Some(entries) => Self::from_entries(entries),
            None => Self::new(),
        }
    }

    /// A copy of the whole mapping as a list: each key once, with its list.
    pub fn entries(&self) -> (all: Vec<EpisodeEntry>)
        ensures
            lists(all@, self@),
            all.len() == self@.dom().len(),
    {
        proof {
            use_type_invariant(self);
        }
        let all = copy_entries(&self.entries);
        proof {
            lemma_same_entries(self.entries@, all@);
            lemma_entries_list_their_map(all@);
            lemma_entries_map_len(all@);
        }
        all
    }

    /// Whether the two stores hold the same mapping: the same keys, each with the same
    /// list. The order in which the keys came does not count.
    pub fn same_as(&self, other: &RecommendationStore) -> (same: bool)
        ensures
            same == (self@ == other@),
    {
        proof {
            use_type_invariant(self);
            use_type_invariant(other);
            lemma_entries_map_len(self.entries@);
            lemma_entries_map_len(other.entries@);
        }
        if self.entries.len() != other.entries.len() {
            return false;
        }
        let mut i: usize = 0;
        while i < self.entries.len()
            invariant
                i <= self.entries.len(),
                distinct_keys(self.entries@),
                forall|j: int|
                    0 <= j < i ==> other@.dom().contains(#[trigger] self.entries[j].key@)
                        && other@[self.entries[j].key@]
                        == self.entries[j].recommendations.deep_view(),
            decreases self.entries.len() - i,
        {
            proof {
                lemma_entries_map_at(self.entries@, i as int);
            }
            match other.get(self.entries[i].key.as_str()) {
                Some(list) => {
                    if !same_lists(&self.entries[i].recommendations, list) {
                        return false;
                    }
                },
                None => {
                    return false;
                },
            }
            i += 1;
        }
        proof {
            assert forall|key: Seq<char>| #[trigger]
                self@.dom().contains(key) implies other@.dom().contains(key) && self@[key]
                == other@[key] by {
                lemma_entries_map_dom(self.entries@, key);
                let j = choose|j: int|
                    0 <= j < self.entries.len() && #[trigger] self.entries[j].key@ == key;
                lemma_entries_map_at(self.entries@, j);
            }
            lemma_subset_equality(self@.dom(), other@.dom());
            assert(self@ =~= other@);
        }
        true
    }

    /// The number of keys.
    pub fn len(&self) -> (n: usize)
        ensures
            self@.dom().finite(),
            n == self@.dom().len(),
    {
        proof {
            use_type_invariant(self);
            lemma_entries_map_len(self.entries@);
        }
        self.entries.len()
    }

    /// Whether the store has no key.
    pub fn is_empty(&self) -> (empty: bool)
        ensures
            empty == (self@ == Map::<Seq<char>, Seq<RecommendationView>>::empty()),
    {
        proof {
            use_type_invariant(self);
            lemma_entries_map_len(self.entries@);
            if self.entries.len() > 0 {
                lemma_entries_map_at(self.entries@, 0);
            }
        }
        self.entries.len() == 0
    }
}

/// Whether the two lists hold the same recommendations in the same order.
pub fn same_lists(a: &Vec<Recommendation>, b: &Vec<Recommendation>) -> (same: bool)
    ensures
        same == (a.deep_view() == b.deep_view()),
{
    if a.len() != b.len() {
        assert(a.deep_view().len() != b.deep_view().len());
        return false;
    }
    let mut i: usize = 0;
    while i < a.len()
        invariant
            a.len() == b.len(),
            i <= a.len(),
            forall|j: int| 0 <= j < i ==> a[j]@ == b[j]@,
        decreases a.len() - i,
    {
        if !a[i].same_as(&b[i]) {
            assert(a.deep_view()[i as int] != b.deep_view()[i as int]);
            return false;
        }
        i += 1;
    }
    assert(a.deep_view() =~= b.deep_view());
    true
}

/// Copies a list of recommendations.
fn copy_recommendations(src: &Vec<Recommendation>) -> (out: Vec<Recommendation>)
    ensures
        out.deep_view() == src.deep_view(),
{
    let mut out: Vec<Recommendation> = Vec::new();
    let mut i: usize = 0;
    while i < src.len()
        invariant
            i <= src.len(),
            out.len() == i,
            forall|j: int| 0 <= j < i ==> out[j]@ == src[j]@,
        decreases src.len() - i,
    {
        out.push(src[i].clone());
        i += 1;
    }
    out
}

/// Entries with the same keys and lists, in the same order.
spec fn same_entries(a: Seq<EpisodeEntry>, b: Seq<EpisodeEntry>) -> bool {
    &&& a.len() == b.len()
    &&& forall|i: int|
        0 <= i < a.len() ==> a[i].key@ == b[i].key@ && a[i].recommendations.deep_view()
            == b[i].recommendations.deep_view()
}

/// Entries with the same keys and lists stand for the same mapping.
proof fn lemma_same_entries(a: Seq<EpisodeEntry>, b: Seq<EpisodeEntry>)
    requires
        same_entries(a, b),
    ensures
        entries_map(a) == entries_map(b),
        distinct_keys(a) == distinct_keys(b),
    decreases a.len(),
{
    if a.len() > 0 {
        lemma_same_entries(a.drop_last(), b.drop_last());
    }
}

/// Copies a list of entries.
fn copy_entries(src: &Vec<EpisodeEntry>) -> (out: Vec<EpisodeEntry>)
    ensures
        same_entries(src@, out@),
{
    let mut out: Vec<EpisodeEntry> = Vec::new();
    let mut i: usize = 0;
    while i < src.len()
        invariant
            i <= src.len(),
            out.len() == i,
            forall|j: int|
                0 <= j < i ==> src[j].key@ == out[j].key@ && src[j].recommendations.deep_view()
                    == out[j].recommendations.deep_view(),
        decreases src.len() - i,
    {
        out.push(
            EpisodeEntry {
                key: src[i].key.clone(),
                recommendations: copy_recommendations(&src[i].recommendations),
            },
        );
        i += 1;
    }
    out
}

impl Clone for RecommendationStore {
    fn clone(&self) -> (copy: Self)
        ensures
            copy@ == self@,
    {
        proof {
            use_type_invariant(self);
        }
        let entries = copy_entries(&self.entries);
        proof {
            lemma_same_entries(self.entries@, entries@);
        }
        RecommendationStore { entries }
    }
}

} // verus!
