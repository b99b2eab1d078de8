//! What holds of the store whatever is done with it: the order of additions, the
//! effect of deletions, additions in any order, and the way out to a list and back.

use vstd::prelude::*;
use crate::episode::{episode_key_of, EpisodeView};
use crate::page::{episode_card_of, episode_option_of, recommendation_card_of};
use crate::html::{escaped, lemma_escaped_is_attribute_text};
use crate::recommendation::RecommendationView;
use crate::store::{
    can_delete, entries_map, lemma_entries_map_at, lemma_entries_map_dom, lists, loaded_view,
    recommendations_of, with_added, with_deleted, EpisodeEntry, StoreView,
};

verus! {

/// One addition to the store: the episode key and what is appended to its list.
pub struct Addition {
    pub key: Seq<char>,
    pub rec: RecommendationView,
}

/// The store after the additions were made one after another, the first one first.
pub open spec fn after_adds(m: StoreView, adds: Seq<Addition>) -> StoreView
    decreases adds.len(),
{
    if adds.len() == 0 {
        m
    } else {
        with_added(after_adds(m, adds.drop_last()), adds.last().key, adds.last().rec)
    }
}

/// What the additions append to the list of `key`, in the order in which they are made.
pub open spec fn added_for(adds: Seq<Addition>, key: Seq<char>) -> Seq<RecommendationView>
    decreases adds.len(),
{
    if adds.len() == 0 {
        Seq::empty()
    } else if adds.last().key == key {
        added_for(adds.drop_last(), key).push(adds.last().rec)
    } else {
        added_for(adds.drop_last(), key)
    }
}

/// Whether one of the additions is for `key`.
pub open spec fn adds_to(adds: Seq<Addition>, key: Seq<char>) -> bool {
    exists|i: int| 0 <= i < adds.len() && #[trigger] adds[i].key == key
}

/// No two of the additions are for the same key.
pub open spec fn on_distinct_keys(adds: Seq<Addition>) -> bool {
    forall|i: int, j: int|
        0 <= i < adds.len() && 0 <= j < adds.len() && i != j ==> adds[i].key != adds[j].key
}

/// After any run of additions the list of every key is its earlier list followed by
/// what was added for that key, in the order of the additions; a key is in the store
/// if it was there before or something was added for it.
pub proof fn lemma_adds_keep_order(m: StoreView, adds: Seq<Addition>, key: Seq<char>)
    ensures
        recommendations_of(after_adds(m, adds), key) == recommendations_of(m, key) + added_for(
            adds,
            key,
        ),
        after_adds(m, adds).dom().contains(key) <==> m.dom().contains(key) || adds_to(adds, key),
    decreases adds.len(),
{
    if adds.len() > 0 {
        let front = adds.drop_last();
        lemma_adds_keep_order(m, front, key);
        if adds.last().key != key && adds_to(adds, key) {
            let i = choose|i: int| 0 <= i < adds.len() && #[trigger] adds[i].key == key;
            assert(front[i].key == key);
        }
    }
}

/// After any run of additions to an empty store the list of every key holds what was
/// added for that key and nothing else, in the order of the additions.
pub proof fn lemma_adds_to_empty_store(adds: Seq<Addition>, key: Seq<char>)
    ensures
        recommendations_of(after_adds(Map::empty(), adds), key) == added_for(adds, key),
        after_adds(Map::empty(), adds).dom().contains(key) <==> adds_to(adds, key),
{
    lemma_adds_keep_order(Map::empty(), adds, key);
}

/// Deleting at a position of the list of `key` shortens that list by the element at
/// the position: the elements before it stay where they are, those after it move down
/// by one, and no other list changes.
pub proof fn lemma_delete_shifts(m: StoreView, key: Seq<char>, index: int)
    requires
        can_delete(m, key, index),
    ensures
        with_deleted(m, key, index).dom() == m.dom(),
        with_deleted(m, key, index)[key].len() == m[key].len() - 1,
        forall|j: int| 0 <= j < index ==> with_deleted(m, key, index)[key][j] == m[key][j],
        forall|j: int|
            index <= j < m[key].len() - 1 ==> with_deleted(m, key, index)[key][j] == m[key][j
                + 1],
        forall|other: Seq<char>|
            other != key && m.dom().contains(other) ==> with_deleted(m, key, index)[other]
                == m[other],
{
}

/// Deleting what was just added, at the position that it took, gives every list back
/// as it was before the addition.
pub proof fn lemma_add_then_delete(m: StoreView, key: Seq<char>, rec: RecommendationView)
    ensures
        can_delete(with_added(m, key, rec), key, recommendations_of(m, key).len() as int),
        forall|k: Seq<char>|
            recommendations_of(
                with_deleted(
                    with_added(m, key, rec),
                    key,
                    recommendations_of(m, key).len() as int,
                ),
                k,
            ) == recommendations_of(m, k),
        m.dom().contains(key) ==> with_deleted(
            with_added(m, key, rec),
            key,
            recommendations_of(m, key).len() as int,
        ) == m,
{
    let list = recommendations_of(m, key);
    assert(list.push(rec).remove(list.len() as int) == list);
}

/// Deleting for a key that the store lacks, or at a position past the end of the
/// list, leaves the store as it is.
pub proof fn lemma_delete_outside_changes_nothing(m: StoreView, key: Seq<char>, index: int)
    requires
        !m.dom().contains(key) || index >= recommendations_of(m, key).len(),
    ensures
        !can_delete(m, key, index),
        with_deleted(m, key, index) == m,
{
}

/// Two additions for different keys give the same store in either order.
pub proof fn lemma_adds_commute(m: StoreView, a: Addition, b: Addition)
    requires
        a.key != b.key,
    ensures
        with_added(with_added(m, a.key, a.rec), b.key, b.rec) == with_added(
            with_added(m, b.key, b.rec),
            a.key,
            a.rec,
        ),
{
}

/// Among additions for pairwise different keys, what is added for the key of one of
/// them is its recommendation alone.
proof fn lemma_added_for_distinct(adds: Seq<Addition>, i: int)
    requires
        on_distinct_keys(adds),
        0 <= i < adds.len(),
    ensures
        added_for(adds, adds[i].key) == seq![adds[i].rec],
    decreases adds.len(),
{
    if i == adds.len() - 1 {
        lemma_added_for_absent(adds.drop_last(), adds[i].key);
    } else {
        lemma_added_for_distinct(adds.drop_last(), i);
    }
}

/// Nothing is added for a key that none of the additions is for.
proof fn lemma_added_for_absent(adds: Seq<Addition>, key: Seq<char>)
    requires
        forall|i: int| 0 <= i < adds.len() ==> adds[i].key != key,
    ensures
        added_for(adds, key) == Seq::<RecommendationView>::empty(),
    decreases adds.len(),
{
    if adds.len() > 0 {
        lemma_added_for_absent(adds.drop_last(), key);
    }
}

/// No addition is lost: after additions for pairwise different keys, made in whatever
/// order, the list of each of these keys is its earlier list followed by the one
/// recommendation added for it.
pub proof fn lemma_no_lost_addition(m: StoreView, adds: Seq<Addition>, i: int)
    requires
        on_distinct_keys(adds),
        0 <= i < adds.len(),
    ensures
        after_adds(m, adds).dom().contains(adds[i].key),
        after_adds(m, adds)[adds[i].key] == recommendations_of(m, adds[i].key).push(adds[i].rec),
{
    lemma_adds_keep_order(m, adds, adds[i].key);
    lemma_added_for_distinct(adds, i);
}

/// Two runs that hold the same additions, each for pairwise different keys, give every
/// key the same list.
proof fn lemma_same_adds_same_list(m: StoreView, a: Seq<Addition>, b: Seq<Addition>, key: Seq<char>)
    requires
        on_distinct_keys(a),
        on_distinct_keys(b),
        forall|x: Addition| a.contains(x) <==> b.contains(x),
    ensures
        after_adds(m, a).dom().contains(key) == after_adds(m, b).dom().contains(key),
        recommendations_of(after_adds(m, a), key) == recommendations_of(after_adds(m, b), key),
{
    lemma_adds_keep_order(m, a, key);
    lemma_adds_keep_order(m, b, key);
    if adds_to(a, key) {
        let i = choose|i: int| 0 <= i < a.len() && #[trigger] a[i].key == key;
        assert(b.contains(a[i]));
        let j = choose|j: int| 0 <= j < b.len() && b[j] == a[i];
        lemma_added_for_distinct(a, i);
        lemma_added_for_distinct(b, j);
    } else if adds_to(b, key) {
        let j = choose|j: int| 0 <= j < b.len() && #[trigger] b[j].key == key;
        assert(a.contains(b[j]));
    } else {
        lemma_added_for_absent(a, key);
        lemma_added_for_absent(b, key);
    }
}

/// The order in which additions for pairwise different keys are made does not show in
/// the store: two runs that hold the same additions end in the same store.
pub proof fn lemma_order_of_adds_is_immaterial(m: StoreView, a: Seq<Addition>, b: Seq<Addition>)
    requires
        on_distinct_keys(a),
        on_distinct_keys(b),
        forall|x: Addition| a.contains(x) <==> b.contains(x),
    ensures
        after_adds(m, a) == after_adds(m, b),
{
    let ma = after_adds(m, a);
    let mb = after_adds(m, b);
    assert forall|key: Seq<char>| #[trigger] ma.dom().contains(key) == mb.dom().contains(key) by {
        lemma_same_adds_same_list(m, a, b, key);
    }
    assert forall|key: Seq<char>| ma.dom().contains(key) implies #[trigger] ma[key]
        == mb[key] by {
        lemma_same_adds_same_list(m, a, b, key);
    }
}

/// The option of an episode and its card write the same key into the page: the key of
/// the episode made safe for HTML, which a reader of the page turns back into the key.
pub proof fn lemma_option_and_card_share_the_key(e: EpisodeView, m: StoreView)
    ensures
        episode_card_of(e, m).key == episode_key_of(e.title),
        episode_card_of(e, m).anchor == escaped(episode_key_of(e.title)),
        episode_option_of(e).value == escaped(episode_key_of(e.title)),
{
    lemma_escaped_is_attribute_text(episode_key_of(e.title));
}

/// What is added under the key of an episode is shown on the card of that episode,
/// after what the card showed before and at the position that the addition took.
pub proof fn lemma_added_under_key_is_shown(e: EpisodeView, m: StoreView, rec: RecommendationView)
    ensures
        episode_card_of(e, with_added(m, episode_key_of(e.title), rec)).recommendations
            == episode_card_of(e, m).recommendations.push(
            recommendation_card_of(recommendations_of(m, episode_key_of(e.title)).len() as int, rec),
        ),
{
}

/// A store written out as a list and started again from that list is the same store,
/// in whatever order the list holds the keys.
pub proof fn lemma_listing_restores(m: StoreView, all: Seq<EpisodeEntry>)
    requires
        lists(all, m),
    ensures
        loaded_view(Some(all)) == m,
{
    let restored = entries_map(all);
    assert forall|key: Seq<char>| #[trigger] restored.dom().contains(key) == m.dom().contains(
        key,
    ) by {
        lemma_entries_map_dom(all, key);
    }
    assert forall|key: Seq<char>| restored.dom().contains(key) implies #[trigger] restored[key]
        == m[key] by {
        lemma_entries_map_dom(all, key);
        let i = choose|i: int| 0 <= i < all.len() && #[trigger] all[i].key@ == key;
        lemma_entries_map_at(all, i);
    }
}

/// Where nothing was loaded the store starts empty.
pub proof fn lemma_nothing_loaded_is_empty()
    ensures
        loaded_view(None) == Map::<Seq<char>, Seq<RecommendationView>>::empty(),
{
}

} // verus!
