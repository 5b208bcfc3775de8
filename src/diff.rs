use vstd::prelude::*;
use crate::ids::{contains_id, distinct_ids, id_set, lemma_distinct_len, lemma_id_set_push, push_distinct};
use crate::models::{CrunchylistData, CrunchylistItem, CrunchylistsExport, RatingsExport, WatchHistoryExport, WatchHistoryItem, WatchlistExport, WatchlistItem};
use crate::target::{TargetState, target_list_total};

verus! {

broadcast use vstd::set::group_set_axioms;

/// Overlap of one category of a snapshot with the destination.
#[derive(Debug, Clone, Copy, PartialEq, Eq, Structural)]
pub struct DiffCounts {
    pub in_export: usize,
    pub on_target: usize,
    pub missing: usize,
    pub already_there: usize,
}

/// The diff of every category.
#[derive(Debug, Clone, Copy, PartialEq, Eq, Structural)]
pub struct DiffResult {
    pub watchlist: DiffCounts,
    pub history: DiffCounts,
    pub crunchylists: DiffCounts,
    pub ratings: DiffCounts,
}

impl DiffCounts {
    /// Nothing is counted as present that is not in the export, and the
    /// missing items are exactly the rest.
    pub open spec fn consistent(self) -> bool {
        self.already_there <= self.in_export && self.missing == self.in_export - self.already_there
    }
}

pub open spec fn watchlist_ids(items: Seq<WatchlistItem>) -> Seq<String> {
    items.map_values(|i: WatchlistItem| i.content_id)
}

pub open spec fn history_ids(items: Seq<WatchHistoryItem>) -> Seq<String> {
    items.map_values(|i: WatchHistoryItem| i.content_id)
}

/// Counts of a category compared by id sets: the export's distinct ids, the
/// destination's ids, and their intersection.
pub open spec fn set_diff(r: DiffCounts, exported: Set<Seq<char>>, target: Set<Seq<char>>) -> bool {
    &&& r.in_export == exported.len()
    &&& r.on_target == target.len()
    &&& r.already_there == exported.intersect(target).len()
    &&& r.consistent()
}

/// Diff of a flat id collection against the destination's ids.
fn diff_ids(exported: &Vec<String>, target: &Vec<String>) -> (r: DiffCounts)
    requires
        distinct_ids(target@),
    ensures
        set_diff(r, id_set(exported@), id_set(target@)),
{
    let mut seen: Vec<String> = Vec::new();
    let mut already: usize = 0;
    let mut i: usize = 0;
    proof {
        assert(id_set(exported@.subrange(0, 0)) =~= id_set(seen@));
        assert(id_set(seen@).intersect(id_set(target@)) =~= Set::empty());
    }
    while i < exported.len()
        invariant
            i <= exported@.len(),
            distinct_ids(seen@),
            seen@.len() <= i,
            id_set(seen@) == id_set(exported@.subrange(0, i as int)),
            already == id_set(seen@).intersect(id_set(target@)).len(),
            already <= seen@.len(),
        decreases exported@.len() - i,
    {
        let ghost before = seen@;
        proof {
            assert(exported@.subrange(0, i + 1) =~= exported@.subrange(0, i as int).push(exported@[i as int]));
            lemma_id_set_push(exported@.subrange(0, i as int), exported@[i as int]);
            lemma_distinct_len(before);
        }
        let x = &exported[i];
        if !contains_id(&seen, x) {
            let hit = contains_id(target, x);
            proof {
                let s = id_set(before);
                let t = id_set(target@);
                if t.contains(x@) {
                    assert(s.insert(x@).intersect(t) =~= s.intersect(t).insert(x@));
                } else {
                    assert(s.insert(x@).intersect(t) =~= s.intersect(t));
                }
                vstd::set_lib::lemma_len_intersect(s, t);
            }
            push_distinct(&mut seen, x.clone());
            if hit {
                already = already + 1;
            }
        } else {
            assert(id_set(before).insert(exported@[i as int]@) =~= id_set(before));
        }
        i = i + 1;
    }
    proof {
        assert(exported@.subrange(0, exported@.len() as int) =~= exported@);
        lemma_distinct_len(seen@);
        lemma_distinct_len(target@);
    }
    DiffCounts {
        in_export: seen.len(),
        on_target: target.len(),
        missing: seen.len() - already,
        already_there: already,
    }
}

/// Watchlist: distinct exported ids against the destination watchlist.
pub fn diff_watchlist(export: &WatchlistExport, target: &TargetState) -> (r: DiffCounts)
    requires
        target.wf(),
    ensures
        set_diff(r, id_set(watchlist_ids(export.items@)), target.watchlist_set()),
{
    let mut ids: Vec<String> = Vec::new();
    let mut i: usize = 0;
    while i < export.items.len()
        invariant
            i <= export.items@.len(),
            ids@ == watchlist_ids(export.items@.subrange(0, i as int)),
        decreases export.items@.len() - i,
    {
        ids.push(export.items[i].content_id.clone());
        i = i + 1;
        assert(ids@ =~= watchlist_ids(export.items@.subrange(0, i as int)));
    }
    assert(export.items@.subrange(0, i as int) =~= export.items@);
    diff_ids(&ids, &target.watchlist_ids)
}

/// History: distinct exported ids against the destination history.
pub fn diff_history(export: &WatchHistoryExport, target: &TargetState) -> (r: DiffCounts)
    requires
        target.wf(),
    ensures
        set_diff(r, id_set(history_ids(export.items@)), target.history_set()),
{
    let mut ids: Vec<String> = Vec::new();
    let mut i: usize = 0;
    while i < export.items.len()
        invariant
            i <= export.items@.len(),
            ids@ == history_ids(export.items@.subrange(0, i as int)),
        decreases export.items@.len() - i,
    {
        ids.push(export.items[i].content_id.clone());
        i = i + 1;
        assert(ids@ =~= history_ids(export.items@.subrange(0, i as int)));
    }
    assert(export.items@.subrange(0, i as int) =~= export.items@);
    diff_ids(&ids, &target.history_ids)
}


/// Number of items over all exported lists.
pub open spec fn list_items_total(lists: Seq<CrunchylistData>) -> nat
    decreases lists.len(),
{
    if lists.len() == 0 {
        0
    } else {
        list_items_total(lists.drop_last()) + lists.last().items@.len()
    }
}

/// Number of `items` whose id is in `present`; none when the list is absent.
pub open spec fn present_count(items: Seq<CrunchylistItem>, present: Option<Set<Seq<char>>>) -> nat
    decreases items.len(),
{
    if items.len() == 0 {
        0
    } else {
        present_count(items.drop_last(), present) + if present is Some && present->0.contains(
            items.last().content_id@,
        ) {
            1nat
        } else {
            0nat
        }
    }
}

/// Items of the exported lists already in the destination list of the same name.
pub open spec fn lists_already(lists: Seq<CrunchylistData>, target: TargetState) -> nat
    decreases lists.len(),
{
    if lists.len() == 0 {
        0
    } else {
        lists_already(lists.drop_last(), target) + present_count(
            lists.last().items@,
            target.list(lists.last().name@),
        )
    }
}

proof fn lemma_present_le(items: Seq<CrunchylistItem>, present: Option<Set<Seq<char>>>)
    ensures
        present_count(items, present) <= items.len(),
    decreases items.len(),
{
    if items.len() > 0 {
        lemma_present_le(items.drop_last(), present);
    }
}

proof fn lemma_lists_already_le(lists: Seq<CrunchylistData>, target: TargetState)
    ensures
        lists_already(lists, target) <= list_items_total(lists),
    decreases lists.len(),
{
    if lists.len() > 0 {
        lemma_lists_already_le(lists.drop_last(), target);
        lemma_present_le(lists.last().items@, target.list(lists.last().name@));
    }
}

/// Crunchylists: every exported list item counts; it is already there when
/// the destination has a list of the same name holding its id. `on_target`
/// sums all destination lists, whatever their names.
pub fn diff_crunchylists(export: &CrunchylistsExport, target: &TargetState) -> (r: DiffCounts)
    requires
        target.wf(),
        list_items_total(export.lists@) <= usize::MAX,
        target_list_total(target.crunchylists@) <= usize::MAX,
    ensures
        r.in_export == list_items_total(export.lists@),
        r.on_target == target_list_total(target.crunchylists@),
        r.already_there == lists_already(export.lists@, *target),
        r.consistent(),
{
    let lists = &export.lists;
    let mut total: usize = 0;
    let mut already: usize = 0;
    let mut li: usize = 0;
    while li < lists.len()
        invariant
            target.wf(),
            li <= lists@.len(),
            list_items_total(lists@) <= usize::MAX,
            total == list_items_total(lists@.subrange(0, li as int)),
            already == lists_already(lists@.subrange(0, li as int), *target),
        decreases lists@.len() - li,
    {
        let list = &lists[li];
        let ghost done = lists@.subrange(0, li as int);
        proof {
            assert(lists@.subrange(0, li + 1).drop_last() =~= done);
            lemma_total_prefix(lists@, li as int + 1);
            lemma_lists_already_le(done, *target);
        }
        let found = target.find_list(&list.name);
        let ghost present = target.list(list.name@);
        let mut j: usize = 0;
        let mut hits: usize = 0;
        while j < list.items.len()
            invariant
                j <= list.items@.len(),
                hits == present_count(list.items@.subrange(0, j as int), present),
                found is None <==> present is None,
                found matches Some(k) ==> k < target.crunchylists@.len() && present == Some(
                    id_set(target.crunchylists@[k as int].item_ids@),
                ),
            decreases list.items@.len() - j,
        {
            proof {
                assert(list.items@.subrange(0, j + 1).drop_last() =~= list.items@.subrange(0, j as int));
                lemma_present_le(list.items@.subrange(0, j as int), present);
            }
            let hit = match found {
                Some(k) => target.list_contains(k, &list.items[j].content_id),
                None => false,
            };
            if hit {
                hits = hits + 1;
            }
            j = j + 1;
        }
        assert(list.items@.subrange(0, j as int) =~= list.items@);
        proof {
            lemma_present_le(list.items@, present);
        }
        total = total + list.items.len();
        already = already + hits;
        li = li + 1;
    }
    assert(lists@.subrange(0, li as int) =~= lists@);
    let mut on_target: usize = 0;
    let mut ti: usize = 0;
    while ti < target.crunchylists.len()
        invariant
            ti <= target.crunchylists@.len(),
            target_list_total(target.crunchylists@) <= usize::MAX,
            on_target == target_list_total(target.crunchylists@.subrange(0, ti as int)),
        decreases target.crunchylists@.len() - ti,
    {
        proof {
            let ls = target.crunchylists@;
            assert(ls.subrange(0, ti + 1).drop_last() =~= ls.subrange(0, ti as int));
            lemma_target_total_prefix(ls, ti as int + 1);
        }
        on_target = on_target + target.crunchylists[ti].item_ids.len();
        ti = ti + 1;
    }
    assert(target.crunchylists@.subrange(0, ti as int) =~= target.crunchylists@);
    proof {
        lemma_lists_already_le(lists@, *target);
    }
    DiffCounts { in_export: total, on_target, missing: total - already, already_there: already }
}

/// A prefix of the exported lists holds no more items than all of them.
pub proof fn lemma_total_prefix(lists: Seq<CrunchylistData>, k: int)
    requires
        0 <= k <= lists.len(),
    ensures
        list_items_total(lists.subrange(0, k)) <= list_items_total(lists),
    decreases lists.len(),
{
    if k < lists.len() {
        assert(lists.drop_last().subrange(0, k) =~= lists.subrange(0, k));
        lemma_total_prefix(lists.drop_last(), k);
    } else {
        assert(lists.subrange(0, k) =~= lists);
    }
}

proof fn lemma_target_total_prefix(ls: Seq<crate::target::TargetList>, k: int)
    requires
        0 <= k <= ls.len(),
    ensures
        target_list_total(ls.subrange(0, k)) <= target_list_total(ls),
    decreases ls.len(),
{
    if k < ls.len() {
        assert(ls.drop_last().subrange(0, k) =~= ls.subrange(0, k));
        lemma_target_total_prefix(ls.drop_last(), k);
    } else {
        assert(ls.subrange(0, k) =~= ls);
    }
}

/// Ratings cannot be queried on the destination: everything exported is missing.
pub fn diff_ratings(export: &RatingsExport) -> (r: DiffCounts)
    ensures
        r.in_export == export.items@.len(),
        r.on_target == 0,
        r.already_there == 0,
        r.missing == export.items@.len(),
        r.consistent(),
{
    let n = export.items.len();
    DiffCounts { in_export: n, on_target: 0, missing: n, already_there: 0 }
}

/// Diff of the four snapshots against the destination. Pure: running it
/// twice on the same inputs gives the same result, and neither input changes.
pub fn compute_diff(
    watchlist: &WatchlistExport,
    history: &WatchHistoryExport,
    crunchylists: &CrunchylistsExport,
    ratings: &RatingsExport,
    target: &TargetState,
) -> (r: DiffResult)
    requires
        target.wf(),
        list_items_total(crunchylists.lists@) <= usize::MAX,
        target_list_total(target.crunchylists@) <= usize::MAX,
    ensures
        set_diff(r.watchlist, id_set(watchlist_ids(watchlist.items@)), target.watchlist_set()),
        set_diff(r.history, id_set(history_ids(history.items@)), target.history_set()),
        r.crunchylists.in_export == list_items_total(crunchylists.lists@),
        r.crunchylists.on_target == target_list_total(target.crunchylists@),
        r.crunchylists.already_there == lists_already(crunchylists.lists@, *target),
        r.crunchylists.consistent(),
        r.ratings.in_export == ratings.items@.len(),
        r.ratings.on_target == 0,
        r.ratings.already_there == 0,
        r.ratings.consistent(),
{
    DiffResult {
        watchlist: diff_watchlist(watchlist, target),
        history: diff_history(history, target),
        crunchylists: diff_crunchylists(crunchylists, target),
        ratings: diff_ratings(ratings),
    }
}

} // verus!
