use vstd::prelude::*;
use vstd::string::StringExecFns;
use crate::diff::{DiffCounts, history_ids, lemma_total_prefix, list_items_total, set_diff, watchlist_ids};
use crate::ids::{id_set, id_views};
use crate::models::{CrunchylistData, WatchHistoryExport, WatchHistoryItem, WatchlistExport, WatchlistItem};
use crate::progress::{DataType, ProgressUpdate};
use crate::retry::{RemoteError, is_conflict, spec_is_conflict};
use crate::target::TargetState;

verus! {

/// Write attempts a worker may have in flight at once for the watchlist and
/// the history.
pub const CONCURRENCY: usize = 5;

/// Pause after each completed write attempt, on the worker that made it.
pub const WRITE_DELAY_MS: u64 = 500;

/// How one item of a category ended.
#[derive(Debug, Clone, Copy, PartialEq, Eq, Structural)]
pub enum WriteOutcome {
    Added,
    AlreadyPresent,
    Failed,
}

pub open spec fn outcome_of(result: Result<(), RemoteError>) -> WriteOutcome {
    match result {
        Ok(()) => WriteOutcome::Added,
        Err(e) => if spec_is_conflict(e) {
            WriteOutcome::AlreadyPresent
        } else {
            WriteOutcome::Failed
        },
    }
}

/// Success adds; a conflict means the item was there already; anything else
/// that survived the retry policy is a failure.
pub fn write_outcome(result: &Result<(), RemoteError>) -> (r: WriteOutcome)
    ensures
        r == outcome_of(*result),
{
    match result {
        Ok(()) => WriteOutcome::Added,
        Err(e) => if is_conflict(e) {
            WriteOutcome::AlreadyPresent
        } else {
            WriteOutcome::Failed
        },
    }
}

/// Per-category accounting of an import.
#[derive(Debug, Clone, Copy, PartialEq, Eq, Structural)]
pub struct Counts {
    pub total: usize,
    pub added: usize,
    pub already_present: usize,
    pub failed: usize,
}

impl Counts {
    pub open spec fn spec_processed(self) -> int {
        self.added + self.already_present + self.failed
    }

    /// Never more processed than there are items.
    pub open spec fn wf(self) -> bool {
        self.spec_processed() <= self.total
    }

    pub fn new(total: usize) -> (r: Counts)
        ensures
            r == (Counts { total, added: 0, already_present: 0, failed: 0 }),
            r.wf(),
    {
        Counts { total, added: 0, already_present: 0, failed: 0 }
    }

    pub fn processed(&self) -> (r: usize)
        requires
            self.spec_processed() <= usize::MAX,
        ensures
            r == self.spec_processed(),
    {
        self.added + self.already_present + self.failed
    }

    pub fn to_update(&self, data_type: DataType) -> (r: ProgressUpdate)
        requires
            self.spec_processed() <= usize::MAX,
        ensures
            r == (ProgressUpdate {
                data_type,
                total: self.total,
                processed: self.spec_processed() as usize,
                added: self.added,
                skipped: 0,
                already_present: self.already_present,
                failed: self.failed,
            }),
            r.balanced(),
    {
        ProgressUpdate {
            data_type,
            total: self.total,
            processed: self.processed(),
            added: self.added,
            skipped: 0,
            already_present: self.already_present,
            failed: self.failed,
        }
    }

    /// Counts one more item with its outcome.
    pub fn record(&mut self, outcome: WriteOutcome)
        requires
            old(self).wf(),
            old(self).spec_processed() < old(self).total,
        ensures
            *final(self) == apply_outcome(*old(self), outcome),
            final(self).wf(),
            final(self).spec_processed() == old(self).spec_processed() + 1,
    {
        match outcome {
            WriteOutcome::Added => self.added = self.added + 1,
            WriteOutcome::AlreadyPresent => self.already_present = self.already_present + 1,
            WriteOutcome::Failed => self.failed = self.failed + 1,
        }
    }
}

pub open spec fn apply_outcome(c: Counts, o: WriteOutcome) -> Counts {
    match o {
        WriteOutcome::Added => Counts { added: (c.added + 1) as usize, ..c },
        WriteOutcome::AlreadyPresent => Counts { already_present: (c.already_present + 1) as usize, ..c },
        WriteOutcome::Failed => Counts { failed: (c.failed + 1) as usize, ..c },
    }
}

/// The counts after recording `outs` in turn.
pub open spec fn tally(c: Counts, outs: Seq<WriteOutcome>) -> Counts
    decreases outs.len(),
{
    if outs.len() == 0 {
        c
    } else {
        apply_outcome(tally(c, outs.drop_last()), outs.last())
    }
}

/// How many of `outs` are `o`.
pub open spec fn occurrences(outs: Seq<WriteOutcome>, o: WriteOutcome) -> nat
    decreases outs.len(),
{
    if outs.len() == 0 {
        0
    } else {
        occurrences(outs.drop_last(), o) + if outs.last() == o { 1nat } else { 0nat }
    }
}

/// The accounting holds at every point of a category: starting from valid
/// counts with room for `outs`, after any prefix of `outs` the counts are
/// valid, `processed` has grown by the prefix's length, each field by the
/// outcomes of its kind, and `processed` reaches `total` only once every
/// outcome is in, when the room was exactly `outs.len()`.
pub proof fn lemma_counts_invariant(c: Counts, outs: Seq<WriteOutcome>, k: int)
    requires
        c.wf(),
        c.spec_processed() + outs.len() <= c.total,
        0 <= k <= outs.len(),
    ensures
        tally(c, outs.take(k)).wf(),
        tally(c, outs.take(k)).total == c.total,
        tally(c, outs.take(k)).spec_processed() == c.spec_processed() + k,
        tally(c, outs.take(k)).added == c.added + occurrences(outs.take(k), WriteOutcome::Added),
        tally(c, outs.take(k)).already_present == c.already_present + occurrences(
            outs.take(k),
            WriteOutcome::AlreadyPresent,
        ),
        tally(c, outs.take(k)).failed == c.failed + occurrences(outs.take(k), WriteOutcome::Failed),
        c.spec_processed() + outs.len() == c.total ==> (tally(c, outs.take(k)).spec_processed()
            == c.total <==> k == outs.len()),
    decreases k,
{
    if k > 0 {
        lemma_counts_invariant(c, outs, k - 1);
        assert(outs.take(k).drop_last() =~= outs.take(k - 1));
    } else {
        assert(outs.take(0) =~= Seq::<WriteOutcome>::empty());
    }
}

/// Indices of the ids not in `present`, in order.
pub open spec fn pending_indices(ids: Seq<Seq<char>>, present: Set<Seq<char>>) -> Seq<usize>
    decreases ids.len(),
{
    if ids.len() == 0 {
        Seq::empty()
    } else {
        let before = pending_indices(ids.drop_last(), present);
        if present.contains(ids.last()) {
            before
        } else {
            before.push((ids.len() - 1) as usize)
        }
    }
}

/// The pre-filter attempts exactly the items whose id the destination does
/// not hold, each once and in snapshot order: no item already present is
/// written again.
pub proof fn lemma_pending_exact(ids: Seq<Seq<char>>, present: Set<Seq<char>>)
    requires
        ids.len() <= usize::MAX,
    ensures
        pending_indices(ids, present).len() <= ids.len(),
        forall|j: int|
            0 <= j < pending_indices(ids, present).len() ==> {
                let i = #[trigger] pending_indices(ids, present)[j];
                i < ids.len() && !present.contains(ids[i as int])
            },
        forall|i: int|
            0 <= i < ids.len() && !present.contains(#[trigger] ids[i]) ==> pending_indices(ids, present).contains(
                i as usize,
            ),
        forall|a: int, b: int|
            0 <= a < b < pending_indices(ids, present).len() ==> pending_indices(ids, present)[a]
                < pending_indices(ids, present)[b],
    decreases ids.len(),
{
    if ids.len() > 0 {
        let rest = ids.drop_last();
        lemma_pending_exact(rest, present);
        let before = pending_indices(rest, present);
        assert forall|i: int| 0 <= i < ids.len() && !present.contains(#[trigger] ids[i]) implies pending_indices(
            ids,
            present,
        ).contains(i as usize) by {
            if i < ids.len() - 1 {
                assert(rest[i] == ids[i]);
                let j = choose|j: int| 0 <= j < before.len() && before[j] == i as usize;
                assert(pending_indices(ids, present)[j] == i as usize);
            } else {
                assert(pending_indices(ids, present)[before.len() as int] == i as usize);
            }
        }
    }
}

pub open spec fn watchlist_id_views(items: Seq<WatchlistItem>) -> Seq<Seq<char>> {
    items.map_values(|i: WatchlistItem| i.content_id@)
}

pub open spec fn history_id_views(items: Seq<WatchHistoryItem>) -> Seq<Seq<char>> {
    items.map_values(|i: WatchHistoryItem| i.content_id@)
}

/// The pre-filtered start of a watchlist or history import: the items to
/// attempt, by index, and counts in which the rest are already present.
#[derive(Debug, Clone)]
pub struct ImportPlan {
    pub counts: Counts,
    pub pending: Vec<usize>,
}

impl ImportPlan {
    pub open spec fn starts(self, ids: Seq<Seq<char>>, present: Set<Seq<char>>) -> bool {
        &&& self.pending@ == pending_indices(ids, present)
        &&& self.counts.total == ids.len()
        &&& self.counts.added == 0
        &&& self.counts.failed == 0
        &&& self.counts.already_present + self.pending@.len() == self.counts.total
        &&& self.counts.wf()
    }
}

/// Pre-filters watchlist items against the destination's watchlist.
pub fn plan_watchlist(export: &WatchlistExport, target: &TargetState) -> (r: ImportPlan)
    ensures
        r.starts(watchlist_id_views(export.items@), target.watchlist_set()),
{
    let items = &export.items;
    let ghost ids = watchlist_id_views(items@);
    let mut pending: Vec<usize> = Vec::new();
    let mut i: usize = 0;
    while i < items.len()
        invariant
            i <= items@.len(),
            ids == watchlist_id_views(items@),
            pending@ == pending_indices(ids.take(i as int), target.watchlist_set()),
            pending@.len() <= i,
        decreases items@.len() - i,
    {
        proof {
            assert(ids.take(i + 1).drop_last() =~= ids.take(i as int));
            lemma_pending_exact(ids.take(i as int), target.watchlist_set());
        }
        if !target.has_watchlist_id(&items[i].content_id) {
            pending.push(i);
        }
        i = i + 1;
    }
    assert(ids.take(i as int) =~= ids);
    let n = items.len();
    let counts = Counts { total: n, added: 0, already_present: n - pending.len(), failed: 0 };
    ImportPlan { counts, pending }
}

/// Pre-filters history items against the destination's history.
pub fn plan_history(export: &WatchHistoryExport, target: &TargetState) -> (r: ImportPlan)
    ensures
        r.starts(history_id_views(export.items@), target.history_set()),
{
    let items = &export.items;
    let ghost ids = history_id_views(items@);
    let mut pending: Vec<usize> = Vec::new();
    let mut i: usize = 0;
    while i < items.len()
        invariant
            i <= items@.len(),
            ids == history_id_views(items@),
            pending@ == pending_indices(ids.take(i as int), target.history_set()),
            pending@.len() <= i,
        decreases items@.len() - i,
    {
        proof {
            assert(ids.take(i + 1).drop_last() =~= ids.take(i as int));
            lemma_pending_exact(ids.take(i as int), target.history_set());
        }
        if !target.has_history_id(&items[i].content_id) {
            pending.push(i);
        }
        i = i + 1;
    }
    assert(ids.take(i as int) =~= ids);
    let n = items.len();
    let counts = Counts { total: n, added: 0, already_present: n - pending.len(), failed: 0 };
    ImportPlan { counts, pending }
}


/// Whether the destination list (if any) already holds `id`.
pub open spec fn in_list(list: Option<Set<Seq<char>>>, id: Seq<char>) -> bool {
    list is Some && list->0.contains(id)
}

/// The pre-filtered start of one exported named list: where the destination
/// list of that name stands (none yet: it must be created first) and, per
/// item, whether it is already in that list.
#[derive(Debug, Clone)]
pub struct ListPlan {
    pub target_index: Option<usize>,
    pub present: Vec<bool>,
}

pub fn plan_list(list: &CrunchylistData, target: &TargetState) -> (r: ListPlan)
    requires
        target.wf(),
    ensures
        r.target_index is None <==> target.list(list.name@) is None,
        r.target_index matches Some(k) ==> k < target.crunchylists@.len()
            && target.crunchylists@[k as int].name@ == list.name@,
        r.present@.len() == list.items@.len(),
        forall|j: int|
            0 <= j < list.items@.len() ==> r.present@[j] == in_list(
                target.list(list.name@),
                #[trigger] list.items@[j].content_id@,
            ),
{
    let found = target.find_list(&list.name);
    let ghost existing = target.list(list.name@);
    let mut present: Vec<bool> = Vec::new();
    let mut j: usize = 0;
    while j < list.items.len()
        invariant
            j <= list.items@.len(),
            present@.len() == j,
            found is None <==> existing is None,
            found matches Some(k) ==> k < target.crunchylists@.len() && existing == Some(
                id_set(target.crunchylists@[k as int].item_ids@),
            ),
            forall|m: int| 0 <= m < j ==> present@[m] == in_list(existing, #[trigger] list.items@[m].content_id@),
        decreases list.items@.len() - j,
    {
        let hit = match found {
            Some(k) => target.list_contains(k, &list.items[j].content_id),
            None => false,
        };
        present.push(hit);
        j = j + 1;
    }
    ListPlan { target_index: found, present }
}

/// Counts for a crunchylist import: one entry per item of every list.
pub fn crunchylist_counts(lists: &Vec<CrunchylistData>) -> (r: Counts)
    requires
        list_items_total(lists@) <= usize::MAX,
    ensures
        r == Counts::new_spec(list_items_total(lists@) as usize),
{
    let mut total: usize = 0;
    let mut i: usize = 0;
    while i < lists.len()
        invariant
            i <= lists@.len(),
            list_items_total(lists@) <= usize::MAX,
            total == list_items_total(lists@.take(i as int)),
        decreases lists@.len() - i,
    {
        proof {
            assert(lists@.take(i + 1).drop_last() =~= lists@.take(i as int));
            lemma_total_prefix(lists@, i + 1);
        }
        total = total + lists[i].items.len();
        i = i + 1;
    }
    assert(lists@.take(i as int) =~= lists@);
    Counts::new(total)
}

impl Counts {
    pub open spec fn new_spec(total: usize) -> Counts {
        Counts { total, added: 0, already_present: 0, failed: 0 }
    }
}

/// The label of a history item in the log: series title and episode title,
/// or the content id where the title is empty.
pub open spec fn history_label_spec(item: WatchHistoryItem) -> Seq<char> {
    if item.title@.len() == 0 {
        item.series_title@ + " - "@ + item.content_id@
    } else {
        item.series_title@ + " - "@ + item.title@
    }
}

pub fn history_label(item: &WatchHistoryItem) -> (r: String)
    ensures
        r@ == history_label_spec(*item),
{
    let mut out = item.series_title.clone();
    out.append(" - ");
    if item.title.as_str().is_empty() {
        out.append(item.content_id.as_str());
    } else {
        out.append(item.title.as_str());
    }
    out
}

/// Totals over several categories, for the closing summary.
#[derive(Debug, Clone, Copy, PartialEq, Eq, Structural)]
pub struct SummaryTotals {
    pub added: u128,
    pub already_present: u128,
    pub failed: u128,
}

pub open spec fn sum_added(cs: Seq<Counts>) -> nat
    decreases cs.len(),
{
    if cs.len() == 0 { 0 } else { sum_added(cs.drop_last()) + cs.last().added as nat }
}

pub open spec fn sum_present(cs: Seq<Counts>) -> nat
    decreases cs.len(),
{
    if cs.len() == 0 { 0 } else { sum_present(cs.drop_last()) + cs.last().already_present as nat }
}

pub open spec fn sum_failed(cs: Seq<Counts>) -> nat
    decreases cs.len(),
{
    if cs.len() == 0 { 0 } else { sum_failed(cs.drop_last()) + cs.last().failed as nat }
}

proof fn lemma_sums_bounded(cs: Seq<Counts>)
    ensures
        sum_added(cs) <= cs.len() * (usize::MAX as nat),
        sum_present(cs) <= cs.len() * (usize::MAX as nat),
        sum_failed(cs) <= cs.len() * (usize::MAX as nat),
    decreases cs.len(),
{
    if cs.len() > 0 {
        lemma_sums_bounded(cs.drop_last());
        assert((cs.len() - 1) * (usize::MAX as nat) + usize::MAX as nat == cs.len() * (usize::MAX as nat))
            by (nonlinear_arith);
    }
}

/// Adds up the per-category counts.
pub fn summary_totals(sections: &Vec<Counts>) -> (r: SummaryTotals)
    ensures
        r.added == sum_added(sections@),
        r.already_present == sum_present(sections@),
        r.failed == sum_failed(sections@),
{
    let mut added: u128 = 0;
    let mut present: u128 = 0;
    let mut failed: u128 = 0;
    let mut i: usize = 0;
    while i < sections.len()
        invariant
            i <= sections@.len(),
            added == sum_added(sections@.take(i as int)),
            present == sum_present(sections@.take(i as int)),
            failed == sum_failed(sections@.take(i as int)),
        decreases sections@.len() - i,
    {
        proof {
            let next = sections@.take(i + 1);
            assert(next.drop_last() =~= sections@.take(i as int));
            lemma_sums_bounded(next);
            assert(next.len() * (usize::MAX as nat) <= u128::MAX) by (nonlinear_arith)
                requires
                    next.len() <= usize::MAX,
            ;
        }
        let c = sections[i];
        added = added + c.added as u128;
        present = present + c.already_present as u128;
        failed = failed + c.failed as u128;
        i = i + 1;
    }
    assert(sections@.take(i as int) =~= sections@);
    SummaryTotals { added, already_present: present, failed }
}


/// A watchlist or history import in progress: the plan's pending items are
/// handed out in order, at most `limit` at a time, and counted as they
/// complete.
#[derive(Debug, Clone)]
pub struct ImportRun {
    pub counts: Counts,
    pub pending: Vec<usize>,
    /// How many of `pending` have been handed out.
    pub dispatched: usize,
    /// Handed out and not yet completed.
    pub in_flight: usize,
    pub limit: usize,
}

impl ImportRun {
    /// Items already present, completed items, items in flight and items not
    /// yet handed out account for every item of the category.
    pub open spec fn wf(self) -> bool {
        &&& self.counts.wf()
        &&& self.dispatched <= self.pending@.len()
        &&& self.in_flight <= self.dispatched
        &&& self.in_flight <= self.limit
        &&& self.counts.spec_processed() + self.in_flight + (self.pending@.len() - self.dispatched)
            == self.counts.total
    }

    pub open spec fn finished(self) -> bool {
        self.dispatched == self.pending@.len() && self.in_flight == 0
    }

    pub fn start(plan: ImportPlan, limit: usize) -> (r: ImportRun)
        requires
            plan.counts.wf(),
            plan.counts.added == 0,
            plan.counts.failed == 0,
            plan.counts.already_present + plan.pending@.len() == plan.counts.total,
        ensures
            r.wf(),
            r.counts == plan.counts,
            r.pending == plan.pending,
            r.dispatched == 0,
            r.in_flight == 0,
            r.limit == limit,
    {
        ImportRun { counts: plan.counts, pending: plan.pending, dispatched: 0, in_flight: 0, limit }
    }

    /// The next item to attempt, if one is waiting and a slot is free.
    pub fn next_item(&mut self) -> (r: Option<usize>)
        requires
            old(self).wf(),
        ensures
            final(self).wf(),
            final(self).counts == old(self).counts,
            final(self).pending == old(self).pending,
            final(self).limit == old(self).limit,
            old(self).in_flight < old(self).limit && old(self).dispatched < old(self).pending@.len() ==> {
                &&& r == Some(old(self).pending@[old(self).dispatched as int])
                &&& final(self).dispatched == old(self).dispatched + 1
                &&& final(self).in_flight == old(self).in_flight + 1
            },
            !(old(self).in_flight < old(self).limit && old(self).dispatched < old(self).pending@.len()) ==> {
                &&& r is None
                &&& *final(self) == *old(self)
            },
    {
        if self.in_flight < self.limit && self.dispatched < self.pending.len() {
            let item = self.pending[self.dispatched];
            self.dispatched = self.dispatched + 1;
            self.in_flight = self.in_flight + 1;
            Some(item)
        } else {
            None
        }
    }

    /// Counts a completed attempt.
    pub fn complete(&mut self, outcome: WriteOutcome)
        requires
            old(self).wf(),
            old(self).in_flight > 0,
        ensures
            final(self).wf(),
            final(self).counts == apply_outcome(old(self).counts, outcome),
            final(self).in_flight == old(self).in_flight - 1,
            final(self).dispatched == old(self).dispatched,
            final(self).pending == old(self).pending,
            final(self).limit == old(self).limit,
    {
        self.counts.record(outcome);
        self.in_flight = self.in_flight - 1;
    }

    /// Whether every item has been handed out and completed; exactly then
    /// every item of the category is processed.
    pub fn is_finished(&self) -> (r: bool)
        requires
            self.wf(),
        ensures
            r == self.finished(),
            r <==> self.counts.spec_processed() == self.counts.total && self.in_flight == 0,
    {
        self.dispatched == self.pending.len() && self.in_flight == 0
    }
}


proof fn lemma_pending_complements_overlap(ids: Seq<Seq<char>>, present: Set<Seq<char>>)
    requires
        ids.no_duplicates(),
    ensures
        pending_indices(ids, present).len() + ids.to_set().intersect(present).len() == ids.len(),
        ids.to_set().intersect(present).finite(),
    decreases ids.len(),
{
    broadcast use vstd::set::group_set_axioms;

    vstd::seq_lib::seq_to_set_is_finite(ids);
    if ids.len() == 0 {
        assert(ids.to_set().intersect(present) =~= Set::empty());
    } else {
        let rest = ids.drop_last();
        let x = ids.last();
        assert forall|i: int, j: int| 0 <= i < rest.len() && 0 <= j < rest.len() && i != j implies rest[i]
            != rest[j] by {
            assert(ids[i] != ids[j]);
        }
        lemma_pending_complements_overlap(rest, present);
        assert(ids.to_set() =~= rest.to_set().insert(x)) by {
            assert forall|a: Seq<char>| ids.contains(a) <==> rest.contains(a) || a == x by {
                if ids.contains(a) {
                    let k = choose|k: int| 0 <= k < ids.len() && ids[k] == a;
                    if k < rest.len() {
                        assert(rest[k] == a);
                    }
                }
                if rest.contains(a) {
                    let k = choose|k: int| 0 <= k < rest.len() && rest[k] == a;
                    assert(ids[k] == a);
                }
                if a == x {
                    assert(ids[ids.len() - 1] == a);
                }
            }
        }
        assert(!rest.to_set().contains(x)) by {
            if rest.contains(x) {
                let k = choose|k: int| 0 <= k < rest.len() && rest[k] == x;
                assert(ids[k] == ids[ids.len() - 1]);
            }
        }
        let before = rest.to_set().intersect(present);
        if present.contains(x) {
            assert(ids.to_set().intersect(present) =~= before.insert(x));
        } else {
            assert(ids.to_set().intersect(present) =~= before);
        }
    }
}

/// The diff predicts the import's pre-filter: for a watchlist snapshot whose
/// ids are distinct, the items the diff finds already there are exactly those
/// the import counts as present without a write, and the missing ones are
/// those it attempts.
pub proof fn lemma_watchlist_diff_matches_import(
    items: Seq<WatchlistItem>,
    target: TargetState,
    diff: DiffCounts,
    plan: ImportPlan,
)
    requires
        watchlist_id_views(items).no_duplicates(),
        set_diff(diff, id_set(watchlist_ids(items)), target.watchlist_set()),
        plan.starts(watchlist_id_views(items), target.watchlist_set()),
    ensures
        diff.already_there == plan.counts.already_present,
        diff.missing == plan.pending@.len(),
{
    assert(id_views(watchlist_ids(items)) =~= watchlist_id_views(items));
    lemma_pending_complements_overlap(watchlist_id_views(items), target.watchlist_set());
    watchlist_id_views(items).unique_seq_to_set();
}

/// The same for the history.
pub proof fn lemma_history_diff_matches_import(
    items: Seq<WatchHistoryItem>,
    target: TargetState,
    diff: DiffCounts,
    plan: ImportPlan,
)
    requires
        history_id_views(items).no_duplicates(),
        set_diff(diff, id_set(history_ids(items)), target.history_set()),
        plan.starts(history_id_views(items), target.history_set()),
    ensures
        diff.already_there == plan.counts.already_present,
        diff.missing == plan.pending@.len(),
{
    assert(id_views(history_ids(items)) =~= history_id_views(items));
    lemma_pending_complements_overlap(history_id_views(items), target.history_set());
    history_id_views(items).unique_seq_to_set();
}

} // verus!
