use crunchyroll_migrate::models::{
    CrunchylistData, CrunchylistItem, ExportMetadata, Timestamp, WatchHistoryExport, WatchHistoryItem,
    WatchlistExport, WatchlistItem,
};
use crunchyroll_migrate::progress::DataType;
use crunchyroll_migrate::reconcile::{
    crunchylist_counts, history_label, plan_history, plan_list, plan_watchlist, summary_totals, write_outcome,
    Counts, ImportRun, WriteOutcome, CONCURRENCY,
};
use crunchyroll_migrate::retry::RemoteError;
use crunchyroll_migrate::target::TargetState;

fn meta(total: usize) -> ExportMetadata {
    ExportMetadata {
        profile_name: "Sean".to_string(),
        exported_at: Timestamp { secs: 1_771_416_000, nanos: 0 },
        total_count: total,
    }
}

fn wl_item(id: &str, kind: &str) -> WatchlistItem {
    WatchlistItem {
        content_id: id.to_string(),
        title: format!("Title {}", id),
        slug: id.to_lowercase(),
        content_type: kind.to_string(),
        is_favourite: false,
        fully_watched: false,
    }
}

fn hist_item(id: &str, title: &str) -> WatchHistoryItem {
    WatchHistoryItem {
        content_id: id.to_string(),
        parent_id: "G4PH0WXYZ".to_string(),
        parent_type: "series".to_string(),
        title: title.to_string(),
        series_title: "One Piece".to_string(),
        date_played: Timestamp { secs: 100, nanos: 0 },
        playhead: 0,
        fully_watched: true,
        partial: false,
    }
}

#[test]
fn counts_new_starts_at_zero() {
    let c = Counts::new(42);
    assert_eq!(c.total, 42);
    assert_eq!(c.added, 0);
    assert_eq!(c.already_present, 0);
    assert_eq!(c.failed, 0);
    assert_eq!(c.processed(), 0);
}

#[test]
fn counts_processed_sums_all() {
    let mut c = Counts::new(10);
    c.added = 3;
    c.already_present = 4;
    c.failed = 2;
    assert_eq!(c.processed(), 9);
}

#[test]
fn counts_to_update_maps_correctly() {
    let mut c = Counts::new(10);
    c.added = 5;
    c.already_present = 3;
    c.failed = 1;
    let u = c.to_update(DataType::Watchlist);
    assert_eq!(u.total, 10);
    assert_eq!(u.processed, 9);
    assert_eq!(u.added, 5);
    assert_eq!(u.already_present, 3);
    assert_eq!(u.failed, 1);
}

#[test]
fn record_keeps_processed_balanced() {
    let mut c = Counts::new(3);
    c.record(WriteOutcome::Added);
    c.record(WriteOutcome::AlreadyPresent);
    assert_eq!(c.processed(), 2);
    c.record(WriteOutcome::Failed);
    assert_eq!(c.processed(), c.total);
    assert_eq!((c.added, c.already_present, c.failed), (1, 1, 1));
    let u = c.to_update(DataType::History);
    assert_eq!(u.processed, u.added + u.already_present + u.failed);
}

#[test]
fn write_outcome_classifies_results() {
    assert_eq!(write_outcome(&Ok(())), WriteOutcome::Added);
    let conflict = RemoteError::Status { code: 409, detail: "already exists".to_string() };
    assert_eq!(write_outcome(&Err(conflict)), WriteOutcome::AlreadyPresent);
    let missing = RemoteError::Status { code: 404, detail: "not found".to_string() };
    assert_eq!(write_outcome(&Err(missing)), WriteOutcome::Failed);
    assert_eq!(write_outcome(&Err(RemoteError::transport("409 conflict"))), WriteOutcome::Failed);
    assert_eq!(write_outcome(&Err(RemoteError::Block)), WriteOutcome::Failed);
}

#[test]
fn watchlist_import_scenario() {
    let export = WatchlistExport { metadata: meta(2), items: vec![wl_item("A", "series"), wl_item("B", "movie_listing")] };
    let mut target = TargetState::new();
    target.add_watchlist_id("A".to_string());
    let mut plan = plan_watchlist(&export, &target);
    assert_eq!(plan.pending, vec![1]);
    assert_eq!(plan.counts.already_present, 1);
    assert_eq!(plan.counts.already_present + plan.pending.len(), plan.counts.total);
    for _ in &plan.pending {
        plan.counts.record(write_outcome(&Ok(())));
    }
    assert_eq!(plan.counts.added, 1);
    assert_eq!(plan.counts.already_present, 1);
    assert_eq!(plan.counts.failed, 0);
    assert_eq!(plan.counts.processed(), 2);
    assert_eq!(plan.counts.total, 2);
}

#[test]
fn history_plan_skips_known_entries() {
    let export = WatchHistoryExport {
        metadata: meta(3),
        items: vec![hist_item("E1", "a"), hist_item("E2", "b"), hist_item("E3", "c")],
    };
    let mut target = TargetState::new();
    target.add_history_id("E2".to_string());
    target.add_history_id("E9".to_string());
    let plan = plan_history(&export, &target);
    assert_eq!(plan.pending, vec![0, 2]);
    assert_eq!(plan.counts.already_present, 1);
    assert_eq!(plan.counts.total, 3);
}

#[test]
fn empty_snapshot_plans_nothing() {
    let export = WatchlistExport { metadata: meta(0), items: vec![] };
    let plan = plan_watchlist(&export, &TargetState::new());
    assert!(plan.pending.is_empty());
    assert_eq!(plan.counts, Counts::new(0));
}

#[test]
fn crunchylist_missing_on_target_scenario() {
    let list = CrunchylistData {
        name: "Favourites".to_string(),
        items: vec![CrunchylistItem { content_id: "X".to_string(), title: "X title".to_string() }],
    };
    let target = TargetState::new();
    let plan = plan_list(&list, &target);
    assert_eq!(plan.target_index, None);
    assert_eq!(plan.present, vec![false]);
    let mut c = crunchylist_counts(&vec![list]);
    assert_eq!(c.total, 1);
    for present in &plan.present {
        if *present {
            c.record(WriteOutcome::AlreadyPresent);
        } else {
            c.record(write_outcome(&Ok(())));
        }
    }
    assert_eq!(c.added, 1);
    assert_eq!(c.processed(), 1);
}

#[test]
fn crunchylist_presence_is_scoped_to_the_list() {
    let list = CrunchylistData {
        name: "Favourites".to_string(),
        items: vec![
            CrunchylistItem { content_id: "X".to_string(), title: "x".to_string() },
            CrunchylistItem { content_id: "Y".to_string(), title: "y".to_string() },
        ],
    };
    let mut target = TargetState::new();
    target.add_list("Favourites".to_string(), vec!["Y".to_string(), "Y".to_string()]);
    target.add_list("Later".to_string(), vec!["X".to_string()]);
    let plan = plan_list(&list, &target);
    assert_eq!(plan.target_index, Some(0));
    assert_eq!(plan.present, vec![false, true]);
    assert_eq!(target.crunchylists[0].item_ids.len(), 1);
}

#[test]
fn conflict_on_first_attempt_counts_as_present() {
    let mut c = Counts::new(1);
    let result = Err(RemoteError::Status { code: 409, detail: "already exists".to_string() });
    c.record(write_outcome(&result));
    assert_eq!(c.already_present, 1);
    assert_eq!(c.failed, 0);
    assert_eq!(c.added, 0);
}

#[test]
fn history_label_falls_back_to_id() {
    assert_eq!(history_label(&hist_item("E1", "Romance Dawn")), "One Piece - Romance Dawn");
    assert_eq!(history_label(&hist_item("E1", "")), "One Piece - E1");
}

#[test]
fn summary_totals_add_up() {
    let a = Counts { total: 5, added: 2, already_present: 2, failed: 1 };
    let b = Counts { total: 4, added: 1, already_present: 3, failed: 0 };
    let t = summary_totals(&vec![a, b]);
    assert_eq!((t.added, t.already_present, t.failed), (3, 5, 1));
    let none = summary_totals(&vec![]);
    assert_eq!((none.added, none.already_present, none.failed), (0, 0, 0));
}

#[test]
fn import_run_bounds_in_flight_and_finishes() {
    let items: Vec<WatchlistItem> = (0..8).map(|i| wl_item(&format!("I{}", i), "series")).collect();
    let export = WatchlistExport { metadata: meta(8), items };
    let mut target = TargetState::new();
    target.add_watchlist_id("I3".to_string());
    let mut run = ImportRun::start(plan_watchlist(&export, &target), CONCURRENCY);
    let mut handed = Vec::new();
    while let Some(i) = run.next_item() {
        handed.push(i);
    }
    assert_eq!(handed, vec![0, 1, 2, 4, 5]);
    assert_eq!(run.in_flight, CONCURRENCY);
    assert!(!run.is_finished());
    run.complete(WriteOutcome::Added);
    assert_eq!(run.next_item(), Some(6));
    assert_eq!(run.next_item(), None);
    run.complete(WriteOutcome::Failed);
    assert_eq!(run.next_item(), Some(7));
    for _ in 0..CONCURRENCY {
        run.complete(WriteOutcome::AlreadyPresent);
    }
    assert!(run.is_finished());
    assert_eq!(run.counts.processed(), 8);
    assert_eq!((run.counts.added, run.counts.already_present, run.counts.failed), (1, 6, 1));
}

#[test]
fn import_run_on_fully_present_snapshot_is_finished_at_once() {
    let export = WatchlistExport { metadata: meta(1), items: vec![wl_item("A", "series")] };
    let mut target = TargetState::new();
    target.add_watchlist_id("A".to_string());
    let mut run = ImportRun::start(plan_watchlist(&export, &target), CONCURRENCY);
    assert_eq!(run.next_item(), None);
    assert!(run.is_finished());
    assert_eq!(run.counts.already_present, 1);
}
