use crunchyroll_migrate::diff::{compute_diff, diff_crunchylists, diff_history, diff_ratings, diff_watchlist, DiffCounts};
use crunchyroll_migrate::models::{
    CrunchylistData, CrunchylistItem, CrunchylistsExport, ExportMetadata, RatingItem, RatingsExport, Timestamp,
    WatchHistoryExport, WatchHistoryItem, WatchlistExport, WatchlistItem,
};
use crunchyroll_migrate::reconcile::plan_watchlist;
use crunchyroll_migrate::target::TargetState;

fn meta() -> ExportMetadata {
    ExportMetadata { profile_name: "Sean".to_string(), exported_at: Timestamp { secs: 0, nanos: 0 }, total_count: 0 }
}

fn wl(id: &str, kind: &str) -> WatchlistItem {
    WatchlistItem {
        content_id: id.to_string(),
        title: id.to_string(),
        slug: id.to_string(),
        content_type: kind.to_string(),
        is_favourite: false,
        fully_watched: false,
    }
}

fn hist(id: &str) -> WatchHistoryItem {
    WatchHistoryItem {
        content_id: id.to_string(),
        parent_id: "P".to_string(),
        parent_type: "series".to_string(),
        title: String::new(),
        series_title: String::new(),
        date_played: Timestamp { secs: 0, nanos: 0 },
        playhead: 0,
        fully_watched: false,
        partial: false,
    }
}

fn cl_item(id: &str) -> CrunchylistItem {
    CrunchylistItem { content_id: id.to_string(), title: id.to_string() }
}

#[test]
fn watchlist_diff_scenario() {
    let export = WatchlistExport { metadata: meta(), items: vec![wl("A", "series"), wl("B", "movie_listing")] };
    let mut target = TargetState::new();
    target.add_watchlist_id("A".to_string());
    let d = diff_watchlist(&export, &target);
    assert_eq!(d, DiffCounts { in_export: 2, on_target: 1, missing: 1, already_there: 1 });
}

#[test]
fn history_diff_counts_distinct_ids() {
    let export = WatchHistoryExport { metadata: meta(), items: vec![hist("E1"), hist("E1"), hist("E2")] };
    let mut target = TargetState::new();
    target.add_history_id("E1".to_string());
    target.add_history_id("E7".to_string());
    target.add_history_id("E7".to_string());
    let d = diff_history(&export, &target);
    assert_eq!(d, DiffCounts { in_export: 2, on_target: 2, missing: 1, already_there: 1 });
}

#[test]
fn crunchylist_diff_matches_by_name() {
    let export = CrunchylistsExport {
        metadata: meta(),
        lists: vec![
            CrunchylistData { name: "Favourites".to_string(), items: vec![cl_item("X"), cl_item("Y")] },
            CrunchylistData { name: "New".to_string(), items: vec![cl_item("X")] },
        ],
    };
    let mut target = TargetState::new();
    target.add_list("Favourites".to_string(), vec!["X".to_string()]);
    target.add_list("Other".to_string(), vec!["X".to_string(), "Y".to_string(), "Z".to_string()]);
    let d = diff_crunchylists(&export, &target);
    assert_eq!(d, DiffCounts { in_export: 3, on_target: 4, missing: 2, already_there: 1 });
}

#[test]
fn ratings_diff_is_all_missing() {
    let item = RatingItem {
        content_id: "G".to_string(),
        content_type: "series".to_string(),
        title: "G".to_string(),
        rating: "FiveStars".to_string(),
    };
    let export = RatingsExport { metadata: meta(), items: vec![item.clone(), item] };
    assert_eq!(diff_ratings(&export), DiffCounts { in_export: 2, on_target: 0, missing: 2, already_there: 0 });
}

#[test]
fn compute_diff_on_empty_inputs() {
    let r = compute_diff(
        &WatchlistExport { metadata: meta(), items: vec![] },
        &WatchHistoryExport { metadata: meta(), items: vec![] },
        &CrunchylistsExport { metadata: meta(), lists: vec![] },
        &RatingsExport { metadata: meta(), items: vec![] },
        &TargetState::new(),
    );
    let zero = DiffCounts { in_export: 0, on_target: 0, missing: 0, already_there: 0 };
    assert_eq!(r.watchlist, zero);
    assert_eq!(r.history, zero);
    assert_eq!(r.crunchylists, zero);
    assert_eq!(r.ratings, zero);
}

#[test]
fn compute_diff_is_repeatable() {
    let wl_export = WatchlistExport { metadata: meta(), items: vec![wl("A", "series"), wl("B", "movie_listing")] };
    let hist_export = WatchHistoryExport { metadata: meta(), items: vec![hist("E1")] };
    let cl_export = CrunchylistsExport { metadata: meta(), lists: vec![] };
    let rt_export = RatingsExport { metadata: meta(), items: vec![] };
    let mut target = TargetState::new();
    target.add_watchlist_id("B".to_string());
    let first = compute_diff(&wl_export, &hist_export, &cl_export, &rt_export, &target);
    let second = compute_diff(&wl_export, &hist_export, &cl_export, &rt_export, &target);
    assert_eq!(first, second);
    assert_eq!(wl_export.items.len(), 2);
    assert_eq!(first.watchlist.missing, first.watchlist.in_export - first.watchlist.already_there);
}

#[test]
fn diff_matches_import_prefilter() {
    let export = WatchlistExport {
        metadata: meta(),
        items: vec![wl("A", "series"), wl("B", "series"), wl("C", "movie_listing")],
    };
    let mut target = TargetState::new();
    target.add_watchlist_id("C".to_string());
    target.add_watchlist_id("A".to_string());
    target.add_watchlist_id("Z".to_string());
    let d = diff_watchlist(&export, &target);
    let plan = plan_watchlist(&export, &target);
    assert_eq!(d.already_there, plan.counts.already_present);
    assert_eq!(d.missing, plan.pending.len());
    assert_eq!(d.on_target, 3);
}
