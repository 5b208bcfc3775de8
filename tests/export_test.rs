use crunchyroll_migrate::export::{
    crunchylist_item, extract_series_info, history_export_progress, history_item, history_progress_due,
    panel_series_title, panel_title, rating_candidates, rating_item, ratings_export_progress, ratings_progress_due,
    series_ids,
    sort_history, HistoryEntry, Panel, RatingCandidate, WatchlistEntry, watchlist_item,
};
use crunchyroll_migrate::models::{RatingStar, Timestamp, WatchHistoryItem, WatchlistItem};

fn episode() -> Panel {
    Panel::Episode {
        title: "Romance Dawn".to_string(),
        series_id: "G4PH0WXYZ".to_string(),
        series_title: "One Piece".to_string(),
        series_slug_title: "one-piece".to_string(),
    }
}

fn movie() -> Panel {
    Panel::Movie {
        title: "A Silent Voice (Movie)".to_string(),
        movie_listing_id: "GMKUX0ABC".to_string(),
        movie_listing_title: "A Silent Voice".to_string(),
        movie_listing_slug_title: "a-silent-voice".to_string(),
    }
}

fn hist(id: &str, parent: &str, secs: i64) -> WatchHistoryItem {
    WatchHistoryItem {
        content_id: id.to_string(),
        parent_id: parent.to_string(),
        parent_type: "series".to_string(),
        title: String::new(),
        series_title: format!("Series {}", parent),
        date_played: Timestamp { secs, nanos: 0 },
        playhead: 0,
        fully_watched: false,
        partial: false,
    }
}

#[test]
fn series_info_of_each_panel_kind() {
    assert_eq!(
        extract_series_info(&episode()),
        Some(("G4PH0WXYZ".to_string(), "One Piece".to_string(), "one-piece".to_string(), "series".to_string()))
    );
    assert_eq!(
        extract_series_info(&movie()),
        Some((
            "GMKUX0ABC".to_string(),
            "A Silent Voice".to_string(),
            "a-silent-voice".to_string(),
            "movie_listing".to_string()
        ))
    );
    let ml = Panel::MovieListing { id: "M".to_string(), title: "T".to_string(), slug_title: "t".to_string() };
    assert_eq!(extract_series_info(&ml).unwrap().3, "movie_listing");
    let s = Panel::Series { id: "S".to_string(), title: "T".to_string(), slug_title: "t".to_string() };
    assert_eq!(extract_series_info(&s).unwrap().0, "S");
    assert_eq!(extract_series_info(&Panel::Other), None);
}

#[test]
fn panel_titles() {
    assert_eq!(panel_title(&episode()), "Romance Dawn");
    assert_eq!(panel_series_title(&episode()), "One Piece");
    assert_eq!(panel_series_title(&movie()), "A Silent Voice");
    assert_eq!(panel_title(&Panel::Other), "");
}

#[test]
fn watchlist_and_list_items_from_panels() {
    let entry = WatchlistEntry { panel: episode(), is_favorite: true, fully_watched: false };
    let item = watchlist_item(&entry).unwrap();
    assert_eq!(item.content_id, "G4PH0WXYZ");
    assert_eq!(item.content_type, "series");
    assert!(item.is_favourite);
    assert!(watchlist_item(&WatchlistEntry { panel: Panel::Other, is_favorite: false, fully_watched: false }).is_none());
    let li = crunchylist_item(&movie()).unwrap();
    assert_eq!((li.content_id.as_str(), li.title.as_str()), ("GMKUX0ABC", "A Silent Voice"));
    assert_eq!(series_ids(&vec![episode(), Panel::Other, movie()]), vec!["G4PH0WXYZ".to_string(), "GMKUX0ABC".to_string()]);
}

#[test]
fn history_item_without_panel_is_partial() {
    let entry = HistoryEntry {
        id: "GXYZ00000".to_string(),
        parent_id: "GMKUX0ABC".to_string(),
        parent_type: "movie_listing".to_string(),
        panel: None,
        date_played: Timestamp { secs: 1_768_068_000, nanos: 0 },
        playhead: 0,
        fully_watched: false,
    };
    let item = history_item(&entry);
    assert!(item.partial);
    assert_eq!(item.title, "");
    assert_eq!(item.series_title, "");
    let full = history_item(&HistoryEntry { panel: Some(episode()), playhead: 1420, ..entry });
    assert!(!full.partial);
    assert_eq!(full.title, "Romance Dawn");
    assert_eq!(full.series_title, "One Piece");
    assert_eq!(full.playhead, 1420);
}

#[test]
fn history_progress_cadence() {
    assert!(history_progress_due(50));
    assert!(history_progress_due(100));
    assert!(!history_progress_due(49));
    let mid = history_export_progress(50, 2, false);
    assert_eq!((mid.total, mid.processed, mid.added, mid.failed), (0, 52, 50, 2));
    let end = history_export_progress(70, 2, true);
    assert_eq!((end.total, end.processed), (72, 72));
    assert!(ratings_progress_due(5, 12));
    assert!(ratings_progress_due(12, 12));
    assert!(!ratings_progress_due(7, 12));
}

#[test]
fn rating_candidates_dedup_first_occurrence() {
    let wl = vec![WatchlistItem {
        content_id: "G4PH0WXYZ".to_string(),
        title: "One Piece".to_string(),
        slug: "one-piece".to_string(),
        content_type: "series".to_string(),
        is_favourite: false,
        fully_watched: false,
    }];
    let history = vec![hist("E1", "G4PH0WXYZ", 1), hist("E2", "GOTHER", 2), hist("E3", "GOTHER", 3)];
    let c = rating_candidates(&wl, &history);
    let ids: Vec<&str> = c.iter().map(|x| x.content_id.as_str()).collect();
    assert_eq!(ids, vec!["G4PH0WXYZ", "GOTHER"]);
    assert_eq!(c[0].title, "One Piece");
    assert_eq!(c[1].title, "Series GOTHER");
    assert!(rating_candidates(&vec![], &vec![]).is_empty());
}

#[test]
fn rating_item_uses_star_label() {
    let cand = RatingCandidate {
        content_id: "G".to_string(),
        content_type: "series".to_string(),
        title: "One Piece".to_string(),
    };
    let item = rating_item(&cand, Some(RatingStar::FiveStars)).unwrap();
    assert_eq!(item.rating, "FiveStars");
    assert_eq!(item.content_type, "series");
    assert!(rating_item(&cand, None).is_none());
}

#[test]
fn sort_history_oldest_first_and_stable() {
    let mut items = vec![hist("C", "p", 30), hist("A", "p", 10), hist("B1", "p", 20), hist("B2", "p", 20)];
    sort_history(&mut items);
    let ids: Vec<&str> = items.iter().map(|x| x.content_id.as_str()).collect();
    assert_eq!(ids, vec!["A", "B1", "B2", "C"]);
    let mut empty: Vec<WatchHistoryItem> = vec![];
    sort_history(&mut empty);
    assert!(empty.is_empty());
}

#[test]
fn ratings_progress_counts_unrated_as_present() {
    let u = ratings_export_progress(10, 7, 12);
    assert_eq!((u.total, u.processed, u.added, u.already_present, u.failed), (12, 10, 7, 3, 0));
    assert_eq!(u.processed, u.added + u.already_present + u.failed);
}
