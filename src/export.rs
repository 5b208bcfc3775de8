use vstd::prelude::*;
use crate::ids::{contains_id, id_views, lemma_id_set_push};
use crate::models::{CrunchylistItem, RatingItem, RatingStar, Timestamp, WatchHistoryItem, WatchlistItem, rating_label};
use crate::progress::{DataType, ProgressUpdate};

verus! {

/// During a history capture, a progress update is sent once per this many
/// captured entries.
pub const HISTORY_PROGRESS_EVERY: usize = 50;

/// During a ratings capture, a progress update is sent once per this many
/// checked titles, and after the last.
pub const RATINGS_PROGRESS_EVERY: usize = 5;

/// The media panel attached to a watchlist, history or list entry, holding
/// what the library reads from it.
#[derive(Debug, Clone)]
pub enum Panel {
    Episode { title: String, series_id: String, series_title: String, series_slug_title: String },
    Movie {
        title: String,
        movie_listing_id: String,
        movie_listing_title: String,
        movie_listing_slug_title: String,
    },
    Series { id: String, title: String, slug_title: String },
    MovieListing { id: String, title: String, slug_title: String },
    /// Any other kind of media.
    Other,
}

/// Id, title, slug and content type tag of the series or movie listing a
/// panel belongs to.
pub open spec fn series_info_spec(p: Panel) -> Option<(Seq<char>, Seq<char>, Seq<char>, Seq<char>)> {
    match p {
        Panel::Episode { series_id, series_title, series_slug_title, .. } => Some(
            (series_id@, series_title@, series_slug_title@, "series"@),
        ),
        Panel::Movie { movie_listing_id, movie_listing_title, movie_listing_slug_title, .. } => Some(
            (movie_listing_id@, movie_listing_title@, movie_listing_slug_title@, "movie_listing"@),
        ),
        Panel::Series { id, title, slug_title } => Some((id@, title@, slug_title@, "series"@)),
        Panel::MovieListing { id, title, slug_title } => Some((id@, title@, slug_title@, "movie_listing"@)),
        Panel::Other => None,
    }
}

pub open spec fn views4(t: (String, String, String, String)) -> (Seq<char>, Seq<char>, Seq<char>, Seq<char>) {
    (t.0@, t.1@, t.2@, t.3@)
}

/// The series or movie listing a panel belongs to: id, title, slug and type tag.
pub fn extract_series_info(panel: &Panel) -> (r: Option<(String, String, String, String)>)
    ensures
        r is None <==> series_info_spec(*panel) is None,
        r matches Some(t) ==> series_info_spec(*panel) == Some(views4(t)),
{
    match panel {
        Panel::Episode { series_id, series_title, series_slug_title, .. } => Some(
            (series_id.clone(), series_title.clone(), series_slug_title.clone(), String::from_str("series")),
        ),
        Panel::Movie { movie_listing_id, movie_listing_title, movie_listing_slug_title, .. } => Some(
            (
                movie_listing_id.clone(),
                movie_listing_title.clone(),
                movie_listing_slug_title.clone(),
                String::from_str("movie_listing"),
            ),
        ),
        Panel::Series { id, title, slug_title } => Some(
            (id.clone(), title.clone(), slug_title.clone(), String::from_str("series")),
        ),
        Panel::MovieListing { id, title, slug_title } => Some(
            (id.clone(), title.clone(), slug_title.clone(), String::from_str("movie_listing")),
        ),
        Panel::Other => None,
    }
}

pub open spec fn panel_title_spec(p: Panel) -> Seq<char> {
    match p {
        Panel::Episode { title, .. } => title@,
        Panel::Movie { title, .. } => title@,
        Panel::Series { title, .. } => title@,
        Panel::MovieListing { title, .. } => title@,
        Panel::Other => Seq::empty(),
    }
}

pub open spec fn panel_series_title_spec(p: Panel) -> Seq<char> {
    match p {
        Panel::Episode { series_title, .. } => series_title@,
        Panel::Movie { movie_listing_title, .. } => movie_listing_title@,
        Panel::Series { title, .. } => title@,
        Panel::MovieListing { title, .. } => title@,
        Panel::Other => Seq::empty(),
    }
}

/// The panel's own title.
pub fn panel_title(panel: &Panel) -> (r: String)
    ensures
        r@ == panel_title_spec(*panel),
{
    match panel {
        Panel::Episode { title, .. } => title.clone(),
        Panel::Movie { title, .. } => title.clone(),
        Panel::Series { title, .. } => title.clone(),
        Panel::MovieListing { title, .. } => title.clone(),
        Panel::Other => String::new(),
    }
}

/// The title of the series or movie listing the panel belongs to.
pub fn panel_series_title(panel: &Panel) -> (r: String)
    ensures
        r@ == panel_series_title_spec(*panel),
{
    match panel {
        Panel::Episode { series_title, .. } => series_title.clone(),
        Panel::Movie { movie_listing_title, .. } => movie_listing_title.clone(),
        Panel::Series { title, .. } => title.clone(),
        Panel::MovieListing { title, .. } => title.clone(),
        Panel::Other => String::new(),
    }
}

/// A watchlist entry as the service returns it.
#[derive(Debug, Clone)]
pub struct WatchlistEntry {
    pub panel: Panel,
    pub is_favorite: bool,
    pub fully_watched: bool,
}

/// The snapshot item of a watchlist entry; `None` for panels that are not
/// part of a series or movie listing.
pub fn watchlist_item(entry: &WatchlistEntry) -> (r: Option<WatchlistItem>)
    ensures
        r is None <==> series_info_spec(entry.panel) is None,
        r matches Some(it) ==> series_info_spec(entry.panel) == Some(
            (it.content_id@, it.title@, it.slug@, it.content_type@),
        ) && it.is_favourite == entry.is_favorite && it.fully_watched == entry.fully_watched,
{
    match extract_series_info(&entry.panel) {
        Some((content_id, title, slug, content_type)) => Some(
            WatchlistItem {
                content_id,
                title,
                slug,
                content_type,
                is_favourite: entry.is_favorite,
                fully_watched: entry.fully_watched,
            },
        ),
        None => None,
    }
}

/// The snapshot item of a list entry; `None` for panels that are not part
/// of a series or movie listing.
pub fn crunchylist_item(panel: &Panel) -> (r: Option<CrunchylistItem>)
    ensures
        r is None <==> series_info_spec(*panel) is None,
        r matches Some(it) ==> series_info_spec(*panel) matches Some(t) && t.0 == it.content_id@ && t.1
            == it.title@,
{
    match extract_series_info(panel) {
        Some((content_id, title, _, _)) => Some(CrunchylistItem { content_id, title }),
        None => None,
    }
}

/// Ids of the series and movie listings behind `panels`, in order, skipping
/// other panels.
pub open spec fn series_ids_spec(panels: Seq<Panel>) -> Seq<Seq<char>>
    decreases panels.len(),
{
    if panels.len() == 0 {
        Seq::empty()
    } else {
        let before = series_ids_spec(panels.drop_last());
        match series_info_spec(panels.last()) {
            Some(t) => before.push(t.0),
            None => before,
        }
    }
}

pub fn series_ids(panels: &Vec<Panel>) -> (r: Vec<String>)
    ensures
        id_views(r@) == series_ids_spec(panels@),
{
    let mut out: Vec<String> = Vec::new();
    let mut i: usize = 0;
    while i < panels.len()
        invariant
            i <= panels@.len(),
            id_views(out@) == series_ids_spec(panels@.take(i as int)),
        decreases panels@.len() - i,
    {
        proof {
            assert(panels@.take(i + 1).drop_last() =~= panels@.take(i as int));
        }
        match extract_series_info(&panels[i]) {
            Some((id, _, _, _)) => {
                proof {
                    lemma_id_set_push(out@, id);
                }
                out.push(id);
            },
            None => {},
        }
        i = i + 1;
    }
    assert(panels@.take(i as int) =~= panels@);
    out
}

/// A history entry as the service returns it; the panel may be missing.
#[derive(Debug, Clone)]
pub struct HistoryEntry {
    pub id: String,
    pub parent_id: String,
    pub parent_type: String,
    pub panel: Option<Panel>,
    pub date_played: Timestamp,
    pub playhead: u32,
    pub fully_watched: bool,
}

/// The snapshot item of a history entry: titles come from the panel, and an
/// entry without one is kept, marked partial, with empty titles.
pub fn history_item(entry: &HistoryEntry) -> (r: WatchHistoryItem)
    ensures
        r.content_id == entry.id,
        r.parent_id == entry.parent_id,
        r.parent_type == entry.parent_type,
        r.date_played == entry.date_played,
        r.playhead == entry.playhead,
        r.fully_watched == entry.fully_watched,
        r.partial == (entry.panel is None),
        match entry.panel {
            Some(p) => r.title@ == panel_title_spec(p) && r.series_title@ == panel_series_title_spec(p),
            None => r.title@.len() == 0 && r.series_title@.len() == 0,
        },
{
    let (title, series_title, partial) = match &entry.panel {
        Some(panel) => (panel_title(panel), panel_series_title(panel), false),
        None => (String::new(), String::new(), true),
    };
    WatchHistoryItem {
        content_id: entry.id.clone(),
        parent_id: entry.parent_id.clone(),
        parent_type: entry.parent_type.clone(),
        title,
        series_title,
        date_played: entry.date_played,
        playhead: entry.playhead,
        fully_watched: entry.fully_watched,
        partial,
    }
}

/// Whether a history capture that has just reached `captured` entries
/// reports progress.
pub fn history_progress_due(captured: usize) -> (r: bool)
    ensures
        r == (captured % HISTORY_PROGRESS_EVERY == 0),
{
    captured % HISTORY_PROGRESS_EVERY == 0
}

/// Progress of a history capture: every entry read is processed, as added
/// when captured or failed when the service returned an error for it. The
/// total is unknown (zero) while streaming and all processed entries at the
/// end.
pub fn history_export_progress(captured: usize, failed: usize, finished: bool) -> (r: ProgressUpdate)
    requires
        captured + failed <= usize::MAX,
    ensures
        r == (ProgressUpdate {
            data_type: DataType::History,
            total: if finished { (captured + failed) as usize } else { 0 },
            processed: (captured + failed) as usize,
            added: captured,
            skipped: 0,
            already_present: 0,
            failed,
        }),
        r.balanced(),
{
    let processed = captured + failed;
    ProgressUpdate {
        data_type: DataType::History,
        total: if finished { processed } else { 0 },
        processed,
        added: captured,
        skipped: 0,
        already_present: 0,
        failed,
    }
}

/// Whether a ratings capture that has checked `checked` of `total` titles
/// reports progress.
pub fn ratings_progress_due(checked: usize, total: usize) -> (r: bool)
    ensures
        r == (checked % RATINGS_PROGRESS_EVERY == 0 || checked == total),
{
    checked % RATINGS_PROGRESS_EVERY == 0 || checked == total
}

/// Progress of a ratings capture: of the `checked` titles, those with a
/// rating are added and the rest counted as skipped.
pub fn ratings_export_progress(checked: usize, found: usize, total: usize) -> (r: ProgressUpdate)
    requires
        found <= checked,
    ensures
        r == (ProgressUpdate {
            data_type: DataType::Ratings,
            total,
            processed: checked,
            added: found,
            skipped: 0,
            already_present: (checked - found) as usize,
            failed: 0,
        }),
        r.balanced(),
{
    ProgressUpdate {
        data_type: DataType::Ratings,
        total,
        processed: checked,
        added: found,
        skipped: 0,
        already_present: checked - found,
        failed: 0,
    }
}

/// A title whose rating is to be looked up.
#[derive(Debug, Clone)]
pub struct RatingCandidate {
    pub content_id: String,
    pub content_type: String,
    pub title: String,
}

pub open spec fn candidate_view(c: RatingCandidate) -> (Seq<char>, Seq<char>, Seq<char>) {
    (c.content_id@, c.content_type@, c.title@)
}

/// Watchlist titles, then the series of history entries, each as
/// (id, content type, title).
pub open spec fn candidate_sources(
    watchlist: Seq<WatchlistItem>,
    history: Seq<WatchHistoryItem>,
) -> Seq<(Seq<char>, Seq<char>, Seq<char>)> {
    watchlist.map_values(|w: WatchlistItem| (w.content_id@, w.content_type@, w.title@)) + history.map_values(
        |h: WatchHistoryItem| (h.parent_id@, h.parent_type@, h.series_title@),
    )
}

/// The first occurrence of each id in `s`, in order.
pub open spec fn first_by_id(s: Seq<(Seq<char>, Seq<char>, Seq<char>)>) -> Seq<(Seq<char>, Seq<char>, Seq<char>)>
    decreases s.len(),
{
    if s.len() == 0 {
        Seq::empty()
    } else {
        let before = first_by_id(s.drop_last());
        if candidate_ids(before).contains(s.last().0) {
            before
        } else {
            before.push(s.last())
        }
    }
}

pub open spec fn candidate_ids(s: Seq<(Seq<char>, Seq<char>, Seq<char>)>) -> Seq<Seq<char>> {
    s.map_values(|t: (Seq<char>, Seq<char>, Seq<char>)| t.0)
}

pub open spec fn candidates_view(s: Seq<RatingCandidate>) -> Seq<(Seq<char>, Seq<char>, Seq<char>)> {
    s.map_values(|c: RatingCandidate| candidate_view(c))
}

/// Adds a candidate unless its id was seen; `seen` holds the ids of `out`.
fn add_candidate(seen: &mut Vec<String>, out: &mut Vec<RatingCandidate>, id: &String, kind: &String, title: &String)
    requires
        id_views(old(seen)@) == candidate_ids(candidates_view(old(out)@)),
    ensures
        id_views(final(seen)@) == candidate_ids(candidates_view(final(out)@)),
        candidate_ids(candidates_view(old(out)@)).contains(id@) ==> candidates_view(final(out)@)
            == candidates_view(old(out)@),
        !candidate_ids(candidates_view(old(out)@)).contains(id@) ==> candidates_view(final(out)@)
            == candidates_view(old(out)@).push((id@, kind@, title@)),
{
    if !contains_id(seen, id) {
        let c = RatingCandidate { content_id: id.clone(), content_type: kind.clone(), title: title.clone() };
        let fresh = id.clone();
        proof {
            lemma_id_set_push(seen@, fresh);
        }
        seen.push(fresh);
        let ghost before = candidates_view(out@);
        out.push(c);
        proof {
            assert(candidates_view(out@) =~= before.push((id@, kind@, title@)));
            assert(candidate_ids(candidates_view(out@)) =~= candidate_ids(before).push(id@));
        }
    } else {
        proof {
            let ids = id_views(seen@);
            let k = choose|k: int| 0 <= k < ids.len() && ids[k] == id@;
            assert(candidate_ids(candidates_view(out@))[k] == id@);
        }
    }
}

/// The titles whose rating a capture looks up: those of the watchlist, then
/// the series and movie listings of the history, each id once, first
/// occurrence kept.
pub fn rating_candidates(watchlist: &Vec<WatchlistItem>, history: &Vec<WatchHistoryItem>) -> (r: Vec<RatingCandidate>)
    ensures
        candidates_view(r@) == first_by_id(candidate_sources(watchlist@, history@)),
{
    let ghost src = candidate_sources(watchlist@, history@);
    let ghost n = watchlist@.len() as int;
    let mut seen: Vec<String> = Vec::new();
    let mut out: Vec<RatingCandidate> = Vec::new();
    let mut i: usize = 0;
    proof {
        assert(candidates_view(out@) =~= first_by_id(src.take(0)));
        assert(id_views(seen@) =~= candidate_ids(candidates_view(out@)));
    }
    while i < watchlist.len()
        invariant
            src == candidate_sources(watchlist@, history@),
            n == watchlist@.len(),
            i <= n,
            candidates_view(out@) == first_by_id(src.take(i as int)),
            id_views(seen@) == candidate_ids(candidates_view(out@)),
        decreases n - i,
    {
        let w = &watchlist[i];
        proof {
            assert(src.take(i + 1).drop_last() =~= src.take(i as int));
            assert(src[i as int] == (w.content_id@, w.content_type@, w.title@));
        }
        add_candidate(&mut seen, &mut out, &w.content_id, &w.content_type, &w.title);
        i = i + 1;
    }
    let mut j: usize = 0;
    while j < history.len()
        invariant
            src == candidate_sources(watchlist@, history@),
            n == watchlist@.len(),
            src.len() == n + history@.len(),
            j <= history@.len(),
            candidates_view(out@) == first_by_id(src.take(n + j)),
            id_views(seen@) == candidate_ids(candidates_view(out@)),
        decreases history@.len() - j,
    {
        let h = &history[j];
        proof {
            assert(src.take(n + j + 1).drop_last() =~= src.take(n + j));
            assert(src[n + j] == (h.parent_id@, h.parent_type@, h.series_title@));
        }
        add_candidate(&mut seen, &mut out, &h.parent_id, &h.parent_type, &h.series_title);
        j = j + 1;
    }
    assert(src.take(n + j) =~= src);
    out
}

/// The snapshot item of a looked-up rating; `None` when the title has none.
pub fn rating_item(candidate: &RatingCandidate, stars: Option<RatingStar>) -> (r: Option<RatingItem>)
    ensures
        r is None <==> stars is None,
        r matches Some(it) ==> it.content_id@ == candidate.content_id@ && it.content_type@
            == candidate.content_type@ && it.title@ == candidate.title@ && it.rating@ == rating_label(
            stars->0,
        ),
{
    match stars {
        Some(s) => Some(
            RatingItem {
                content_id: candidate.content_id.clone(),
                content_type: candidate.content_type.clone(),
                title: candidate.title.clone(),
                rating: s.label(),
            },
        ),
        None => None,
    }
}


/// Oldest first.
pub open spec fn chronological(items: Seq<WatchHistoryItem>) -> bool {
    forall|i: int, j: int| 0 <= i < j < items.len() ==> items[i].date_played.spec_le(items[j].date_played)
}

/// The entries played at `d`, in order.
pub open spec fn played_at(items: Seq<WatchHistoryItem>, d: Timestamp) -> Seq<WatchHistoryItem> {
    items.filter(|h: WatchHistoryItem| h.date_played == d)
}

proof fn lemma_played_at_add(a: Seq<WatchHistoryItem>, b: Seq<WatchHistoryItem>, d: Timestamp)
    ensures
        played_at(a + b, d) == played_at(a, d) + played_at(b, d),
{
    Seq::filter_distributes_over_add(a, b, |h: WatchHistoryItem| h.date_played == d);
}

proof fn lemma_played_at_single(x: WatchHistoryItem, d: Timestamp)
    ensures
        played_at(seq![x], d) == if x.date_played == d { seq![x] } else { Seq::<WatchHistoryItem>::empty() },
{
    let p = |h: WatchHistoryItem| h.date_played == d;
    reveal_with_fuel(Seq::filter, 2);
    assert(seq![x].drop_last() =~= Seq::<WatchHistoryItem>::empty());
    assert(Seq::<WatchHistoryItem>::empty().filter(p) =~= Seq::<WatchHistoryItem>::empty());
    assert(seq![x].last() == x);
    if x.date_played == d {
        assert(seq![x].filter(p) =~= Seq::<WatchHistoryItem>::empty().push(x));
    }
}

proof fn lemma_played_at_none(s: Seq<WatchHistoryItem>, d: Timestamp)
    requires
        forall|i: int| 0 <= i < s.len() ==> #[trigger] s[i].date_played != d,
    ensures
        played_at(s, d) == Seq::<WatchHistoryItem>::empty(),
{
    let p = |h: WatchHistoryItem| h.date_played == d;
    assert(s.all(|x: WatchHistoryItem| !p(x)));
    s.lemma_all_neg_filter_empty(p);
    assert(s.filter(p) =~= Seq::<WatchHistoryItem>::empty());
}

/// Sorts captured history oldest first; entries played at the same time
/// keep their relative order.
pub fn sort_history(items: &mut Vec<WatchHistoryItem>)
    ensures
        chronological(final(items)@),
        final(items)@.to_multiset() == old(items)@.to_multiset(),
        forall|d: Timestamp| #[trigger] played_at(final(items)@, d) == played_at(old(items)@, d),
{
    broadcast use vstd::seq_lib::group_to_multiset_ensures;

    let ghost orig = items@;
    let mut out: Vec<WatchHistoryItem> = Vec::new();
    proof {
        assert forall|d: Timestamp| #[trigger] played_at(orig, d) == played_at(out@, d) + played_at(items@, d) by {
            assert(out@ =~= Seq::<WatchHistoryItem>::empty());
            assert(played_at(out@, d) =~= Seq::<WatchHistoryItem>::empty());
            assert(played_at(out@, d) + played_at(items@, d) =~= played_at(items@, d));
        }
    }
    while items.len() > 0
        invariant
            chronological(out@),
            out@.to_multiset().add(items@.to_multiset()) == orig.to_multiset(),
            forall|d: Timestamp| #[trigger] played_at(orig, d) == played_at(out@, d) + played_at(items@, d),
        decreases items@.len(),
    {
        let ghost rest = items@;
        let x = items.remove(0);
        let mut k: usize = 0;
        while k < out.len() && out[k].date_played.le(&x.date_played)
            invariant
                k <= out@.len(),
                chronological(out@),
                forall|m: int| 0 <= m < k ==> out@[m].date_played.spec_le(x.date_played),
            decreases out@.len() - k,
        {
            k = k + 1;
        }
        let ghost before = out@;
        proof {
            assert(rest =~= items@.insert(0, x));
            vstd::seq_lib::to_multiset_insert(items@, 0, x);
            assert forall|m: int| k <= m < before.len() implies x.date_played.spec_le(#[trigger] before[m].date_played) by {
                assert(!before[k as int].date_played.spec_le(x.date_played));
                if m > k {
                    assert(before[k as int].date_played.spec_le(before[m].date_played));
                }
            }
        }
        out.insert(k, x);
        proof {
            assert(out@ == before.insert(k as int, x));
            assert forall|i: int, j: int| 0 <= i < j < out@.len() implies out@[i].date_played.spec_le(
                out@[j].date_played,
            ) by {
                if j < k {
                    assert(out@[i] == before[i] && out@[j] == before[j]);
                } else if j == k {
                    assert(out@[i] == before[i]);
                } else if i == k {
                    assert(out@[j] == before[j - 1]);
                } else if i < k {
                    assert(out@[i] == before[i] && out@[j] == before[j - 1]);
                } else {
                    assert(out@[i] == before[i - 1] && out@[j] == before[j - 1]);
                }
            }
            vstd::seq_lib::to_multiset_insert(before, k as int, x);
            assert(out@.to_multiset().add(items@.to_multiset()) =~= before.to_multiset().add(rest.to_multiset()));
            let b0 = before.subrange(0, k as int);
            let b1 = before.subrange(k as int, before.len() as int);
            assert(before =~= b0 + b1);
            assert(out@ =~= b0 + seq![x] + b1);
            assert(rest =~= seq![x] + items@);
            assert forall|d: Timestamp| #[trigger] played_at(orig, d) == played_at(out@, d) + played_at(items@, d) by {
                lemma_played_at_add(b0, b1, d);
                lemma_played_at_add(b0 + seq![x], b1, d);
                lemma_played_at_add(b0, seq![x], d);
                lemma_played_at_add(seq![x], items@, d);
                lemma_played_at_single(x, d);
                assert(played_at(orig, d) == played_at(before, d) + played_at(rest, d));
                if x.date_played == d {
                    assert forall|i: int| 0 <= i < b1.len() implies #[trigger] b1[i].date_played != d by {
                        assert(b1[i] == before[k + i]);
                        assert(x.date_played.spec_le(before[k + i].date_played));
                        if k + i > k {
                            assert(before[k as int].date_played.spec_le(before[k + i].date_played));
                        }
                        assert(!before[k as int].date_played.spec_le(x.date_played));
                    }
                    lemma_played_at_none(b1, d);
                    assert(played_at(out@, d) + played_at(items@, d) =~= played_at(before, d) + played_at(rest, d));
                } else {
                    assert(played_at(out@, d) + played_at(items@, d) =~= played_at(before, d) + played_at(rest, d));
                }
            }
        }
    }
    proof {
        assert(items@.to_multiset() =~= vstd::multiset::Multiset::empty());
        assert(out@.to_multiset().add(vstd::multiset::Multiset::empty()) =~= out@.to_multiset());
        assert forall|d: Timestamp| #[trigger] played_at(out@, d) == played_at(orig, d) by {
            assert(items@ =~= Seq::<WatchHistoryItem>::empty());
            assert(played_at(items@, d) =~= Seq::<WatchHistoryItem>::empty());
            assert(played_at(out@, d) + played_at(items@, d) =~= played_at(out@, d));
        }
    }
    *items = out;
}

} // verus!
