use vstd::prelude::*;

verus! {

/// A point in time, UTC: whole seconds since the Unix epoch and the
/// nanoseconds within that second.
#[derive(Debug, Clone, Copy, PartialEq, Eq, Structural)]
pub struct Timestamp {
    pub secs: i64,
    pub nanos: u32,
}

impl Timestamp {
    pub open spec fn wf(self) -> bool {
        self.nanos < 1_000_000_000
    }

    /// Chronological order.
    pub open spec fn spec_le(self, other: Timestamp) -> bool {
        self.secs < other.secs || (self.secs == other.secs && self.nanos <= other.nanos)
    }

    pub fn le(&self, other: &Timestamp) -> (r: bool)
        ensures
            r == self.spec_le(*other),
    {
        self.secs < other.secs || (self.secs == other.secs && self.nanos <= other.nanos)
    }
}

#[derive(Debug, Clone)]
pub struct ExportMetadata {
    pub profile_name: String,
    pub exported_at: Timestamp,
    pub total_count: usize,
}

#[derive(Debug, Clone)]
pub struct WatchlistExport {
    pub metadata: ExportMetadata,
    pub items: Vec<WatchlistItem>,
}

#[derive(Debug, Clone)]
pub struct WatchlistItem {
    pub content_id: String,
    pub title: String,
    pub slug: String,
    pub content_type: String,
    pub is_favourite: bool,
    pub fully_watched: bool,
}

#[derive(Debug, Clone)]
pub struct WatchHistoryExport {
    pub metadata: ExportMetadata,
    pub items: Vec<WatchHistoryItem>,
}

#[derive(Debug, Clone)]
pub struct WatchHistoryItem {
    pub content_id: String,
    pub parent_id: String,
    pub parent_type: String,
    pub title: String,
    pub series_title: String,
    pub date_played: Timestamp,
    pub playhead: u32,
    pub fully_watched: bool,
    /// Set when the service returned the entry without its media panel.
    pub partial: bool,
}

#[derive(Debug, Clone)]
pub struct CrunchylistsExport {
    pub metadata: ExportMetadata,
    pub lists: Vec<CrunchylistData>,
}

#[derive(Debug, Clone)]
pub struct CrunchylistData {
    pub name: String,
    pub items: Vec<CrunchylistItem>,
}

#[derive(Debug, Clone)]
pub struct CrunchylistItem {
    pub content_id: String,
    pub title: String,
}

#[derive(Debug, Clone)]
pub struct RatingsExport {
    pub metadata: ExportMetadata,
    pub items: Vec<RatingItem>,
}

#[derive(Debug, Clone)]
pub struct RatingItem {
    pub content_id: String,
    pub content_type: String,
    pub title: String,
    pub rating: String,
}

/// The two kinds of content that can sit on a watchlist, a list or a rating.
#[derive(Debug, Clone, Copy, PartialEq, Eq, Structural)]
pub enum ContentType {
    Series,
    MovieListing,
}

pub open spec fn content_type_tag(t: ContentType) -> Seq<char> {
    match t {
        ContentType::Series => "series"@,
        ContentType::MovieListing => "movie_listing"@,
    }
}

pub open spec fn spec_parse_content_type(s: Seq<char>) -> Option<ContentType> {
    if s == "series"@ {
        Some(ContentType::Series)
    } else if s == "movie_listing"@ {
        Some(ContentType::MovieListing)
    } else {
        None
    }
}

/// The five star levels of a rating.
#[derive(Debug, Clone, Copy, PartialEq, Eq, Structural)]
pub enum RatingStar {
    OneStar,
    TwoStars,
    ThreeStars,
    FourStars,
    FiveStars,
}

pub open spec fn rating_label(r: RatingStar) -> Seq<char> {
    match r {
        RatingStar::OneStar => "OneStar"@,
        RatingStar::TwoStars => "TwoStars"@,
        RatingStar::ThreeStars => "ThreeStars"@,
        RatingStar::FourStars => "FourStars"@,
        RatingStar::FiveStars => "FiveStars"@,
    }
}

pub open spec fn spec_parse_rating(s: Seq<char>) -> Option<RatingStar> {
    if s == "OneStar"@ {
        Some(RatingStar::OneStar)
    } else if s == "TwoStars"@ {
        Some(RatingStar::TwoStars)
    } else if s == "ThreeStars"@ {
        Some(RatingStar::ThreeStars)
    } else if s == "FourStars"@ {
        Some(RatingStar::FourStars)
    } else if s == "FiveStars"@ {
        Some(RatingStar::FiveStars)
    } else {
        None
    }
}

/// Characterwise equality of a string and a literal.
fn str_is(s: &str, lit: &str) -> (r: bool)
    ensures
        r == (s@ == lit@),
{
    let n = s.unicode_len();
    if n != lit.unicode_len() {
        return false;
    }
    let mut i: usize = 0;
    while i < n
        invariant
            n == s@.len(),
            n == lit@.len(),
            i <= n,
            s@.subrange(0, i as int) == lit@.subrange(0, i as int),
        decreases n - i,
    {
        if s.get_char(i) != lit.get_char(i) {
            assert(s@[i as int] != lit@[i as int]);
            return false;
        }
        assert(s@.subrange(0, i + 1) == s@.subrange(0, i as int).push(s@[i as int]));
        assert(lit@.subrange(0, i + 1) == lit@.subrange(0, i as int).push(lit@[i as int]));
        i = i + 1;
    }
    assert(s@ == s@.subrange(0, n as int));
    assert(lit@ == lit@.subrange(0, n as int));
    true
}

impl ContentType {
    /// Reads the `content_type` tag of a snapshot item.
    pub fn parse(s: &str) -> (r: Option<ContentType>)
        ensures
            r == spec_parse_content_type(s@),
    {
        if str_is(s, "series") {
            Some(ContentType::Series)
        } else if str_is(s, "movie_listing") {
            Some(ContentType::MovieListing)
        } else {
            None
        }
    }

    pub fn tag(&self) -> (r: String)
        ensures
            r@ == content_type_tag(*self),
    {
        match self {
            ContentType::Series => String::from_str("series"),
            ContentType::MovieListing => String::from_str("movie_listing"),
        }
    }
}

impl RatingStar {
    /// Reads the rating label of a snapshot item.
    pub fn parse(s: &str) -> (r: Option<RatingStar>)
        ensures
            r == spec_parse_rating(s@),
    {
        if str_is(s, "OneStar") {
            Some(RatingStar::OneStar)
        } else if str_is(s, "TwoStars") {
            Some(RatingStar::TwoStars)
        } else if str_is(s, "ThreeStars") {
            Some(RatingStar::ThreeStars)
        } else if str_is(s, "FourStars") {
            Some(RatingStar::FourStars)
        } else if str_is(s, "FiveStars") {
            Some(RatingStar::FiveStars)
        } else {
            None
        }
    }

    pub fn label(&self) -> (r: String)
        ensures
            r@ == rating_label(*self),
    {
        match self {
            RatingStar::OneStar => String::from_str("OneStar"),
            RatingStar::TwoStars => String::from_str("TwoStars"),
            RatingStar::ThreeStars => String::from_str("ThreeStars"),
            RatingStar::FourStars => String::from_str("FourStars"),
            RatingStar::FiveStars => String::from_str("FiveStars"),
        }
    }
}

/// Every content type tag reads back as the type it was written from.
pub proof fn lemma_content_type_round_trip(t: ContentType)
    ensures
        spec_parse_content_type(content_type_tag(t)) == Some(t),
{
    reveal_strlit("series");
    reveal_strlit("movie_listing");
    assert("series"@.len() != "movie_listing"@.len());
}

/// Every rating label reads back as the star level it was written from.
pub proof fn lemma_rating_round_trip(r: RatingStar)
    ensures
        spec_parse_rating(rating_label(r)) == Some(r),
{
    reveal_strlit("OneStar");
    reveal_strlit("TwoStars");
    reveal_strlit("ThreeStars");
    reveal_strlit("FourStars");
    reveal_strlit("FiveStars");
    let l1 = "OneStar"@;
    let l2 = "TwoStars"@;
    let l3 = "ThreeStars"@;
    let l4 = "FourStars"@;
    let l5 = "FiveStars"@;
    assert(l1.len() == 7 && l2.len() == 8 && l3.len() == 10 && l4.len() == 9 && l5.len() == 9);
    assert(l4[1] != l5[1]);
    assert(l1 != l2 && l1 != l3 && l1 != l4 && l1 != l5 && l2 != l3 && l2 != l4 && l2 != l5);
    assert(l3 != l4 && l3 != l5 && l4 != l5);
}

} // verus!
