use crunchyroll_migrate::models::{ContentType, RatingStar, Timestamp};
use crunchyroll_migrate::profiles::{
    eq_ignore_ascii_case, match_profile, profile_menu_label, profile_status_suffix, profile_username,
    username_from_lowercase, ProfileError,
    ProfileInfo,
};

#[test]
fn content_type_tags_read_back() {
    assert_eq!(ContentType::parse("series"), Some(ContentType::Series));
    assert_eq!(ContentType::parse("movie_listing"), Some(ContentType::MovieListing));
    assert_eq!(ContentType::parse("episode"), None);
    assert_eq!(ContentType::parse("Series"), None);
    assert_eq!(ContentType::MovieListing.tag(), "movie_listing");
}

#[test]
fn rating_labels_read_back() {
    for star in [RatingStar::OneStar, RatingStar::TwoStars, RatingStar::ThreeStars, RatingStar::FourStars, RatingStar::FiveStars] {
        assert_eq!(RatingStar::parse(&star.label()), Some(star));
    }
    assert_eq!(RatingStar::FourStars.label(), "FourStars");
    assert_eq!(RatingStar::parse("SixStars"), None);
    assert_eq!(RatingStar::parse(""), None);
}

#[test]
fn timestamps_order_chronologically() {
    let a = Timestamp { secs: 10, nanos: 5 };
    let b = Timestamp { secs: 10, nanos: 6 };
    let c = Timestamp { secs: 11, nanos: 0 };
    assert!(a.le(&b) && b.le(&c) && a.le(&a));
    assert!(!c.le(&a));
}

fn profile(name: &str, primary: bool) -> ProfileInfo {
    ProfileInfo { profile_name: name.to_string(), is_primary: primary, is_selected: false }
}

#[test]
fn profiles_match_ignoring_case() {
    let ps = vec![profile("Sean", true), profile("Kids", false)];
    assert_eq!(match_profile(&ps, "kids"), Ok(1));
    assert_eq!(match_profile(&ps, "SEAN"), Ok(0));
    assert_eq!(match_profile(&ps, "Guest"), Err(ProfileError::NotFound));
    assert_eq!(match_profile(&vec![], "Sean"), Err(ProfileError::NoProfiles));
    assert!(eq_ignore_ascii_case("AbC", "aBc"));
    assert!(!eq_ignore_ascii_case("abc", "abcd"));
    assert_eq!(profile_menu_label(&ps[0]), "Sean (primary)");
    assert_eq!(profile_menu_label(&ps[1]), "Kids");
}

#[test]
fn usernames_from_profile_names() {
    assert_eq!(profile_username("Movie Night"), "movie_night");
    assert_eq!(profile_username("Kids"), "kids");
    assert_eq!(username_from_lowercase("a b  c"), "a_b__c");
    assert_eq!(profile_username(""), "");
}

#[test]
fn status_suffix_lists_flags() {
    let mut p = profile("Sean", true);
    assert_eq!(profile_status_suffix(&p), " (primary)");
    p.is_selected = true;
    assert_eq!(profile_status_suffix(&p), " (primary, selected)");
    p.is_primary = false;
    assert_eq!(profile_status_suffix(&p), " (selected)");
    p.is_selected = false;
    assert_eq!(profile_status_suffix(&p), "");
}
