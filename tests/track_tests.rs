use std::cmp::Ordering;

use minim::text::{compare_text, decimal_text, format_duration, parse_decimal};
use minim::track::{CachedField, TagKey, Track};

fn track(path: &str, title: Option<&str>, artist: Option<&str>, duration: u64) -> Track {
    Track::new(
        path.to_string(),
        title.map(String::from),
        artist.map(String::from),
        None,
        None,
        None,
        duration,
    )
}

#[test]
fn identity_same_path_differing_metadata() {
    let a = track("/music/a.mp3", Some("One"), Some("X"), 10);
    let b = track("/music/a.mp3", Some("Two"), None, 99);
    assert!(a == b);
}

#[test]
fn identity_different_path_same_metadata() {
    let a = track("/music/a.mp3", Some("One"), Some("X"), 10);
    let b = track("/music/b.mp3", Some("One"), Some("X"), 10);
    assert!(a != b);
}

#[test]
fn duration_formatting_examples() {
    assert_eq!(format_duration(125), "2:05");
    assert_eq!(format_duration(59), "0:59");
    assert_eq!(format_duration(0), "0:00");
}

#[test]
fn duration_formatting_long() {
    assert_eq!(format_duration(3600), "60:00");
    assert_eq!(format_duration(61), "1:01");
    assert_eq!(format_duration(u64::MAX), "307445734561825860:15");
}

#[test]
fn decimal_text_values() {
    assert_eq!(decimal_text(0), "0");
    assert_eq!(decimal_text(7), "7");
    assert_eq!(decimal_text(1234567890), "1234567890");
    assert_eq!(decimal_text(u64::MAX), "18446744073709551615");
}

#[test]
fn parse_decimal_values() {
    assert_eq!(parse_decimal("0"), Some(0));
    assert_eq!(parse_decimal("125"), Some(125));
    assert_eq!(parse_decimal("007"), Some(7));
    assert_eq!(parse_decimal("18446744073709551615"), Some(u64::MAX));
    assert_eq!(parse_decimal("18446744073709551616"), None);
    assert_eq!(parse_decimal(""), None);
    assert_eq!(parse_decimal("12a"), None);
    assert_eq!(parse_decimal("-1"), None);
    assert_eq!(parse_decimal(" 1"), None);
}

#[test]
fn compare_text_orders_by_code_point() {
    assert_eq!(compare_text("abc", "abd"), Ordering::Less);
    assert_eq!(compare_text("abd", "abc"), Ordering::Greater);
    assert_eq!(compare_text("ab", "abc"), Ordering::Less);
    assert_eq!(compare_text("", ""), Ordering::Equal);
    assert_eq!(compare_text("B", "a"), Ordering::Less);
    assert_eq!(compare_text("é", "z"), Ordering::Greater);
}

#[test]
fn title_sort_ignores_case() {
    let a = track("/m/1.mp3", Some("abba"), None, 300);
    let b = track("/m/2.mp3", Some("ABBA"), None, 10);
    assert_eq!(a.compare_by(&b, CachedField::Title), Ordering::Equal);
    assert_eq!(b.compare_by(&a, CachedField::Title), Ordering::Equal);
    let c = track("/m/3.mp3", Some("Beatles"), None, 10);
    assert_eq!(a.compare_by(&c, CachedField::Title), Ordering::Less);
    assert_eq!(c.compare_by(&b, CachedField::Title), Ordering::Greater);
}

#[test]
fn artist_sort_ignores_case_and_missing_is_empty() {
    let a = track("/m/1.mp3", None, Some("Zed"), 1);
    let b = track("/m/2.mp3", None, Some("alpha"), 1);
    let c = track("/m/3.mp3", None, None, 1);
    assert_eq!(b.compare_by(&a, CachedField::Artist), Ordering::Less);
    assert_eq!(c.compare_by(&b, CachedField::Artist), Ordering::Less);
}

#[test]
fn duration_sort_is_numeric() {
    let a = track("/m/1.mp3", Some("zzz"), None, 9);
    let b = track("/m/2.mp3", Some("aaa"), None, 100);
    assert_eq!(a.compare_by(&b, CachedField::Duration), Ordering::Less);
    assert_eq!(b.compare_by(&a, CachedField::Duration), Ordering::Greater);
    let c = track("/m/3.mp3", Some("mmm"), Some("q"), 9);
    assert_eq!(a.compare_by(&c, CachedField::Duration), Ordering::Equal);
}

#[test]
fn other_columns_do_not_sort() {
    let a = track("/m/1.mp3", Some("a"), None, 1);
    let b = track("/m/2.mp3", Some("b"), None, 2);
    assert_eq!(a.compare_by(&b, CachedField::Album), Ordering::Equal);
    assert_eq!(a.compare_by(&b, CachedField::Genre), Ordering::Equal);
    assert_eq!(a.compare_by(&b, CachedField::Year), Ordering::Equal);
}

#[test]
fn display_title_falls_back_to_base_name() {
    let t = track("/music/album/song.flac", None, None, 0);
    assert_eq!(t.display_title(), "song.flac");
    assert_eq!(t.cached_field_string(CachedField::Title), "song.flac");
    let u = track("/music/album/song.flac", Some("Real Title"), None, 0);
    assert_eq!(u.display_title(), "Real Title");
    let v = track("/", None, None, 0);
    assert_eq!(v.display_title(), "");
}

#[test]
fn cached_field_strings() {
    let t = Track::new(
        "/m/x.ogg".to_string(),
        Some("T".to_string()),
        Some("Ar".to_string()),
        Some("Al".to_string()),
        Some("1999".to_string()),
        Some("Rock".to_string()),
        125,
    );
    assert_eq!(t.cached_field_string(CachedField::Artist), "Ar");
    assert_eq!(t.cached_field_string(CachedField::Album), "Al");
    assert_eq!(t.cached_field_string(CachedField::Year), "1999");
    assert_eq!(t.cached_field_string(CachedField::Genre), "Rock");
    assert_eq!(t.cached_field_string(CachedField::Duration), "2:05");
    let e = track("/m/y.ogg", None, None, 0);
    assert_eq!(e.cached_field_string(CachedField::Artist), "");
    assert_eq!(e.cached_field_string(CachedField::Album), "");
}

#[test]
fn tag_key_conversions() {
    assert_eq!(CachedField::from_tag_key(TagKey::TrackTitle), Some(CachedField::Title));
    assert_eq!(CachedField::from_tag_key(TagKey::Genre), Some(CachedField::Genre));
    assert_eq!(CachedField::from_tag_key(TagKey::Lyrics), None);
    assert_eq!(CachedField::Album.tag_key(), Some(TagKey::AlbumTitle));
    assert_eq!(CachedField::Year.tag_key(), Some(TagKey::Year));
    assert_eq!(CachedField::Duration.tag_key(), None);
}

#[test]
fn identity_hash_follows_path() {
    let mut set = std::collections::HashSet::new();
    set.insert(track("/music/a.mp3", Some("One"), None, 1));
    set.insert(track("/music/a.mp3", Some("Other"), Some("Y"), 2));
    set.insert(track("/music/b.mp3", Some("One"), None, 1));
    assert_eq!(set.len(), 2);
}
