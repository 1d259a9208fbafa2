use std::io::Cursor;

use lofty::file::TaggedFile;
use lofty::probe::Probe;
use minim::tags::{
    choose_tag_source, resolve_track, tag_string, track_from_fields, ExtractionError, ProbedFile, TagFields,
    TagSource,
};
use minim::track::TagKey;

fn chunk(id: &[u8; 4], body: &[u8]) -> Vec<u8> {
    let mut out = id.to_vec();
    out.extend_from_slice(&(body.len() as u32).to_le_bytes());
    out.extend_from_slice(body);
    if body.len() % 2 == 1 {
        out.push(0);
    }
    out
}

fn wav(title: Option<&str>, seconds: u32) -> Vec<u8> {
    let mut fmt = Vec::new();
    fmt.extend_from_slice(&1u16.to_le_bytes());
    fmt.extend_from_slice(&1u16.to_le_bytes());
    fmt.extend_from_slice(&8000u32.to_le_bytes());
    fmt.extend_from_slice(&16000u32.to_le_bytes());
    fmt.extend_from_slice(&2u16.to_le_bytes());
    fmt.extend_from_slice(&16u16.to_le_bytes());
    let mut body = b"WAVE".to_vec();
    body.extend(chunk(b"fmt ", &fmt));
    if let Some(title) = title {
        let mut text = title.as_bytes().to_vec();
        text.push(0);
        let mut info = b"INFO".to_vec();
        info.extend(chunk(b"INAM", &text));
        body.extend(chunk(b"LIST", &info));
    }
    body.extend(chunk(b"data", &vec![0u8; 16000 * seconds as usize]));
    chunk(b"RIFF", &body)
}

fn probe(bytes: Vec<u8>) -> ProbedFile {
    let file: TaggedFile = Probe::new(Cursor::new(bytes)).guess_file_type().unwrap().read().unwrap();
    ProbedFile::from_tagged(&file)
}

fn fields(title: &str, lyrics: Option<&str>) -> TagFields {
    let mut f = TagFields::empty();
    f.title = Some(title.to_string());
    f.lyrics = lyrics.map(String::from);
    f
}

fn model(primary: Option<TagFields>, first: Option<TagFields>, supports_tags: bool) -> ProbedFile {
    ProbedFile { primary, first, supports_tags, duration: 42 }
}

#[test]
fn tag_source_strategy_order() {
    assert_eq!(choose_tag_source(true, true, true), Some(TagSource::Primary));
    assert_eq!(choose_tag_source(true, false, false), Some(TagSource::Primary));
    assert_eq!(choose_tag_source(false, true, false), Some(TagSource::First));
    assert_eq!(choose_tag_source(false, false, true), Some(TagSource::Empty));
    assert_eq!(choose_tag_source(false, false, false), None);
}

#[test]
fn untagged_file_gets_an_empty_tag() {
    let f = probe(wav(None, 2));
    assert!(f.primary.is_none());
    assert!(f.first.is_none());
    assert!(f.supports_tags);
    let t = resolve_track("/m/plain.wav".to_string(), &f).unwrap();
    assert_eq!(t.path, "/m/plain.wav");
    assert_eq!(t.title, None);
    assert_eq!(t.artist, None);
    assert_eq!(t.duration, 2);
    assert_eq!(t.display_title(), "plain.wav");
    assert_eq!(tag_string(&f, TagKey::Lyrics), None);
}

#[test]
fn first_tag_is_used_without_primary() {
    let f = probe(wav(Some("Hello"), 1));
    assert!(f.primary.is_none());
    assert!(f.first.is_some());
    let t = resolve_track("/m/hello.wav".to_string(), &f).unwrap();
    assert_eq!(t.title, Some("Hello".to_string()));
    assert_eq!(t.duration, 1);
    assert_eq!(tag_string(&f, TagKey::TrackTitle), Some("Hello".to_string()));
}

#[test]
fn fields_make_a_track() {
    let mut fields = TagFields::empty();
    fields.genre = Some("Pop".to_string());
    let t = track_from_fields("/p".to_string(), &fields, 77);
    assert_eq!(t.genre, Some("Pop".to_string()));
    assert_eq!(t.title, None);
    assert_eq!(t.duration, 77);
}

#[test]
fn primary_tag_wins_over_first() {
    let f = model(Some(fields("Primary", None)), Some(fields("First", None)), true);
    let t = resolve_track("/a".to_string(), &f).unwrap();
    assert_eq!(t.title, Some("Primary".to_string()));
    assert_eq!(t.duration, 42);
    let g = model(None, Some(fields("First", None)), false);
    assert_eq!(resolve_track("/a".to_string(), &g).unwrap().title, Some("First".to_string()));
}

#[test]
fn no_tag_and_no_support_fails() {
    let f = model(None, None, false);
    assert_eq!(resolve_track("/a".to_string(), &f).unwrap_err(), ExtractionError::NoTags);
    let g = model(None, None, true);
    let t = resolve_track("/a".to_string(), &g).unwrap();
    assert_eq!(t.title, None);
    assert_eq!(t.duration, 42);
}

#[test]
fn tag_string_looks_in_primary_then_first() {
    let f = model(Some(fields("P", None)), Some(fields("F", Some("la la"))), true);
    assert_eq!(tag_string(&f, TagKey::TrackTitle), Some("P".to_string()));
    assert_eq!(tag_string(&f, TagKey::Lyrics), None);
    let g = model(None, Some(fields("F", Some("la la"))), true);
    assert_eq!(tag_string(&g, TagKey::Lyrics), Some("la la".to_string()));
    assert_eq!(tag_string(&model(None, None, true), TagKey::TrackTitle), None);
}
