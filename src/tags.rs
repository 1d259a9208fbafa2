//! Turning a probed audio file into a track. The tag to read is chosen by
//! an ordered list of strategies: the file's primary tag, else its first
//! tag, else an empty tag where the format supports tags at all.

use vstd::prelude::*;

use lofty::file::{AudioFile, FileType, TaggedFile, TaggedFileExt};
use lofty::tag::{ItemKey, Tag, TagType};

use crate::track::{opt_view, TagKey, Track, TrackView};

verus! {

#[verifier::external_type_specification]
#[verifier::external_body]
pub struct ExTaggedFile(TaggedFile);

#[verifier::external_type_specification]
#[verifier::external_body]
pub struct ExTag(Tag);

#[verifier::external_type_specification]
#[verifier::external_body]
pub struct ExTagType(TagType);

/// Relies on `FileType::primary_tag_type`: the preferred tag type of the
/// file's format. A custom file type, whose answer would come from a
/// resolver that this library never registers (lofty panics on an
/// unregistered one), has none.
#[verifier::external_body]
fn primary_tag_type(f: &TaggedFile) -> Option<TagType> {
    match f.file_type() {
        FileType::Custom(_) => None,
        ty => Some(ty.primary_tag_type()),
    }
}

/// Relies on `FileType::supports_tag_type`: whether the file's format can
/// hold a tag of type `t`. A custom file type, whose answer would come from
/// a resolver that this library never registers (lofty panics on an
/// unregistered one), supports none.
#[verifier::external_body]
fn supports_tag_type(f: &TaggedFile, t: TagType) -> bool {
    match f.file_type() {
        FileType::Custom(_) => false,
        ty => ty.supports_tag_type(t),
    }
}

/// Relies on `TaggedFileExt::tag`: the file's tag of type `t`, if it has one.
#[verifier::external_body]
fn tag_of_type(f: &TaggedFile, t: TagType) -> Option<&Tag> {
    f.tag(t)
}

/// Relies on `TaggedFileExt::first_tag`: the first tag the file has, if any.
#[verifier::external_body]
fn first_tag(f: &TaggedFile) -> Option<&Tag> {
    f.first_tag()
}

/// Relies on `AudioFile::properties` and `FileProperties::duration`: the
/// length of the audio stream, in whole seconds.
#[verifier::external_body]
fn duration_seconds(f: &TaggedFile) -> u64 {
    f.properties().duration().as_secs()
}

/// Relies on `Tag::get_string`: the text item stored under `key`, if the
/// tag holds one.
#[verifier::external_body]
fn tag_text(tag: &Tag, key: TagKey) -> Option<String> {
    let item = match key {
        TagKey::TrackTitle => ItemKey::TrackTitle,
        TagKey::TrackArtist => ItemKey::TrackArtist,
        TagKey::AlbumTitle => ItemKey::AlbumTitle,
        TagKey::Year => ItemKey::Year,
        TagKey::Genre => ItemKey::Genre,
        TagKey::Lyrics => ItemKey::Lyrics,
    };
    tag.get_string(&item).map(String::from)
}

/// Where a track's metadata is read from.
#[derive(Clone, Copy, Debug, PartialEq, Eq, Structural)]
pub enum TagSource {
    /// The tag of the format's primary type.
    Primary,
    /// The first tag the file has.
    First,
    /// No tag: every tag field is missing.
    Empty,
}

/// Why a file could not be made into a track.
#[derive(Clone, Copy, Debug, PartialEq, Eq, Structural)]
pub enum ExtractionError {
    /// The file could not be opened or probed.
    Unreadable,
    /// The file has no tag and its format supports none.
    NoTags,
}

/// The first strategy that applies: the primary tag, else the first tag,
/// else an empty tag where the format supports tags.
pub open spec fn tag_source(has_primary: bool, has_first: bool, supports_tags: bool) -> Option<
    TagSource,
> {
    if has_primary {
        Some(TagSource::Primary)
    } else if has_first {
        Some(TagSource::First)
    } else if supports_tags {
        Some(TagSource::Empty)
    } else {
        None
    }
}

/// Picks where to read a track's metadata from: the primary tag if the file
/// has one, else its first tag, else an empty tag if the format supports
/// tags; `None` when none of these applies.
pub fn choose_tag_source(has_primary: bool, has_first: bool, supports_tags: bool) -> (r: Option<
    TagSource,
>)
    ensures
        r == tag_source(has_primary, has_first, supports_tags),
{
    if has_primary {
        Some(TagSource::Primary)
    } else if has_first {
        Some(TagSource::First)
    } else if supports_tags {
        Some(TagSource::Empty)
    } else {
        None
    }
}

/// The text items a tag provides for a track.
pub struct TagFields {
    pub title: Option<String>,
    pub artist: Option<String>,
    pub album: Option<String>,
    pub year: Option<String>,
    pub genre: Option<String>,
    pub lyrics: Option<String>,
}

/// The item `key` of a tag's fields.
pub open spec fn field_for_key(f: TagFields, key: TagKey) -> Option<Seq<char>> {
    match key {
        TagKey::TrackTitle => opt_view(f.title),
        TagKey::TrackArtist => opt_view(f.artist),
        TagKey::AlbumTitle => opt_view(f.album),
        TagKey::Year => opt_view(f.year),
        TagKey::Genre => opt_view(f.genre),
        TagKey::Lyrics => opt_view(f.lyrics),
    }
}

impl TagFields {
    /// The fields of an empty tag: all missing.
    pub fn empty() -> (r: TagFields)
        ensures
            r.title is None,
            r.artist is None,
            r.album is None,
            r.year is None,
            r.genre is None,
            r.lyrics is None,
    {
        TagFields { title: None, artist: None, album: None, year: None, genre: None, lyrics: None }
    }
}

/// What the library reads from a probed audio file, as plain values: the
/// fields of its primary tag and of its first tag where it has them,
/// whether its format supports tags, and the stream's length in seconds.
pub struct ProbedFile {
    pub primary: Option<TagFields>,
    pub first: Option<TagFields>,
    pub supports_tags: bool,
    pub duration: u64,
}

fn fields_of_tag(tag: &Tag) -> TagFields {
    TagFields {
        title: tag_text(tag, TagKey::TrackTitle),
        artist: tag_text(tag, TagKey::TrackArtist),
        album: tag_text(tag, TagKey::AlbumTitle),
        year: tag_text(tag, TagKey::Year),
        genre: tag_text(tag, TagKey::Genre),
        lyrics: tag_text(tag, TagKey::Lyrics),
    }
}

impl ProbedFile {
    /// Reads what the library needs from a probed file: the tag of its
    /// format's primary type, its first tag, whether its format supports
    /// its primary tag type, and its duration.
    pub fn from_tagged(file: &TaggedFile) -> (r: ProbedFile) {
        let kind = primary_tag_type(file);
        let (primary, supports_tags) = match kind {
            Some(t) => {
                let supports = supports_tag_type(file, t);
                match tag_of_type(file, t) {
                    Some(tag) => (Some(fields_of_tag(tag)), supports),
                    None => (None, supports),
                }
            },
            None => (None, false),
        };
        let first = match first_tag(file) {
            Some(tag) => Some(fields_of_tag(tag)),
            None => None,
        };
        ProbedFile { primary, first, supports_tags, duration: duration_seconds(file) }
    }
}

/// The track with the given path, the fields of a tag and a duration.
pub open spec fn track_of_fields(path: Seq<char>, f: TagFields, duration: nat) -> TrackView {
    TrackView {
        path,
        title: opt_view(f.title),
        artist: opt_view(f.artist),
        album: opt_view(f.album),
        year: opt_view(f.year),
        genre: opt_view(f.genre),
        duration,
    }
}

/// What resolving a probed file gives: the track with the fields of the tag
/// that the first applicable strategy picks (none for the empty tag) and
/// the stream's duration, or `NoTags` when no strategy applies.
pub open spec fn resolved(path: Seq<char>, file: ProbedFile) -> Result<TrackView, ExtractionError> {
    match tag_source(file.primary is Some, file.first is Some, file.supports_tags) {
        Some(TagSource::Primary) => Ok(
            track_of_fields(path, file.primary->0, file.duration as nat),
        ),
        Some(TagSource::First) => Ok(track_of_fields(path, file.first->0, file.duration as nat)),
        Some(TagSource::Empty) => Ok(
            TrackView {
                path,
                title: None,
                artist: None,
                album: None,
                year: None,
                genre: None,
                duration: file.duration as nat,
            },
        ),
        None => Err(ExtractionError::NoTags),
    }
}

fn copy_text(o: &Option<String>) -> (r: Option<String>)
    ensures
        opt_view(r) == opt_view(*o),
{
    match o {
        Some(s) => Some(s.clone()),
        None => None,
    }
}

/// The track at `path` with the given tag fields and duration.
pub fn track_from_fields(path: String, fields: &TagFields, duration: u64) -> (r: Track)
    ensures
        r@ == track_of_fields(path@, *fields, duration as nat),
{
    Track {
        path,
        title: copy_text(&fields.title),
        artist: copy_text(&fields.artist),
        album: copy_text(&fields.album),
        year: copy_text(&fields.year),
        genre: copy_text(&fields.genre),
        duration,
    }
}

/// Makes the track at `path` from its probed file: metadata from the tag
/// that `choose_tag_source` picks (every field missing for the empty tag),
/// duration from the audio stream. Fails with `NoTags` exactly when the
/// file has no tag and its format supports none.
pub fn resolve_track(path: String, file: &ProbedFile) -> (r: Result<Track, ExtractionError>)
    ensures
        match r {
            Ok(t) => resolved(path@, *file) == Ok::<TrackView, ExtractionError>(t@),
            Err(e) => resolved(path@, *file) == Err::<TrackView, ExtractionError>(e),
        },
{
    match choose_tag_source(file.primary.is_some(), file.first.is_some(), file.supports_tags) {
        Some(TagSource::Primary) => match &file.primary {
            Some(f) => Ok(track_from_fields(path, f, file.duration)),
            None => Err(ExtractionError::NoTags),
        },
        Some(TagSource::First) => match &file.first {
            Some(f) => Ok(track_from_fields(path, f, file.duration)),
            None => Err(ExtractionError::NoTags),
        },
        Some(TagSource::Empty) => Ok(
            Track {
                path,
                title: None,
                artist: None,
                album: None,
                year: None,
                genre: None,
                duration: file.duration,
            },
        ),
        None => Err(ExtractionError::NoTags),
    }
}

/// The item `key` as looked up in a probed file: in its primary tag if it
/// has one, else in its first tag, else missing.
pub open spec fn item_of(file: ProbedFile, key: TagKey) -> Option<Seq<char>> {
    match file.primary {
        Some(f) => field_for_key(f, key),
        None => match file.first {
            Some(f) => field_for_key(f, key),
            None => None,
        },
    }
}

fn field_text(f: &TagFields, key: TagKey) -> (r: Option<String>)
    ensures
        opt_view(r) == field_for_key(*f, key),
{
    match key {
        TagKey::TrackTitle => copy_text(&f.title),
        TagKey::TrackArtist => copy_text(&f.artist),
        TagKey::AlbumTitle => copy_text(&f.album),
        TagKey::Year => copy_text(&f.year),
        TagKey::Genre => copy_text(&f.genre),
        TagKey::Lyrics => copy_text(&f.lyrics),
    }
}

/// The text item `key` of a probed file, read from its primary tag, else
/// from its first tag; `None` where neither tag exists or the tag read
/// holds no such item.
pub fn tag_string(file: &ProbedFile, key: TagKey) -> (r: Option<String>)
    ensures
        opt_view(r) == item_of(*file, key),
{
    match &file.primary {
        Some(f) => field_text(f, key),
        None => match &file.first {
            Some(f) => field_text(f, key),
            None => None,
        },
    }
}

} // verus!
